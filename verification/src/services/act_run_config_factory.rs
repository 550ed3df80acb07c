//! Builds a run configuration from plain settings.
use vstd::prelude::*;

use crate::value_objects::act_event::ActEvent;
use crate::value_objects::act_input::ActInput;
use crate::value_objects::act_job::ActJob;
use crate::value_objects::act_run_config::{ActRunConfig, ActRunConfigParts};
use crate::value_objects::act_workflow::ActWorkflow;
use crate::value_objects::secret::Secret;

verus! {

/// The settings of a run, as plain texts and flags.
#[derive(Debug, Clone, PartialEq, Eq)]
pub struct ActRunConfigInput {
    workflow: Option<String>,
    job: Option<String>,
    event: Option<String>,
    inputs: Vec<(String, String)>,
    secrets: Vec<(String, String)>,
    all_workflows: bool,
    allow_repo_writes: bool,
    allow_real_container: bool,
    allow_real_fetcher: bool,
    allow_network: bool,
    run_id: String,
}

impl ActRunConfigInput {
    pub closed spec fn workflow_view(&self) -> Option<String> {
        self.workflow
    }

    pub closed spec fn job_view(&self) -> Option<String> {
        self.job
    }

    pub closed spec fn event_view(&self) -> Option<String> {
        self.event
    }

    pub closed spec fn inputs_view(&self) -> Seq<(String, String)> {
        self.inputs@
    }

    pub closed spec fn secrets_view(&self) -> Seq<(String, String)> {
        self.secrets@
    }

    pub closed spec fn all_workflows_view(&self) -> bool {
        self.all_workflows
    }

    pub closed spec fn allow_repo_writes_view(&self) -> bool {
        self.allow_repo_writes
    }

    pub closed spec fn allow_real_container_view(&self) -> bool {
        self.allow_real_container
    }

    pub closed spec fn allow_real_fetcher_view(&self) -> bool {
        self.allow_real_fetcher
    }

    pub closed spec fn allow_network_view(&self) -> bool {
        self.allow_network
    }

    pub closed spec fn run_id_view(&self) -> Seq<char> {
        self.run_id@
    }

    /// Settings with nothing set: no workflow, job or event, no inputs or
    /// secrets, every flag off, an empty run id.
    pub fn new() -> (r: Self)
        ensures
            r.workflow_view() is None,
            r.job_view() is None,
            r.event_view() is None,
            r.inputs_view().len() == 0,
            r.secrets_view().len() == 0,
            !r.all_workflows_view(),
            !r.allow_repo_writes_view(),
            !r.allow_real_container_view(),
            !r.allow_real_fetcher_view(),
            !r.allow_network_view(),
            r.run_id_view().len() == 0,
    {
        ActRunConfigInput {
            workflow: None,
            job: None,
            event: None,
            inputs: Vec::new(),
            secrets: Vec::new(),
            all_workflows: false,
            allow_repo_writes: false,
            allow_real_container: false,
            allow_real_fetcher: false,
            allow_network: false,
            run_id: String::new(),
        }
    }

    /// Sets the workflow.
    pub fn with_workflow(self, workflow: Option<String>) -> (r: Self)
        ensures
            r.workflow_view() == workflow,
            r.job_view() == self.job_view(),
            r.event_view() == self.event_view(),
            r.inputs_view() == self.inputs_view(),
            r.secrets_view() == self.secrets_view(),
            r.all_workflows_view() == self.all_workflows_view(),
            r.allow_repo_writes_view() == self.allow_repo_writes_view(),
            r.allow_real_container_view() == self.allow_real_container_view(),
            r.allow_real_fetcher_view() == self.allow_real_fetcher_view(),
            r.allow_network_view() == self.allow_network_view(),
            r.run_id_view() == self.run_id_view(),
    {
        ActRunConfigInput { workflow, ..self }
    }

    /// Sets the job.
    pub fn with_job(self, job: Option<String>) -> (r: Self)
        ensures
            r.job_view() == job,
            r.workflow_view() == self.workflow_view(),
            r.event_view() == self.event_view(),
            r.inputs_view() == self.inputs_view(),
            r.secrets_view() == self.secrets_view(),
            r.all_workflows_view() == self.all_workflows_view(),
            r.allow_repo_writes_view() == self.allow_repo_writes_view(),
            r.allow_real_container_view() == self.allow_real_container_view(),
            r.allow_real_fetcher_view() == self.allow_real_fetcher_view(),
            r.allow_network_view() == self.allow_network_view(),
            r.run_id_view() == self.run_id_view(),
    {
        ActRunConfigInput { job, ..self }
    }

    /// Sets the event.
    pub fn with_event(self, event: Option<String>) -> (r: Self)
        ensures
            r.event_view() == event,
            r.workflow_view() == self.workflow_view(),
            r.job_view() == self.job_view(),
            r.inputs_view() == self.inputs_view(),
            r.secrets_view() == self.secrets_view(),
            r.all_workflows_view() == self.all_workflows_view(),
            r.allow_repo_writes_view() == self.allow_repo_writes_view(),
            r.allow_real_container_view() == self.allow_real_container_view(),
            r.allow_real_fetcher_view() == self.allow_real_fetcher_view(),
            r.allow_network_view() == self.allow_network_view(),
            r.run_id_view() == self.run_id_view(),
    {
        ActRunConfigInput { event, ..self }
    }

    /// Sets the inputs.
    pub fn with_inputs(self, inputs: Vec<(String, String)>) -> (r: Self)
        ensures
            r.inputs_view() == inputs@,
            r.workflow_view() == self.workflow_view(),
            r.job_view() == self.job_view(),
            r.event_view() == self.event_view(),
            r.secrets_view() == self.secrets_view(),
            r.all_workflows_view() == self.all_workflows_view(),
            r.allow_repo_writes_view() == self.allow_repo_writes_view(),
            r.allow_real_container_view() == self.allow_real_container_view(),
            r.allow_real_fetcher_view() == self.allow_real_fetcher_view(),
            r.allow_network_view() == self.allow_network_view(),
            r.run_id_view() == self.run_id_view(),
    {
        ActRunConfigInput { inputs, ..self }
    }

    /// Sets the secrets.
    pub fn with_secrets(self, secrets: Vec<(String, String)>) -> (r: Self)
        ensures
            r.secrets_view() == secrets@,
            r.workflow_view() == self.workflow_view(),
            r.job_view() == self.job_view(),
            r.event_view() == self.event_view(),
            r.inputs_view() == self.inputs_view(),
            r.all_workflows_view() == self.all_workflows_view(),
            r.allow_repo_writes_view() == self.allow_repo_writes_view(),
            r.allow_real_container_view() == self.allow_real_container_view(),
            r.allow_real_fetcher_view() == self.allow_real_fetcher_view(),
            r.allow_network_view() == self.allow_network_view(),
            r.run_id_view() == self.run_id_view(),
    {
        ActRunConfigInput { secrets, ..self }
    }

    /// Sets the all workflows.
    pub fn with_all_workflows(self, all_workflows: bool) -> (r: Self)
        ensures
            r.all_workflows_view() == all_workflows,
            r.workflow_view() == self.workflow_view(),
            r.job_view() == self.job_view(),
            r.event_view() == self.event_view(),
            r.inputs_view() == self.inputs_view(),
            r.secrets_view() == self.secrets_view(),
            r.allow_repo_writes_view() == self.allow_repo_writes_view(),
            r.allow_real_container_view() == self.allow_real_container_view(),
            r.allow_real_fetcher_view() == self.allow_real_fetcher_view(),
            r.allow_network_view() == self.allow_network_view(),
            r.run_id_view() == self.run_id_view(),
    {
        ActRunConfigInput { all_workflows, ..self }
    }

    /// Sets the allow repo writes.
    pub fn with_allow_repo_writes(self, allow_repo_writes: bool) -> (r: Self)
        ensures
            r.allow_repo_writes_view() == allow_repo_writes,
            r.workflow_view() == self.workflow_view(),
            r.job_view() == self.job_view(),
            r.event_view() == self.event_view(),
            r.inputs_view() == self.inputs_view(),
            r.secrets_view() == self.secrets_view(),
            r.all_workflows_view() == self.all_workflows_view(),
            r.allow_real_container_view() == self.allow_real_container_view(),
            r.allow_real_fetcher_view() == self.allow_real_fetcher_view(),
            r.allow_network_view() == self.allow_network_view(),
            r.run_id_view() == self.run_id_view(),
    {
        ActRunConfigInput { allow_repo_writes, ..self }
    }

    /// Sets the allow real container.
    pub fn with_allow_real_container(self, allow_real_container: bool) -> (r: Self)
        ensures
            r.allow_real_container_view() == allow_real_container,
            r.workflow_view() == self.workflow_view(),
            r.job_view() == self.job_view(),
            r.event_view() == self.event_view(),
            r.inputs_view() == self.inputs_view(),
            r.secrets_view() == self.secrets_view(),
            r.all_workflows_view() == self.all_workflows_view(),
            r.allow_repo_writes_view() == self.allow_repo_writes_view(),
            r.allow_real_fetcher_view() == self.allow_real_fetcher_view(),
            r.allow_network_view() == self.allow_network_view(),
            r.run_id_view() == self.run_id_view(),
    {
        ActRunConfigInput { allow_real_container, ..self }
    }

    /// Sets the allow real fetcher.
    pub fn with_allow_real_fetcher(self, allow_real_fetcher: bool) -> (r: Self)
        ensures
            r.allow_real_fetcher_view() == allow_real_fetcher,
            r.workflow_view() == self.workflow_view(),
            r.job_view() == self.job_view(),
            r.event_view() == self.event_view(),
            r.inputs_view() == self.inputs_view(),
            r.secrets_view() == self.secrets_view(),
            r.all_workflows_view() == self.all_workflows_view(),
            r.allow_repo_writes_view() == self.allow_repo_writes_view(),
            r.allow_real_container_view() == self.allow_real_container_view(),
            r.allow_network_view() == self.allow_network_view(),
            r.run_id_view() == self.run_id_view(),
    {
        ActRunConfigInput { allow_real_fetcher, ..self }
    }

    /// Sets the allow network.
    pub fn with_allow_network(self, allow_network: bool) -> (r: Self)
        ensures
            r.allow_network_view() == allow_network,
            r.workflow_view() == self.workflow_view(),
            r.job_view() == self.job_view(),
            r.event_view() == self.event_view(),
            r.inputs_view() == self.inputs_view(),
            r.secrets_view() == self.secrets_view(),
            r.all_workflows_view() == self.all_workflows_view(),
            r.allow_repo_writes_view() == self.allow_repo_writes_view(),
            r.allow_real_container_view() == self.allow_real_container_view(),
            r.allow_real_fetcher_view() == self.allow_real_fetcher_view(),
            r.run_id_view() == self.run_id_view(),
    {
        ActRunConfigInput { allow_network, ..self }
    }

    /// Sets the run id.
    pub fn with_run_id(self, run_id: String) -> (r: Self)
        ensures
            r.run_id_view() == run_id@,
            r.workflow_view() == self.workflow_view(),
            r.job_view() == self.job_view(),
            r.event_view() == self.event_view(),
            r.inputs_view() == self.inputs_view(),
            r.secrets_view() == self.secrets_view(),
            r.all_workflows_view() == self.all_workflows_view(),
            r.allow_repo_writes_view() == self.allow_repo_writes_view(),
            r.allow_real_container_view() == self.allow_real_container_view(),
            r.allow_real_fetcher_view() == self.allow_real_fetcher_view(),
            r.allow_network_view() == self.allow_network_view(),
    {
        ActRunConfigInput { run_id, ..self }
    }
}

/// An optional text, wrapped.
pub open spec fn wrapped_text<T>(o: Option<String>, w: Option<T>, text_of: spec_fn(T) -> Seq<char>) -> bool {
    match (o, w) {
        (Some(s), Some(x)) => text_of(x) == s@,
        (None, None) => true,
        _ => false,
    }
}

/// Builds run configurations.
pub struct ActRunConfigFactory;

impl ActRunConfigFactory {
    /// The configuration that the settings describe: the workflow, job and
    /// event wrapped, each input and secret pair turned into its value, in
    /// order, and the flags and run id as given.
    pub fn create(input: ActRunConfigInput) -> (r: ActRunConfig)
        ensures
            wrapped_text(input.workflow_view(), r.workflow_view(), |w: ActWorkflow| w.view_text()),
            wrapped_text(input.job_view(), r.job_view(), |j: ActJob| j.view_text()),
            wrapped_text(input.event_view(), r.event_view(), |e: ActEvent| e.view_text()),
            r.inputs_view().len() == input.inputs_view().len(),
            forall|i: int| 0 <= i < input.inputs_view().len() ==> {
                &&& (#[trigger] r.inputs_view()[i]).key_view() == input.inputs_view()[i].0@
                &&& r.inputs_view()[i].value_view() == input.inputs_view()[i].1@
            },
            r.secrets_view().len() == input.secrets_view().len(),
            forall|i: int| 0 <= i < input.secrets_view().len() ==> {
                &&& (#[trigger] r.secrets_view()[i]).name_view() == input.secrets_view()[i].0@
                &&& r.secrets_view()[i].value_view() == input.secrets_view()[i].1@
            },
            r.all_workflows_view() == input.all_workflows_view(),
            r.allow_repo_writes_view() == input.allow_repo_writes_view(),
            r.allow_real_container_view() == input.allow_real_container_view(),
            r.allow_real_fetcher_view() == input.allow_real_fetcher_view(),
            r.allow_network_view() == input.allow_network_view(),
            r.run_id_view() == input.run_id_view(),
    {
        let ActRunConfigInput {
            workflow, job, event, inputs, secrets, all_workflows, allow_repo_writes, allow_real_container,
            allow_real_fetcher, allow_network, run_id,
        } = input;
        let workflow = match workflow {
            Some(w) => Some(ActWorkflow::new(w)),
            None => None,
        };
        let job = match job {
            Some(j) => Some(ActJob::new(j)),
            None => None,
        };
        let event = match event {
            Some(e) => Some(ActEvent::new(e)),
            None => None,
        };
        let mut act_inputs: Vec<ActInput> = Vec::new();
        let mut i: usize = 0;
        while i < inputs.len()
            invariant
                i <= inputs@.len(),
                act_inputs@.len() == i,
                forall|k: int| 0 <= k < i ==> {
                    &&& (#[trigger] act_inputs@[k]).key_view() == inputs@[k].0@
                    &&& act_inputs@[k].value_view() == inputs@[k].1@
                },
            decreases inputs@.len() - i,
        {
            let (key, value) = (inputs[i].0.clone(), inputs[i].1.clone());
            act_inputs.push(ActInput::new(key, value));
            i = i + 1;
        }
        let mut act_secrets: Vec<Secret> = Vec::new();
        let mut i: usize = 0;
        while i < secrets.len()
            invariant
                i <= secrets@.len(),
                act_secrets@.len() == i,
                forall|k: int| 0 <= k < i ==> {
                    &&& (#[trigger] act_secrets@[k]).name_view() == secrets@[k].0@
                    &&& act_secrets@[k].value_view() == secrets@[k].1@
                },
            decreases secrets@.len() - i,
        {
            let (name, value) = (secrets[i].0.clone(), secrets[i].1.clone());
            act_secrets.push(Secret::new(name, value));
            i = i + 1;
        }
        ActRunConfig::from_parts(
            ActRunConfigParts::new()
                .with_workflow(workflow)
                .with_job(job)
                .with_event(event)
                .with_inputs(act_inputs)
                .with_secrets(act_secrets)
                .with_all_workflows(all_workflows)
                .with_allow_repo_writes(allow_repo_writes)
                .with_allow_real_container(allow_real_container)
                .with_allow_real_fetcher(allow_real_fetcher)
                .with_allow_network(allow_network)
                .with_run_id(run_id),
        )
    }
}

} // verus!
