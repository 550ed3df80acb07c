//! The configuration of one run: which workflow, job and event, the inputs
//! and secrets it gets, what it may touch, and its identifier.
use vstd::prelude::*;

use crate::value_objects::act_event::ActEvent;
use crate::value_objects::act_input::ActInput;
use crate::value_objects::act_job::ActJob;
use crate::value_objects::act_workflow::ActWorkflow;
use crate::value_objects::secret::Secret;

verus! {

/// A lowercase hexadecimal digit.
pub open spec fn is_lower_hex(c: char) -> bool {
    ('0' <= c && c <= '9') || ('a' <= c && c <= 'f')
}

/// The hyphenated lowercase text of a random (version 4, RFC 4122 variant)
/// UUID: `xxxxxxxx-xxxx-4xxx-Yxxx-xxxxxxxxxxxx` with `Y` one of `8`, `9`,
/// `a`, `b`.
pub open spec fn is_v4_uuid_text(s: Seq<char>) -> bool {
    &&& s.len() == 36
    &&& forall|i: int| 0 <= i < 36 ==> (#[trigger] s[i] == '-' <==> (i == 8 || i == 13 || i == 18 || i == 23))
    &&& forall|i: int| 0 <= i < 36 && i != 8 && i != 13 && i != 18 && i != 23 ==> is_lower_hex(#[trigger] s[i])
    &&& s[14] == '4'
    &&& (s[19] == '8' || s[19] == '9' || s[19] == 'a' || s[19] == 'b')
}

/// `Uuid::new_v4().to_string()`: a fresh random UUID as text. Which one
/// comes out is chance; its shape is what the `uuid` crate writes.
#[verifier::external_body]
fn new_run_id() -> (r: String)
    ensures
        is_v4_uuid_text(r@),
{
    uuid::Uuid::new_v4().to_string()
}

/// The configuration of one run.
#[derive(Debug, Clone, PartialEq, Eq)]
pub struct ActRunConfig {
    workflow: Option<ActWorkflow>,
    job: Option<ActJob>,
    event: Option<ActEvent>,
    inputs: Vec<ActInput>,
    secrets: Vec<Secret>,
    all_workflows: bool,
    allow_repo_writes: bool,
    allow_real_container: bool,
    allow_real_fetcher: bool,
    allow_network: bool,
    run_id: String,
}

/// The fields of a configuration, set one by one before it is built.
#[derive(Debug, Clone, PartialEq, Eq)]
pub struct ActRunConfigParts {
    workflow: Option<ActWorkflow>,
    job: Option<ActJob>,
    event: Option<ActEvent>,
    inputs: Vec<ActInput>,
    secrets: Vec<Secret>,
    all_workflows: bool,
    allow_repo_writes: bool,
    allow_real_container: bool,
    allow_real_fetcher: bool,
    allow_network: bool,
    run_id: String,
}

impl ActRunConfigParts {
    pub closed spec fn workflow_view(&self) -> Option<ActWorkflow> {
        self.workflow
    }

    pub closed spec fn job_view(&self) -> Option<ActJob> {
        self.job
    }

    pub closed spec fn event_view(&self) -> Option<ActEvent> {
        self.event
    }

    pub closed spec fn inputs_view(&self) -> Seq<ActInput> {
        self.inputs@
    }

    pub closed spec fn secrets_view(&self) -> Seq<Secret> {
        self.secrets@
    }

    pub closed spec fn all_workflows_view(&self) -> bool {
        self.all_workflows
    }

    pub closed spec fn allow_repo_writes_view(&self) -> bool {
        self.allow_repo_writes
    }

    pub closed spec fn allow_real_container_view(&self) -> bool {
        self.allow_real_container
    }

    pub closed spec fn allow_real_fetcher_view(&self) -> bool {
        self.allow_real_fetcher
    }

    pub closed spec fn allow_network_view(&self) -> bool {
        self.allow_network
    }

    pub closed spec fn run_id_view(&self) -> Seq<char> {
        self.run_id@
    }

    /// Parts with nothing set: no workflow, job or event, no inputs or
    /// secrets, every flag off, an empty run id.
    pub fn new() -> (r: Self)
        ensures
            r.workflow_view() is None,
            r.job_view() is None,
            r.event_view() is None,
            r.inputs_view().len() == 0,
            r.secrets_view().len() == 0,
            !r.all_workflows_view(),
            !r.allow_repo_writes_view(),
            !r.allow_real_container_view(),
            !r.allow_real_fetcher_view(),
            !r.allow_network_view(),
            r.run_id_view().len() == 0,
    {
        ActRunConfigParts {
            workflow: None,
            job: None,
            event: None,
            inputs: Vec::new(),
            secrets: Vec::new(),
            all_workflows: false,
            allow_repo_writes: false,
            allow_real_container: false,
            allow_real_fetcher: false,
            allow_network: false,
            run_id: String::new(),
        }
    }

    /// Sets the workflow.
    pub fn with_workflow(self, workflow: Option<ActWorkflow>) -> (r: Self)
        ensures
            r.workflow_view() == workflow,
            r.job_view() == self.job_view(),
            r.event_view() == self.event_view(),
            r.inputs_view() == self.inputs_view(),
            r.secrets_view() == self.secrets_view(),
            r.all_workflows_view() == self.all_workflows_view(),
            r.allow_repo_writes_view() == self.allow_repo_writes_view(),
            r.allow_real_container_view() == self.allow_real_container_view(),
            r.allow_real_fetcher_view() == self.allow_real_fetcher_view(),
            r.allow_network_view() == self.allow_network_view(),
            r.run_id_view() == self.run_id_view(),
    {
        ActRunConfigParts { workflow, ..self }
    }

    /// Sets the job.
    pub fn with_job(self, job: Option<ActJob>) -> (r: Self)
        ensures
            r.job_view() == job,
            r.workflow_view() == self.workflow_view(),
            r.event_view() == self.event_view(),
            r.inputs_view() == self.inputs_view(),
            r.secrets_view() == self.secrets_view(),
            r.all_workflows_view() == self.all_workflows_view(),
            r.allow_repo_writes_view() == self.allow_repo_writes_view(),
            r.allow_real_container_view() == self.allow_real_container_view(),
            r.allow_real_fetcher_view() == self.allow_real_fetcher_view(),
            r.allow_network_view() == self.allow_network_view(),
            r.run_id_view() == self.run_id_view(),
    {
        ActRunConfigParts { job, ..self }
    }

    /// Sets the event.
    pub fn with_event(self, event: Option<ActEvent>) -> (r: Self)
        ensures
            r.event_view() == event,
            r.workflow_view() == self.workflow_view(),
            r.job_view() == self.job_view(),
            r.inputs_view() == self.inputs_view(),
            r.secrets_view() == self.secrets_view(),
            r.all_workflows_view() == self.all_workflows_view(),
            r.allow_repo_writes_view() == self.allow_repo_writes_view(),
            r.allow_real_container_view() == self.allow_real_container_view(),
            r.allow_real_fetcher_view() == self.allow_real_fetcher_view(),
            r.allow_network_view() == self.allow_network_view(),
            r.run_id_view() == self.run_id_view(),
    {
        ActRunConfigParts { event, ..self }
    }

    /// Sets the inputs.
    pub fn with_inputs(self, inputs: Vec<ActInput>) -> (r: Self)
        ensures
            r.inputs_view() == inputs@,
            r.workflow_view() == self.workflow_view(),
            r.job_view() == self.job_view(),
            r.event_view() == self.event_view(),
            r.secrets_view() == self.secrets_view(),
            r.all_workflows_view() == self.all_workflows_view(),
            r.allow_repo_writes_view() == self.allow_repo_writes_view(),
            r.allow_real_container_view() == self.allow_real_container_view(),
            r.allow_real_fetcher_view() == self.allow_real_fetcher_view(),
            r.allow_network_view() == self.allow_network_view(),
            r.run_id_view() == self.run_id_view(),
    {
        ActRunConfigParts { inputs, ..self }
    }

    /// Sets the secrets.
    pub fn with_secrets(self, secrets: Vec<Secret>) -> (r: Self)
        ensures
            r.secrets_view() == secrets@,
            r.workflow_view() == self.workflow_view(),
            r.job_view() == self.job_view(),
            r.event_view() == self.event_view(),
            r.inputs_view() == self.inputs_view(),
            r.all_workflows_view() == self.all_workflows_view(),
            r.allow_repo_writes_view() == self.allow_repo_writes_view(),
            r.allow_real_container_view() == self.allow_real_container_view(),
            r.allow_real_fetcher_view() == self.allow_real_fetcher_view(),
            r.allow_network_view() == self.allow_network_view(),
            r.run_id_view() == self.run_id_view(),
    {
        ActRunConfigParts { secrets, ..self }
    }

    /// Sets the all workflows.
    pub fn with_all_workflows(self, all_workflows: bool) -> (r: Self)
        ensures
            r.all_workflows_view() == all_workflows,
            r.workflow_view() == self.workflow_view(),
            r.job_view() == self.job_view(),
            r.event_view() == self.event_view(),
            r.inputs_view() == self.inputs_view(),
            r.secrets_view() == self.secrets_view(),
            r.allow_repo_writes_view() == self.allow_repo_writes_view(),
            r.allow_real_container_view() == self.allow_real_container_view(),
            r.allow_real_fetcher_view() == self.allow_real_fetcher_view(),
            r.allow_network_view() == self.allow_network_view(),
            r.run_id_view() == self.run_id_view(),
    {
        ActRunConfigParts { all_workflows, ..self }
    }

    /// Sets the allow repo writes.
    pub fn with_allow_repo_writes(self, allow_repo_writes: bool) -> (r: Self)
        ensures
            r.allow_repo_writes_view() == allow_repo_writes,
            r.workflow_view() == self.workflow_view(),
            r.job_view() == self.job_view(),
            r.event_view() == self.event_view(),
            r.inputs_view() == self.inputs_view(),
            r.secrets_view() == self.secrets_view(),
            r.all_workflows_view() == self.all_workflows_view(),
            r.allow_real_container_view() == self.allow_real_container_view(),
            r.allow_real_fetcher_view() == self.allow_real_fetcher_view(),
            r.allow_network_view() == self.allow_network_view(),
            r.run_id_view() == self.run_id_view(),
    {
        ActRunConfigParts { allow_repo_writes, ..self }
    }

    /// Sets the allow real container.
    pub fn with_allow_real_container(self, allow_real_container: bool) -> (r: Self)
        ensures
            r.allow_real_container_view() == allow_real_container,
            r.workflow_view() == self.workflow_view(),
            r.job_view() == self.job_view(),
            r.event_view() == self.event_view(),
            r.inputs_view() == self.inputs_view(),
            r.secrets_view() == self.secrets_view(),
            r.all_workflows_view() == self.all_workflows_view(),
            r.allow_repo_writes_view() == self.allow_repo_writes_view(),
            r.allow_real_fetcher_view() == self.allow_real_fetcher_view(),
            r.allow_network_view() == self.allow_network_view(),
            r.run_id_view() == self.run_id_view(),
    {
        ActRunConfigParts { allow_real_container, ..self }
    }

    /// Sets the allow real fetcher.
    pub fn with_allow_real_fetcher(self, allow_real_fetcher: bool) -> (r: Self)
        ensures
            r.allow_real_fetcher_view() == allow_real_fetcher,
            r.workflow_view() == self.workflow_view(),
            r.job_view() == self.job_view(),
            r.event_view() == self.event_view(),
            r.inputs_view() == self.inputs_view(),
            r.secrets_view() == self.secrets_view(),
            r.all_workflows_view() == self.all_workflows_view(),
            r.allow_repo_writes_view() == self.allow_repo_writes_view(),
            r.allow_real_container_view() == self.allow_real_container_view(),
            r.allow_network_view() == self.allow_network_view(),
            r.run_id_view() == self.run_id_view(),
    {
        ActRunConfigParts { allow_real_fetcher, ..self }
    }

    /// Sets the allow network.
    pub fn with_allow_network(self, allow_network: bool) -> (r: Self)
        ensures
            r.allow_network_view() == allow_network,
            r.workflow_view() == self.workflow_view(),
            r.job_view() == self.job_view(),
            r.event_view() == self.event_view(),
            r.inputs_view() == self.inputs_view(),
            r.secrets_view() == self.secrets_view(),
            r.all_workflows_view() == self.all_workflows_view(),
            r.allow_repo_writes_view() == self.allow_repo_writes_view(),
            r.allow_real_container_view() == self.allow_real_container_view(),
            r.allow_real_fetcher_view() == self.allow_real_fetcher_view(),
            r.run_id_view() == self.run_id_view(),
    {
        ActRunConfigParts { allow_network, ..self }
    }

    /// Sets the run id.
    pub fn with_run_id(self, run_id: String) -> (r: Self)
        ensures
            r.run_id_view() == run_id@,
            r.workflow_view() == self.workflow_view(),
            r.job_view() == self.job_view(),
            r.event_view() == self.event_view(),
            r.inputs_view() == self.inputs_view(),
            r.secrets_view() == self.secrets_view(),
            r.all_workflows_view() == self.all_workflows_view(),
            r.allow_repo_writes_view() == self.allow_repo_writes_view(),
            r.allow_real_container_view() == self.allow_real_container_view(),
            r.allow_real_fetcher_view() == self.allow_real_fetcher_view(),
            r.allow_network_view() == self.allow_network_view(),
    {
        ActRunConfigParts { run_id, ..self }
    }

}

impl ActRunConfig {
    pub closed spec fn workflow_view(&self) -> Option<ActWorkflow> {
        self.workflow
    }

    pub closed spec fn job_view(&self) -> Option<ActJob> {
        self.job
    }

    pub closed spec fn event_view(&self) -> Option<ActEvent> {
        self.event
    }

    pub closed spec fn inputs_view(&self) -> Seq<ActInput> {
        self.inputs@
    }

    pub closed spec fn secrets_view(&self) -> Seq<Secret> {
        self.secrets@
    }

    pub closed spec fn all_workflows_view(&self) -> bool {
        self.all_workflows
    }

    pub closed spec fn allow_repo_writes_view(&self) -> bool {
        self.allow_repo_writes
    }

    pub closed spec fn allow_real_container_view(&self) -> bool {
        self.allow_real_container
    }

    pub closed spec fn allow_real_fetcher_view(&self) -> bool {
        self.allow_real_fetcher
    }

    pub closed spec fn allow_network_view(&self) -> bool {
        self.allow_network
    }

    pub closed spec fn run_id_view(&self) -> Seq<char> {
        self.run_id@
    }

    /// A configuration with nothing selected and every permission off,
    /// under a fresh random run identifier.
    pub fn new() -> (r: Self)
        ensures
            r.workflow_view() is None,
            r.job_view() is None,
            r.event_view() is None,
            r.inputs_view().len() == 0,
            r.secrets_view().len() == 0,
            !r.all_workflows_view(),
            !r.allow_repo_writes_view(),
            !r.allow_real_container_view(),
            !r.allow_real_fetcher_view(),
            !r.allow_network_view(),
            is_v4_uuid_text(r.run_id_view()),
    {
        ActRunConfig {
            workflow: None,
            job: None,
            event: None,
            inputs: Vec::new(),
            secrets: Vec::new(),
            all_workflows: false,
            allow_repo_writes: false,
            allow_real_container: false,
            allow_real_fetcher: false,
            allow_network: false,
            run_id: new_run_id(),
        }
    }

    /// The configuration that the parts describe.
    pub fn from_parts(parts: ActRunConfigParts) -> (r: Self)
        ensures
            r.workflow_view() == parts.workflow_view(),
            r.job_view() == parts.job_view(),
            r.event_view() == parts.event_view(),
            r.inputs_view() == parts.inputs_view(),
            r.secrets_view() == parts.secrets_view(),
            r.all_workflows_view() == parts.all_workflows_view(),
            r.allow_repo_writes_view() == parts.allow_repo_writes_view(),
            r.allow_real_container_view() == parts.allow_real_container_view(),
            r.allow_real_fetcher_view() == parts.allow_real_fetcher_view(),
            r.allow_network_view() == parts.allow_network_view(),
            r.run_id_view() == parts.run_id_view(),
    {
        ActRunConfig {
            workflow: parts.workflow,
            job: parts.job,
            event: parts.event,
            inputs: parts.inputs,
            secrets: parts.secrets,
            all_workflows: parts.all_workflows,
            allow_repo_writes: parts.allow_repo_writes,
            allow_real_container: parts.allow_real_container,
            allow_real_fetcher: parts.allow_real_fetcher,
            allow_network: parts.allow_network,
            run_id: parts.run_id,
        }
    }

    /// Limits the run to one workflow.
    pub fn with_workflow(self, workflow: ActWorkflow) -> (r: Self)
        ensures
            r.workflow_view() == Some(workflow),
            r.job_view() == self.job_view(),
            r.event_view() == self.event_view(),
            r.inputs_view() == self.inputs_view(),
            r.secrets_view() == self.secrets_view(),
            r.all_workflows_view() == self.all_workflows_view(),
            r.allow_repo_writes_view() == self.allow_repo_writes_view(),
            r.allow_real_container_view() == self.allow_real_container_view(),
            r.allow_real_fetcher_view() == self.allow_real_fetcher_view(),
            r.allow_network_view() == self.allow_network_view(),
            r.run_id_view() == self.run_id_view(),
    {
        ActRunConfig { workflow: Some(workflow), ..self }
    }

    /// Limits the run to one job.
    pub fn with_job(self, job: ActJob) -> (r: Self)
        ensures
            r.job_view() == Some(job),
            r.workflow_view() == self.workflow_view(),
            r.event_view() == self.event_view(),
            r.inputs_view() == self.inputs_view(),
            r.secrets_view() == self.secrets_view(),
            r.all_workflows_view() == self.all_workflows_view(),
            r.allow_repo_writes_view() == self.allow_repo_writes_view(),
            r.allow_real_container_view() == self.allow_real_container_view(),
            r.allow_real_fetcher_view() == self.allow_real_fetcher_view(),
            r.allow_network_view() == self.allow_network_view(),
            r.run_id_view() == self.run_id_view(),
    {
        ActRunConfig { job: Some(job), ..self }
    }

    /// Sets the event the run simulates.
    pub fn with_event(self, event: ActEvent) -> (r: Self)
        ensures
            r.event_view() == Some(event),
            r.workflow_view() == self.workflow_view(),
            r.job_view() == self.job_view(),
            r.inputs_view() == self.inputs_view(),
            r.secrets_view() == self.secrets_view(),
            r.all_workflows_view() == self.all_workflows_view(),
            r.allow_repo_writes_view() == self.allow_repo_writes_view(),
            r.allow_real_container_view() == self.allow_real_container_view(),
            r.allow_real_fetcher_view() == self.allow_real_fetcher_view(),
            r.allow_network_view() == self.allow_network_view(),
            r.run_id_view() == self.run_id_view(),
    {
        ActRunConfig { event: Some(event), ..self }
    }

    /// Adds an input after those already given.
    pub fn add_input(self, input: ActInput) -> (r: Self)
        ensures
            r.inputs_view() == self.inputs_view().push(input),
            r.workflow_view() == self.workflow_view(),
            r.job_view() == self.job_view(),
            r.event_view() == self.event_view(),
            r.secrets_view() == self.secrets_view(),
            r.all_workflows_view() == self.all_workflows_view(),
            r.allow_repo_writes_view() == self.allow_repo_writes_view(),
            r.allow_real_container_view() == self.allow_real_container_view(),
            r.allow_real_fetcher_view() == self.allow_real_fetcher_view(),
            r.allow_network_view() == self.allow_network_view(),
            r.run_id_view() == self.run_id_view(),
    {
        let mut s = self;
        s.inputs.push(input);
        s
    }

    /// Adds a secret after those already given.
    pub fn add_secret(self, secret: Secret) -> (r: Self)
        ensures
            r.secrets_view() == self.secrets_view().push(secret),
            r.workflow_view() == self.workflow_view(),
            r.job_view() == self.job_view(),
            r.event_view() == self.event_view(),
            r.inputs_view() == self.inputs_view(),
            r.all_workflows_view() == self.all_workflows_view(),
            r.allow_repo_writes_view() == self.allow_repo_writes_view(),
            r.allow_real_container_view() == self.allow_real_container_view(),
            r.allow_real_fetcher_view() == self.allow_real_fetcher_view(),
            r.allow_network_view() == self.allow_network_view(),
            r.run_id_view() == self.run_id_view(),
    {
        let mut s = self;
        s.secrets.push(secret);
        s
    }

    /// Sets whether every workflow runs.
    pub fn with_all_workflows(self, all_workflows: bool) -> (r: Self)
        ensures
            r.all_workflows_view() == all_workflows,
            r.workflow_view() == self.workflow_view(),
            r.job_view() == self.job_view(),
            r.event_view() == self.event_view(),
            r.inputs_view() == self.inputs_view(),
            r.secrets_view() == self.secrets_view(),
            r.allow_repo_writes_view() == self.allow_repo_writes_view(),
            r.allow_real_container_view() == self.allow_real_container_view(),
            r.allow_real_fetcher_view() == self.allow_real_fetcher_view(),
            r.allow_network_view() == self.allow_network_view(),
            r.run_id_view() == self.run_id_view(),
    {
        ActRunConfig { all_workflows, ..self }
    }

    /// Sets whether the run may use the real container runtime.
    pub fn with_allow_real_container(self, allow_real_container: bool) -> (r: Self)
        ensures
            r.allow_real_container_view() == allow_real_container,
            r.workflow_view() == self.workflow_view(),
            r.job_view() == self.job_view(),
            r.event_view() == self.event_view(),
            r.inputs_view() == self.inputs_view(),
            r.secrets_view() == self.secrets_view(),
            r.all_workflows_view() == self.all_workflows_view(),
            r.allow_repo_writes_view() == self.allow_repo_writes_view(),
            r.allow_real_fetcher_view() == self.allow_real_fetcher_view(),
            r.allow_network_view() == self.allow_network_view(),
            r.run_id_view() == self.run_id_view(),
    {
        ActRunConfig { allow_real_container, ..self }
    }

    /// Sets whether the run may fetch actions for real.
    pub fn with_allow_real_fetcher(self, allow_real_fetcher: bool) -> (r: Self)
        ensures
            r.allow_real_fetcher_view() == allow_real_fetcher,
            r.workflow_view() == self.workflow_view(),
            r.job_view() == self.job_view(),
            r.event_view() == self.event_view(),
            r.inputs_view() == self.inputs_view(),
            r.secrets_view() == self.secrets_view(),
            r.all_workflows_view() == self.all_workflows_view(),
            r.allow_repo_writes_view() == self.allow_repo_writes_view(),
            r.allow_real_container_view() == self.allow_real_container_view(),
            r.allow_network_view() == self.allow_network_view(),
            r.run_id_view() == self.run_id_view(),
    {
        ActRunConfig { allow_real_fetcher, ..self }
    }

    /// Sets whether the run may reach the network.
    pub fn with_allow_network(self, allow_network: bool) -> (r: Self)
        ensures
            r.allow_network_view() == allow_network,
            r.workflow_view() == self.workflow_view(),
            r.job_view() == self.job_view(),
            r.event_view() == self.event_view(),
            r.inputs_view() == self.inputs_view(),
            r.secrets_view() == self.secrets_view(),
            r.all_workflows_view() == self.all_workflows_view(),
            r.allow_repo_writes_view() == self.allow_repo_writes_view(),
            r.allow_real_container_view() == self.allow_real_container_view(),
            r.allow_real_fetcher_view() == self.allow_real_fetcher_view(),
            r.run_id_view() == self.run_id_view(),
    {
        ActRunConfig { allow_network, ..self }
    }

    /// Sets whether the run may write to the repository.
    pub fn with_allow_repo_writes(self, allow_repo_writes: bool) -> (r: Self)
        ensures
            r.allow_repo_writes_view() == allow_repo_writes,
            r.workflow_view() == self.workflow_view(),
            r.job_view() == self.job_view(),
            r.event_view() == self.event_view(),
            r.inputs_view() == self.inputs_view(),
            r.secrets_view() == self.secrets_view(),
            r.all_workflows_view() == self.all_workflows_view(),
            r.allow_real_container_view() == self.allow_real_container_view(),
            r.allow_real_fetcher_view() == self.allow_real_fetcher_view(),
            r.allow_network_view() == self.allow_network_view(),
            r.run_id_view() == self.run_id_view(),
    {
        ActRunConfig { allow_repo_writes, ..self }
    }

    /// The workflow the run is limited to.
    pub fn workflow(&self) -> (r: Option<&ActWorkflow>)
        ensures
            match r {
                Some(x) => self.workflow_view() == Some(*x),
                None => self.workflow_view() is None,
            },
    {
        match &self.workflow {
            Some(x) => Some(x),
            None => None,
        }
    }

    /// The job the run is limited to.
    pub fn job(&self) -> (r: Option<&ActJob>)
        ensures
            match r {
                Some(x) => self.job_view() == Some(*x),
                None => self.job_view() is None,
            },
    {
        match &self.job {
            Some(x) => Some(x),
            None => None,
        }
    }

    /// The event the run simulates.
    pub fn event(&self) -> (r: Option<&ActEvent>)
        ensures
            match r {
                Some(x) => self.event_view() == Some(*x),
                None => self.event_view() is None,
            },
    {
        match &self.event {
            Some(x) => Some(x),
            None => None,
        }
    }

    /// The inputs given to the run.
    pub fn inputs(&self) -> (r: &[ActInput])
        ensures
            r@ == self.inputs_view(),
    {
        self.inputs.as_slice()
    }

    /// The secrets given to the run.
    pub fn secrets(&self) -> (r: &[Secret])
        ensures
            r@ == self.secrets_view(),
    {
        self.secrets.as_slice()
    }

    /// Whether every workflow runs.
    pub fn all_workflows(&self) -> (r: bool)
        ensures
            r == self.all_workflows_view(),
    {
        self.all_workflows
    }

    /// Whether the run may write to the repository.
    pub fn allow_repo_writes(&self) -> (r: bool)
        ensures
            r == self.allow_repo_writes_view(),
    {
        self.allow_repo_writes
    }

    /// Whether the run may use the real container runtime.
    pub fn allow_real_container(&self) -> (r: bool)
        ensures
            r == self.allow_real_container_view(),
    {
        self.allow_real_container
    }

    /// Whether the run may fetch actions for real.
    pub fn allow_real_fetcher(&self) -> (r: bool)
        ensures
            r == self.allow_real_fetcher_view(),
    {
        self.allow_real_fetcher
    }

    /// Whether the run may reach the network.
    pub fn allow_network(&self) -> (r: bool)
        ensures
            r == self.allow_network_view(),
    {
        self.allow_network
    }

    /// The run's identifier.
    pub fn run_id(&self) -> (r: &str)
        ensures
            r@ == self.run_id_view(),
    {
        self.run_id.as_str()
    }
}

impl Default for ActRunConfig {
    /// The same as [`ActRunConfig::new`].
    fn default() -> (r: Self)
        ensures
            r.workflow_view() is None,
            r.job_view() is None,
            r.event_view() is None,
            r.inputs_view().len() == 0,
            r.secrets_view().len() == 0,
            !r.all_workflows_view(),
            !r.allow_repo_writes_view(),
            !r.allow_real_container_view(),
            !r.allow_real_fetcher_view(),
            !r.allow_network_view(),
            is_v4_uuid_text(r.run_id_view()),
    {
        Self::new()
    }
}

} // verus!
