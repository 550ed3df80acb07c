use vstd::prelude::*;

use crate::entities::job::Job;
use crate::entities::step::opt_str;
use crate::text_map::TextMap;
use crate::value_objects::workflow_trigger::WorkflowTrigger;

verus! {

/// A workflow: its name, the events that trigger it, its environment and
/// its jobs, keyed by job id in the order they were declared.
#[derive(Debug, Clone, PartialEq)]
pub struct Workflow {
    name: Option<String>,
    run_name: Option<String>,
    on: WorkflowTrigger,
    env: TextMap<String>,
    jobs: TextMap<Job>,
}

impl Workflow {
    pub closed spec fn name_view(&self) -> Option<String> { self.name }
    pub closed spec fn run_name_view(&self) -> Option<String> { self.run_name }
    pub closed spec fn on_view(&self) -> WorkflowTrigger { self.on }
    pub closed spec fn env_view(&self) -> TextMap<String> { self.env }
    pub closed spec fn jobs_view(&self) -> TextMap<Job> { self.jobs }

    /// The job table holds each id once and every job is well formed.
    pub open spec fn wf(&self) -> bool {
        &&& self.jobs_view().wf()
        &&& forall|i: int| 0 <= i < self.jobs_view().entries().len() ==> (#[trigger] self.jobs_view().entries()[i]).1.wf()
    }

    /// Creates a workflow.
    pub fn new(name: Option<String>, run_name: Option<String>, on: WorkflowTrigger, env: TextMap<String>, jobs: TextMap<Job>) -> (r: Self)
        ensures
            r.name_view() == name,
            r.run_name_view() == run_name,
            r.on_view() == on,
            r.env_view() == env,
            r.jobs_view() == jobs,
    {
        Workflow { name, run_name, on, env, jobs }
    }

    /// The workflow's `name:`.
    pub fn name(&self) -> (r: Option<&str>)
        ensures
            r is Some <==> self.name_view() is Some,
            r matches Some(s) ==> s@ == self.name_view().unwrap()@,
    {
        opt_str(&self.name)
    }

    /// A copy of the workflow's `name:`.
    pub(crate) fn name_owned(&self) -> (r: Option<String>)
        ensures
            r == self.name_view(),
    {
        crate::entities::step::copy_text(&self.name)
    }

    /// The workflow's `run-name:`.
    pub fn run_name(&self) -> (r: Option<&str>)
        ensures
            r is Some <==> self.run_name_view() is Some,
            r matches Some(s) ==> s@ == self.run_name_view().unwrap()@,
    {
        opt_str(&self.run_name)
    }

    /// The events that trigger the workflow.
    pub fn on(&self) -> (r: &WorkflowTrigger)
        ensures
            *r == self.on_view(),
    {
        &self.on
    }

    /// The workflow's environment.
    pub fn env(&self) -> (r: &TextMap<String>)
        ensures
            *r == self.env_view(),
    {
        &self.env
    }

    /// The workflow's jobs, by id.
    pub fn jobs(&self) -> (r: &TextMap<Job>)
        ensures
            *r == self.jobs_view(),
    {
        &self.jobs
    }
}

} // verus!
