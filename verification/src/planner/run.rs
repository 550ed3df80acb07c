use vstd::prelude::*;

use crate::entities::job::Job;
use crate::entities::step::opt_str;
use crate::text_map::TextMap;

verus! {

/// One run of a job within a stage; a job with a matrix expands into one
/// run per combination.
#[derive(Debug, Clone, PartialEq)]
pub struct Run {
    workflow_name: Option<String>,
    job_id: String,
    job: Job,
    matrix_values: Option<TextMap<String>>,
}

impl Run {
    pub closed spec fn workflow_name_view(&self) -> Option<String> { self.workflow_name }
    pub closed spec fn job_id_view(&self) -> Seq<char> { self.job_id@ }
    pub closed spec fn job_view(&self) -> Job { self.job }
    pub closed spec fn matrix_values_view(&self) -> Option<TextMap<String>> { self.matrix_values }

    /// Creates a run of job `job_id`.
    pub fn new(workflow_name: Option<String>, job_id: String, job: Job, matrix_values: Option<TextMap<String>>) -> (r: Self)
        ensures
            r.workflow_name_view() == workflow_name,
            r.job_id_view() == job_id@,
            r.job_view() == job,
            r.matrix_values_view() == matrix_values,
    {
        Run { workflow_name, job_id, job, matrix_values }
    }

    /// The name of the workflow the run belongs to.
    pub fn workflow_name(&self) -> (r: Option<&str>)
        ensures
            r is Some <==> self.workflow_name_view() is Some,
            r matches Some(s) ==> s@ == self.workflow_name_view().unwrap()@,
    {
        opt_str(&self.workflow_name)
    }

    /// The identifier of the job within its workflow.
    pub fn job_id(&self) -> (r: &str)
        ensures
            r@ == self.job_id_view(),
    {
        self.job_id.as_str()
    }

    /// The job to execute.
    pub fn job(&self) -> (r: &Job)
        ensures
            *r == self.job_view(),
    {
        &self.job
    }

    /// The matrix values of this run, if the job has a matrix.
    pub fn matrix_values(&self) -> (r: Option<&TextMap<String>>)
        ensures
            match r {
                Some(m) => self.matrix_values_view() == Some(*m),
                None => self.matrix_values_view() is None,
            },
    {
        match &self.matrix_values {
            Some(m) => Some(m),
            None => None,
        }
    }
}

} // verus!
