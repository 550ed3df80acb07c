use vstd::prelude::*;

use crate::entities::job_run::JobRun;

verus! {

/// A group of runs that execute in parallel; all of them complete before
/// the next stage begins.
#[derive(Debug, Clone, PartialEq)]
pub struct ExecutionStage {
    runs: Vec<JobRun>,
}

impl ExecutionStage {
    /// The runs of the stage.
    pub closed spec fn runs_view(&self) -> Seq<JobRun> {
        self.runs@
    }

    /// Creates a stage from its runs.
    pub fn new(runs: Vec<JobRun>) -> (r: Self)
        ensures
            r.runs_view() == runs@,
    {
        ExecutionStage { runs }
    }

    /// The runs of the stage.
    pub fn runs(&self) -> (r: &[JobRun])
        ensures
            r@ == self.runs_view(),
    {
        self.runs.as_slice()
    }

    /// The runs of the stage, taken out of it.
    pub fn into_runs(self) -> (r: Vec<JobRun>)
        ensures
            r@ == self.runs_view(),
    {
        self.runs
    }
}

} // verus!
