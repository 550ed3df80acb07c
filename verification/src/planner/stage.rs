use vstd::prelude::*;

use crate::planner::run::Run;

verus! {

/// A group of runs that execute in parallel; all of them complete before
/// the next stage begins.
#[derive(Debug, Clone, PartialEq)]
pub struct Stage {
    runs: Vec<Run>,
}

impl Stage {
    /// The runs of the stage.
    pub closed spec fn runs_view(&self) -> Seq<Run> {
        self.runs@
    }

    /// Creates a stage from its runs.
    pub fn new(runs: Vec<Run>) -> (r: Self)
        ensures
            r.runs_view() == runs@,
    {
        Stage { runs }
    }

    /// The runs of the stage.
    pub fn runs(&self) -> (r: &[Run])
        ensures
            r@ == self.runs_view(),
    {
        self.runs.as_slice()
    }

    /// The runs of the stage, taken out of it.
    pub fn into_runs(self) -> (r: Vec<Run>)
        ensures
            r@ == self.runs_view(),
    {
        self.runs
    }
}

} // verus!
