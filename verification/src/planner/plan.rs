use vstd::prelude::*;

use crate::planner::stage::Stage;

verus! {

/// The complete execution order of a workflow: stages run one after
/// another, the runs of a stage in parallel.
#[derive(Debug, Clone, PartialEq)]
pub struct Plan {
    stages: Vec<Stage>,
}

impl Plan {
    /// The stages of the plan.
    pub closed spec fn stages_view(&self) -> Seq<Stage> {
        self.stages@
    }

    /// Creates a plan from its stages.
    pub fn new(stages: Vec<Stage>) -> (r: Self)
        ensures
            r.stages_view() == stages@,
    {
        Plan { stages }
    }

    /// The stages of the plan, in order.
    pub fn stages(&self) -> (r: &[Stage])
        ensures
            r@ == self.stages_view(),
    {
        self.stages.as_slice()
    }

    /// The stages of the plan, taken out of it.
    pub fn into_stages(self) -> (r: Vec<Stage>)
        ensures
            r@ == self.stages_view(),
    {
        self.stages
    }
}

} // verus!
