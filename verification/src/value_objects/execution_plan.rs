use vstd::prelude::*;

use crate::value_objects::execution_stage::ExecutionStage;

verus! {

/// The complete execution order of a workflow: stages run one after
/// another, the runs of a stage in parallel.
#[derive(Debug, Clone, PartialEq)]
pub struct ExecutionPlan {
    stages: Vec<ExecutionStage>,
}

impl ExecutionPlan {
    /// The stages of the plan.
    pub closed spec fn stages_view(&self) -> Seq<ExecutionStage> {
        self.stages@
    }

    /// Creates a plan from its stages.
    pub fn new(stages: Vec<ExecutionStage>) -> (r: Self)
        ensures
            r.stages_view() == stages@,
    {
        ExecutionPlan { stages }
    }

    /// The stages of the plan, in order.
    pub fn stages(&self) -> (r: &[ExecutionStage])
        ensures
            r@ == self.stages_view(),
    {
        self.stages.as_slice()
    }

    /// The stages of the plan, taken out of it.
    pub fn into_stages(self) -> (r: Vec<ExecutionStage>)
        ensures
            r@ == self.stages_view(),
    {
        self.stages
    }
}

} // verus!
