use ephact::planner::plan::Plan;
use ephact::planner::stage::Stage;
use ephact::value_objects::execution_plan::ExecutionPlan;
use ephact::value_objects::execution_stage::ExecutionStage;

#[test]
fn execution_plan_new_exposes_and_consumes_stages() {
    let plan = ExecutionPlan::new(Vec::new());

    assert!(plan.stages().is_empty());
    assert!(plan.into_stages().is_empty());
}

#[test]
fn execution_stage_new_exposes_and_consumes_runs() {
    let stage = ExecutionStage::new(Vec::new());

    assert!(stage.runs().is_empty());
    assert!(stage.into_runs().is_empty());
}

#[test]
fn plan_new_exposes_and_consumes_stages() {
    let plan = Plan::new(Vec::new());

    assert!(plan.stages().is_empty());
    assert!(plan.into_stages().is_empty());
}

#[test]
fn stage_new_exposes_and_consumes_runs() {
    let stage = Stage::new(Vec::new());

    assert!(stage.runs().is_empty());
    assert!(stage.into_runs().is_empty());
}
