use ephact::aggregates::workflow::Workflow;
use ephact::entities::job::Job;
use ephact::errors::PlanError;
use ephact::services::execution_planner::ExecutionPlanner;
use ephact::text_map::TextMap;
use ephact::value_objects::workflow_trigger::WorkflowTrigger;

fn make_job(needs: &[&str]) -> Job {
    let needs = needs.iter().map(|need| (*need).to_owned()).collect();
    Job::new(None, None, Vec::new(), needs)
}

fn make_workflow(jobs: &[(&str, &[&str])]) -> Workflow {
    let mut map = TextMap::new();
    for (id, needs) in jobs {
        map.insert((*id).to_owned(), make_job(needs));
    }
    Workflow::new(None, None, WorkflowTrigger::default(), TextMap::new(), map)
}

#[test]
fn plan_single_job() {
    let wf = make_workflow(&[("build", &[])]);
    let plan = ExecutionPlanner.plan(&wf).unwrap();
    assert_eq!(plan.stages().len(), 1);
    assert_eq!(plan.stages()[0].runs().len(), 1);
    assert_eq!(plan.stages()[0].runs()[0].job_id(), "build");
}

#[test]
fn plan_independent_jobs_same_stage() {
    let wf = make_workflow(&[("build", &[]), ("lint", &[])]);
    let plan = ExecutionPlanner.plan(&wf).unwrap();
    assert_eq!(plan.stages().len(), 1);
    assert_eq!(plan.stages()[0].runs().len(), 2);
}

#[test]
fn plan_sequential_jobs() {
    let wf = make_workflow(&[("build", &[]), ("test", &["build"])]);
    let plan = ExecutionPlanner.plan(&wf).unwrap();
    assert_eq!(plan.stages().len(), 2);
    assert_eq!(plan.stages()[0].runs()[0].job_id(), "build");
    assert_eq!(plan.stages()[1].runs()[0].job_id(), "test");
}

#[test]
fn plan_diamond_dependency() {
    let wf = make_workflow(&[
        ("build", &[]),
        ("test", &["build"]),
        ("lint", &["build"]),
        ("deploy", &["test", "lint"]),
    ]);
    let plan = ExecutionPlanner.plan(&wf).unwrap();
    assert_eq!(plan.stages().len(), 3);
    assert_eq!(plan.stages()[0].runs()[0].job_id(), "build");
    assert_eq!(plan.stages()[1].runs().len(), 2);
    assert_eq!(plan.stages()[2].runs().len(), 1);
}

#[test]
fn plan_detects_cycle() {
    let wf = make_workflow(&[("a", &["b"]), ("b", &["a"])]);
    let result = ExecutionPlanner.plan(&wf);
    assert!(result.is_err());
    assert!(matches!(
        result.unwrap_err(),
        PlanError::CycleDetected { .. }
    ));
}

#[test]
fn plan_detects_missing_dependency() {
    let wf = make_workflow(&[("build", &["nonexistent"])]);
    let result = ExecutionPlanner.plan(&wf);
    assert!(result.is_err());
    assert!(matches!(
        result.unwrap_err(),
        PlanError::MissingDependency { .. }
    ));
}

#[test]
fn topological_sort_reports_unresolved_dependencies_on_cycle() {
    let wf = make_workflow(&[("a", &["b"]), ("b", &["a"])]);
    let mut deps = TextMap::new();
    deps.insert("a".to_owned(), vec!["b".to_owned()]);
    deps.insert("b".to_owned(), vec!["a".to_owned()]);
    let result = ExecutionPlanner.topological_sort(&deps, &wf);
    assert!(matches!(result, Err(PlanError::UnresolvedDependencies)));
}
