use ephact::text_map::TextMap;
use ephact::value_objects::trigger_filter::TriggerFilter;
use ephact::value_objects::workflow_dispatch_input::WorkflowDispatchInput;
use ephact::value_objects::workflow_trigger::WorkflowTrigger;

fn events(names: &[&str]) -> WorkflowTrigger {
    let mut map = TextMap::new();
    for name in names {
        map.insert((*name).to_owned(), None);
    }
    WorkflowTrigger::WithTypes(map)
}

#[test]
fn single_reports_only_its_own_event() {
    let trigger = WorkflowTrigger::Single("push".to_owned());

    assert!(trigger.is_single("push"));
    assert!(!trigger.is_single("pull_request"));
    assert!(trigger.has_event("push"));
    assert!(!trigger.has_event("pull_request"));
    assert_eq!(trigger.event_names(), vec!["push"]);
}

#[test]
fn multiple_reports_every_listed_event() {
    let trigger = WorkflowTrigger::Multiple(vec!["push".to_owned(), "pull_request".to_owned()]);

    assert!(trigger.is_multiple());
    assert!(trigger.has_event("push"));
    assert!(trigger.has_event("pull_request"));
    assert_eq!(trigger.event_names(), vec!["push", "pull_request"]);
}

#[test]
fn with_types_reports_every_configured_event() {
    let trigger = events(&["push", "pull_request"]);

    assert!(trigger.has_types());
    assert!(trigger.has_event("push"));
    assert!(trigger.has_event("pull_request"));
    assert!(!trigger.has_event("schedule"));

    let mut names = trigger.event_names();
    names.sort_unstable();
    assert_eq!(names, vec!["pull_request", "push"]);
}

#[test]
fn workflow_dispatch_inputs_are_exposed_when_configured() {
    let mut inputs = TextMap::new();
    inputs.insert(
        "name".to_owned(),
        WorkflowDispatchInput::new(None, true, None, Some("string".to_owned()), Vec::new()),
    );
    let filter = TriggerFilter::new().with_inputs(inputs.clone());
    let mut types = TextMap::new();
    types.insert("workflow_dispatch".to_owned(), Some(filter));
    let trigger = WorkflowTrigger::WithTypes(types);

    assert_eq!(trigger.workflow_dispatch_inputs(), Some(&inputs));
}

#[test]
fn workflow_dispatch_inputs_are_absent_without_the_event() {
    assert_eq!(
        WorkflowTrigger::Single("push".to_owned()).workflow_dispatch_inputs(),
        None
    );
    assert_eq!(
        events(&["workflow_dispatch"]).workflow_dispatch_inputs(),
        None
    );
}

#[test]
fn default_is_single_push() {
    assert_eq!(
        WorkflowTrigger::default(),
        WorkflowTrigger::Single("push".to_owned())
    );
}

#[test]
fn new_exposes_all_filters() {
    let input = WorkflowDispatchInput::new(None, false, None, None, Vec::new());
    let mut inputs = TextMap::new();
    inputs.insert("name".into(), input);
    let config = TriggerFilter::new()
        .with_branches(vec!["main".into()])
        .with_branches_ignore(vec!["dev".into()])
        .with_tags(vec!["v1".into()])
        .with_tags_ignore(vec!["v2".into()])
        .with_paths(vec!["src/**".into()])
        .with_paths_ignore(vec!["docs/**".into()])
        .with_types(vec!["opened".into()])
        .with_inputs(inputs)
        .with_cron(vec!["0 0 * * *".into()]);

    assert_eq!(config.branches(), &["main".to_string()]);
    assert_eq!(config.branches_ignore(), &["dev".to_string()]);
    assert_eq!(config.tags(), &["v1".to_string()]);
    assert_eq!(config.tags_ignore(), &["v2".to_string()]);
    assert_eq!(config.paths(), &["src/**".to_string()]);
    assert_eq!(config.paths_ignore(), &["docs/**".to_string()]);
    assert_eq!(config.types(), &["opened".to_string()]);
    assert!(config.inputs().contains_key("name"));
    assert_eq!(config.cron(), &["0 0 * * *".to_string()]);
}
