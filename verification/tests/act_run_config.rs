use ephact::value_objects::act_event::ActEvent;
use ephact::value_objects::act_input::ActInput;
use ephact::value_objects::act_job::ActJob;
use ephact::value_objects::act_run_config::ActRunConfig;
use ephact::value_objects::act_workflow::ActWorkflow;
use ephact::value_objects::secret::Secret;

#[test]
fn new_config_starts_with_defaults() {
    let config = ActRunConfig::new();
    assert!(config.workflow().is_none());
    assert!(config.job().is_none());
    assert!(config.event().is_none());
    assert!(config.inputs().is_empty());
    assert!(config.secrets().is_empty());
}

#[test]
fn builder_adds_workflow_job_and_event() {
    let config = ActRunConfig::new()
        .with_workflow(ActWorkflow::new(".github/workflows/ci.yml".into()))
        .with_job(ActJob::new("test".into()))
        .with_event(ActEvent::new("push".into()));

    assert_eq!(
        config.workflow().unwrap().as_str(),
        ".github/workflows/ci.yml"
    );
    assert_eq!(config.job().unwrap().as_str(), "test");
    assert_eq!(config.event().unwrap().as_str(), "push");
}

#[test]
fn builder_adds_inputs() {
    let config =
        ActRunConfig::new().add_input(ActInput::new("environment".into(), "staging".into()));

    assert_eq!(config.inputs()[0].key(), "environment");
    assert_eq!(config.inputs()[0].value(), "staging");
}

#[test]
fn add_secret_keeps_name_and_value() {
    let config = ActRunConfig::new().add_secret(Secret::new("KEY".into(), "value".into()));

    assert_eq!(config.secrets().len(), 1);
    assert_eq!(config.secrets()[0].name(), "KEY");
    assert_eq!(config.secrets()[0].value(), "value");
}

#[test]
fn default_creates_empty_config() {
    let config = ActRunConfig::default();
    assert!(config.workflow().is_none());
    assert!(config.job().is_none());
}

#[test]
fn new_config_disables_all_workflows() {
    assert!(!ActRunConfig::new().all_workflows());
}

#[test]
fn new_config_disables_every_allow_flag() {
    let config = ActRunConfig::new();
    assert!(!config.allow_real_container());
    assert!(!config.allow_real_fetcher());
    assert!(!config.allow_network());
}

#[test]
fn with_allow_real_container_opts_into_the_real_runtime() {
    assert!(
        ActRunConfig::new()
            .with_allow_real_container(true)
            .allow_real_container()
    );
}

#[test]
fn with_allow_real_fetcher_opts_into_the_real_fetcher() {
    assert!(
        ActRunConfig::new()
            .with_allow_real_fetcher(true)
            .allow_real_fetcher()
    );
}

#[test]
fn with_allow_network_permits_outbound_requests() {
    assert!(ActRunConfig::new().with_allow_network(true).allow_network());
}

#[test]
fn with_all_workflows_enables_running_every_workflow() {
    assert!(ActRunConfig::new().with_all_workflows(true).all_workflows());
}
