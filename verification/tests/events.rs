use ephact::messages::events::{ContainerStartedPayload, RunStartedPayload, StepFinishedDetails, StepFinishedPayload};

#[test]
fn container_started_payload_new_preserves_fields() {
    let payload = ContainerStartedPayload::new("run-1".into(), "ephemeral-act-build".into());

    assert_eq!(payload.run_id(), "run-1");
    assert_eq!(payload.container_name(), "ephemeral-act-build");
}

#[test]
fn run_started_payload_new_preserves_fields() {
    let payload = RunStartedPayload::new("run-1".into(), "/repo".into());

    assert_eq!(payload.run_id(), "run-1");
    assert_eq!(payload.repository_path(), "/repo");
}

#[test]
fn step_finished_payload_new_preserves_fields() {
    let payload = StepFinishedPayload::new(
        "run-1".into(),
        StepFinishedDetails::new(
            "workflow".into(),
            "job".into(),
            "step".into(),
            true,
            Some(0),
        )
        .with_stdout("stdout".into())
        .with_stderr("stderr".into()),
    );

    assert_eq!(payload.run_id(), "run-1");
    assert_eq!(payload.workflow_name(), "workflow");
    assert_eq!(payload.job_id(), "job");
    assert_eq!(payload.step_name(), "step");
    assert!(payload.success());
    assert_eq!(payload.exit_code(), Some(0));
    assert_eq!(payload.stdout(), "stdout");
    assert_eq!(payload.stderr(), "stderr");
}
