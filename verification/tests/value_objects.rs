use ephact::entities::step::Step;
use ephact::errors::ProjectBrandingError;
use ephact::text_map::TextMap;
use ephact::value_objects::action_definition::{ActionDefinition, ActionInput, ActionRuntime};
use ephact::value_objects::container_specification::{ContainerCredentials, ContainerSpecification};
use ephact::value_objects::execution_defaults::{ExecutionDefaults, RunStepDefaults};
use ephact::value_objects::marker::{Marker, MarkerKind, MarkerPreset};
use ephact::value_objects::project_description::ProjectDescription;
use ephact::value_objects::project_emblem::ProjectEmblem;
use ephact::value_objects::project_name::ProjectName;
use ephact::value_objects::project_version::ProjectVersion;
use ephact::value_objects::shell_command::ShellCommand;

#[test]
fn action_definition_new_preserves_fields() {
    let mut inputs = TextMap::new();
    inputs.insert("input".into(), ActionInput::new(None, true, None));
    let action = ActionDefinition::new(
        "Action".into(),
        Some("Description".into()),
        inputs,
        ActionRuntime::Node20 {
            main: "index.js".into(),
        },
    );

    assert_eq!(action.name(), "Action");
    assert_eq!(action.description(), Some("Description"));
    assert!(action.inputs().get("input").unwrap().required());
    assert!(matches!(action.runs(), ActionRuntime::Node20 { .. }));
}

#[test]
fn finds_named_input_and_reports_required_inputs() {
    let mut inputs = TextMap::new();
    inputs.insert("required".into(), ActionInput::new(None, true, None));
    inputs.insert("optional".into(), ActionInput::new(None, false, None));
    let action = ActionDefinition::new(
        "Action".into(),
        None,
        inputs,
        ActionRuntime::Node20 {
            main: "index.js".into(),
        },
    );

    assert!(action.input_named("required").is_some());
    assert!(action.input_named("missing").is_none());
    assert!(action.has_required_inputs());
}

#[test]
fn new_exposes_fields() {
    let mut env = TextMap::new();
    env.insert("KEY".into(), "value".into());
    let config = ContainerSpecification::new("ubuntu".into())
        .with_credentials(Some(ContainerCredentials::new("user".into(), "password".into())))
        .with_env(env)
        .with_ports(vec!["80:80".into()])
        .with_volumes(vec!["/tmp:/tmp".into()])
        .with_options(Some("--privileged".into()));

    assert_eq!(config.image(), "ubuntu");
    assert_eq!(
        config.credentials().map(ContainerCredentials::username),
        Some("user")
    );
    assert_eq!(config.env().get("KEY").unwrap(), "value");
    assert_eq!(config.ports(), &["80:80".to_string()]);
    assert_eq!(config.volumes(), &["/tmp:/tmp".to_string()]);
    assert_eq!(config.options(), Some("--privileged"));
}

#[test]
fn new_exposes_run_defaults() {
    let defaults = ExecutionDefaults::new(Some(RunStepDefaults::new(Some("bash".into()), None)));

    assert_eq!(
        defaults.run().and_then(RunStepDefaults::shell),
        Some("bash")
    );
}

#[test]
fn settings_default_to_underscore_marker() {
    assert_eq!(Marker::default().as_text(), "_");
}

#[test]
fn presets_expose_terminal_marker_text() {
    let values = MarkerPreset::ALL.map(MarkerPreset::as_text);

    assert_eq!(values, [">", "_", "$", "#", "❯", "➜", "▶"]);
}

#[test]
fn marker_supports_custom_unicode_text() {
    let marker = Marker::custom_text("🚀".into());

    assert_eq!(marker.kind(), MarkerKind::CustomText);
    assert_eq!(marker.as_text(), "🚀");
    assert_eq!(marker.value(), "🚀");
}

#[test]
fn marker_supports_graphical_paths() {
    let image = Marker::image_path("/tmp/marker.png".into());
    let gif = Marker::gif_path("/tmp/marker.gif".into());

    assert_eq!(image.kind(), MarkerKind::ImagePath);
    assert_eq!(image.value(), "/tmp/marker.png");
    assert_eq!(image.as_text(), "_");
    assert_eq!(gif.kind(), MarkerKind::GifPath);
    assert_eq!(gif.value(), "/tmp/marker.gif");
    assert_eq!(gif.as_text(), "_");
}

#[test]
fn marker_values_compare_by_kind_and_value() {
    assert_eq!(
        Marker::preset(MarkerPreset::Dollar),
        Marker::preset(MarkerPreset::Dollar)
    );
    assert_ne!(
        Marker::preset(MarkerPreset::Dollar),
        Marker::preset(MarkerPreset::Hash)
    );
    assert_ne!(Marker::custom_text("x".into()), Marker::custom_text("y".into()));
}

#[test]
fn new_with_valid_name_succeeds() {
    let name = ProjectName::new("my-project".to_string()).unwrap();
    assert_eq!(name.as_str(), "my-project");
}

#[test]
fn new_with_empty_name_returns_empty_name_error() {
    let result = ProjectName::new("".to_string());
    assert_eq!(result, Err(ProjectBrandingError::EmptyName));
}

#[test]
fn project_name_display_formats_inner_string() {
    let name = ProjectName::new("my-project".to_string()).unwrap();
    assert_eq!(name.to_text(), "my-project");
}

#[test]
fn new_with_valid_description_succeeds() {
    let description = ProjectDescription::new("A fast runner".to_string()).unwrap();
    assert_eq!(description.as_str(), "A fast runner");
}

#[test]
fn new_with_empty_description_returns_empty_description_error() {
    let result = ProjectDescription::new("".to_string());
    assert_eq!(result, Err(ProjectBrandingError::EmptyDescription));
}

#[test]
fn project_description_display_formats_inner_string() {
    let description = ProjectDescription::new("A fast runner".to_string()).unwrap();
    assert_eq!(description.to_text(), "A fast runner");
}

#[test]
fn new_with_valid_emblem_succeeds() {
    let emblem = ProjectEmblem::new("shield".to_string()).unwrap();
    assert_eq!(emblem.as_str(), "shield");
}

#[test]
fn new_with_empty_emblem_returns_empty_emblem_error() {
    let result = ProjectEmblem::new("".to_string());
    assert_eq!(result, Err(ProjectBrandingError::EmptyEmblem));
}

#[test]
fn project_emblem_display_formats_inner_string() {
    let emblem = ProjectEmblem::new("shield".to_string()).unwrap();
    assert_eq!(emblem.to_text(), "shield");
}

#[test]
fn new_with_valid_version_succeeds() {
    let version = ProjectVersion::new("0.1.0".to_string()).unwrap();
    assert_eq!(version.as_str(), "0.1.0");
}

#[test]
fn new_with_empty_version_returns_empty_version_error() {
    let result = ProjectVersion::new("".to_string());
    assert_eq!(result, Err(ProjectBrandingError::EmptyVersion));
}

#[test]
fn project_version_display_formats_inner_string() {
    let version = ProjectVersion::new("0.1.0".to_string()).unwrap();
    assert_eq!(version.to_text(), "0.1.0");
}

fn run_step(run: Option<&str>, shell: Option<&str>, working_directory: Option<&str>, env: TextMap<String>) -> Step {
    Step::new(
        None,
        None,
        None,
        run.map(str::to_string),
        shell.map(str::to_string),
        working_directory.map(str::to_string),
        None,
        TextMap::new(),
        env,
        None,
        None,
    )
}

#[test]
fn for_step_defaults_to_bash() {
    let command = ShellCommand::for_step(&run_step(Some("echo hi"), None, None, TextMap::new()), &TextMap::new()).unwrap();

    assert_eq!(command.argv(), ["bash", "-c", "echo hi"]);
}

#[test]
fn for_step_honors_declared_shell() {
    let command =
        ShellCommand::for_step(&run_step(Some("echo hi"), Some("sh"), None, TextMap::new()), &TextMap::new()).unwrap();

    assert_eq!(command.argv(), ["sh", "-c", "echo hi"]);
}

#[test]
fn for_step_keeps_working_directory() {
    let command = ShellCommand::for_step(
        &run_step(Some("echo hi"), None, Some("crates/app"), TextMap::new()),
        &TextMap::new(),
    )
    .unwrap();

    assert_eq!(command.working_directory(), Some("crates/app"));
}

#[test]
fn for_step_layers_step_env_over_job_env() {
    let mut job_env = TextMap::new();
    job_env.insert("MODE".to_string(), "job".to_string());
    job_env.insert("KEEP".to_string(), "yes".to_string());
    let mut step_env = TextMap::new();
    step_env.insert("MODE".to_string(), "step".to_string());

    let command = ShellCommand::for_step(&run_step(Some("echo hi"), None, None, step_env), &job_env).unwrap();

    assert_eq!(command.env().get("MODE").map(String::as_str), Some("step"));
    assert_eq!(command.env().get("KEEP").map(String::as_str), Some("yes"));
}

#[test]
fn for_step_returns_none_without_script() {
    let step = Step::new(
        None,
        None,
        None,
        None,
        None,
        None,
        Some("./action".to_string()),
        TextMap::new(),
        TextMap::new(),
        None,
        None,
    );
    assert!(ShellCommand::for_step(&step, &TextMap::new()).is_none());
}

#[test]
fn new_builds_an_explicit_invocation() {
    let command = ShellCommand::new(
        vec!["node".into(), "/actions/main.js".into()],
        Some("/workspace".into()),
        TextMap::new(),
    );

    assert_eq!(command.argv(), ["node", "/actions/main.js"]);
    assert_eq!(command.working_directory(), Some("/workspace"));
    assert!(command.env().is_empty());
}
