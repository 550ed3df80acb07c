use ephact::errors::ActionError;
use ephact::value_objects::action_reference::ActionReference;
use ephact::value_objects::remote_action_reference::RemoteActionReference;

fn remote(raw: &str) -> RemoteActionReference {
    match ActionReference::parse(raw).unwrap() {
        ActionReference::Remote(remote) => remote,
        other => panic!("expected a remote action, got {other:?}"),
    }
}

#[test]
fn parse_relative_path_is_local() {
    assert_eq!(
        ActionReference::parse("./.forgejo/actions/publish").unwrap(),
        ActionReference::Local("./.forgejo/actions/publish".into())
    );
}

#[test]
fn parse_parent_relative_path_is_local() {
    assert_eq!(
        ActionReference::parse("../shared/action").unwrap(),
        ActionReference::Local("../shared/action".into())
    );
}

#[test]
fn parse_docker_image_is_docker() {
    assert_eq!(
        ActionReference::parse("docker://alpine:3.20").unwrap(),
        ActionReference::Docker("alpine:3.20".into())
    );
}

#[test]
fn parse_shorthand_defaults_to_github() {
    let reference = remote("actions/checkout@v4");

    assert_eq!(reference.clone_url(), "https://github.com/actions/checkout");
    assert_eq!(reference.git_ref(), "v4");
    assert_eq!(reference.directory(), None);
}

#[test]
fn parse_shorthand_without_ref_defaults_to_main() {
    assert_eq!(remote("actions/checkout").git_ref(), "main");
}

#[test]
fn parse_full_url_keeps_host() {
    let reference = remote("https://data.forgejo.org/actions/cache@v4");

    assert_eq!(reference.host(), "data.forgejo.org");
    assert_eq!(reference.owner(), "actions");
    assert_eq!(reference.repo(), "cache");
    assert_eq!(reference.git_ref(), "v4");
}

#[test]
fn parse_keeps_action_subdirectory() {
    let reference = remote("https://gitlab.com/group/tools/deploy/action@main");

    assert_eq!(reference.clone_url(), "https://gitlab.com/group/tools");
    assert_eq!(reference.directory(), Some("deploy/action"));
}

#[test]
fn parse_commit_sha_ref() {
    assert_eq!(
        remote("actions/cache@a1b2c3d4e5f6").git_ref(),
        "a1b2c3d4e5f6"
    );
}

#[test]
fn parse_rejects_empty_reference() {
    assert_eq!(
        ActionReference::parse("   "),
        Err(ActionError::InvalidReference("   ".into()))
    );
}

#[test]
fn parse_rejects_reference_without_repository() {
    assert_eq!(
        ActionReference::parse("checkout@v4"),
        Err(ActionError::InvalidReference("checkout@v4".into()))
    );
}

#[test]
fn parse_rejects_reference_with_empty_ref() {
    assert_eq!(
        ActionReference::parse("actions/cache@"),
        Err(ActionError::InvalidReference("actions/cache@".into()))
    );
}

#[test]
fn parse_rejects_url_without_path() {
    assert_eq!(
        ActionReference::parse("https://data.forgejo.org@v4"),
        Err(ActionError::InvalidReference(
            "https://data.forgejo.org@v4".into()
        ))
    );
}
