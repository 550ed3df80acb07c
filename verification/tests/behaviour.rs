use ephact::expression::parser::parse_expr;
use ephact::services::expression_parser::ExpressionParser;
use ephact::services::act_run_config_factory::{ActRunConfigFactory, ActRunConfigInput};
use ephact::value_objects::marker::{Marker, MarkerPreset};
use ephact::value_objects::operation_mode::OperationMode;
use ephact::errors::{ActionError, EvalError, PlanError};
use ephact::aggregates::workflow::Workflow;
use ephact::entities::job::Job;
use ephact::expression::functions::{Builtin, Functions};
use ephact::services::evaluation_context_mapper::ContextRoot;
use ephact::services::execution_planner::ExecutionPlanner;
use ephact::services::expression_functions::ExpressionFunctions;
use ephact::services::expression_resolver::{ExpressionResolver, TemplatePiece};
use ephact::text_map::TextMap;
use ephact::value_objects::act_run_config::ActRunConfig;
use ephact::value_objects::action_reference::ActionReference;
use ephact::value_objects::expression::Expression;
use ephact::value_objects::literal_value::LiteralValue;
use ephact::value_objects::workflow_trigger::WorkflowTrigger;

fn literal(text: &str) -> TemplatePiece {
    TemplatePiece::Literal(text.to_string())
}

fn expression(text: &str) -> TemplatePiece {
    TemplatePiece::Expression(text.to_string())
}

#[test]
fn split_template_separates_literal_text_from_expressions() {
    assert_eq!(
        ExpressionResolver::split_template("publish --token ${{ secrets.TOKEN }}"),
        vec![literal("publish --token "), expression("secrets.TOKEN"), literal("")]
    );
}

#[test]
fn split_template_finds_every_expression_in_order() {
    assert_eq!(
        ExpressionResolver::split_template("${{ inputs.mode }}:${{ secrets.TOKEN }}:${{ inputs.mode }}"),
        vec![
            literal(""),
            expression("inputs.mode"),
            literal(":"),
            expression("secrets.TOKEN"),
            literal(":"),
            expression("inputs.mode"),
            literal(""),
        ]
    );
}

#[test]
fn split_template_keeps_text_without_expressions() {
    assert_eq!(
        ExpressionResolver::split_template("echo \"no expressions here\""),
        vec![literal("echo \"no expressions here\"")]
    );
    assert_eq!(
        ExpressionResolver::split_template("echo ${HOME} ${#args[@]}"),
        vec![literal("echo ${HOME} ${#args[@]}")]
    );
}

#[test]
fn split_template_keeps_an_unclosed_expression_as_text() {
    assert_eq!(
        ExpressionResolver::split_template("echo ${{ secrets.TOKEN"),
        vec![literal("echo ${{ secrets.TOKEN")]
    );
}

#[test]
fn parse_body_reads_an_expression() {
    assert_eq!(
        ExpressionResolver::parse_body("true").unwrap(),
        Expression::Literal(LiteralValue::Boolean(true))
    );
}

#[test]
fn parse_body_names_the_body_in_its_error() {
    match ExpressionResolver::parse_body("@") {
        Err(EvalError::TypeError(message)) => {
            assert!(message.starts_with("invalid expression '@': "));
            assert!(message.ends_with(" at position 0"));
        }
        other => panic!("unexpected outcome: {other:?}"),
    }
}

#[test]
fn context_roots_read_back_from_their_names() {
    for root in ContextRoot::all() {
        assert_eq!(ContextRoot::from_name(root.name()), Some(root));
    }
    assert_eq!(ContextRoot::all().len(), 11);
    assert_eq!(ContextRoot::all()[0].name(), "github");
    assert_eq!(ContextRoot::from_name("inputs"), Some(ContextRoot::Inputs));
    assert_eq!(ContextRoot::from_name("unknown"), None);
}

#[test]
fn string_predicates_ignore_case() {
    let f = Functions::new();
    assert!(f.contains_text("Hello World", "world"));
    assert!(f.contains_text("Hello World", "WORLD"));
    assert!(!f.contains_text("Hello World", "xyz"));
    assert!(f.starts_with_text("Hello World", "hello"));
    assert!(!f.starts_with_text("Hello World", "World"));
    assert!(f.ends_with_text("Hello World", "WORLD"));
    assert!(!f.ends_with_text("Hello World", "Hello"));
}

#[test]
fn format_text_replaces_placeholders() {
    let f = Functions::new();
    assert_eq!(f.format_text("Hello {0}", &["world".to_string()]).unwrap(), "Hello world");
    assert_eq!(
        f.format_text("{0} + {1} = {2}", &["1".to_string(), "2".to_string(), "3".to_string()]).unwrap(),
        "1 + 2 = 3"
    );
    assert_eq!(f.format_text("no placeholders", &[]).unwrap(), "no placeholders");
    assert_eq!(
        f.format_text("{{0}}", &["x".to_string()]),
        Err(EvalError::FormatError("format: invalid placeholder character '{' at position 1".to_string()))
    );
}

#[test]
fn format_text_rejects_malformed_templates() {
    let f = Functions::new();
    let x = ["x".to_string()];
    for template in ["Hello {5}", "{a}", "{0", "{}", "a}b"] {
        assert!(matches!(f.format_text(template, &x), Err(EvalError::FormatError(_))), "{template}");
    }
}

#[test]
fn join_texts_puts_the_separator_between_parts() {
    let f = ExpressionFunctions::new();
    let parts = ["a".to_string(), "b".to_string(), "c".to_string()];
    assert_eq!(f.join_texts(&parts, ", "), "a, b, c");
    assert_eq!(f.join_texts(&["only".to_string()], ", "), "only");
    assert_eq!(f.join_texts(&[], ", "), "");
}

#[test]
fn dispatch_chooses_builtins_by_name_and_count() {
    let f = Functions::new();
    assert_eq!(f.dispatch("CoNtAiNs", 2).unwrap(), Builtin::Contains);
    assert_eq!(f.dispatch("success", 0).unwrap(), Builtin::Success);
    assert_eq!(f.dispatch("format", 3).unwrap(), Builtin::Format);
    assert!(matches!(f.dispatch("nonexistent", 0), Err(EvalError::TypeError(_))));
    assert!(matches!(f.dispatch("contains", 1), Err(EvalError::ArgCount(_))));
    assert!(matches!(f.dispatch("success", 1), Err(EvalError::ArgCount(_))));
    assert!(matches!(f.dispatch("format", 0), Err(EvalError::ArgCount(_))));
}

#[test]
fn expect_arg_count_accepts_counts_in_range() {
    assert!(ExpressionFunctions::expect_arg_count("x", 1, 1, 3).is_ok());
    assert!(ExpressionFunctions::expect_arg_count("x", 3, 1, 3).is_ok());
    assert!(ExpressionFunctions::expect_arg_count("x", 0, 1, 3).is_err());
}

#[test]
fn text_map_reads_back_what_was_inserted() {
    let mut map = TextMap::new();
    map.insert("a".to_string(), 1);
    map.insert("b".to_string(), 2);
    map.insert("a".to_string(), 3);
    assert_eq!(map.get("a"), Some(&3));
    assert_eq!(map.get("b"), Some(&2));
    assert_eq!(map.get("c"), None);
    assert_eq!(map.len(), 2);
    assert_eq!(map.key_at(0), "a");
}

#[test]
fn text_map_layers_one_map_over_another() {
    let mut base = TextMap::new();
    base.insert("MODE".to_string(), "job".to_string());
    base.insert("KEEP".to_string(), "yes".to_string());
    let mut top = TextMap::new();
    top.insert("MODE".to_string(), "step".to_string());
    top.insert("NEW".to_string(), "1".to_string());
    base.extend_with(&top);
    assert_eq!(base.get("MODE").map(String::as_str), Some("step"));
    assert_eq!(base.get("KEEP").map(String::as_str), Some("yes"));
    assert_eq!(base.get("NEW").map(String::as_str), Some("1"));
    assert_eq!(base.len(), 3);
}

fn workflow(jobs: &[(&str, &[&str])]) -> Workflow {
    let mut map = TextMap::new();
    for (id, needs) in jobs {
        map.insert((*id).to_owned(), Job::new(None, None, Vec::new(), needs.iter().map(|n| (*n).to_owned()).collect()));
    }
    Workflow::new(Some("ci".to_owned()), None, WorkflowTrigger::default(), TextMap::new(), map)
}

#[test]
fn plan_puts_each_job_after_its_needs() {
    let wf = workflow(&[("deploy", &["test", "lint"]), ("test", &["build"]), ("lint", &["build"]), ("build", &[])]);
    let plan = ExecutionPlanner.plan(&wf).unwrap();
    let ids: Vec<Vec<String>> = plan
        .stages()
        .iter()
        .map(|s| s.runs().iter().map(|r| r.job_id().to_owned()).collect())
        .collect();
    assert_eq!(ids, vec![vec!["build".to_owned()], vec!["test".to_owned(), "lint".to_owned()], vec!["deploy".to_owned()]]);
    assert_eq!(plan.stages()[0].runs()[0].workflow_name(), Some("ci"));
    assert_eq!(plan.stages()[2].runs()[0].job().needs(), &["test".to_owned(), "lint".to_owned()]);
}

#[test]
fn plan_names_the_need_on_a_cycle() {
    let wf = workflow(&[("a", &["b"]), ("b", &["c"]), ("c", &["a"]), ("d", &[])]);
    match ExecutionPlanner.plan(&wf) {
        Err(PlanError::CycleDetected { job, dependency }) => {
            assert!(["a", "b", "c"].contains(&job.as_str()));
            assert!(["a", "b", "c"].contains(&dependency.as_str()));
        }
        other => panic!("unexpected outcome: {other:?}"),
    }
}

#[test]
fn plan_names_the_first_missing_need() {
    let wf = workflow(&[("build", &[]), ("test", &["build", "nothing"])]);
    assert_eq!(
        ExecutionPlanner.plan(&wf).unwrap_err(),
        PlanError::MissingDependency { job: "test".to_owned(), dependency: "nothing".to_owned() }
    );
}

#[test]
fn parse_trims_before_reading_a_reference() {
    assert_eq!(
        ActionReference::parse("  ./local  ").unwrap(),
        ActionReference::Local("./local".into())
    );
    assert_eq!(
        ActionReference::parse("docker://"),
        Ok(ActionReference::Docker(String::new()))
    );
    assert_eq!(
        ActionReference::parse("\t"),
        Err(ActionError::InvalidReference("\t".into()))
    );
}

#[test]
fn new_config_gets_a_fresh_version_four_uuid() {
    let config = ActRunConfig::new();
    let id = config.run_id();
    assert_eq!(id.len(), 36);
    for (i, c) in id.chars().enumerate() {
        if [8, 13, 18, 23].contains(&i) {
            assert_eq!(c, '-');
        } else {
            assert!(c.is_ascii_hexdigit() && !c.is_ascii_uppercase());
        }
    }
    assert_eq!(id.chars().nth(14), Some('4'));
    assert_ne!(ActRunConfig::new().run_id(), id);
}

#[test]
fn factory_copies_every_field_of_its_input() {
    let input = ActRunConfigInput::new()
        .with_workflow(Some(".github/workflows/ci.yml".to_string()))
        .with_job(Some("test".to_string()))
        .with_event(Some("push".to_string()))
        .with_inputs(vec![("environment".to_string(), "staging".to_string())])
        .with_secrets(vec![("KEY".to_string(), "value".to_string())])
        .with_all_workflows(true)
        .with_allow_repo_writes(true)
        .with_allow_real_container(false)
        .with_allow_real_fetcher(true)
        .with_allow_network(true)
        .with_run_id("run-7".to_string());
    let config = ActRunConfigFactory::create(input);
    assert_eq!(config.workflow().unwrap().as_str(), ".github/workflows/ci.yml");
    assert_eq!(config.job().unwrap().as_str(), "test");
    assert_eq!(config.event().unwrap().as_str(), "push");
    assert_eq!(config.inputs()[0].key(), "environment");
    assert_eq!(config.inputs()[0].value(), "staging");
    assert_eq!(config.secrets()[0].name(), "KEY");
    assert_eq!(config.secrets()[0].value(), "value");
    assert!(config.all_workflows());
    assert!(config.allow_repo_writes());
    assert!(!config.allow_real_container());
    assert!(config.allow_real_fetcher());
    assert!(config.allow_network());
    assert_eq!(config.run_id(), "run-7");
}

#[test]
fn marker_reports_its_preset() {
    assert_eq!(Marker::preset(MarkerPreset::Arrow).preset_value(), Some(MarkerPreset::Arrow));
    assert_eq!(Marker::custom_text("x".into()).preset_value(), None);
}

#[test]
fn operation_mode_keeps_each_flag() {
    let mode = OperationMode::default().with_interactive(true);
    assert!(mode.interactive());
    assert!(!mode.all_workflows());
    let mode = mode.with_all_workflows(true).with_interactive(false);
    assert!(!mode.interactive());
    assert!(mode.all_workflows());
}

#[test]
fn integer_literals_out_of_range_are_lexer_errors() {
    let err = parse_expr("x[99999999999999999999]").unwrap_err();
    assert_eq!(err.message(), "lexer error: IntegerOutOfRange(2)");
    assert_eq!(err.position(), 0);
    let err = ExpressionParser::parse_text("9223372036854775808").unwrap_err();
    assert_eq!(err.message(), "lexer error: IntegerOutOfRange(0)");
    match ExpressionResolver::parse_body("1 < 99999999999999999999") {
        Err(EvalError::TypeError(message)) => {
            assert!(message.starts_with("invalid expression '1 < 99999999999999999999': "));
            assert!(message.contains("IntegerOutOfRange(4)"));
        }
        other => panic!("unexpected outcome: {other:?}"),
    }
    assert!(parse_expr("-9223372036854775808").is_ok());
    assert!(parse_expr("'99999999999999999999'").is_ok());
}

#[test]
fn both_parsers_read_the_same_expressions() {
    for text in [
        "github.event_name == 'push' && !cancelled()",
        "contains(github.ref, 'main') || x[0].y.*",
        "(1 < 2.5) != false",
    ] {
        let a = ephact::expression::parser::parse_expr(text).unwrap();
        let b = ephact::services::expression_parser::ExpressionParser::parse_text(text).unwrap();
        assert_eq!(a.to_text(), b.to_text(), "{text}");
    }
    for text in ["a ==", "(", "f(1,", "@"] {
        assert!(ephact::expression::parser::parse_expr(text).is_err(), "{text}");
        assert!(ephact::services::expression_parser::ExpressionParser::parse_text(text).is_err(), "{text}");
    }
}
