//! Immutable values describing workflows, runs and their configuration.
pub mod comparison_operator;
pub mod expression;
pub mod expression_literal;
pub mod expression_token;
pub mod literal_value;
pub mod logical_operator;
pub mod trigger_filter;
pub mod workflow_dispatch_input;
pub mod workflow_trigger;
pub mod execution_plan;
pub mod execution_stage;
pub mod action_reference;
pub mod remote_action_reference;
pub mod act_event;
pub mod act_input;
pub mod act_job;
pub mod act_run_config;
pub mod act_workflow;
pub mod secret;
pub mod action_definition;
pub mod container_specification;
pub mod execution_defaults;
pub mod project_name;
pub mod project_description;
pub mod project_emblem;
pub mod project_version;
pub mod marker;
pub mod interface_mode;
pub mod operation_mode;
pub mod shell_command;
pub mod json_text_reader;
pub mod json_text_writer;
pub mod job_strategy;
