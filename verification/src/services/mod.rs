//! Stateless domain services.
pub mod expression_lexer;
pub mod expression_parser;
pub mod expression_functions;
pub mod job_graph;
pub mod execution_planner;
pub mod act_run_config_factory;
pub mod expression_resolver;
pub mod evaluation_context_mapper;
pub mod expression_evaluator;
