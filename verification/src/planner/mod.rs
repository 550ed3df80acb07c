//! The plan of a workflow run: stages of job runs.
pub mod plan;
pub mod run;
pub mod stage;
