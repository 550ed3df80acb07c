//! Aggregates: a workflow and the jobs it owns.
pub mod workflow;
