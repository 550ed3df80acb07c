//! Entities of a workflow: steps, jobs and the runs planned for them.
pub mod job;
pub mod job_run;
pub mod step;
pub mod repository;
