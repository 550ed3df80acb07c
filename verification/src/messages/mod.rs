//! What the application asks for and what it reports having done.
pub mod events;
pub mod execute_workflow_command;
