use vstd::prelude::*;

use crate::entities::repository::Repository;
use crate::value_objects::act_run_config::ActRunConfig;

verus! {

/// The request to run a workflow: its definition text, the run's
/// configuration and the repository it runs against.
#[derive(Debug, Clone, PartialEq, Eq)]
pub struct ExecuteWorkflowCommand {
    workflow_content: String,
    config: ActRunConfig,
    repository: Repository,
}

impl ExecuteWorkflowCommand {
    pub closed spec fn workflow_content_view(&self) -> Seq<char> { self.workflow_content@ }
    pub closed spec fn config_view(&self) -> ActRunConfig { self.config }
    pub closed spec fn repository_view(&self) -> Repository { self.repository }

    /// A request from its parts.
    pub fn new(workflow_content: String, config: ActRunConfig, repository: Repository) -> (r: Self)
        ensures
            r.workflow_content_view() == workflow_content@,
            r.config_view() == config,
            r.repository_view() == repository,
    {
        ExecuteWorkflowCommand { workflow_content, config, repository }
    }

    /// The workflow's definition text.
    pub fn workflow_content(&self) -> (r: &str)
        ensures
            r@ == self.workflow_content_view(),
    {
        self.workflow_content.as_str()
    }

    /// The run's configuration.
    pub fn config(&self) -> (r: &ActRunConfig)
        ensures
            *r == self.config_view(),
    {
        &self.config
    }

    /// The repository.
    pub fn repository(&self) -> (r: &Repository)
        ensures
            *r == self.repository_view(),
    {
        &self.repository
    }

    /// The parts, given back.
    pub fn into_parts(self) -> (r: (String, ActRunConfig, Repository))
        ensures
            r.0@ == self.workflow_content_view(),
            r.1 == self.config_view(),
            r.2 == self.repository_view(),
    {
        (self.workflow_content, self.config, self.repository)
    }
}

} // verus!
