use vstd::prelude::*;

verus! {

/// Whether a run asks the user before acting, and whether it covers every
/// workflow.
#[derive(Debug, Clone, Default, PartialEq, Eq, Structural)]
pub struct OperationMode {
    interactive: bool,
    all_workflows: bool,
}

impl OperationMode {
    pub closed spec fn interactive_view(&self) -> bool { self.interactive }
    pub closed spec fn all_workflows_view(&self) -> bool { self.all_workflows }

    /// Whether the run asks the user before acting.
    pub fn interactive(&self) -> (r: bool)
        ensures
            r == self.interactive_view(),
    {
        self.interactive
    }

    /// Whether the run covers every workflow.
    pub fn all_workflows(&self) -> (r: bool)
        ensures
            r == self.all_workflows_view(),
    {
        self.all_workflows
    }

    /// Sets whether the run asks the user before acting.
    pub fn with_interactive(self, value: bool) -> (r: Self)
        ensures
            r.interactive_view() == value,
            r.all_workflows_view() == self.all_workflows_view(),
    {
        OperationMode { interactive: value, ..self }
    }

    /// Sets whether the run covers every workflow.
    pub fn with_all_workflows(self, value: bool) -> (r: Self)
        ensures
            r.all_workflows_view() == value,
            r.interactive_view() == self.interactive_view(),
    {
        OperationMode { all_workflows: value, ..self }
    }
}

} // verus!
