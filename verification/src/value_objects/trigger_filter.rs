use vstd::prelude::*;

use crate::entities::job::names_view;
use crate::text_map::TextMap;
use crate::value_objects::workflow_dispatch_input::WorkflowDispatchInput;

verus! {

/// The filters of one trigger event: branches, tags, paths, activity types,
/// dispatch inputs and schedules.
#[derive(Debug, Clone, PartialEq)]
pub struct TriggerFilter {
    branches: Vec<String>,
    branches_ignore: Vec<String>,
    tags: Vec<String>,
    tags_ignore: Vec<String>,
    paths: Vec<String>,
    paths_ignore: Vec<String>,
    types: Vec<String>,
    inputs: TextMap<WorkflowDispatchInput>,
    cron: Vec<String>,
}

impl TriggerFilter {
    pub closed spec fn branches_view(&self) -> Seq<Seq<char>> { names_view(self.branches@) }
    pub closed spec fn branches_ignore_view(&self) -> Seq<Seq<char>> { names_view(self.branches_ignore@) }
    pub closed spec fn tags_view(&self) -> Seq<Seq<char>> { names_view(self.tags@) }
    pub closed spec fn tags_ignore_view(&self) -> Seq<Seq<char>> { names_view(self.tags_ignore@) }
    pub closed spec fn paths_view(&self) -> Seq<Seq<char>> { names_view(self.paths@) }
    pub closed spec fn paths_ignore_view(&self) -> Seq<Seq<char>> { names_view(self.paths_ignore@) }
    pub closed spec fn types_view(&self) -> Seq<Seq<char>> { names_view(self.types@) }
    pub closed spec fn cron_view(&self) -> Seq<Seq<char>> { names_view(self.cron@) }
    pub closed spec fn inputs_view(&self) -> TextMap<WorkflowDispatchInput> { self.inputs }

    /// A filter that lets every event through: all lists and inputs empty.
    pub fn new() -> (r: Self)
        ensures
            r.branches_view() == Seq::<Seq<char>>::empty(),
            r.branches_ignore_view() == Seq::<Seq<char>>::empty(),
            r.tags_view() == Seq::<Seq<char>>::empty(),
            r.tags_ignore_view() == Seq::<Seq<char>>::empty(),
            r.paths_view() == Seq::<Seq<char>>::empty(),
            r.paths_ignore_view() == Seq::<Seq<char>>::empty(),
            r.types_view() == Seq::<Seq<char>>::empty(),
            r.cron_view() == Seq::<Seq<char>>::empty(),
            r.inputs_view().wf(),
            r.inputs_view().entries().len() == 0,
    {
        let r = TriggerFilter {
            branches: Vec::new(),
            branches_ignore: Vec::new(),
            tags: Vec::new(),
            tags_ignore: Vec::new(),
            paths: Vec::new(),
            paths_ignore: Vec::new(),
            types: Vec::new(),
            inputs: TextMap::new(),
            cron: Vec::new(),
        };
        proof {
            assert(r.branches_view() =~= Seq::<Seq<char>>::empty());
            assert(r.branches_ignore_view() =~= Seq::<Seq<char>>::empty());
            assert(r.tags_view() =~= Seq::<Seq<char>>::empty());
            assert(r.tags_ignore_view() =~= Seq::<Seq<char>>::empty());
            assert(r.paths_view() =~= Seq::<Seq<char>>::empty());
            assert(r.paths_ignore_view() =~= Seq::<Seq<char>>::empty());
            assert(r.types_view() =~= Seq::<Seq<char>>::empty());
            assert(r.cron_view() =~= Seq::<Seq<char>>::empty());
        }
        r
    }

    /// Replaces the branches.
    pub fn with_branches(self, branches: Vec<String>) -> (r: Self)
        ensures
            r.branches_view() == names_view(branches@),
            r.branches_ignore_view() == self.branches_ignore_view(),
            r.tags_view() == self.tags_view(),
            r.tags_ignore_view() == self.tags_ignore_view(),
            r.paths_view() == self.paths_view(),
            r.paths_ignore_view() == self.paths_ignore_view(),
            r.types_view() == self.types_view(),
            r.inputs_view() == self.inputs_view(),
            r.cron_view() == self.cron_view(),
    {
        TriggerFilter { branches, ..self }
    }

    /// Replaces the branches ignore.
    pub fn with_branches_ignore(self, branches_ignore: Vec<String>) -> (r: Self)
        ensures
            r.branches_ignore_view() == names_view(branches_ignore@),
            r.branches_view() == self.branches_view(),
            r.tags_view() == self.tags_view(),
            r.tags_ignore_view() == self.tags_ignore_view(),
            r.paths_view() == self.paths_view(),
            r.paths_ignore_view() == self.paths_ignore_view(),
            r.types_view() == self.types_view(),
            r.inputs_view() == self.inputs_view(),
            r.cron_view() == self.cron_view(),
    {
        TriggerFilter { branches_ignore, ..self }
    }

    /// Replaces the tags.
    pub fn with_tags(self, tags: Vec<String>) -> (r: Self)
        ensures
            r.tags_view() == names_view(tags@),
            r.branches_view() == self.branches_view(),
            r.branches_ignore_view() == self.branches_ignore_view(),
            r.tags_ignore_view() == self.tags_ignore_view(),
            r.paths_view() == self.paths_view(),
            r.paths_ignore_view() == self.paths_ignore_view(),
            r.types_view() == self.types_view(),
            r.inputs_view() == self.inputs_view(),
            r.cron_view() == self.cron_view(),
    {
        TriggerFilter { tags, ..self }
    }

    /// Replaces the tags ignore.
    pub fn with_tags_ignore(self, tags_ignore: Vec<String>) -> (r: Self)
        ensures
            r.tags_ignore_view() == names_view(tags_ignore@),
            r.branches_view() == self.branches_view(),
            r.branches_ignore_view() == self.branches_ignore_view(),
            r.tags_view() == self.tags_view(),
            r.paths_view() == self.paths_view(),
            r.paths_ignore_view() == self.paths_ignore_view(),
            r.types_view() == self.types_view(),
            r.inputs_view() == self.inputs_view(),
            r.cron_view() == self.cron_view(),
    {
        TriggerFilter { tags_ignore, ..self }
    }

    /// Replaces the paths.
    pub fn with_paths(self, paths: Vec<String>) -> (r: Self)
        ensures
            r.paths_view() == names_view(paths@),
            r.branches_view() == self.branches_view(),
            r.branches_ignore_view() == self.branches_ignore_view(),
            r.tags_view() == self.tags_view(),
            r.tags_ignore_view() == self.tags_ignore_view(),
            r.paths_ignore_view() == self.paths_ignore_view(),
            r.types_view() == self.types_view(),
            r.inputs_view() == self.inputs_view(),
            r.cron_view() == self.cron_view(),
    {
        TriggerFilter { paths, ..self }
    }

    /// Replaces the paths ignore.
    pub fn with_paths_ignore(self, paths_ignore: Vec<String>) -> (r: Self)
        ensures
            r.paths_ignore_view() == names_view(paths_ignore@),
            r.branches_view() == self.branches_view(),
            r.branches_ignore_view() == self.branches_ignore_view(),
            r.tags_view() == self.tags_view(),
            r.tags_ignore_view() == self.tags_ignore_view(),
            r.paths_view() == self.paths_view(),
            r.types_view() == self.types_view(),
            r.inputs_view() == self.inputs_view(),
            r.cron_view() == self.cron_view(),
    {
        TriggerFilter { paths_ignore, ..self }
    }

    /// Replaces the types.
    pub fn with_types(self, types: Vec<String>) -> (r: Self)
        ensures
            r.types_view() == names_view(types@),
            r.branches_view() == self.branches_view(),
            r.branches_ignore_view() == self.branches_ignore_view(),
            r.tags_view() == self.tags_view(),
            r.tags_ignore_view() == self.tags_ignore_view(),
            r.paths_view() == self.paths_view(),
            r.paths_ignore_view() == self.paths_ignore_view(),
            r.inputs_view() == self.inputs_view(),
            r.cron_view() == self.cron_view(),
    {
        TriggerFilter { types, ..self }
    }

    /// Replaces the cron.
    pub fn with_cron(self, cron: Vec<String>) -> (r: Self)
        ensures
            r.cron_view() == names_view(cron@),
            r.branches_view() == self.branches_view(),
            r.branches_ignore_view() == self.branches_ignore_view(),
            r.tags_view() == self.tags_view(),
            r.tags_ignore_view() == self.tags_ignore_view(),
            r.paths_view() == self.paths_view(),
            r.paths_ignore_view() == self.paths_ignore_view(),
            r.types_view() == self.types_view(),
            r.inputs_view() == self.inputs_view(),
    {
        TriggerFilter { cron, ..self }
    }

    /// Replaces the dispatch inputs.
    pub fn with_inputs(self, inputs: TextMap<WorkflowDispatchInput>) -> (r: Self)
        ensures
            r.inputs_view() == inputs,
            r.branches_view() == self.branches_view(),
            r.branches_ignore_view() == self.branches_ignore_view(),
            r.tags_view() == self.tags_view(),
            r.tags_ignore_view() == self.tags_ignore_view(),
            r.paths_view() == self.paths_view(),
            r.paths_ignore_view() == self.paths_ignore_view(),
            r.types_view() == self.types_view(),
            r.cron_view() == self.cron_view(),
    {
        TriggerFilter { inputs, ..self }
    }

    /// Branches the event must touch.
    pub fn branches(&self) -> (r: &[String])
        ensures
            names_view(r@) == self.branches_view(),
    {
        self.branches.as_slice()
    }

    /// Branches that do not trigger the workflow.
    pub fn branches_ignore(&self) -> (r: &[String])
        ensures
            names_view(r@) == self.branches_ignore_view(),
    {
        self.branches_ignore.as_slice()
    }

    /// Tags the event must touch.
    pub fn tags(&self) -> (r: &[String])
        ensures
            names_view(r@) == self.tags_view(),
    {
        self.tags.as_slice()
    }

    /// Tags that do not trigger the workflow.
    pub fn tags_ignore(&self) -> (r: &[String])
        ensures
            names_view(r@) == self.tags_ignore_view(),
    {
        self.tags_ignore.as_slice()
    }

    /// Paths the event must touch.
    pub fn paths(&self) -> (r: &[String])
        ensures
            names_view(r@) == self.paths_view(),
    {
        self.paths.as_slice()
    }

    /// Paths that do not trigger the workflow.
    pub fn paths_ignore(&self) -> (r: &[String])
        ensures
            names_view(r@) == self.paths_ignore_view(),
    {
        self.paths_ignore.as_slice()
    }

    /// Activity types that trigger the workflow.
    pub fn types(&self) -> (r: &[String])
        ensures
            names_view(r@) == self.types_view(),
    {
        self.types.as_slice()
    }

    /// Schedules, in cron syntax, that trigger the workflow.
    pub fn cron(&self) -> (r: &[String])
        ensures
            names_view(r@) == self.cron_view(),
    {
        self.cron.as_slice()
    }

    /// Inputs of a manual dispatch.
    pub fn inputs(&self) -> (r: &TextMap<WorkflowDispatchInput>)
        ensures
            *r == self.inputs_view(),
    {
        &self.inputs
    }
}

} // verus!
