use vstd::prelude::*;

use crate::entities::job::names_view;
use crate::text::same_text;
use crate::text_map::TextMap;
use crate::value_objects::trigger_filter::TriggerFilter;
use crate::value_objects::workflow_dispatch_input::WorkflowDispatchInput;

verus! {

/// The events that trigger a workflow: one event, a list of events, or
/// events with their filters.
#[derive(Debug, Clone, PartialEq)]
pub enum WorkflowTrigger {
    Single(String),
    Multiple(Vec<String>),
    WithTypes(TextMap<Option<TriggerFilter>>),
}

/// The name of the manual dispatch event.
pub open spec fn dispatch_event() -> Seq<char> {
    "workflow_dispatch"@
}

impl WorkflowTrigger {
    /// The names of the events, in order.
    pub open spec fn events_view(&self) -> Seq<Seq<char>> {
        match self {
            WorkflowTrigger::Single(name) => seq![name@],
            WorkflowTrigger::Multiple(names) => names_view(names@),
            WorkflowTrigger::WithTypes(map) => map.keys_view(),
        }
    }

    /// Whether the trigger is exactly the single event `name`.
    pub fn is_single(&self, name: &str) -> (r: bool)
        ensures
            r == (self matches WorkflowTrigger::Single(n) && n@ == name@),
    {
        match self {
            WorkflowTrigger::Single(n) => same_text(n.as_str(), name),
            _ => false,
        }
    }

    /// Whether the trigger is a list of events.
    pub fn is_multiple(&self) -> (r: bool)
        ensures
            r == self is Multiple,
    {
        match self {
            WorkflowTrigger::Multiple(_) => true,
            _ => false,
        }
    }

    /// Whether the trigger lists events with their filters.
    pub fn has_types(&self) -> (r: bool)
        ensures
            r == self is WithTypes,
    {
        match self {
            WorkflowTrigger::WithTypes(_) => true,
            _ => false,
        }
    }

    /// Whether the event `name` triggers the workflow.
    pub fn has_event(&self, name: &str) -> (r: bool)
        ensures
            r == self.events_view().contains(name@),
    {
        match self {
            WorkflowTrigger::Single(n) => {
                let r = same_text(n.as_str(), name);
                proof {
                    if r {
                        assert(self.events_view()[0] == name@);
                    }
                }
                r
            },
            WorkflowTrigger::Multiple(names) => {
                let mut i: usize = 0;
                while i < names.len()
                    invariant
                        i <= names@.len(),
                        self.events_view() == names_view(names@),
                        forall|k: int| 0 <= k < i ==> #[trigger] names@[k]@ != name@,
                    decreases names@.len() - i,
                {
                    if same_text(names[i].as_str(), name) {
                        proof {
                            assert(self.events_view()[i as int] == name@);
                        }
                        return true;
                    }
                    i = i + 1;
                }
                proof {
                    if self.events_view().contains(name@) {
                        let k = choose|k: int| 0 <= k < self.events_view().len() && self.events_view()[k] == name@;
                        assert(names@[k]@ == name@);
                    }
                }
                false
            },
            WorkflowTrigger::WithTypes(map) => {
                let r = map.contains_key(name);
                proof {
                    crate::text_map::lemma_index_in(map.entries(), name@);
                    if r {
                        assert(self.events_view()[crate::text_map::index_in(map.entries(), name@)] == name@);
                    } else if self.events_view().contains(name@) {
                        let k = choose|k: int| 0 <= k < self.events_view().len() && self.events_view()[k] == name@;
                        assert(crate::text_map::key_of(map.entries()[k]) == name@);
                    }
                }
                r
            },
        }
    }

    /// The names of the events, in order.
    pub fn event_names(&self) -> (r: Vec<&str>)
        ensures
            r@.map_values(|s: &str| s@) == self.events_view(),
    {
        let mut r: Vec<&str> = Vec::new();
        match self {
            WorkflowTrigger::Single(name) => {
                r.push(name.as_str());
                proof {
                    assert(r@.map_values(|s: &str| s@) =~= self.events_view());
                }
            },
            WorkflowTrigger::Multiple(names) => {
                let mut i: usize = 0;
                while i < names.len()
                    invariant
                        i <= names@.len(),
                        r@.len() == i,
                        forall|k: int| 0 <= k < i ==> #[trigger] r@[k]@ == names@[k]@,
                    decreases names@.len() - i,
                {
                    r.push(names[i].as_str());
                    i = i + 1;
                }
                proof {
                    assert(r@.map_values(|s: &str| s@) =~= self.events_view());
                }
            },
            WorkflowTrigger::WithTypes(map) => {
                let mut i: usize = 0;
                while i < map.len()
                    invariant
                        i <= map.entries().len(),
                        r@.len() == i,
                        forall|k: int| 0 <= k < i ==> #[trigger] r@[k]@ == map.entries()[k].0@,
                    decreases map.entries().len() - i,
                {
                    r.push(map.key_at(i).as_str());
                    i = i + 1;
                }
                proof {
                    assert(r@.map_values(|s: &str| s@) =~= self.events_view());
                }
            },
        }
        r
    }

    /// The inputs of a manual dispatch, when the trigger lists the
    /// `workflow_dispatch` event with a filter.
    pub fn workflow_dispatch_inputs(&self) -> (r: Option<&TextMap<WorkflowDispatchInput>>)
        ensures
            match self {
                WorkflowTrigger::WithTypes(map) => match map.lookup(dispatch_event()) {
                    Some(Some(filter)) => r == Some(&filter.inputs_view()),
                    _ => r is None,
                },
                _ => r is None,
            },
    {
        match self {
            WorkflowTrigger::WithTypes(events) => {
                match events.get("workflow_dispatch") {
                    Some(Some(filter)) => Some(filter.inputs()),
                    _ => None,
                }
            },
            _ => None,
        }
    }
}

impl Default for WorkflowTrigger {
    /// The `push` event alone.
    fn default() -> (r: Self)
        ensures
            r matches WorkflowTrigger::Single(n) && n@ == "push"@,
    {
        WorkflowTrigger::Single("push".to_string())
    }
}

} // verus!
