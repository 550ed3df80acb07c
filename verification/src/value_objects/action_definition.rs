use vstd::prelude::*;

use crate::entities::step::{opt_str, Step};
use crate::text_map::TextMap;

verus! {

/// One input that an action declares: its description, whether callers
/// must supply it, and the value used when they do not.
#[derive(Debug, Clone, PartialEq)]
pub struct ActionInput {
    description: Option<String>,
    required: bool,
    default: Option<String>,
}

impl ActionInput {
    pub closed spec fn description_view(&self) -> Option<String> { self.description }
    pub closed spec fn required_view(&self) -> bool { self.required }
    pub closed spec fn default_view(&self) -> Option<String> { self.default }

    /// Declares an input.
    pub fn new(description: Option<String>, required: bool, default: Option<String>) -> (r: Self)
        ensures
            r.description_view() == description,
            r.required_view() == required,
            r.default_view() == default,
    {
        ActionInput { description, required, default }
    }

    /// The input's description.
    pub fn description(&self) -> (r: Option<&str>)
        ensures
            r is Some <==> self.description_view() is Some,
            r matches Some(s) ==> s@ == self.description_view().unwrap()@,
    {
        opt_str(&self.description)
    }

    /// Whether callers must supply the input.
    pub fn required(&self) -> (r: bool)
        ensures
            r == self.required_view(),
    {
        self.required
    }

    /// The value used when callers do not supply the input.
    pub fn default(&self) -> (r: Option<&str>)
        ensures
            r is Some <==> self.default_view() is Some,
            r matches Some(s) ==> s@ == self.default_view().unwrap()@,
    {
        opt_str(&self.default)
    }
}

/// How an action runs.
#[derive(Debug, Clone, PartialEq)]
pub enum ActionRuntime {
    /// Shell steps run one after another in the job's container.
    Composite { steps: Vec<Step> },
    /// A JavaScript entry point on node12.
    Node12 { main: String },
    /// A JavaScript entry point on node16.
    Node16 { main: String },
    /// A JavaScript entry point on node20.
    Node20 { main: String },
    /// A container image.
    Docker { image: String },
}

/// Whether some entry of `es` declares a required input.
pub open spec fn some_required(es: Seq<(String, ActionInput)>) -> bool {
    exists|i: int| 0 <= i < es.len() && (#[trigger] es[i]).1.required_view()
}

/// A parsed action definition: its name, description, declared inputs and
/// runtime.
#[derive(Debug, Clone, PartialEq)]
pub struct ActionDefinition {
    name: String,
    description: Option<String>,
    inputs: TextMap<ActionInput>,
    runs: ActionRuntime,
}

impl ActionDefinition {
    pub closed spec fn name_view(&self) -> Seq<char> { self.name@ }
    pub closed spec fn description_view(&self) -> Option<String> { self.description }
    pub closed spec fn inputs_view(&self) -> TextMap<ActionInput> { self.inputs }
    pub closed spec fn runs_view(&self) -> ActionRuntime { self.runs }

    /// Creates a definition from its parts.
    pub fn new(name: String, description: Option<String>, inputs: TextMap<ActionInput>, runs: ActionRuntime) -> (r: Self)
        ensures
            r.name_view() == name@,
            r.description_view() == description,
            r.inputs_view() == inputs,
            r.runs_view() == runs,
    {
        ActionDefinition { name, description, inputs, runs }
    }

    /// The action's name.
    pub fn name(&self) -> (r: &str)
        ensures
            r@ == self.name_view(),
    {
        self.name.as_str()
    }

    /// The action's description.
    pub fn description(&self) -> (r: Option<&str>)
        ensures
            r is Some <==> self.description_view() is Some,
            r matches Some(s) ==> s@ == self.description_view().unwrap()@,
    {
        opt_str(&self.description)
    }

    /// The declared inputs.
    pub fn inputs(&self) -> (r: &TextMap<ActionInput>)
        ensures
            *r == self.inputs_view(),
    {
        &self.inputs
    }

    /// How the action runs.
    pub fn runs(&self) -> (r: &ActionRuntime)
        ensures
            *r == self.runs_view(),
    {
        &self.runs
    }

    /// The input declared under `name`, if any.
    pub fn input_named(&self, name: &str) -> (r: Option<&ActionInput>)
        ensures
            match r {
                Some(v) => self.inputs_view().lookup(name@) == Some(*v),
                None => self.inputs_view().lookup(name@) is None,
            },
    {
        self.inputs.get(name)
    }

    /// Whether at least one declared input is required.
    pub fn has_required_inputs(&self) -> (r: bool)
        ensures
            r == some_required(self.inputs_view().entries()),
    {
        let n = self.inputs.len();
        let mut i: usize = 0;
        while i < n
            invariant
                n == self.inputs_view().entries().len(),
                i <= n,
                forall|j: int| 0 <= j < i ==> !(#[trigger] self.inputs_view().entries()[j]).1.required_view(),
            decreases n - i,
        {
            if self.inputs.value_at(i).required() {
                return true;
            }
            i = i + 1;
        }
        false
    }
}

} // verus!
