use vstd::prelude::*;

use crate::entities::job::{copy_texts, names_view};
use crate::entities::step::{copy_text, opt_str};

verus! {

/// An input that a manually dispatched workflow accepts.
#[derive(Debug, Clone, PartialEq)]
pub struct WorkflowDispatchInput {
    description: Option<String>,
    required: bool,
    default_value: Option<String>,
    input_type: Option<String>,
    options: Vec<String>,
}

impl WorkflowDispatchInput {
    pub closed spec fn description_view(&self) -> Option<String> { self.description }
    pub closed spec fn required_view(&self) -> bool { self.required }
    pub closed spec fn default_view(&self) -> Option<String> { self.default_value }
    pub closed spec fn type_view(&self) -> Option<String> { self.input_type }
    pub closed spec fn options_view(&self) -> Seq<Seq<char>> { names_view(self.options@) }

    /// Creates an input description.
    pub fn new(
        description: Option<String>,
        required: bool,
        default_value: Option<String>,
        input_type: Option<String>,
        options: Vec<String>,
    ) -> (r: Self)
        ensures
            r.description_view() == description,
            r.required_view() == required,
            r.default_view() == default_value,
            r.type_view() == input_type,
            r.options_view() == names_view(options@),
    {
        WorkflowDispatchInput { description, required, default_value, input_type, options }
    }

    /// What the input is for.
    pub fn description(&self) -> (r: Option<&str>)
        ensures
            r is Some <==> self.description_view() is Some,
            r matches Some(s) ==> s@ == self.description_view().unwrap()@,
    {
        opt_str(&self.description)
    }

    /// Whether a dispatch must give the input.
    pub fn required(&self) -> (r: bool)
        ensures
            r == self.required_view(),
    {
        self.required
    }

    /// The value used when a dispatch gives none.
    pub fn default_value(&self) -> (r: Option<&str>)
        ensures
            r is Some <==> self.default_view() is Some,
            r matches Some(s) ==> s@ == self.default_view().unwrap()@,
    {
        opt_str(&self.default_value)
    }

    /// The declared type of the input.
    pub fn input_type(&self) -> (r: Option<&str>)
        ensures
            r is Some <==> self.type_view() is Some,
            r matches Some(s) ==> s@ == self.type_view().unwrap()@,
    {
        opt_str(&self.input_type)
    }

    /// The allowed values of a choice input.
    pub fn options(&self) -> (r: &[String])
        ensures
            names_view(r@) == self.options_view(),
    {
        self.options.as_slice()
    }

    /// A copy of the input description.
    pub fn duplicate(&self) -> (r: Self)
        ensures
            r.description_view() == self.description_view(),
            r.required_view() == self.required_view(),
            r.default_view() == self.default_view(),
            r.type_view() == self.type_view(),
            r.options_view() == self.options_view(),
    {
        WorkflowDispatchInput {
            description: copy_text(&self.description),
            required: self.required,
            default_value: copy_text(&self.default_value),
            input_type: copy_text(&self.input_type),
            options: copy_texts(self.options.as_slice()),
        }
    }
}

} // verus!
