use vstd::prelude::*;

use crate::errors::ProjectBrandingError;

verus! {

/// A project description that is never empty.
#[derive(Debug, Clone, PartialEq, Eq)]
pub struct ProjectDescription {
    value: String,
}

impl ProjectDescription {
    /// The description's characters.
    pub closed spec fn value_view(&self) -> Seq<char> { self.value@ }

    /// The value is never empty.
    pub open spec fn wf(&self) -> bool {
        self.value_view().len() > 0
    }

    /// Accepts `value` unless it is empty.
    pub fn new(value: String) -> (r: Result<ProjectDescription, ProjectBrandingError>)
        ensures
            value@.len() == 0 <==> r == Err::<ProjectDescription, ProjectBrandingError>(ProjectBrandingError::EmptyDescription),
            value@.len() > 0 ==> (r matches Ok(p) && p.value_view() == value@ && p.wf()),
    {
        if value.as_str().is_empty() {
            Err(ProjectBrandingError::EmptyDescription)
        } else {
            Ok(ProjectDescription { value })
        }
    }

    /// The description as text.
    pub fn as_str(&self) -> (r: &str)
        ensures
            r@ == self.value_view(),
    {
        self.value.as_str()
    }

    /// The description as an owned text, as it is displayed.
    pub fn to_text(&self) -> (r: String)
        ensures
            r@ == self.value_view(),
    {
        self.value.clone()
    }
}

} // verus!
