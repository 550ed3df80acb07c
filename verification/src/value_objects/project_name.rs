use vstd::prelude::*;

use crate::errors::ProjectBrandingError;

verus! {

/// A project name that is never empty.
#[derive(Debug, Clone, PartialEq, Eq)]
pub struct ProjectName {
    value: String,
}

impl ProjectName {
    /// The name's characters.
    pub closed spec fn value_view(&self) -> Seq<char> { self.value@ }

    /// The value is never empty.
    pub open spec fn wf(&self) -> bool {
        self.value_view().len() > 0
    }

    /// Accepts `value` unless it is empty.
    pub fn new(value: String) -> (r: Result<ProjectName, ProjectBrandingError>)
        ensures
            value@.len() == 0 <==> r == Err::<ProjectName, ProjectBrandingError>(ProjectBrandingError::EmptyName),
            value@.len() > 0 ==> (r matches Ok(p) && p.value_view() == value@ && p.wf()),
    {
        if value.as_str().is_empty() {
            Err(ProjectBrandingError::EmptyName)
        } else {
            Ok(ProjectName { value })
        }
    }

    /// The name as text.
    pub fn as_str(&self) -> (r: &str)
        ensures
            r@ == self.value_view(),
    {
        self.value.as_str()
    }

    /// The name as an owned text, as it is displayed.
    pub fn to_text(&self) -> (r: String)
        ensures
            r@ == self.value_view(),
    {
        self.value.clone()
    }
}

} // verus!
