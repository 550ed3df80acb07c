use vstd::prelude::*;

verus! {

/// The workflow file a run is limited to.
#[derive(Debug, Clone, PartialEq, Eq)]
pub struct ActWorkflow {
    path: String,
}

impl ActWorkflow {
    pub closed spec fn view_text(&self) -> Seq<char> {
        self.path@
    }

    /// Wraps a text.
    pub fn new(path: String) -> (r: Self)
        ensures
            r.view_text() == path@,
    {
        ActWorkflow { path }
    }

    /// The text.
    pub fn as_str(&self) -> (r: &str)
        ensures
            r@ == self.view_text(),
    {
        self.path.as_str()
    }
}

} // verus!
