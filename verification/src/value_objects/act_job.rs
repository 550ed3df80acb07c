use vstd::prelude::*;

verus! {

/// The job a run is limited to.
#[derive(Debug, Clone, PartialEq, Eq)]
pub struct ActJob {
    name: String,
}

impl ActJob {
    pub closed spec fn view_text(&self) -> Seq<char> {
        self.name@
    }

    /// Wraps a text.
    pub fn new(name: String) -> (r: Self)
        ensures
            r.view_text() == name@,
    {
        ActJob { name }
    }

    /// The text.
    pub fn as_str(&self) -> (r: &str)
        ensures
            r@ == self.view_text(),
    {
        self.name.as_str()
    }
}

} // verus!
