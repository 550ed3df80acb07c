use vstd::prelude::*;

verus! {

/// The event a run simulates.
#[derive(Debug, Clone, PartialEq, Eq)]
pub struct ActEvent {
    name: String,
}

impl ActEvent {
    pub closed spec fn view_text(&self) -> Seq<char> {
        self.name@
    }

    /// Wraps a text.
    pub fn new(name: String) -> (r: Self)
        ensures
            r.view_text() == name@,
    {
        ActEvent { name }
    }

    /// The text.
    pub fn as_str(&self) -> (r: &str)
        ensures
            r@ == self.view_text(),
    {
        self.name.as_str()
    }
}

} // verus!
