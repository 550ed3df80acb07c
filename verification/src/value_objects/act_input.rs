use vstd::prelude::*;

verus! {

/// An input given to a manually dispatched run.
#[derive(Debug, Clone, PartialEq, Eq)]
pub struct ActInput {
    key: String,
    value: String,
}

impl ActInput {
    pub closed spec fn key_view(&self) -> Seq<char> {
        self.key@
    }

    pub closed spec fn value_view(&self) -> Seq<char> {
        self.value@
    }

    /// Creates the pair.
    pub fn new(key: String, value: String) -> (r: Self)
        ensures
            r.key_view() == key@,
            r.value_view() == value@,
    {
        ActInput { key, value }
    }

    /// The input's name.
    pub fn key(&self) -> (r: &str)
        ensures
            r@ == self.key_view(),
    {
        self.key.as_str()
    }

    /// The input's value.
    pub fn value(&self) -> (r: &str)
        ensures
            r@ == self.value_view(),
    {
        self.value.as_str()
    }
}

} // verus!
