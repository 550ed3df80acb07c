use vstd::prelude::*;

verus! {

/// A secret made available to a run.
#[derive(Debug, Clone, PartialEq, Eq)]
pub struct Secret {
    name: String,
    value: String,
}

impl Secret {
    pub closed spec fn name_view(&self) -> Seq<char> {
        self.name@
    }

    pub closed spec fn value_view(&self) -> Seq<char> {
        self.value@
    }

    /// Creates the pair.
    pub fn new(name: String, value: String) -> (r: Self)
        ensures
            r.name_view() == name@,
            r.value_view() == value@,
    {
        Secret { name, value }
    }

    /// The secret's name.
    pub fn name(&self) -> (r: &str)
        ensures
            r@ == self.name_view(),
    {
        self.name.as_str()
    }

    /// The secret's value.
    pub fn value(&self) -> (r: &str)
        ensures
            r@ == self.value_view(),
    {
        self.value.as_str()
    }
}

} // verus!
