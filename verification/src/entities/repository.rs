use vstd::prelude::*;

verus! {

/// The repository a workflow runs against, known by its path.
#[derive(Debug, Clone, PartialEq, Eq)]
pub struct Repository {
    path: String,
}

impl Repository {
    pub closed spec fn path_view(&self) -> Seq<char> { self.path@ }

    /// The repository at `path`.
    pub fn new(path: String) -> (r: Self)
        ensures
            r.path_view() == path@,
    {
        Repository { path }
    }

    /// The repository's path.
    pub fn path(&self) -> (r: &str)
        ensures
            r@ == self.path_view(),
    {
        self.path.as_str()
    }
}

} // verus!
