use vstd::prelude::*;

use crate::entities::step::opt_str;
use crate::text::{append_str, owned};

verus! {

/// An action in a repository of some forge: where to clone it from, which
/// directory of the repository holds it, and which revision to use.
#[derive(Debug, Clone, PartialEq, Eq)]
pub struct RemoteActionReference {
    scheme: String,
    host: String,
    owner: String,
    repo: String,
    directory: Option<String>,
    git_ref: String,
}

impl RemoteActionReference {
    pub closed spec fn scheme_view(&self) -> Seq<char> { self.scheme@ }
    pub closed spec fn host_view(&self) -> Seq<char> { self.host@ }
    pub closed spec fn owner_view(&self) -> Seq<char> { self.owner@ }
    pub closed spec fn repo_view(&self) -> Seq<char> { self.repo@ }
    pub closed spec fn directory_view(&self) -> Option<Seq<char>> {
        match self.directory {
            Some(d) => Some(d@),
            None => None,
        }
    }
    pub closed spec fn git_ref_view(&self) -> Seq<char> { self.git_ref@ }

    /// Creates a reference.
    pub fn new(scheme: String, host: String, owner: String, repo: String, directory: Option<String>, git_ref: String) -> (r: Self)
        ensures
            r.scheme_view() == scheme@,
            r.host_view() == host@,
            r.owner_view() == owner@,
            r.repo_view() == repo@,
            r.directory_view() == (match directory { Some(d) => Some(d@), None => None::<Seq<char>> }),
            r.git_ref_view() == git_ref@,
    {
        RemoteActionReference { scheme, host, owner, repo, directory, git_ref }
    }

    /// The URL scheme, such as `https`.
    pub fn scheme(&self) -> (r: &str)
        ensures
            r@ == self.scheme_view(),
    {
        self.scheme.as_str()
    }

    /// The forge's host name.
    pub fn host(&self) -> (r: &str)
        ensures
            r@ == self.host_view(),
    {
        self.host.as_str()
    }

    /// The owner of the repository.
    pub fn owner(&self) -> (r: &str)
        ensures
            r@ == self.owner_view(),
    {
        self.owner.as_str()
    }

    /// The repository's name.
    pub fn repo(&self) -> (r: &str)
        ensures
            r@ == self.repo_view(),
    {
        self.repo.as_str()
    }

    /// The directory of the repository that holds the action, if not the root.
    pub fn directory(&self) -> (r: Option<&str>)
        ensures
            match r {
                Some(s) => self.directory_view() == Some(s@),
                None => self.directory_view() is None,
            },
    {
        opt_str(&self.directory)
    }

    /// The revision to check out: a branch, a tag or a commit.
    pub fn git_ref(&self) -> (r: &str)
        ensures
            r@ == self.git_ref_view(),
    {
        self.git_ref.as_str()
    }

    /// The URL to clone the repository from: `scheme://host/owner/repo`.
    pub fn clone_url(&self) -> (r: String)
        ensures
            r@ == self.scheme_view() + "://"@ + self.host_view() + "/"@ + self.owner_view() + "/"@ + self.repo_view(),
    {
        let mut r = owned(self.scheme.as_str());
        append_str(&mut r, "://");
        append_str(&mut r, self.host.as_str());
        append_str(&mut r, "/");
        append_str(&mut r, self.owner.as_str());
        append_str(&mut r, "/");
        append_str(&mut r, self.repo.as_str());
        r
    }
}

} // verus!
