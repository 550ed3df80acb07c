//! What a step's `uses:` names: a local action, an action in a repository,
//! or a container image.
//!
//! A repository reference reads `[scheme://host/]owner/repo[/dir...][@ref]`;
//! without a scheme the host is `github.com` over `https`, and without a
//! ref the revision is `main`.
use vstd::prelude::*;

use crate::errors::ActionError;
use crate::text::{chars_of, joined, owned, string_of_range, trim, trimmed};
use crate::value_objects::remote_action_reference::RemoteActionReference;

verus! {

/// A parsed `uses:` reference.
#[derive(Debug, Clone, PartialEq, Eq)]
pub enum ActionReference {
    /// A path within the workflow's repository: `./...` or `../...`.
    Local(String),
    /// An action in a repository.
    Remote(RemoteActionReference),
    /// A container image: `docker://image`.
    Docker(String),
}

/// The abstract content of a reference.
pub enum ReferenceModel {
    Local(Seq<char>),
    Remote {
        scheme: Seq<char>,
        host: Seq<char>,
        owner: Seq<char>,
        repo: Seq<char>,
        directory: Option<Seq<char>>,
        git_ref: Seq<char>,
    },
    Docker(Seq<char>),
}

impl ActionReference {
    pub open spec fn model(&self) -> ReferenceModel {
        match self {
            ActionReference::Local(p) => ReferenceModel::Local(p@),
            ActionReference::Remote(r) => ReferenceModel::Remote {
                scheme: r.scheme_view(),
                host: r.host_view(),
                owner: r.owner_view(),
                repo: r.repo_view(),
                directory: r.directory_view(),
                git_ref: r.git_ref_view(),
            },
            ActionReference::Docker(i) => ReferenceModel::Docker(i@),
        }
    }
}

/// Index of the last `c` in `s`, or `-1`.
pub open spec fn last_index(s: Seq<char>, c: char) -> int
    decreases s.len(),
{
    if s.len() == 0 {
        -1
    } else if s.last() == c {
        s.len() - 1
    } else {
        last_index(s.drop_last(), c)
    }
}

/// Index of the first `c` in `s` at or after `i`, or `-1`.
pub open spec fn first_index(s: Seq<char>, c: char, i: int) -> int
    decreases s.len() - i,
{
    if i < 0 || i >= s.len() {
        -1
    } else if s[i] == c {
        i
    } else {
        first_index(s, c, i + 1)
    }
}

/// Index of the first `://` in `s` at or after `i`, or `-1`.
pub open spec fn scheme_end(s: Seq<char>, i: int) -> int
    decreases s.len() - i,
{
    if i < 0 || i + 3 > s.len() {
        -1
    } else if s[i] == ':' && s[i + 1] == '/' && s[i + 2] == '/' {
        i
    } else {
        scheme_end(s, i + 1)
    }
}

/// The pieces of `s` from index `i` between `/` separators, leaving out
/// empty ones; `cur` is the piece read so far.
pub open spec fn segments_from(s: Seq<char>, i: int, cur: Seq<char>) -> Seq<Seq<char>>
    decreases s.len() - i,
{
    let done = if cur.len() > 0 { seq![cur] } else { Seq::<Seq<char>>::empty() };
    if i < 0 || i >= s.len() {
        done
    } else if s[i] == '/' {
        done + segments_from(s, i + 1, Seq::empty())
    } else {
        segments_from(s, i + 1, cur.push(s[i]))
    }
}

/// The non-empty pieces of a path between `/` separators.
pub open spec fn segments(s: Seq<char>) -> Seq<Seq<char>> {
    segments_from(s, 0, Seq::empty())
}

/// The location and revision of a repository reference.
pub open spec fn split_git_ref(t: Seq<char>) -> Option<(Seq<char>, Seq<char>)> {
    let a = last_index(t, '@');
    if a < 0 {
        Some((t, "main"@))
    } else if a > 0 && a + 1 < t.len() {
        Some((t.take(a), t.skip(a + 1)))
    } else {
        None
    }
}

/// The scheme, host and path of a location.
pub open spec fn scheme_host_path(loc: Seq<char>) -> Option<(Seq<char>, Seq<char>, Seq<char>)> {
    let p = scheme_end(loc, 0);
    if p < 0 {
        Some(("https"@, "github.com"@, loc))
    } else {
        let rest = loc.skip(p + 3);
        let q = first_index(rest, '/', 0);
        if q < 0 || p == 0 || q == 0 {
            None
        } else {
            Some((loc.take(p), rest.take(q), rest.skip(q + 1)))
        }
    }
}

/// What a trimmed, non-empty reference text denotes, or nothing when it is
/// not one of the accepted forms.
pub open spec fn reference_of(t: Seq<char>) -> Option<ReferenceModel> {
    if t.len() == 0 {
        None
    } else if t.len() >= 9 && t.take(9) == "docker://"@ {
        Some(ReferenceModel::Docker(t.skip(9)))
    } else if (t.len() >= 2 && t.take(2) == "./"@) || (t.len() >= 3 && t.take(3) == "../"@) {
        Some(ReferenceModel::Local(t))
    } else {
        match split_git_ref(t) {
            None => None,
            Some((loc, git_ref)) => match scheme_host_path(loc) {
                None => None,
                Some((scheme, host, path)) => {
                    let segs = segments(path);
                    if segs.len() < 2 {
                        None
                    } else {
                        let rest = segs.skip(2);
                        Some(ReferenceModel::Remote {
                            scheme,
                            host,
                            owner: segs[0],
                            repo: segs[1],
                            directory: if rest.len() == 0 { None } else { Some(joined(rest, "/"@)) },
                            git_ref,
                        })
                    }
                },
            },
        }
    }
}

fn last_index_of(s: &Vec<char>, c: char) -> (r: Option<usize>)
    ensures
        match r {
            Some(i) => i == last_index(s@, c) && i < s@.len(),
            None => last_index(s@, c) == -1,
        },
{
    let mut i = s.len();
    proof {
        assert(s@.take(i as int) =~= s@);
    }
    while i > 0
        invariant
            i <= s@.len(),
            last_index(s@, c) == last_index(s@.take(i as int), c),
        decreases i,
    {
        proof {
            assert(s@.take(i as int).drop_last() =~= s@.take(i - 1));
        }
        if s[i - 1] == c {
            return Some(i - 1);
        }
        i = i - 1;
    }
    None
}

fn first_index_of(s: &Vec<char>, c: char, from: usize) -> (r: Option<usize>)
    requires
        from <= s@.len(),
    ensures
        match r {
            Some(i) => i == first_index(s@, c, from as int) && from <= i < s@.len(),
            None => first_index(s@, c, from as int) == -1,
        },
{
    let mut i = from;
    while i < s.len()
        invariant
            from <= i <= s@.len(),
            first_index(s@, c, from as int) == first_index(s@, c, i as int),
        decreases s@.len() - i,
    {
        if s[i] == c {
            return Some(i);
        }
        i = i + 1;
    }
    None
}

fn scheme_end_of(s: &Vec<char>) -> (r: Option<usize>)
    ensures
        match r {
            Some(i) => i == scheme_end(s@, 0) && i + 3 <= s@.len(),
            None => scheme_end(s@, 0) == -1,
        },
{
    if s.len() < 3 {
        return None;
    }
    let mut i: usize = 0;
    while i <= s.len() - 3
        invariant
            s@.len() >= 3,
            i <= s@.len() - 2,
            scheme_end(s@, 0) == scheme_end(s@, i as int),
        decreases s@.len() - i,
    {
        if s[i] == ':' && s[i + 1] == '/' && s[i + 2] == '/' {
            return Some(i);
        }
        i = i + 1;
    }
    None
}

/// The non-empty pieces of `s[from..]` between `/` separators.
fn split_segments(s: &Vec<char>, from: usize) -> (r: Vec<String>)
    requires
        from <= s@.len(),
    ensures
        r@.map_values(|x: String| x@) == segments(s@.skip(from as int)),
{
    let ghost t = s@.skip(from as int);
    let mut out: Vec<String> = Vec::new();
    let mut start = from;
    let mut i = from;
    proof {
        assert(s@.subrange(from as int, from as int) =~= Seq::<char>::empty());
        assert(segments(t) == segments_from(t, 0, Seq::empty()));
    }
    while i < s.len()
        invariant
            from <= start <= i <= s@.len(),
            t == s@.skip(from as int),
            segments(t) == out@.map_values(|x: String| x@) + segments_from(t, i - from, s@.subrange(start as int, i as int)),
        decreases s@.len() - i,
    {
        let ghost cur = s@.subrange(start as int, i as int);
        let ghost before = out@.map_values(|x: String| x@);
        proof {
            assert(t[i - from] == s@[i as int]);
        }
        if s[i] == '/' {
            if start < i {
                out.push(string_of_range(s, start, i));
                proof {
                    assert(out@.map_values(|x: String| x@) =~= before.push(cur));
                    assert(before + (seq![cur] + segments_from(t, i - from + 1, Seq::empty()))
                        =~= out@.map_values(|x: String| x@) + segments_from(t, i - from + 1, Seq::empty()));
                }
            } else {
                proof {
                    assert(cur =~= Seq::<char>::empty());
                    assert(Seq::<Seq<char>>::empty() + segments_from(t, i - from + 1, Seq::empty())
                        =~= segments_from(t, i - from + 1, Seq::empty()));
                }
            }
            start = i + 1;
            proof {
                assert(s@.subrange(start as int, start as int) =~= Seq::<char>::empty());
            }
        } else {
            proof {
                assert(s@.subrange(start as int, i + 1) =~= cur.push(s@[i as int]));
            }
        }
        i = i + 1;
    }
    let ghost cur = s@.subrange(start as int, i as int);
    let ghost before = out@.map_values(|x: String| x@);
    if start < i {
        out.push(string_of_range(s, start, i));
        proof {
            assert(out@.map_values(|x: String| x@) =~= before.push(cur));
            assert(before + seq![cur] =~= out@.map_values(|x: String| x@));
        }
    } else {
        proof {
            assert(before + Seq::<Seq<char>>::empty() =~= before);
        }
    }
    out
}

/// Whether `s` begins with the characters of `p`.
fn has_prefix(s: &Vec<char>, p: &str) -> (r: bool)
    ensures
        r == (s@.len() >= p@.len() && s@.take(p@.len() as int) == p@),
{
    let pc = chars_of(p);
    if pc.len() > s.len() {
        return false;
    }
    let mut i: usize = 0;
    while i < pc.len()
        invariant
            pc@ == p@,
            pc@.len() <= s@.len(),
            i <= pc@.len(),
            forall|k: int| 0 <= k < i ==> s@[k] == pc@[k],
        decreases pc@.len() - i,
    {
        if s[i] != pc[i] {
            proof {
                assert(s@.take(pc@.len() as int)[i as int] != p@[i as int]);
            }
            return false;
        }
        i = i + 1;
    }
    proof {
        assert(s@.take(pc@.len() as int) =~= p@);
    }
    true
}

impl ActionReference {
    /// Reads a `uses:` reference, with surrounding white space removed.
    ///
    /// Fails with [`ActionError::InvalidReference`], carrying the text as
    /// given, when the reference is empty or names no owner and repository,
    /// or when its revision, scheme, host or path is empty.
    pub fn parse(raw: &str) -> (r: Result<Self, ActionError>)
        ensures
            match reference_of(trimmed(raw@)) {
                Some(m) => r matches Ok(a) && a.model() == m,
                None => r matches Err(ActionError::InvalidReference(t)) && t@ == raw@,
            },
    {
        let reference = trim(raw);
        Self::parse_trimmed(reference.as_str(), raw)
    }

    /// Reads a reference already stripped of surrounding white space;
    /// errors carry `raw`.
    pub fn parse_trimmed(reference: &str, raw: &str) -> (r: Result<Self, ActionError>)
        ensures
            match reference_of(reference@) {
                Some(m) => r matches Ok(a) && a.model() == m,
                None => r matches Err(ActionError::InvalidReference(t)) && t@ == raw@,
            },
    {
        let t = chars_of(reference);
        let ghost tv = t@;
        if t.len() == 0 {
            return Err(ActionError::InvalidReference(owned(raw)));
        }
        proof {
            reveal_strlit("docker://");
            reveal_strlit("./");
            reveal_strlit("../");
        }
        if has_prefix(&t, "docker://") {
            return Ok(ActionReference::Docker(string_of_range(&t, 9, t.len())));
        }
        if has_prefix(&t, "./") || has_prefix(&t, "../") {
            return Ok(ActionReference::Local(owned(reference)));
        }
        // Revision.
        let (loc_end, git_ref) = match last_index_of(&t, '@') {
            None => (t.len(), owned("main")),
            Some(a) => {
                if a > 0 && a + 1 < t.len() {
                    (a, string_of_range(&t, a + 1, t.len()))
                } else {
                    return Err(ActionError::InvalidReference(owned(raw)));
                }
            },
        };
        let loc = {
            let mut v: Vec<char> = Vec::new();
            let mut k: usize = 0;
            while k < loc_end
                invariant
                    loc_end <= t@.len(),
                    k <= loc_end,
                    v@ == t@.take(k as int),
                decreases loc_end - k,
            {
                v.push(t[k]);
                k = k + 1;
                proof {
                    assert(v@ =~= t@.take(k as int));
                }
            }
            v
        };
        proof {
            assert(split_git_ref(tv) == Some((loc@, git_ref@))) by {
                if last_index(tv, '@') < 0 {
                    assert(loc@ =~= tv);
                }
            }
        }
        // Scheme, host and path.
        let (scheme, host, path_start) = match scheme_end_of(&loc) {
            None => (owned("https"), owned("github.com"), 0usize),
            Some(p) => {
                let rest_start = p + 3;
                let found = first_index_of(&loc, '/', rest_start);
                proof {
                    lemma_first_index_skip(loc@, '/', rest_start as int, 0);
                }
                match found {
                    None => return Err(ActionError::InvalidReference(owned(raw))),
                    Some(q) => {
                        if p == 0 || q == rest_start {
                            return Err(ActionError::InvalidReference(owned(raw)));
                        }
                        proof {
                            assert(loc@.skip(p + 3).take(q - rest_start) =~= loc@.subrange(rest_start as int, q as int));
                            assert(loc@.skip(p + 3).skip(q - rest_start + 1) =~= loc@.skip(q + 1));
                            assert(loc@.take(p as int) =~= loc@.subrange(0, p as int));
                        }
                        (string_of_range(&loc, 0, p), string_of_range(&loc, rest_start, q), q + 1)
                    },
                }
            },
        };
        proof {
            assert(loc@.skip(0) =~= loc@);
            assert(scheme_host_path(loc@) == Some((scheme@, host@, loc@.skip(path_start as int))));
        }
        let segs = split_segments(&loc, path_start);
        if segs.len() < 2 {
            return Err(ActionError::InvalidReference(owned(raw)));
        }
        let owner = segs[0].clone();
        let repo = segs[1].clone();
        let directory = if segs.len() > 2 {
            let mut dir = String::new();
            let mut k: usize = 2;
            while k < segs.len()
                invariant
                    2 <= k <= segs@.len(),
                    dir@ == joined(segs@.map_values(|x: String| x@).subrange(2, k as int), "/"@),
                decreases segs@.len() - k,
            {
                if k > 2 {
                    crate::text::append_str(&mut dir, "/");
                }
                crate::text::append_str(&mut dir, segs[k].as_str());
                proof {
                    let sv = segs@.map_values(|x: String| x@);
                    assert(sv.subrange(2, k + 1).drop_last() =~= sv.subrange(2, k as int));
                    if k == 2 {
                        assert(sv.subrange(2, 3).len() == 1);
                    }
                }
                k = k + 1;
            }
            Some(dir)
        } else {
            None
        };
        let remote = RemoteActionReference::new(scheme, host, owner, repo, directory, git_ref);
        proof {
            let sv = segs@.map_values(|x: String| x@);
            assert(sv.subrange(2, sv.len() as int) =~= sv.skip(2));
        }
        Ok(ActionReference::Remote(remote))
    }
}

proof fn lemma_first_index_skip(s: Seq<char>, c: char, i: int, k: int)
    requires
        0 <= i <= s.len(),
        0 <= k <= s.len() - i,
    ensures
        first_index(s.skip(i), c, k) == if first_index(s, c, i + k) == -1 { -1 } else { first_index(s, c, i + k) - i },
    decreases s.len() - i - k,
{
    if k < s.len() - i {
        assert(s.skip(i)[k] == s[i + k]);
        if s[i + k] != c {
            lemma_first_index_skip(s, c, i, k + 1);
        }
    }
}

} // verus!
