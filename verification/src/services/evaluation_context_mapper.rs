//! The names of the roots of an evaluation context, as they are written
//! when a context is flattened into named JSON texts and read back.
use vstd::prelude::*;

use crate::text::same_text;

verus! {

/// One root of an evaluation context.
#[derive(Debug, Clone, Copy, PartialEq, Eq, Structural)]
pub enum ContextRoot {
    Github,
    Env,
    Job,
    Steps,
    Runner,
    Secrets,
    Vars,
    Strategy,
    Matrix,
    Needs,
    Inputs,
}

/// The name under which a root is written.
pub open spec fn root_name(r: ContextRoot) -> Seq<char> {
    match r {
        ContextRoot::Github => "github"@,
        ContextRoot::Env => "env"@,
        ContextRoot::Job => "job"@,
        ContextRoot::Steps => "steps"@,
        ContextRoot::Runner => "runner"@,
        ContextRoot::Secrets => "secrets"@,
        ContextRoot::Vars => "vars"@,
        ContextRoot::Strategy => "strategy"@,
        ContextRoot::Matrix => "matrix"@,
        ContextRoot::Needs => "needs"@,
        ContextRoot::Inputs => "inputs"@,
    }
}

/// The roots in the order in which a context is flattened.
pub open spec fn root_order() -> Seq<ContextRoot> {
    seq![
        ContextRoot::Github,
        ContextRoot::Env,
        ContextRoot::Job,
        ContextRoot::Steps,
        ContextRoot::Runner,
        ContextRoot::Secrets,
        ContextRoot::Vars,
        ContextRoot::Strategy,
        ContextRoot::Matrix,
        ContextRoot::Needs,
        ContextRoot::Inputs,
    ]
}

/// The root written under `name`, if any.
pub open spec fn root_named(name: Seq<char>) -> Option<ContextRoot> {
    if exists|i: int| 0 <= i < root_order().len() && root_name(#[trigger] root_order()[i]) == name {
        Some(choose|r: ContextRoot| root_name(r) == name)
    } else {
        None
    }
}

proof fn lemma_root_names_distinct()
    ensures
        forall|a: ContextRoot, b: ContextRoot| root_name(a) == root_name(b) ==> a == b,
{
    reveal_strlit("github");
    reveal_strlit("env");
    reveal_strlit("job");
    reveal_strlit("steps");
    reveal_strlit("runner");
    reveal_strlit("secrets");
    reveal_strlit("vars");
    reveal_strlit("strategy");
    reveal_strlit("matrix");
    reveal_strlit("needs");
    reveal_strlit("inputs");
    assert forall|a: ContextRoot, b: ContextRoot| root_name(a) == root_name(b) implies a == b by {
        if a != b {
            assert(root_name(a).len() != root_name(b).len() || root_name(a)[0] != root_name(b)[0]
                || root_name(a)[1] != root_name(b)[1]);
        }
    }
}

impl ContextRoot {
    /// The name under which this root is written.
    pub fn name(self) -> (r: &'static str)
        ensures
            r@ == root_name(self),
    {
        match self {
            ContextRoot::Github => "github",
            ContextRoot::Env => "env",
            ContextRoot::Job => "job",
            ContextRoot::Steps => "steps",
            ContextRoot::Runner => "runner",
            ContextRoot::Secrets => "secrets",
            ContextRoot::Vars => "vars",
            ContextRoot::Strategy => "strategy",
            ContextRoot::Matrix => "matrix",
            ContextRoot::Needs => "needs",
            ContextRoot::Inputs => "inputs",
        }
    }

    /// Every root, in the order in which a context is flattened.
    pub fn all() -> (r: Vec<ContextRoot>)
        ensures
            r@ == root_order(),
    {
        let r = vec![
            ContextRoot::Github,
            ContextRoot::Env,
            ContextRoot::Job,
            ContextRoot::Steps,
            ContextRoot::Runner,
            ContextRoot::Secrets,
            ContextRoot::Vars,
            ContextRoot::Strategy,
            ContextRoot::Matrix,
            ContextRoot::Needs,
            ContextRoot::Inputs,
        ];
        assert(r@ =~= root_order());
        r
    }

    /// The root written under `name`; `None` for a name that is none of
    /// them, which a reader skips.
    pub fn from_name(name: &str) -> (r: Option<ContextRoot>)
        ensures
            r == root_named(name@),
    {
        let roots = ContextRoot::all();
        let mut i: usize = 0;
        proof {
            lemma_root_names_distinct();
        }
        while i < roots.len()
            invariant
                roots@ == root_order(),
                i <= roots.len(),
                forall|j: int| 0 <= j < i ==> root_name(#[trigger] root_order()[j]) != name@,
                forall|a: ContextRoot, b: ContextRoot| root_name(a) == root_name(b) ==> a == b,
            decreases roots.len() - i,
        {
            let root = roots[i];
            if same_text(root.name(), name) {
                assert(root_name(root_order()[i as int]) == name@);
                let ghost c = choose|r: ContextRoot| root_name(r) == name@;
                assert(root_name(c) == name@);
                return Some(root);
            }
            i = i + 1;
        }
        None
    }
}

/// Every root's name reads back as that root.
pub proof fn lemma_root_name_round_trip(r: ContextRoot)
    ensures
        root_named(root_name(r)) == Some(r),
{
    lemma_root_names_distinct();
    let i: int = match r {
        ContextRoot::Github => 0,
        ContextRoot::Env => 1,
        ContextRoot::Job => 2,
        ContextRoot::Steps => 3,
        ContextRoot::Runner => 4,
        ContextRoot::Secrets => 5,
        ContextRoot::Vars => 6,
        ContextRoot::Strategy => 7,
        ContextRoot::Matrix => 8,
        ContextRoot::Needs => 9,
        ContextRoot::Inputs => 10,
    };
    assert(root_order()[i] == r);
    let c = choose|x: ContextRoot| root_name(x) == root_name(r);
    assert(root_name(c) == root_name(r));
}

} // verus!
