use vstd::prelude::*;

use crate::entities::step::{copied_step, copy_text, opt_str, Step};

verus! {

/// The texts of a list of strings.
pub open spec fn names_view(v: Seq<String>) -> Seq<Seq<char>> {
    v.map_values(|s: String| s@)
}

/// A copy of a list of strings.
pub fn copy_texts(v: &[String]) -> (r: Vec<String>)
    ensures
        r@ == v@,
{
    let mut r: Vec<String> = Vec::new();
    let mut i: usize = 0;
    while i < v.len()
        invariant
            i <= v@.len(),
            r@ == v@.take(i as int),
        decreases v@.len() - i,
    {
        r.push(v[i].clone());
        proof {
            assert(r@ =~= v@.take(i + 1));
        }
        i = i + 1;
    }
    proof {
        assert(v@.take(v@.len() as int) =~= v@);
    }
    r
}

/// `a` holds the same settings and steps as `b`.
pub open spec fn copied_job(a: Job, b: Job) -> bool {
    &&& a.name_view() == b.name_view()
    &&& a.runs_on_view() == b.runs_on_view()
    &&& a.needs_view() == b.needs_view()
    &&& a.steps_view().len() == b.steps_view().len()
    &&& forall|k: int| 0 <= k < a.steps_view().len() ==> copied_step(#[trigger] a.steps_view()[k], b.steps_view()[k])
}

/// A job of a workflow: its display name, its runner label, its steps and
/// the jobs it needs.
#[derive(Debug, Clone, PartialEq)]
pub struct Job {
    name: Option<String>,
    runs_on: Option<String>,
    steps: Vec<Step>,
    needs: Vec<String>,
}

impl Job {
    pub closed spec fn name_view(&self) -> Option<String> { self.name }
    pub closed spec fn runs_on_view(&self) -> Option<String> { self.runs_on }
    pub closed spec fn steps_view(&self) -> Seq<Step> { self.steps@ }

    /// The jobs this job needs, by name.
    pub closed spec fn needs_view(&self) -> Seq<Seq<char>> {
        names_view(self.needs@)
    }

    /// Every step is well formed.
    pub open spec fn wf(&self) -> bool {
        forall|i: int| 0 <= i < self.steps_view().len() ==> #[trigger] self.steps_view()[i].wf()
    }

    /// Creates a job.
    pub fn new(name: Option<String>, runs_on: Option<String>, steps: Vec<Step>, needs: Vec<String>) -> (r: Self)
        ensures
            r.name_view() == name,
            r.runs_on_view() == runs_on,
            r.steps_view() == steps@,
            r.needs_view() == names_view(needs@),
    {
        Job { name, runs_on, steps, needs }
    }

    /// The job's display name.
    pub fn name(&self) -> (r: Option<&str>)
        ensures
            r is Some <==> self.name_view() is Some,
            r matches Some(s) ==> s@ == self.name_view().unwrap()@,
    {
        opt_str(&self.name)
    }

    /// The job's runner label.
    pub fn runs_on(&self) -> (r: Option<&str>)
        ensures
            r is Some <==> self.runs_on_view() is Some,
            r matches Some(s) ==> s@ == self.runs_on_view().unwrap()@,
    {
        opt_str(&self.runs_on)
    }

    /// The job's steps.
    pub fn steps(&self) -> (r: &[Step])
        ensures
            r@ == self.steps_view(),
    {
        self.steps.as_slice()
    }

    /// The jobs this job needs.
    pub fn needs(&self) -> (r: &[String])
        ensures
            names_view(r@) == self.needs_view(),
    {
        self.needs.as_slice()
    }

    /// A copy of the job.
    pub fn duplicate(&self) -> (r: Self)
        requires
            self.wf(),
        ensures
            r.wf(),
            copied_job(r, *self),
    {
        let mut steps: Vec<Step> = Vec::new();
        let mut i: usize = 0;
        while i < self.steps.len()
            invariant
                i <= self.steps@.len(),
                steps@.len() == i,
                self.wf(),
                forall|k: int| 0 <= k < i ==> #[trigger] steps@[k].wf(),
                forall|k: int| 0 <= k < i ==> copied_step(#[trigger] steps@[k], self.steps@[k]),
            decreases self.steps@.len() - i,
        {
            proof {
                assert(self.steps_view()[i as int].wf());
            }
            steps.push(self.steps[i].duplicate());
            i = i + 1;
        }
        Job {
            name: copy_text(&self.name),
            runs_on: copy_text(&self.runs_on),
            steps,
            needs: copy_texts(self.needs.as_slice()),
        }
    }
}

} // verus!
