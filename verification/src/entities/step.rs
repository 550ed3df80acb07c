use vstd::prelude::*;

use crate::text_map::TextMap;

verus! {

/// A copy of an optional text.
pub fn copy_text(o: &Option<String>) -> (r: Option<String>)
    ensures
        r == *o,
{
    match o {
        Some(s) => Some(s.clone()),
        None => None,
    }
}

/// The text inside an optional text, by view.
pub open spec fn opt_view(o: Option<String>) -> Option<Seq<char>> {
    match o {
        Some(s) => Some(s@),
        None => None,
    }
}

/// An optional text as a borrowed text.
pub fn opt_str(o: &Option<String>) -> (r: Option<&str>)
    ensures
        match r {
            Some(s) => o matches Some(t) && s@ == t@,
            None => o is None,
        },
{
    match o {
        Some(s) => Some(s.as_str()),
        None => None,
    }
}

/// `a` holds the same settings as `b`.
pub open spec fn copied_step(a: Step, b: Step) -> bool {
    &&& a.id_view() == b.id_view()
    &&& a.name_view() == b.name_view()
    &&& a.condition_view() == b.condition_view()
    &&& a.run_view() == b.run_view()
    &&& a.shell_view() == b.shell_view()
    &&& a.working_directory_view() == b.working_directory_view()
    &&& a.uses_view() == b.uses_view()
    &&& a.with_view().entries() == b.with_view().entries()
    &&& a.env_view().entries() == b.env_view().entries()
    &&& a.continue_on_error_view() == b.continue_on_error_view()
    &&& a.timeout_minutes_view() == b.timeout_minutes_view()
}

/// One step of a job: a `run:` script or a `uses:` action, with its
/// settings.
#[derive(Debug, Clone, PartialEq)]
pub struct Step {
    id: Option<String>,
    name: Option<String>,
    condition: Option<String>,
    run: Option<String>,
    shell: Option<String>,
    working_directory: Option<String>,
    uses: Option<String>,
    with: TextMap<String>,
    env: TextMap<String>,
    continue_on_error: Option<String>,
    timeout_minutes: Option<u64>,
}

impl Step {
    pub closed spec fn id_view(&self) -> Option<String> { self.id }
    pub closed spec fn name_view(&self) -> Option<String> { self.name }
    pub closed spec fn condition_view(&self) -> Option<String> { self.condition }
    pub closed spec fn run_view(&self) -> Option<String> { self.run }
    pub closed spec fn shell_view(&self) -> Option<String> { self.shell }
    pub closed spec fn working_directory_view(&self) -> Option<String> { self.working_directory }
    pub closed spec fn uses_view(&self) -> Option<String> { self.uses }
    pub closed spec fn with_view(&self) -> TextMap<String> { self.with }
    pub closed spec fn env_view(&self) -> TextMap<String> { self.env }
    pub closed spec fn continue_on_error_view(&self) -> Option<String> { self.continue_on_error }
    pub closed spec fn timeout_minutes_view(&self) -> Option<u64> { self.timeout_minutes }

    /// Both maps hold each key once.
    pub open spec fn wf(&self) -> bool {
        self.with_view().wf() && self.env_view().wf()
    }

    /// Creates a step from its settings.
    pub fn new(
        id: Option<String>,
        name: Option<String>,
        condition: Option<String>,
        run: Option<String>,
        shell: Option<String>,
        working_directory: Option<String>,
        uses: Option<String>,
        with: TextMap<String>,
        env: TextMap<String>,
        continue_on_error: Option<String>,
        timeout_minutes: Option<u64>,
    ) -> (r: Self)
        ensures
            r.id_view() == id,
            r.name_view() == name,
            r.condition_view() == condition,
            r.run_view() == run,
            r.shell_view() == shell,
            r.working_directory_view() == working_directory,
            r.uses_view() == uses,
            r.with_view() == with,
            r.env_view() == env,
            r.continue_on_error_view() == continue_on_error,
            r.timeout_minutes_view() == timeout_minutes,
    {
        Step { id, name, condition, run, shell, working_directory, uses, with, env, continue_on_error, timeout_minutes }
    }

    /// The step's `id:`.
    pub fn id(&self) -> (r: Option<&str>)
        ensures
            r is Some <==> self.id_view() is Some,
            r matches Some(s) ==> s@ == self.id_view().unwrap()@,
    {
        opt_str(&self.id)
    }

    /// The step's `name:`.
    pub fn name(&self) -> (r: Option<&str>)
        ensures
            r is Some <==> self.name_view() is Some,
            r matches Some(s) ==> s@ == self.name_view().unwrap()@,
    {
        opt_str(&self.name)
    }

    /// The step's `if:` condition.
    pub fn condition(&self) -> (r: Option<&str>)
        ensures
            r is Some <==> self.condition_view() is Some,
            r matches Some(s) ==> s@ == self.condition_view().unwrap()@,
    {
        opt_str(&self.condition)
    }

    /// The step's `run:` script.
    pub fn run(&self) -> (r: Option<&str>)
        ensures
            r is Some <==> self.run_view() is Some,
            r matches Some(s) ==> s@ == self.run_view().unwrap()@,
    {
        opt_str(&self.run)
    }

    /// The step's `shell:`.
    pub fn shell(&self) -> (r: Option<&str>)
        ensures
            r is Some <==> self.shell_view() is Some,
            r matches Some(s) ==> s@ == self.shell_view().unwrap()@,
    {
        opt_str(&self.shell)
    }

    /// The step's `working-directory:`.
    pub fn working_directory(&self) -> (r: Option<&str>)
        ensures
            r is Some <==> self.working_directory_view() is Some,
            r matches Some(s) ==> s@ == self.working_directory_view().unwrap()@,
    {
        opt_str(&self.working_directory)
    }

    /// The step's `uses:` action.
    pub fn uses(&self) -> (r: Option<&str>)
        ensures
            r is Some <==> self.uses_view() is Some,
            r matches Some(s) ==> s@ == self.uses_view().unwrap()@,
    {
        opt_str(&self.uses)
    }

    /// The step's `with:` inputs.
    pub fn with(&self) -> (r: &TextMap<String>)
        ensures
            *r == self.with_view(),
    {
        &self.with
    }

    /// The step's `env:` variables.
    pub fn env(&self) -> (r: &TextMap<String>)
        ensures
            *r == self.env_view(),
    {
        &self.env
    }

    /// The step's `continue-on-error:`.
    pub fn continue_on_error(&self) -> (r: Option<&str>)
        ensures
            r is Some <==> self.continue_on_error_view() is Some,
            r matches Some(s) ==> s@ == self.continue_on_error_view().unwrap()@,
    {
        opt_str(&self.continue_on_error)
    }

    /// The step's `timeout-minutes:`.
    pub fn timeout_minutes(&self) -> (r: Option<u64>)
        ensures
            r == self.timeout_minutes_view(),
    {
        self.timeout_minutes
    }

    /// The shell the step declares, or `default` when it declares none.
    pub fn effective_shell<'a>(&'a self, default: &'a str) -> (r: &'a str)
        ensures
            r@ == match self.shell_view() {
                Some(s) => s@,
                None => default@,
            },
    {
        match &self.shell {
            Some(s) => s.as_str(),
            None => default,
        }
    }

    /// A copy of the step.
    pub fn duplicate(&self) -> (r: Self)
        requires
            self.wf(),
        ensures
            r.wf(),
            copied_step(r, *self),
    {
        Step {
            id: copy_text(&self.id),
            name: copy_text(&self.name),
            condition: copy_text(&self.condition),
            run: copy_text(&self.run),
            shell: copy_text(&self.shell),
            working_directory: copy_text(&self.working_directory),
            uses: copy_text(&self.uses),
            with: self.with.duplicate(),
            env: self.env.duplicate(),
            continue_on_error: copy_text(&self.continue_on_error),
            timeout_minutes: self.timeout_minutes,
        }
    }
}

} // verus!
