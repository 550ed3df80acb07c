use vstd::prelude::*;

use crate::entities::step::opt_str;

verus! {

/// Defaults for `run:` steps: the shell and the working directory.
#[derive(Debug, Clone, PartialEq, Default)]
pub struct RunStepDefaults {
    shell: Option<String>,
    working_directory: Option<String>,
}

impl RunStepDefaults {
    pub closed spec fn shell_view(&self) -> Option<String> { self.shell }
    pub closed spec fn working_directory_view(&self) -> Option<String> { self.working_directory }

    /// Defaults from a shell and a working directory.
    pub fn new(shell: Option<String>, working_directory: Option<String>) -> (r: Self)
        ensures
            r.shell_view() == shell,
            r.working_directory_view() == working_directory,
    {
        RunStepDefaults { shell, working_directory }
    }

    /// The default shell, if any.
    pub fn shell(&self) -> (r: Option<&str>)
        ensures
            r is Some <==> self.shell_view() is Some,
            r matches Some(s) ==> s@ == self.shell_view().unwrap()@,
    {
        opt_str(&self.shell)
    }

    /// The default working directory, if any.
    pub fn working_directory(&self) -> (r: Option<&str>)
        ensures
            r is Some <==> self.working_directory_view() is Some,
            r matches Some(s) ==> s@ == self.working_directory_view().unwrap()@,
    {
        opt_str(&self.working_directory)
    }
}

/// Defaults for all jobs of a workflow.
#[derive(Debug, Clone, PartialEq, Default)]
pub struct ExecutionDefaults {
    run: Option<RunStepDefaults>,
}

impl ExecutionDefaults {
    pub closed spec fn run_view(&self) -> Option<RunStepDefaults> { self.run }

    /// Defaults with the given `run:` settings.
    pub fn new(run: Option<RunStepDefaults>) -> (r: Self)
        ensures
            r.run_view() == run,
    {
        ExecutionDefaults { run }
    }

    /// The `run:` settings, if any.
    pub fn run(&self) -> (r: Option<&RunStepDefaults>)
        ensures
            match r {
                Some(d) => self.run_view() == Some(*d),
                None => self.run_view() is None,
            },
    {
        match &self.run {
            Some(d) => Some(d),
            None => None,
        }
    }
}

} // verus!
