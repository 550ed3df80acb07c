use vstd::prelude::*;

use crate::entities::job::names_view;
use crate::entities::step::{opt_str, opt_view, Step};
use crate::text_map::TextMap;

verus! {

/// The shell a step runs under when it names none: `bash`.
pub open spec fn default_shell() -> Seq<char> {
    seq!['b', 'a', 's', 'h']
}

/// The flag that hands a script to the shell: `-c`.
pub open spec fn script_flag() -> Seq<char> {
    seq!['-', 'c']
}

/// The argument vector of a step that runs `script`.
pub open spec fn step_argv(step: Step, script: Seq<char>) -> Seq<Seq<char>> {
    let shell = match step.shell_view() {
        Some(s) => s@,
        None => default_shell(),
    };
    seq![shell, script_flag(), script]
}

/// The environment a step sees: its own `env:` over the job's.
pub open spec fn layered_env(job_env: TextMap<String>, step_env: TextMap<String>, k: Seq<char>) -> Option<String> {
    match step_env.lookup(k) {
        Some(v) => Some(v),
        None => job_env.lookup(k),
    }
}

/// The invocation a `run:` step turns into: an argument vector, the
/// directory it runs in and the environment it sees.
#[derive(Debug, Clone, PartialEq)]
pub struct ShellCommand {
    argv: Vec<String>,
    working_directory: Option<String>,
    env: TextMap<String>,
}

impl ShellCommand {
    pub closed spec fn argv_view(&self) -> Seq<Seq<char>> { names_view(self.argv@) }
    pub closed spec fn working_directory_view(&self) -> Option<Seq<char>> { opt_view(self.working_directory) }
    pub closed spec fn env_view(&self) -> TextMap<String> { self.env }

    /// The invocation of a step's script under its shell (`bash` when it
    /// names none), in its working directory, with the step's `env:` laid
    /// over the job's environment. `None` when the step has no script.
    pub fn for_step(step: &Step, job_env: &TextMap<String>) -> (r: Option<ShellCommand>)
        requires
            job_env.wf(),
        ensures
            r is None <==> step.run_view() is None,
            r matches Some(c) ==> {
                &&& c.argv_view() == step_argv(*step, step.run_view().unwrap()@)
                &&& c.working_directory_view() == opt_view(step.working_directory_view())
                &&& c.env_view().wf()
                &&& forall|k: Seq<char>| #[trigger] c.env_view().lookup(k) == layered_env(*job_env, step.env_view(), k)
            },
    {
        let script = match step.run() {
            Some(s) => s,
            None => {
                return None;
            },
        };
        let shell = step.effective_shell("bash");
        proof {
            reveal_strlit("bash");
        }
        let mut env = job_env.duplicate();
        env.extend_with(step.env());
        let mut argv: Vec<String> = Vec::new();
        argv.push(shell.to_owned());
        let flag = "-c";
        proof {
            reveal_strlit("-c");
        }
        argv.push(flag.to_owned());
        argv.push(script.to_owned());
        let working_directory = match step.working_directory() {
            Some(d) => Some(d.to_owned()),
            None => None,
        };
        let c = ShellCommand { argv, working_directory, env };
        proof {
            assert("bash"@ =~= default_shell());
            assert("-c"@ =~= script_flag());
            assert(c.argv@.len() == 3);
            assert(c.argv_view()[0] == shell@);
            assert(c.argv_view()[1] == script_flag());
            assert(c.argv_view()[2] == step.run_view().unwrap()@);
            assert(c.argv_view() =~= step_argv(*step, step.run_view().unwrap()@));
        }
        Some(c)
    }

    /// An invocation from an explicit argument vector.
    pub fn new(argv: Vec<String>, working_directory: Option<String>, env: TextMap<String>) -> (r: Self)
        ensures
            r.argv_view() == names_view(argv@),
            r.working_directory_view() == opt_view(working_directory),
            r.env_view() == env,
    {
        ShellCommand { argv, working_directory, env }
    }

    /// The argument vector to execute.
    pub fn argv(&self) -> (r: &[String])
        ensures
            names_view(r@) == self.argv_view(),
    {
        self.argv.as_slice()
    }

    /// The directory the command runs in, if one was set.
    pub fn working_directory(&self) -> (r: Option<&str>)
        ensures
            match r {
                Some(s) => self.working_directory_view() == Some(s@),
                None => self.working_directory_view() is None,
            },
    {
        opt_str(&self.working_directory)
    }

    /// The environment the command runs with.
    pub fn env(&self) -> (r: &TextMap<String>)
        ensures
            *r == self.env_view(),
    {
        &self.env
    }
}

} // verus!
