use vstd::prelude::*;

verus! {

/// Emitted when a container has been created for a run.
#[derive(Debug, Clone)]
pub struct ContainerStartedPayload {
    run_id: String,
    container_name: String,
}

impl ContainerStartedPayload {
    pub closed spec fn run_id_view(&self) -> Seq<char> { self.run_id@ }
    pub closed spec fn container_name_view(&self) -> Seq<char> { self.container_name@ }

    /// The payload of run `run_id` for container `container_name`.
    pub fn new(run_id: String, container_name: String) -> (r: Self)
        ensures
            r.run_id_view() == run_id@,
            r.container_name_view() == container_name@,
    {
        ContainerStartedPayload { run_id, container_name }
    }

    /// The run the container belongs to.
    pub fn run_id(&self) -> (r: &str)
        ensures
            r@ == self.run_id_view(),
    {
        self.run_id.as_str()
    }

    /// The container's name.
    pub fn container_name(&self) -> (r: &str)
        ensures
            r@ == self.container_name_view(),
    {
        self.container_name.as_str()
    }
}

/// Emitted when a run begins.
#[derive(Debug, Clone)]
pub struct RunStartedPayload {
    run_id: String,
    repository_path: String,
}

impl RunStartedPayload {
    pub closed spec fn run_id_view(&self) -> Seq<char> { self.run_id@ }
    pub closed spec fn repository_path_view(&self) -> Seq<char> { self.repository_path@ }

    /// The payload of run `run_id` against the repository at `repository_path`.
    pub fn new(run_id: String, repository_path: String) -> (r: Self)
        ensures
            r.run_id_view() == run_id@,
            r.repository_path_view() == repository_path@,
    {
        RunStartedPayload { run_id, repository_path }
    }

    /// The run.
    pub fn run_id(&self) -> (r: &str)
        ensures
            r@ == self.run_id_view(),
    {
        self.run_id.as_str()
    }

    /// The repository's path.
    pub fn repository_path(&self) -> (r: &str)
        ensures
            r@ == self.repository_path_view(),
    {
        self.repository_path.as_str()
    }
}

/// What is known of a step once it has finished: where it ran, whether it
/// succeeded, its exit code and its output.
#[derive(Debug, Clone)]
pub struct StepFinishedDetails {
    workflow_name: String,
    job_id: String,
    step_name: String,
    success: bool,
    exit_code: Option<i64>,
    stdout: String,
    stderr: String,
}

impl StepFinishedDetails {
    pub closed spec fn workflow_name_view(&self) -> Seq<char> { self.workflow_name@ }
    pub closed spec fn job_id_view(&self) -> Seq<char> { self.job_id@ }
    pub closed spec fn step_name_view(&self) -> Seq<char> { self.step_name@ }
    pub closed spec fn success_view(&self) -> bool { self.success }
    pub closed spec fn exit_code_view(&self) -> Option<i64> { self.exit_code }
    pub closed spec fn stdout_view(&self) -> Seq<char> { self.stdout@ }
    pub closed spec fn stderr_view(&self) -> Seq<char> { self.stderr@ }

    /// Details with empty output.
    pub fn new(workflow_name: String, job_id: String, step_name: String, success: bool, exit_code: Option<i64>) -> (r: Self)
        ensures
            r.workflow_name_view() == workflow_name@,
            r.job_id_view() == job_id@,
            r.step_name_view() == step_name@,
            r.success_view() == success,
            r.exit_code_view() == exit_code,
            r.stdout_view().len() == 0,
            r.stderr_view().len() == 0,
    {
        StepFinishedDetails {
            workflow_name,
            job_id,
            step_name,
            success,
            exit_code,
            stdout: String::new(),
            stderr: String::new(),
        }
    }

    /// Replaces the standard output.
    pub fn with_stdout(self, stdout: String) -> (r: Self)
        ensures
            r.stdout_view() == stdout@,
            r.workflow_name_view() == self.workflow_name_view(),
            r.job_id_view() == self.job_id_view(),
            r.step_name_view() == self.step_name_view(),
            r.success_view() == self.success_view(),
            r.exit_code_view() == self.exit_code_view(),
            r.stderr_view() == self.stderr_view(),
    {
        StepFinishedDetails { stdout, ..self }
    }

    /// Replaces the standard error.
    pub fn with_stderr(self, stderr: String) -> (r: Self)
        ensures
            r.stderr_view() == stderr@,
            r.workflow_name_view() == self.workflow_name_view(),
            r.job_id_view() == self.job_id_view(),
            r.step_name_view() == self.step_name_view(),
            r.success_view() == self.success_view(),
            r.exit_code_view() == self.exit_code_view(),
            r.stdout_view() == self.stdout_view(),
    {
        StepFinishedDetails { stderr, ..self }
    }

    /// The workflow's name.
    pub fn workflow_name(&self) -> (r: &str)
        ensures
            r@ == self.workflow_name_view(),
    {
        self.workflow_name.as_str()
    }

    /// The job's identifier.
    pub fn job_id(&self) -> (r: &str)
        ensures
            r@ == self.job_id_view(),
    {
        self.job_id.as_str()
    }

    /// The step's name.
    pub fn step_name(&self) -> (r: &str)
        ensures
            r@ == self.step_name_view(),
    {
        self.step_name.as_str()
    }

    /// Whether the step succeeded.
    pub fn success(&self) -> (r: bool)
        ensures
            r == self.success_view(),
    {
        self.success
    }

    /// The step's exit code, if it has one.
    pub fn exit_code(&self) -> (r: Option<i64>)
        ensures
            r == self.exit_code_view(),
    {
        self.exit_code
    }

    /// The step's standard output.
    pub fn stdout(&self) -> (r: &str)
        ensures
            r@ == self.stdout_view(),
    {
        self.stdout.as_str()
    }

    /// The step's standard error.
    pub fn stderr(&self) -> (r: &str)
        ensures
            r@ == self.stderr_view(),
    {
        self.stderr.as_str()
    }
}

/// Emitted when a step has finished: the run it belongs to and the
/// step's details.
#[derive(Debug, Clone)]
pub struct StepFinishedPayload {
    run_id: String,
    workflow_name: String,
    job_id: String,
    step_name: String,
    success: bool,
    exit_code: Option<i64>,
    stdout: String,
    stderr: String,
}

impl StepFinishedPayload {
    pub closed spec fn run_id_view(&self) -> Seq<char> { self.run_id@ }
    pub closed spec fn workflow_name_view(&self) -> Seq<char> { self.workflow_name@ }
    pub closed spec fn job_id_view(&self) -> Seq<char> { self.job_id@ }
    pub closed spec fn step_name_view(&self) -> Seq<char> { self.step_name@ }
    pub closed spec fn success_view(&self) -> bool { self.success }
    pub closed spec fn exit_code_view(&self) -> Option<i64> { self.exit_code }
    pub closed spec fn stdout_view(&self) -> Seq<char> { self.stdout@ }
    pub closed spec fn stderr_view(&self) -> Seq<char> { self.stderr@ }

    /// The payload of run `run_id` carrying `details`.
    pub fn new(run_id: String, details: StepFinishedDetails) -> (r: Self)
        ensures
            r.run_id_view() == run_id@,
            r.workflow_name_view() == details.workflow_name_view(),
            r.job_id_view() == details.job_id_view(),
            r.step_name_view() == details.step_name_view(),
            r.success_view() == details.success_view(),
            r.exit_code_view() == details.exit_code_view(),
            r.stdout_view() == details.stdout_view(),
            r.stderr_view() == details.stderr_view(),
    {
        StepFinishedPayload {
            run_id,
            workflow_name: details.workflow_name().to_owned(),
            job_id: details.job_id().to_owned(),
            step_name: details.step_name().to_owned(),
            success: details.success(),
            exit_code: details.exit_code(),
            stdout: details.stdout().to_owned(),
            stderr: details.stderr().to_owned(),
        }
    }

    /// The run.
    pub fn run_id(&self) -> (r: &str)
        ensures
            r@ == self.run_id_view(),
    {
        self.run_id.as_str()
    }

    /// The workflow's name.
    pub fn workflow_name(&self) -> (r: &str)
        ensures
            r@ == self.workflow_name_view(),
    {
        self.workflow_name.as_str()
    }

    /// The job's identifier.
    pub fn job_id(&self) -> (r: &str)
        ensures
            r@ == self.job_id_view(),
    {
        self.job_id.as_str()
    }

    /// The step's name.
    pub fn step_name(&self) -> (r: &str)
        ensures
            r@ == self.step_name_view(),
    {
        self.step_name.as_str()
    }

    /// Whether the step succeeded.
    pub fn success(&self) -> (r: bool)
        ensures
            r == self.success_view(),
    {
        self.success
    }

    /// The step's exit code, if it has one.
    pub fn exit_code(&self) -> (r: Option<i64>)
        ensures
            r == self.exit_code_view(),
    {
        self.exit_code
    }

    /// The step's standard output.
    pub fn stdout(&self) -> (r: &str)
        ensures
            r@ == self.stdout_view(),
    {
        self.stdout.as_str()
    }

    /// The step's standard error.
    pub fn stderr(&self) -> (r: &str)
        ensures
            r@ == self.stderr_view(),
    {
        self.stderr.as_str()
    }
}

/// Facts published while a run goes on.
#[derive(Debug, Clone)]
pub enum DomainEvent {
    RunStarted(RunStartedPayload),
    StepFinished(StepFinishedPayload),
}

} // verus!
