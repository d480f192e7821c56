//! The run over all configurations. For each configuration the stale images
//! are removed, the firmware is built, the built images are checked and
//! copied, the target is programmed, its output is captured, post-processed
//! and saved; the run ends by saving its metadata. The orchestrator decides
//! what is to be done next and what a failure means; the caller does it and
//! reports back.

use vstd::prelude::*;
use vstd::string::*;

use crate::benchmark::ProcessOutputError;
use crate::capture::{CaptureError, Captured};
use crate::config::BuildOpt;
use crate::process::ProcessOutcome;
use crate::retry::{retry_end, RetryEnd, RetryState, RetryStep};
use crate::target::{CaptureStartError, ProgramError};
use crate::text::{
    lemma_views_add, lemma_views_take, push_str, push_string, replace_all, replaced, views,
};

verus! {

/// What a run needs to know beside its configurations.
#[derive(Debug)]
pub struct Settings {
    /// The name of the benchmark application.
    pub benchmark_name: String,
    /// The command of the build tool.
    pub build_cmd: String,
    /// The build arguments that select the target's board.
    pub target_flags: Vec<String>,
    /// The directory in which the build tool leaves the images.
    pub cache_dir: String,
    /// The directory in which the results are saved.
    pub output_dir: String,
    /// How often an interaction with the target is attempted; not zero.
    pub attempts: u32,
}

/// The record of one configuration that was run to its end.
#[derive(Debug)]
pub struct MetaRun {
    pub build_opt: BuildOpt,
    /// The canonical id of the configuration.
    pub name: String,
    /// The arguments of the build invocation.
    pub zig_build_args: Vec<String>,
}

/// The names under which the images are saved.
#[derive(Debug)]
pub struct MetaExeNames {
    pub secure: String,
    pub non_secure: String,
}

/// A record as plain data.
pub struct MetaRunView {
    pub build_opt: BuildOpt,
    pub name: Seq<char>,
    pub zig_build_args: Seq<Seq<char>>,
}

impl View for MetaRun {
    type V = MetaRunView;

    open spec fn view(&self) -> MetaRunView {
        MetaRunView {
            build_opt: self.build_opt,
            name: self.name@,
            zig_build_args: views(self.zig_build_args@),
        }
    }
}

/// The records of a run as plain data.
pub open spec fn matrix_view(matrix: Seq<MetaRun>) -> Seq<MetaRunView> {
    matrix.map_values(|run: MetaRun| run@)
}

/// How the removal of a stale image ended.
#[derive(Debug)]
pub enum RemoveOutcome {
    Removed,
    /// There was no such file, which is as good.
    NotFound,
    /// The file is there and could not be removed.
    Failed(String),
}

/// Why the output of the target could not be had.
#[derive(Debug)]
pub enum CaptureFailure {
    /// The target could not be restarted with its output attached.
    Start(CaptureStartError),
    /// The output stalled or grew too long.
    Capture(CaptureError),
}

/// What the caller reports back.
#[derive(Debug)]
pub enum Event {
    /// The run is to begin.
    Start,
    /// The stale images were dealt with: the secure one, and the other.
    Removed { secure: RemoveOutcome, non_secure: RemoveOutcome },
    /// The build tool ended.
    Built(ProcessOutcome),
    /// The built images were looked for.
    Checked { secure_exists: bool, non_secure_exists: bool },
    /// The built images were copied, or the first copy that failed.
    Copied(Result<(), String>),
    /// One attempt to program the target ended.
    Programmed(Result<(), ProgramError>),
    /// One attempt to capture the target's output ended.
    Captured(Result<Captured, CaptureFailure>),
    /// The benchmark's post-processing ended.
    Processed(Result<Option<Vec<u8>>, ProcessOutputError>),
    /// A file was written.
    Written(Result<(), String>),
}

/// Why a run was given up.
#[derive(Debug)]
pub enum RunError {
    /// A stale image could not be removed.
    RemoveFailed { path: String, error: String },
    /// The build tool could not be started.
    BuildSpawnFailed { cmd: Vec<String>, error: String },
    /// The build tool ran and reported failure.
    BuildFailed { cmd: Vec<String>, code: Option<i32> },
    /// The build tool reported success and did not leave this image.
    BuiltExeNotFound(String),
    /// A built image could not be copied.
    CopyFailed(String),
    /// The target could not be programmed, in as many attempts as were
    /// allowed.
    ProgrammingError(ProgramError),
    /// The output of the target could not be had, in as many attempts as
    /// were allowed.
    OutputAcquisitionError(CaptureFailure),
    /// A result could not be saved.
    WriteOutputError(String),
    /// The benchmark could not make sense of the output.
    ProcessOutputError(ProcessOutputError),
    /// The caller reported something that was not asked for.
    UnexpectedEvent,
}

/// A run that was given up: the configuration at which it happened, if it
/// happened at one, and why.
#[derive(Debug)]
pub struct Failure {
    pub config: Option<String>,
    pub error: RunError,
}

/// What the caller is to do next.
#[derive(Debug)]
pub enum Action {
    /// Remove these files; one that is not there is no failure.
    RemoveArtifacts { secure: String, non_secure: String },
    /// Run the build tool with this command line.
    Build { cmd: Vec<String> },
    /// Look whether these files exist.
    CheckArtifacts { secure: String, non_secure: String },
    /// Copy the files, each from the first path to the second.
    CopyArtifacts { secure_copy: (String, String), non_secure_copy: (String, String) },
    /// Program the target with these images, in this order.
    Program { images: Vec<String> },
    /// Restart the target and capture its output.
    Capture,
    /// Hand the raw output to the benchmark for post-processing.
    PostProcess { output: Vec<u8> },
    /// Save the raw output under this path.
    WriteRaw { path: String, output: Vec<u8> },
    /// Save the processed result under this path.
    WriteProcessed { path: String, result: Vec<u8> },
    /// Save the metadata of the run under this path.
    WriteMetadata { path: String },
    /// Nothing: the run is over.
    Finished,
    /// Nothing: the run was given up. This is reported once; from then on
    /// the orchestrator answers `Finished`.
    Abort(Failure),
}

/// Where a run stands within a configuration.
#[derive(Debug)]
pub enum Phase {
    NotStarted,
    Clean,
    Build,
    Verify,
    Copy,
    Program(RetryState),
    Capture(RetryState),
    /// The benchmark is at work on the raw output, which is kept.
    PostProcess(Vec<u8>),
    /// The raw output is being saved; the processed result, if there is
    /// one, is kept.
    PersistRaw(Option<Vec<u8>>),
    PersistProcessed,
    WriteMetadata,
    Finished,
    Aborted,
}

/// Where a run stands within a configuration, as plain data.
pub enum PhaseView {
    NotStarted,
    Clean,
    Build,
    Verify,
    Copy,
    Program { remaining: nat, failed: nat },
    Capture { remaining: nat, failed: nat },
    PostProcess { raw: Seq<u8> },
    PersistRaw { processed: Option<Seq<u8>> },
    PersistProcessed,
    WriteMetadata,
    Finished,
    Aborted,
}

impl View for Phase {
    type V = PhaseView;

    open spec fn view(&self) -> PhaseView {
        match self {
            Phase::NotStarted => PhaseView::NotStarted,
            Phase::Clean => PhaseView::Clean,
            Phase::Build => PhaseView::Build,
            Phase::Verify => PhaseView::Verify,
            Phase::Copy => PhaseView::Copy,
            Phase::Program(state) => PhaseView::Program {
                remaining: state.remaining_attempts(),
                failed: state.failed_attempts(),
            },
            Phase::Capture(state) => PhaseView::Capture {
                remaining: state.remaining_attempts(),
                failed: state.failed_attempts(),
            },
            Phase::PostProcess(raw) => PhaseView::PostProcess { raw: raw@ },
            Phase::PersistRaw(processed) => PhaseView::PersistRaw {
                processed: match processed {
                    Some(bytes) => Some(bytes@),
                    None => None,
                },
            },
            Phase::PersistProcessed => PhaseView::PersistProcessed,
            Phase::WriteMetadata => PhaseView::WriteMetadata,
            Phase::Finished => PhaseView::Finished,
            Phase::Aborted => PhaseView::Aborted,
        }
    }
}

impl PhaseView {
    /// Whether the phase belongs to a configuration.
    pub open spec fn in_configuration(self) -> bool {
        !(self is NotStarted || self is WriteMetadata || self is Finished || self is Aborted)
    }
}

/// The path of `name` in the directory `dir`: the two with one `/` between
/// them. This is the harness's own rule for the files that it names itself.
/// Unlike `Path::join` of the standard library it puts a `/` on every
/// system, and it does not take a `name` that starts with `/` for the whole
/// path.
pub open spec fn join(dir: Seq<char>, name: Seq<char>) -> Seq<char> {
    if dir.len() == 0 {
        name
    } else if dir.last() == '/' {
        dir + name
    } else {
        dir + "/"@ + name
    }
}

/// Forms the path of `name` in the directory `dir`, with one `/` between
/// them.
pub fn join_path(dir: &str, name: &str) -> (r: String)
    ensures
        r@ == join(dir@, name@),
{
    let n = dir.unicode_len();
    let mut path = dir.to_owned();
    if n > 0 && dir.get_char(n - 1) != '/' {
        path.append("/");
    }
    path.append(name);
    proof {
        if n == 0 {
            assert(path@ =~= name@);
        }
    }
    path
}

/// What a run is about, as plain data.
pub struct SetupView {
    pub benchmark_name: Seq<char>,
    pub build_cmd: Seq<char>,
    pub target_flags: Seq<Seq<char>>,
    pub cache_dir: Seq<char>,
    pub output_dir: Seq<char>,
    pub attempts: nat,
    pub options: Seq<BuildOpt>,
}

impl SetupView {
    /// Where the build tool leaves the secure image.
    pub open spec fn secure_image(self) -> Seq<char> {
        join(self.cache_dir, "secure"@)
    }

    /// Where the build tool leaves the image of the benchmark.
    pub open spec fn non_secure_image(self) -> Seq<char> {
        join(self.cache_dir, self.benchmark_name)
    }

    /// The names under which the images are saved.
    pub open spec fn secure_exe_name(self) -> Seq<char> {
        "secure.elf"@
    }

    /// The names under which the images are saved.
    pub open spec fn non_secure_exe_name(self) -> Seq<char> {
        self.benchmark_name + ".elf"@
    }

    /// The path of the file of configuration `id` with the ending `ending`.
    pub open spec fn result_path(self, id: Seq<char>, ending: Seq<char>) -> Seq<char> {
        join(self.output_dir, id + "."@ + ending)
    }

    /// The path of the run's metadata.
    pub open spec fn metadata_path(self) -> Seq<char> {
        join(self.output_dir, "meta.json"@)
    }

    /// The arguments of the build invocation for a configuration: the build
    /// step of the benchmark, the configuration's own arguments, and the
    /// target's.
    pub open spec fn build_args(self, opt: BuildOpt) -> Seq<Seq<char>> {
        seq!["build"@, "build:"@ + self.benchmark_name] + opt.build_args() + self.target_flags
    }

    /// The command line of the build invocation for a configuration.
    pub open spec fn build_command(self, opt: BuildOpt) -> Seq<Seq<char>> {
        seq![self.build_cmd] + self.build_args(opt)
    }

    /// The images to program, in the order in which they are handed over.
    pub open spec fn images(self) -> Seq<Seq<char>> {
        seq![self.non_secure_image(), self.secure_image()]
    }

    /// The record of a configuration that was run to its end.
    pub open spec fn record(self, opt: BuildOpt) -> MetaRunView {
        MetaRunView {
            build_opt: opt,
            name: opt.canonical_id(),
            zig_build_args: self.build_args(opt),
        }
    }

    /// The records of the first `n` configurations.
    pub open spec fn records(self, n: int) -> Seq<MetaRunView> {
        self.options.take(n).map_values(|opt: BuildOpt| self.record(opt))
    }
}

/// Where a run stands, as plain data.
pub struct RunView {
    /// The configurations that were run to their end.
    pub index: int,
    pub phase: PhaseView,
}

impl RunView {
    /// Whether a run can stand like this: within a configuration only if
    /// there is one, and at the first before it has begun.
    pub open spec fn valid(self, setup: SetupView) -> bool {
        &&& 0 <= self.index <= setup.options.len()
        &&& self.phase.in_configuration() ==> self.index < setup.options.len()
        &&& self.phase is NotStarted ==> self.index == 0
    }
}

/// What the caller is to do next, as plain data. Failures are handed on as
/// they were reported, so they stand here as they are.
pub enum ActionView {
    RemoveArtifacts { secure: Seq<char>, non_secure: Seq<char> },
    Build { cmd: Seq<Seq<char>> },
    CheckArtifacts { secure: Seq<char>, non_secure: Seq<char> },
    CopyArtifacts {
        secure_copy: (Seq<char>, Seq<char>),
        non_secure_copy: (Seq<char>, Seq<char>),
    },
    Program { images: Seq<Seq<char>> },
    Capture,
    PostProcess { output: Seq<u8> },
    WriteRaw { path: Seq<char>, output: Seq<u8> },
    WriteProcessed { path: Seq<char>, result: Seq<u8> },
    WriteMetadata { path: Seq<char> },
    Finished,
    Abort { config: Option<Seq<char>>, error: ErrorView },
}

/// Why a run was given up, as plain data.
pub enum ErrorView {
    RemoveFailed { path: Seq<char>, error: String },
    BuildSpawnFailed { cmd: Seq<Seq<char>>, error: String },
    BuildFailed { cmd: Seq<Seq<char>>, code: Option<i32> },
    BuiltExeNotFound(Seq<char>),
    CopyFailed(String),
    ProgrammingError(ProgramError),
    OutputAcquisitionError(CaptureFailure),
    WriteOutputError(String),
    ProcessOutputError(ProcessOutputError),
    UnexpectedEvent,
}

impl View for RunError {
    type V = ErrorView;

    open spec fn view(&self) -> ErrorView {
        match self {
            RunError::RemoveFailed { path, error } => ErrorView::RemoveFailed {
                path: path@,
                error: *error,
            },
            RunError::BuildSpawnFailed { cmd, error } => ErrorView::BuildSpawnFailed {
                cmd: views(cmd@),
                error: *error,
            },
            RunError::BuildFailed { cmd, code } => ErrorView::BuildFailed {
                cmd: views(cmd@),
                code: *code,
            },
            RunError::BuiltExeNotFound(path) => ErrorView::BuiltExeNotFound(path@),
            RunError::CopyFailed(error) => ErrorView::CopyFailed(*error),
            RunError::ProgrammingError(error) => ErrorView::ProgrammingError(*error),
            RunError::OutputAcquisitionError(error) => ErrorView::OutputAcquisitionError(*error),
            RunError::WriteOutputError(error) => ErrorView::WriteOutputError(*error),
            RunError::ProcessOutputError(error) => ErrorView::ProcessOutputError(*error),
            RunError::UnexpectedEvent => ErrorView::UnexpectedEvent,
        }
    }
}

impl View for Action {
    type V = ActionView;

    open spec fn view(&self) -> ActionView {
        match self {
            Action::RemoveArtifacts { secure, non_secure } => ActionView::RemoveArtifacts {
                secure: secure@,
                non_secure: non_secure@,
            },
            Action::Build { cmd } => ActionView::Build { cmd: views(cmd@) },
            Action::CheckArtifacts { secure, non_secure } => ActionView::CheckArtifacts {
                secure: secure@,
                non_secure: non_secure@,
            },
            Action::CopyArtifacts { secure_copy, non_secure_copy } => ActionView::CopyArtifacts {
                secure_copy: (secure_copy.0@, secure_copy.1@),
                non_secure_copy: (non_secure_copy.0@, non_secure_copy.1@),
            },
            Action::Program { images } => ActionView::Program { images: views(images@) },
            Action::Capture => ActionView::Capture,
            Action::PostProcess { output } => ActionView::PostProcess { output: output@ },
            Action::WriteRaw { path, output } => ActionView::WriteRaw {
                path: path@,
                output: output@,
            },
            Action::WriteProcessed { path, result } => ActionView::WriteProcessed {
                path: path@,
                result: result@,
            },
            Action::WriteMetadata { path } => ActionView::WriteMetadata { path: path@ },
            Action::Finished => ActionView::Finished,
            Action::Abort(failure) => ActionView::Abort {
                config: match failure.config {
                    Some(id) => Some(id@),
                    None => None,
                },
                error: failure.error@,
            },
        }
    }
}

/// The start of configuration `index`, or the end of the run if there is
/// none: the first thing to do for a configuration is to remove the stale
/// images, the last thing of a run is to save its metadata.
pub open spec fn begin(setup: SetupView, index: int) -> (RunView, ActionView) {
    if index >= setup.options.len() {
        (
            RunView { index, phase: PhaseView::WriteMetadata },
            ActionView::WriteMetadata { path: setup.metadata_path() },
        )
    } else {
        (
            RunView { index, phase: PhaseView::Clean },
            ActionView::RemoveArtifacts {
                secure: setup.secure_image(),
                non_secure: setup.non_secure_image(),
            },
        )
    }
}

/// Giving up: the failure names the configuration at which the run stands,
/// if it stands at one.
pub open spec fn abort(setup: SetupView, run: RunView, error: ErrorView) -> (RunView, ActionView) {
    (
        RunView { index: run.index, phase: PhaseView::Aborted },
        ActionView::Abort {
            config: if run.phase.in_configuration() {
                Some(setup.options[run.index].canonical_id())
            } else {
                None
            },
            error,
        },
    )
}

/// Going on within the configuration.
pub open spec fn go_on(run: RunView, phase: PhaseView, action: ActionView) -> (RunView, ActionView) {
    (RunView { index: run.index, phase }, action)
}

/// What an event does to a run, and what is to be done next.
///
/// Within a configuration the phases follow each other in a fixed order, and
/// each failure ends the run, with two exceptions: programming the target
/// and capturing its output are attempted again until the attempts are used
/// up. The output is handed to the benchmark before anything is saved; then
/// the raw output is saved, and the processed result if there is one. The
/// record of a configuration is made when its last result is saved.
/// An event that was not asked for ends the run; after its end, a run
/// answers everything with `Finished`.
pub open spec fn transition(setup: SetupView, run: RunView, event: Event) -> (RunView, ActionView) {
    let opt = setup.options[run.index];
    let id = opt.canonical_id();
    match (run.phase, event) {
        (PhaseView::Finished, _) => (run, ActionView::Finished),
        (PhaseView::Aborted, _) => (run, ActionView::Finished),
        (PhaseView::NotStarted, Event::Start) => begin(setup, 0),
        (PhaseView::Clean, Event::Removed { secure, non_secure }) => match (secure, non_secure) {
            (RemoveOutcome::Failed(error), _) => abort(
                setup,
                run,
                ErrorView::RemoveFailed { path: setup.secure_image(), error },
            ),
            (_, RemoveOutcome::Failed(error)) => abort(
                setup,
                run,
                ErrorView::RemoveFailed { path: setup.non_secure_image(), error },
            ),
            _ => go_on(
                run,
                PhaseView::Build,
                ActionView::Build { cmd: setup.build_command(opt) },
            ),
        },
        (PhaseView::Build, Event::Built(outcome)) => match outcome {
            ProcessOutcome::SpawnFailed(error) => abort(
                setup,
                run,
                ErrorView::BuildSpawnFailed { cmd: setup.build_command(opt), error },
            ),
            ProcessOutcome::Exited { success, code, stdout } => if success {
                go_on(
                    run,
                    PhaseView::Verify,
                    ActionView::CheckArtifacts {
                        secure: setup.secure_image(),
                        non_secure: setup.non_secure_image(),
                    },
                )
            } else {
                abort(setup, run, ErrorView::BuildFailed { cmd: setup.build_command(opt), code })
            },
        },
        (PhaseView::Verify, Event::Checked { secure_exists, non_secure_exists }) => {
            if !secure_exists {
                abort(setup, run, ErrorView::BuiltExeNotFound(setup.secure_image()))
            } else if !non_secure_exists {
                abort(setup, run, ErrorView::BuiltExeNotFound(setup.non_secure_image()))
            } else {
                go_on(
                    run,
                    PhaseView::Copy,
                    ActionView::CopyArtifacts {
                        secure_copy: (
                            setup.secure_image(),
                            setup.result_path(id, setup.secure_exe_name()),
                        ),
                        non_secure_copy: (
                            setup.non_secure_image(),
                            setup.result_path(id, setup.non_secure_exe_name()),
                        ),
                    },
                )
            }
        },
        (PhaseView::Copy, Event::Copied(result)) => match result {
            Ok(_) => go_on(
                run,
                PhaseView::Program { remaining: setup.attempts, failed: 0 },
                ActionView::Program { images: setup.images() },
            ),
            Err(error) => abort(setup, run, ErrorView::CopyFailed(error)),
        },
        (PhaseView::Program { remaining, failed }, Event::Programmed(result)) => match retry_end(
            remaining,
            failed,
            seq![result],
        ) {
            RetryEnd::Succeeded { .. } => go_on(
                run,
                PhaseView::Capture { remaining: setup.attempts, failed: 0 },
                ActionView::Capture,
            ),
            RetryEnd::Pending { remaining, failed } => go_on(
                run,
                PhaseView::Program { remaining, failed },
                ActionView::Program { images: setup.images() },
            ),
            RetryEnd::Exhausted { error, .. } => abort(
                setup,
                run,
                ErrorView::ProgrammingError(error),
            ),
        },
        (PhaseView::Capture { remaining, failed }, Event::Captured(result)) => match retry_end(
            remaining,
            failed,
            seq![result],
        ) {
            RetryEnd::Succeeded { value, .. } => go_on(
                run,
                PhaseView::PostProcess { raw: value.output@ },
                ActionView::PostProcess { output: value.output@ },
            ),
            RetryEnd::Pending { remaining, failed } => go_on(
                run,
                PhaseView::Capture { remaining, failed },
                ActionView::Capture,
            ),
            RetryEnd::Exhausted { error, .. } => abort(
                setup,
                run,
                ErrorView::OutputAcquisitionError(error),
            ),
        },
        (PhaseView::PostProcess { raw }, Event::Processed(result)) => match result {
            Ok(processed) => go_on(
                run,
                PhaseView::PersistRaw {
                    processed: match processed {
                        Some(bytes) => Some(bytes@),
                        None => None,
                    },
                },
                ActionView::WriteRaw { path: setup.result_path(id, "raw"@), output: raw },
            ),
            Err(error) => abort(setup, run, ErrorView::ProcessOutputError(error)),
        },
        (PhaseView::PersistRaw { processed }, Event::Written(result)) => match result {
            Ok(_) => match processed {
                Some(bytes) => go_on(
                    run,
                    PhaseView::PersistProcessed,
                    ActionView::WriteProcessed {
                        path: setup.result_path(id, "json"@),
                        result: bytes,
                    },
                ),
                None => begin(setup, run.index + 1),
            },
            Err(error) => abort(setup, run, ErrorView::WriteOutputError(error)),
        },
        (PhaseView::PersistProcessed, Event::Written(result)) => match result {
            Ok(_) => begin(setup, run.index + 1),
            Err(error) => abort(setup, run, ErrorView::WriteOutputError(error)),
        },
        (PhaseView::WriteMetadata, Event::Written(result)) => match result {
            Ok(_) => (RunView { index: run.index, phase: PhaseView::Finished }, ActionView::Finished),
            Err(error) => abort(setup, run, ErrorView::WriteOutputError(error)),
        },
        _ => abort(setup, run, ErrorView::UnexpectedEvent),
    }
}

/// What a failed attempt at talking to the target means for the run.
#[derive(Clone, Copy, Debug, PartialEq, Eq, Structural)]
pub enum AttemptReport {
    /// The attempt is made again; so many attempts are left, that one
    /// included.
    Retrying { remaining: u32 },
    /// No attempt is left: the run is given up.
    RetryLimitReached,
}

/// What a failed attempt means in a phase: programming and capturing are
/// attempted again as long as attempts are left.
pub open spec fn failed_attempt_report(phase: PhaseView) -> Option<AttemptReport> {
    match phase {
        PhaseView::Program { remaining, .. } | PhaseView::Capture { remaining, .. } => {
            if remaining > 1 {
                Some(AttemptReport::Retrying { remaining: (remaining - 1) as u32 })
            } else {
                Some(AttemptReport::RetryLimitReached)
            }
        },
        _ => None,
    }
}

/// The output directory for a run: `template` with `%date%`, `%time%`,
/// `%target%` and `%benchmark%` replaced, in this order, by the texts given
/// for them.
pub open spec fn expanded_output_dir(
    template: Seq<char>,
    date: Seq<char>,
    time: Seq<char>,
    target: Seq<char>,
    benchmark: Seq<char>,
) -> Seq<char> {
    replaced(
        replaced(replaced(replaced(template, "%date%"@, date), "%time%"@, time), "%target%"@, target),
        "%benchmark%"@,
        benchmark,
    )
}

/// Forms the output directory for a run from its template.
pub fn expand_output_dir(template: &str, date: &str, time: &str, target: &str, benchmark: &str) -> (r:
    String)
    ensures
        r@ == expanded_output_dir(template@, date@, time@, target@, benchmark@),
{
    proof {
        reveal_strlit("%date%");
        reveal_strlit("%time%");
        reveal_strlit("%target%");
        reveal_strlit("%benchmark%");
    }
    let dir = replace_all(template, "%date%", date);
    let dir = replace_all(dir.as_str(), "%time%", time);
    let dir = replace_all(dir.as_str(), "%target%", target);
    replace_all(dir.as_str(), "%benchmark%", benchmark)
}

/// A run over a list of configurations.
#[derive(Debug)]
pub struct Orchestrator {
    settings: Settings,
    options: Vec<BuildOpt>,
    /// The configurations that were run to their end.
    index: usize,
    phase: Phase,
    /// The records of the configurations that were run to their end.
    matrix: Vec<MetaRun>,
}

impl Settings {
    /// The settings as plain data, with the configurations of the run.
    pub open spec fn setup(self, options: Seq<BuildOpt>) -> SetupView {
        SetupView {
            benchmark_name: self.benchmark_name@,
            build_cmd: self.build_cmd@,
            target_flags: views(self.target_flags@),
            cache_dir: self.cache_dir@,
            output_dir: self.output_dir@,
            attempts: self.attempts as nat,
            options,
        }
    }

    fn secure_image(&self) -> (r: String)
        ensures
            r@ == self.setup(Seq::empty()).secure_image(),
    {
        join_path(self.cache_dir.as_str(), "secure")
    }

    fn non_secure_image(&self) -> (r: String)
        ensures
            r@ == self.setup(Seq::empty()).non_secure_image(),
    {
        join_path(self.cache_dir.as_str(), self.benchmark_name.as_str())
    }

    fn result_path(&self, opt: &BuildOpt, ending: &str) -> (r: String)
        ensures
            r@ == self.setup(Seq::empty()).result_path(opt.canonical_id(), ending@),
    {
        let mut name = opt.to_string();
        name.append(".");
        name.append(ending);
        join_path(self.output_dir.as_str(), name.as_str())
    }

    /// The names under which the images are saved.
    pub fn exe_names(&self) -> (r: MetaExeNames)
        ensures
            r.secure@ == self.setup(Seq::empty()).secure_exe_name(),
            r.non_secure@ == self.setup(Seq::empty()).non_secure_exe_name(),
    {
        let mut non_secure = self.benchmark_name.clone();
        non_secure.append(".elf");
        MetaExeNames { secure: "secure.elf".to_owned(), non_secure }
    }

    fn build_args(&self, opt: &BuildOpt) -> (r: Vec<String>)
        ensures
            views(r@) == self.setup(Seq::empty()).build_args(*opt),
    {
        let mut args: Vec<String> = Vec::new();
        push_str(&mut args, "build");
        let mut step = "build:".to_owned();
        step.append(self.benchmark_name.as_str());
        push_string(&mut args, step);
        assert(views(args@) =~= seq!["build"@, "build:"@ + self.benchmark_name@]);
        opt.append_zig_build_opts_to(&mut args);
        let mut i: usize = 0;
        let ghost base = views(args@);
        proof {
            assert(views(self.target_flags@.take(0)) =~= Seq::<Seq<char>>::empty());
            assert(base + Seq::<Seq<char>>::empty() =~= base);
        }
        while i < self.target_flags.len()
            invariant
                i <= self.target_flags@.len(),
                views(args@) == base + views(self.target_flags@.take(i as int)),
            decreases self.target_flags@.len() - i,
        {
            proof {
                lemma_views_take(self.target_flags@, i as int);
            }
            push_string(&mut args, self.target_flags[i].clone());
            proof {
                assert(views(args@) =~= base + views(self.target_flags@.take(i as int + 1)));
            }
            i += 1;
        }
        proof {
            assert(self.target_flags@.take(self.target_flags@.len() as int) =~= self.target_flags@);
        }
        args
    }

    fn build_command(&self, opt: &BuildOpt) -> (r: Vec<String>)
        ensures
            views(r@) == self.setup(Seq::empty()).build_command(*opt),
    {
        let mut cmd: Vec<String> = Vec::new();
        push_string(&mut cmd, self.build_cmd.clone());
        let mut args = self.build_args(opt);
        proof {
            lemma_views_add(cmd@, args@);
            assert(views(cmd@) =~= seq![self.build_cmd@]);
        }
        cmd.append(&mut args);
        cmd
    }

    fn images(&self) -> (r: Vec<String>)
        ensures
            views(r@) == self.setup(Seq::empty()).images(),
    {
        let mut images: Vec<String> = Vec::new();
        push_string(&mut images, self.non_secure_image());
        push_string(&mut images, self.secure_image());
        assert(views(images@) =~= self.setup(Seq::empty()).images());
        images
    }
}

impl Orchestrator {
    #[verifier::type_invariant]
    spec fn well_formed(self) -> bool {
        &&& self.settings.attempts > 0
        &&& self.index <= self.options@.len()
        &&& self.phase@.in_configuration() ==> self.index < self.options@.len()
        &&& self.phase@ is NotStarted ==> self.index == 0
        &&& matrix_view(self.matrix@) == self.setup().records(self.index as int)
    }

    /// What the run is about.
    pub closed spec fn setup(self) -> SetupView {
        self.settings.setup(self.options@)
    }

    /// The records of the configurations that were run to their end.
    pub closed spec fn matrix(self) -> Seq<MetaRun> {
        self.matrix@
    }

    /// A run of `options`, in their order, that has not begun.
    pub fn new(settings: Settings, options: Vec<BuildOpt>) -> (r: Orchestrator)
        requires
            settings.attempts > 0,
        ensures
            r.setup() == settings.setup(options@),
            r@ == (RunView { index: 0, phase: PhaseView::NotStarted }),
            r.matrix().len() == 0,
    {
        let matrix: Vec<MetaRun> = Vec::new();
        proof {
            assert(matrix_view(matrix@) =~= settings.setup(options@).records(0));
        }
        Orchestrator { settings, options, index: 0, phase: Phase::NotStarted, matrix }
    }

    /// The settings of the run.
    pub fn settings(&self) -> (r: &Settings)
        ensures
            r.setup(self.setup().options) == self.setup(),
            r.attempts > 0,
    {
        proof {
            use_type_invariant(self);
        }
        &self.settings
    }

    /// The configuration at which the run stands, if it stands at one.
    pub fn current(&self) -> (r: Option<BuildOpt>)
        ensures
            r == if self@.phase.in_configuration() {
                Some(self.setup().options[self@.index])
            } else {
                None
            },
    {
        proof {
            use_type_invariant(self);
        }
        match self.phase {
            Phase::NotStarted | Phase::WriteMetadata | Phase::Finished | Phase::Aborted => None,
            _ => Some(self.options[self.index]),
        }
    }

    /// The records of the configurations that were run to their end: one
    /// for each, in the order of the run.
    pub fn records(&self) -> (r: &Vec<MetaRun>)
        ensures
            r@ == self.matrix(),
            matrix_view(r@) == self.setup().records(self@.index),
            r@.len() == self@.index,
    {
        proof {
            use_type_invariant(self);
            assert(matrix_view(self.matrix@).len() == self.matrix@.len());
            assert(self.setup().records(self.index as int).len() == self.index);
        }
        &self.matrix
    }

    /// What it means for the run if the attempt that it has asked for
    /// fails: whether the target is talked to again, and how many attempts
    /// are left then, or whether the limit is reached. `None` where the run
    /// is at something that is attempted once.
    pub fn failed_attempt(&self) -> (r: Option<AttemptReport>)
        ensures
            r == failed_attempt_report(self@.phase),
    {
        let state = match &self.phase {
            Phase::Program(state) => state,
            Phase::Capture(state) => state,
            _ => {
                return None;
            },
        };
        let remaining = state.remaining();
        if remaining > 1 {
            Some(AttemptReport::Retrying { remaining: remaining - 1 })
        } else {
            Some(AttemptReport::RetryLimitReached)
        }
    }

    /// Whether the run is over, be it finished or given up.
    pub fn is_over(&self) -> (r: bool)
        ensures
            r == (self@.phase is Finished || self@.phase is Aborted),
    {
        match self.phase {
            Phase::Finished | Phase::Aborted => true,
            _ => false,
        }
    }

    /// Starts configuration `index`, or ends the run if there is none.
    fn begin(settings: Settings, options: Vec<BuildOpt>, index: usize, matrix: Vec<MetaRun>) -> (r: (
        Orchestrator,
        Action,
    ))
        requires
            settings.attempts > 0,
            index <= options@.len(),
            matrix_view(matrix@) == settings.setup(options@).records(index as int),
        ensures
            r.0.setup() == settings.setup(options@),
            r.0.matrix() == matrix@,
            (r.0@, r.1@) == begin(settings.setup(options@), index as int),
    {
        if index >= options.len() {
            let path = join_path(settings.output_dir.as_str(), "meta.json");
            (
                Orchestrator { settings, options, index, phase: Phase::WriteMetadata, matrix },
                Action::WriteMetadata { path },
            )
        } else {
            let action = Action::RemoveArtifacts {
                secure: settings.secure_image(),
                non_secure: settings.non_secure_image(),
            };
            (Orchestrator { settings, options, index, phase: Phase::Clean, matrix }, action)
        }
    }

    /// Gives the run up.
    fn give_up(self, error: RunError) -> (r: (Orchestrator, Action))
        ensures
            r.0.setup() == self.setup(),
            r.0.matrix() == self.matrix(),
            (r.0@, r.1@) == abort(self.setup(), self@, error@),
    {
        proof {
            use_type_invariant(&self);
        }
        let config = match self.current() {
            Some(opt) => Some(opt.to_string()),
            None => None,
        };
        let Orchestrator { settings, options, index, phase, matrix } = self;
        (
            Orchestrator { settings, options, index, phase: Phase::Aborted, matrix },
            Action::Abort(Failure { config, error }),
        )
    }

    /// Goes on within the configuration.
    fn go_on(self, phase: Phase, action: Action) -> (r: (Orchestrator, Action))
        requires
            self@.phase.in_configuration(),
            phase@.in_configuration(),
        ensures
            r.0.setup() == self.setup(),
            r.0.matrix() == self.matrix(),
            (r.0@, r.1@) == go_on(self@, phase@, action@),
    {
        proof {
            use_type_invariant(&self);
        }
        let Orchestrator { settings, options, index, phase: _, matrix } = self;
        (Orchestrator { settings, options, index, phase, matrix }, action)
    }

    /// Records the configuration at which the run stands, and starts the
    /// next.
    fn complete(self) -> (r: (Orchestrator, Action))
        requires
            self@.phase.in_configuration(),
        ensures
            r.0.setup() == self.setup(),
            r.0.matrix().len() == self.matrix().len() + 1,
            (r.0@, r.1@) == begin(self.setup(), self@.index + 1),
    {
        proof {
            use_type_invariant(&self);
        }
        let Orchestrator { settings, options, index, phase: _, matrix } = self;
        let total = options.len();
        assert(index < total);
        let opt = options[index];
        let run = MetaRun {
            build_opt: opt,
            name: opt.to_string(),
            zig_build_args: settings.build_args(&opt),
        };
        let mut matrix = matrix;
        let ghost before = matrix_view(matrix@);
        matrix.push(run);
        proof {
            let setup = settings.setup(options@);
            assert(matrix_view(matrix@) =~= before.push(run@));
            assert(options@.take(index as int + 1) =~= options@.take(index as int).push(opt));
            assert(setup.records(index as int + 1) =~= setup.records(index as int).push(
                setup.record(opt),
            ));
        }
        Orchestrator::begin(settings, options, index + 1, matrix)
    }

    /// Takes the raw output out of a run that waits for the benchmark.
    fn take_raw(self) -> (r: (Orchestrator, Vec<u8>))
        requires
            self@.phase is PostProcess,
        ensures
            r.0.setup() == self.setup(),
            r.0.matrix() == self.matrix(),
            r.0@.index == self@.index,
            r.0@.phase.in_configuration(),
            self@.phase == (PhaseView::PostProcess { raw: r.1@ }),
    {
        proof {
            use_type_invariant(&self);
        }
        let Orchestrator { settings, options, index, phase, matrix } = self;
        let raw = match phase {
            Phase::PostProcess(raw) => raw,
            _ => Vec::new(),
        };
        (Orchestrator { settings, options, index, phase: Phase::PersistProcessed, matrix }, raw)
    }

    /// Takes the processed result out of a run that saves the raw output.
    fn take_processed(self) -> (r: (Orchestrator, Option<Vec<u8>>))
        requires
            self@.phase is PersistRaw,
        ensures
            r.0.setup() == self.setup(),
            r.0.matrix() == self.matrix(),
            r.0@.index == self@.index,
            r.0@.phase.in_configuration(),
            self@.phase == (PhaseView::PersistRaw {
                processed: match r.1 {
                    Some(bytes) => Some(bytes@),
                    None => None,
                },
            }),
    {
        proof {
            use_type_invariant(&self);
        }
        let Orchestrator { settings, options, index, phase, matrix } = self;
        let processed = match phase {
            Phase::PersistRaw(processed) => processed,
            _ => None,
        };
        (
            Orchestrator { settings, options, index, phase: Phase::PersistProcessed, matrix },
            processed,
        )
    }

    /// Takes in what the caller reports and decides what is to be done next.
    pub fn step(self, event: Event) -> (r: (Orchestrator, Action))
        ensures
            r.0.setup() == self.setup(),
            (r.0@, r.1@) == transition(self.setup(), self@, event),
            matrix_view(r.0.matrix()) == self.setup().records(r.0@.index),
            self@.valid(self.setup()),
            r.0@.valid(self.setup()),
    {
        proof {
            use_type_invariant(&self);
        }
        match (&self.phase, event) {
            (Phase::Finished, _) => (self, Action::Finished),
            (Phase::Aborted, _) => (self, Action::Finished),
            (Phase::NotStarted, Event::Start) => {
                let Orchestrator { settings, options, index, phase, matrix } = self;
                let r = Orchestrator::begin(settings, options, 0, matrix);
                proof {
                    use_type_invariant(&r.0);
                }
                r
            },
            (Phase::Clean, Event::Removed { secure, non_secure }) => {
                if let RemoveOutcome::Failed(error) = secure {
                    let path = self.settings.secure_image();
                    self.give_up(RunError::RemoveFailed { path, error })
                } else if let RemoveOutcome::Failed(error) = non_secure {
                    let path = self.settings.non_secure_image();
                    self.give_up(RunError::RemoveFailed { path, error })
                } else {
                    let cmd = self.settings.build_command(&self.options[self.index]);
                    self.go_on(Phase::Build, Action::Build { cmd })
                }
            },
            (Phase::Build, Event::Built(outcome)) => {
                let cmd = self.settings.build_command(&self.options[self.index]);
                match outcome {
                    ProcessOutcome::SpawnFailed(error) => self.give_up(
                        RunError::BuildSpawnFailed { cmd, error },
                    ),
                    ProcessOutcome::Exited { success, code, stdout } => {
                        if success {
                            let action = Action::CheckArtifacts {
                                secure: self.settings.secure_image(),
                                non_secure: self.settings.non_secure_image(),
                            };
                            self.go_on(Phase::Verify, action)
                        } else {
                            self.give_up(RunError::BuildFailed { cmd, code })
                        }
                    },
                }
            },
            (Phase::Verify, Event::Checked { secure_exists, non_secure_exists }) => {
                if !secure_exists {
                    let path = self.settings.secure_image();
                    self.give_up(RunError::BuiltExeNotFound(path))
                } else if !non_secure_exists {
                    let path = self.settings.non_secure_image();
                    self.give_up(RunError::BuiltExeNotFound(path))
                } else {
                    let opt = self.options[self.index];
                    let names = self.settings.exe_names();
                    let action = Action::CopyArtifacts {
                        secure_copy: (
                            self.settings.secure_image(),
                            self.settings.result_path(&opt, names.secure.as_str()),
                        ),
                        non_secure_copy: (
                            self.settings.non_secure_image(),
                            self.settings.result_path(&opt, names.non_secure.as_str()),
                        ),
                    };
                    self.go_on(Phase::Copy, action)
                }
            },
            (Phase::Copy, Event::Copied(result)) => match result {
                Ok(_) => {
                    let state = RetryState::new(self.settings.attempts);
                    let images = self.settings.images();
                    self.go_on(Phase::Program(state), Action::Program { images })
                },
                Err(error) => self.give_up(RunError::CopyFailed(error)),
            },
            (Phase::Program(state), Event::Programmed(result)) => match state.record(result) {
                RetryStep::Succeeded { .. } => {
                    let state = RetryState::new(self.settings.attempts);
                    self.go_on(Phase::Capture(state), Action::Capture)
                },
                RetryStep::Retry { error, state } => {
                    let images = self.settings.images();
                    self.go_on(Phase::Program(state), Action::Program { images })
                },
                RetryStep::Exhausted { error, .. } => self.give_up(
                    RunError::ProgrammingError(error),
                ),
            },
            (Phase::Capture(state), Event::Captured(result)) => match state.record(result) {
                RetryStep::Succeeded { value, .. } => {
                    let raw = value.output;
                    let output = raw.clone();
                    proof {
                        assert(output@ =~= raw@);
                    }
                    self.go_on(Phase::PostProcess(raw), Action::PostProcess { output })
                },
                RetryStep::Retry { error, state } => self.go_on(
                    Phase::Capture(state),
                    Action::Capture,
                ),
                RetryStep::Exhausted { error, .. } => self.give_up(
                    RunError::OutputAcquisitionError(error),
                ),
            },
            (Phase::PostProcess(_), Event::Processed(result)) => match result {
                Ok(processed) => {
                    let path = self.settings.result_path(&self.options[self.index], "raw");
                    let (run, raw) = self.take_raw();
                    run.go_on(Phase::PersistRaw(processed), Action::WriteRaw { path, output: raw })
                },
                Err(error) => self.give_up(RunError::ProcessOutputError(error)),
            },
            (Phase::PersistRaw(_), Event::Written(result)) => match result {
                Ok(_) => {
                    let path = self.settings.result_path(&self.options[self.index], "json");
                    let (run, processed) = self.take_processed();
                    match processed {
                        Some(bytes) => run.go_on(
                            Phase::PersistProcessed,
                            Action::WriteProcessed { path, result: bytes },
                        ),
                        None => {
                            let r = run.complete();
                            proof {
                                use_type_invariant(&r.0);
                            }
                            r
                        },
                    }
                },
                Err(error) => self.give_up(RunError::WriteOutputError(error)),
            },
            (Phase::PersistProcessed, Event::Written(result)) => match result {
                Ok(_) => {
                    let r = self.complete();
                    proof {
                        use_type_invariant(&r.0);
                    }
                    r
                },
                Err(error) => self.give_up(RunError::WriteOutputError(error)),
            },
            (Phase::WriteMetadata, Event::Written(result)) => match result {
                Ok(_) => {
                    let Orchestrator { settings, options, index, phase, matrix } = self;
                    (
                        Orchestrator { settings, options, index, phase: Phase::Finished, matrix },
                        Action::Finished,
                    )
                },
                Err(error) => self.give_up(RunError::WriteOutputError(error)),
            },
            _ => self.give_up(RunError::UnexpectedEvent),
        }
    }
}

impl View for Orchestrator {
    type V = RunView;

    closed spec fn view(&self) -> RunView {
        RunView { index: self.index as int, phase: self.phase@ }
    }
}

/// Where a run stands after a sequence of events.
pub open spec fn after(setup: SetupView, run: RunView, events: Seq<Event>) -> RunView
    decreases events.len(),
{
    if events.len() == 0 {
        run
    } else {
        transition(setup, after(setup, run, events.drop_last()), events.last()).0
    }
}

/// What is to be done after the last of a sequence of events, which is not
/// empty.
pub open spec fn last_action(setup: SetupView, run: RunView, events: Seq<Event>) -> ActionView {
    transition(setup, after(setup, run, events.drop_last()), events.last()).1
}

/// A configuration is recorded when its last result is saved, and at no
/// other time: the number of recorded configurations goes up by one where
/// the raw output has been saved and there is no processed result, or where
/// the processed result has been saved, and else stays as it is.
pub proof fn lemma_recorded_when_saved(setup: SetupView, run: RunView, event: Event)
    requires
        run.valid(setup),
    ensures
        transition(setup, run, event).0.valid(setup),
        transition(setup, run, event).0.index == if (run.phase matches PhaseView::PersistRaw {
            processed: None,
        } || run.phase is PersistProcessed) && event matches Event::Written(Ok(_)) {
            run.index + 1
        } else {
            run.index
        },
{
    match (run.phase, event) {
        (PhaseView::Program { remaining, failed }, Event::Programmed(result)) => {
            lemma_one_attempt(remaining, failed, result);
        },
        (PhaseView::Capture { remaining, failed }, Event::Captured(result)) => {
            lemma_one_attempt(remaining, failed, result);
        },
        _ => {},
    }
}

/// A run that was given up stays given up, and one that is finished stays
/// finished: nothing more is asked of the caller, and nothing is recorded.
pub proof fn lemma_over_is_over(setup: SetupView, run: RunView, events: Seq<Event>)
    requires
        run.phase is Finished || run.phase is Aborted,
    ensures
        after(setup, run, events) == run,
        events.len() > 0 ==> last_action(setup, run, events) is Finished,
    decreases events.len(),
{
    if events.len() > 0 {
        lemma_over_is_over(setup, run, events.drop_last());
    }
}

/// One attempt, taken by itself.
proof fn lemma_one_attempt<T, E>(remaining: nat, failed: nat, outcome: Result<T, E>)
    ensures
        retry_end(remaining, failed, seq![outcome]) == match outcome {
            Ok(value) => RetryEnd::Succeeded { value, failed },
            Err(error) => if remaining <= 1 {
                RetryEnd::Exhausted { error, failed: failed + 1 }
            } else {
                RetryEnd::Pending { remaining: (remaining - 1) as nat, failed: failed + 1 }
            },
        },
{
    assert(seq![outcome].drop_first() =~= Seq::<Result<T, E>>::empty());
    reveal_with_fuel(retry_end, 2);
}

/// The target is programmed only with freshly built images: programming is
/// asked for after the images of the configuration were built, found and
/// copied, or after an attempt to program failed with attempts to spare.
pub proof fn lemma_program_follows_build(setup: SetupView, run: RunView, event: Event)
    requires
        transition(setup, run, event).1 is Program,
    ensures
        (run.phase is Copy && event matches Event::Copied(Ok(_))) || (run.phase matches PhaseView::Program {
            remaining,
            ..
        } && remaining > 1 && event matches Event::Programmed(Err(_))),
        transition(setup, run, event).1 == (ActionView::Program { images: setup.images() }),
{
    match (run.phase, event) {
        (PhaseView::Program { remaining, failed }, Event::Programmed(result)) => {
            lemma_one_attempt(remaining, failed, result);
        },
        (PhaseView::Capture { remaining, failed }, Event::Captured(result)) => {
            lemma_one_attempt(remaining, failed, result);
        },
        _ => {},
    }
}

/// The events of a configuration in which everything succeeds at once.
pub open spec fn success_events(
    built: ProcessOutcome,
    captured: Captured,
    processed: Option<Vec<u8>>,
) -> Seq<Event> {
    seq![
        Event::Removed { secure: RemoveOutcome::NotFound, non_secure: RemoveOutcome::Removed },
        Event::Built(built),
        Event::Checked { secure_exists: true, non_secure_exists: true },
        Event::Copied(Ok(())),
        Event::Programmed(Ok(())),
        Event::Captured(Ok(captured)),
        Event::Processed(Ok(processed)),
        Event::Written(Ok(())),
    ]
}

/// Where a run stands after one more event.
proof fn lemma_after_take(setup: SetupView, run: RunView, events: Seq<Event>, n: int)
    requires
        0 < n <= events.len(),
    ensures
        after(setup, run, events.take(n)) == transition(
            setup,
            after(setup, run, events.take(n - 1)),
            events[n - 1],
        ).0,
        last_action(setup, run, events.take(n)) == transition(
            setup,
            after(setup, run, events.take(n - 1)),
            events[n - 1],
        ).1,
{
    assert(events.take(n).drop_last() =~= events.take(n - 1));
    assert(events.take(n).last() == events[n - 1]);
}

/// A configuration in which the build, the programming and the capture
/// succeed at once, and for which the benchmark yields nothing more to save:
/// the raw output is saved under the configuration's canonical id, and with
/// that the configuration is recorded and the next one begins.
pub proof fn lemma_successful_configuration(
    setup: SetupView,
    index: int,
    built: ProcessOutcome,
    captured: Captured,
)
    requires
        0 <= index < setup.options.len(),
        setup.attempts > 0,
        built matches ProcessOutcome::Exited { success, .. } && success,
    ensures
        ({
            let start = RunView { index, phase: PhaseView::Clean };
            let events = success_events(built, captured, None);
            &&& last_action(setup, start, events.take(7)) == (ActionView::WriteRaw {
                path: setup.result_path(setup.options[index].canonical_id(), "raw"@),
                output: captured.output@,
            })
            &&& after(setup, start, events) == begin(setup, index + 1).0
            &&& last_action(setup, start, events) == begin(setup, index + 1).1
        }),
{
    let start = RunView { index, phase: PhaseView::Clean };
    let events = success_events(built, captured, None);
    assert(events.take(0) =~= Seq::<Event>::empty());
    assert(after(setup, start, events.take(0)) == start);
    lemma_after_take(setup, start, events, 1);
    lemma_after_take(setup, start, events, 2);
    lemma_after_take(setup, start, events, 3);
    lemma_after_take(setup, start, events, 4);
    assert(after(setup, start, events.take(4)).phase == (PhaseView::Program {
        remaining: setup.attempts,
        failed: 0,
    }));
    lemma_one_attempt::<(), ProgramError>(setup.attempts, 0, Ok(()));
    lemma_after_take(setup, start, events, 5);
    assert(after(setup, start, events.take(5)).phase == (PhaseView::Capture {
        remaining: setup.attempts,
        failed: 0,
    }));
    lemma_one_attempt::<Captured, CaptureFailure>(setup.attempts, 0, Ok(captured));
    lemma_after_take(setup, start, events, 6);
    lemma_after_take(setup, start, events, 7);
    lemma_after_take(setup, start, events, 8);
    assert(events.take(8) =~= events);
}

/// Where a run stands while programming fails with attempts to spare.
proof fn lemma_failing_program_goes_on(
    setup: SetupView,
    index: int,
    remaining: nat,
    failed: nat,
    events: Seq<Event>,
    n: int,
)
    requires
        0 <= index < setup.options.len(),
        0 <= n < remaining,
        n <= events.len(),
        forall|i: int| 0 <= i < n ==> (#[trigger] events[i]) matches Event::Programmed(Err(_)),
    ensures
        after(
            setup,
            RunView { index, phase: PhaseView::Program { remaining, failed } },
            events.take(n),
        ) == (RunView {
            index,
            phase: PhaseView::Program { remaining: (remaining - n) as nat, failed: failed + n as nat },
        }),
        n > 0 ==> last_action(
            setup,
            RunView { index, phase: PhaseView::Program { remaining, failed } },
            events.take(n),
        ) == (ActionView::Program { images: setup.images() }),
    decreases n,
{
    let start = RunView { index, phase: PhaseView::Program { remaining, failed } };
    if n == 0 {
        assert(events.take(0) =~= Seq::<Event>::empty());
    } else {
        lemma_failing_program_goes_on(setup, index, remaining, failed, events, n - 1);
        lemma_after_take(setup, start, events, n);
        match events[n - 1] {
            Event::Programmed(result) => {
                lemma_one_attempt((remaining - (n - 1)) as nat, failed + (n - 1) as nat, result);
            },
            _ => {},
        }
    }
}

/// Programming that fails at every attempt: the run asks for it as often as
/// there are attempts, no more, always with the same images, and then gives
/// up with the failure of the last attempt; the configuration is not
/// recorded.
pub proof fn lemma_failing_program_gives_up(
    setup: SetupView,
    index: int,
    attempts: nat,
    failures: Seq<ProgramError>,
)
    requires
        0 <= index < setup.options.len(),
        attempts > 0,
        failures.len() == attempts,
    ensures
        ({
            let start = RunView { index, phase: PhaseView::Program { remaining: attempts, failed: 0 } };
            let events = failures.map_values(|f: ProgramError| Event::Programmed(Err(f)));
            &&& after(setup, start, events) == (RunView { index, phase: PhaseView::Aborted })
            &&& last_action(setup, start, events) == (ActionView::Abort {
                config: Some(setup.options[index].canonical_id()),
                error: ErrorView::ProgrammingError(failures.last()),
            })
            &&& forall|n: int|
                0 < n < attempts ==> #[trigger] last_action(setup, start, events.take(n)) == (
                ActionView::Program { images: setup.images() })
        }),
{
    let start = RunView { index, phase: PhaseView::Program { remaining: attempts, failed: 0 } };
    let events = failures.map_values(|f: ProgramError| Event::Programmed(Err(f)));
    assert forall|n: int| 0 < n < attempts implies #[trigger] last_action(
        setup,
        start,
        events.take(n),
    ) == (ActionView::Program { images: setup.images() }) by {
        lemma_failing_program_goes_on(setup, index, attempts, 0, events, n);
    }
    lemma_failing_program_goes_on(setup, index, attempts, 0, events, attempts - 1);
    lemma_after_take(setup, start, events, attempts as int);
    assert(events.take(attempts as int) =~= events);
    lemma_one_attempt::<(), ProgramError>(1, (attempts - 1) as nat, Err(failures[attempts - 1]));
}

/// Where a run stands while its captures fail with attempts to spare.
proof fn lemma_failing_capture_goes_on(
    setup: SetupView,
    index: int,
    remaining: nat,
    failed: nat,
    events: Seq<Event>,
    n: int,
)
    requires
        0 <= index < setup.options.len(),
        0 <= n < remaining,
        n <= events.len(),
        forall|i: int| 0 <= i < n ==> (#[trigger] events[i]) matches Event::Captured(Err(_)),
    ensures
        after(
            setup,
            RunView { index, phase: PhaseView::Capture { remaining, failed } },
            events.take(n),
        ) == (RunView {
            index,
            phase: PhaseView::Capture { remaining: (remaining - n) as nat, failed: failed + n as nat },
        }),
        n > 0 ==> last_action(
            setup,
            RunView { index, phase: PhaseView::Capture { remaining, failed } },
            events.take(n),
        ) == ActionView::Capture,
    decreases n,
{
    let start = RunView { index, phase: PhaseView::Capture { remaining, failed } };
    if n == 0 {
        assert(events.take(0) =~= Seq::<Event>::empty());
    } else {
        lemma_failing_capture_goes_on(setup, index, remaining, failed, events, n - 1);
        lemma_after_take(setup, start, events, n);
        match events[n - 1] {
            Event::Captured(result) => {
                lemma_one_attempt((remaining - (n - 1)) as nat, failed + (n - 1) as nat, result);
            },
            _ => {},
        }
    }
}

/// A capture that fails at every attempt: the run asks for as many captures
/// as there are attempts, no more, and then gives up with the failure of the
/// last of them; the configuration is not recorded.
pub proof fn lemma_failing_capture_gives_up(
    setup: SetupView,
    index: int,
    attempts: nat,
    failures: Seq<CaptureFailure>,
)
    requires
        0 <= index < setup.options.len(),
        attempts > 0,
        failures.len() == attempts,
    ensures
        ({
            let start = RunView { index, phase: PhaseView::Capture { remaining: attempts, failed: 0 } };
            let events = failures.map_values(|f: CaptureFailure| Event::Captured(Err(f)));
            &&& after(setup, start, events) == (RunView { index, phase: PhaseView::Aborted })
            &&& last_action(setup, start, events) == (ActionView::Abort {
                config: Some(setup.options[index].canonical_id()),
                error: ErrorView::OutputAcquisitionError(failures.last()),
            })
            &&& forall|n: int|
                0 < n < attempts ==> #[trigger] last_action(setup, start, events.take(n))
                    == ActionView::Capture
        }),
{
    let start = RunView { index, phase: PhaseView::Capture { remaining: attempts, failed: 0 } };
    let events = failures.map_values(|f: CaptureFailure| Event::Captured(Err(f)));
    assert forall|n: int| 0 < n < attempts implies #[trigger] last_action(
        setup,
        start,
        events.take(n),
    ) == ActionView::Capture by {
        lemma_failing_capture_goes_on(setup, index, attempts, 0, events, n);
    }
    lemma_failing_capture_goes_on(setup, index, attempts, 0, events, attempts - 1);
    lemma_after_take(setup, start, events, attempts as int);
    assert(events.take(attempts as int) =~= events);
    lemma_one_attempt::<Captured, CaptureFailure>(
        1,
        (attempts - 1) as nat,
        Err(failures[attempts - 1]),
    );
}

} // verus!
