//! What a finished child process amounts to: its output or a run error, what
//! is shown of it, and how the compiler is called and judged.

use crate::text::{strings_view, trim, trim_text};
use vstd::prelude::*;

verus! {

/// What was captured of a child process that ran to its end.
#[derive(Debug)]
pub struct Captured {
    /// The exit status says success.
    pub success: bool,
    /// The exit status in words.
    pub status: String,
    pub stdout: String,
    pub stderr: String,
}

/// Why a run gave no output to work with.
#[derive(Debug)]
pub enum RunError {
    /// The program could not be launched.
    SpawnFailed { program: String, detail: String },
    /// A pipe to or from the child failed.
    IoFailure { detail: String },
    /// The child ran and reported failure.
    NonZeroExit { status: String, stderr: String },
}

/// A run error as plain text.
pub enum RunErrorView {
    SpawnFailed { program: Seq<char>, detail: Seq<char> },
    IoFailure { detail: Seq<char> },
    NonZeroExit { status: Seq<char>, stderr: Seq<char> },
}

impl RunErrorView {
    /// The error in words.
    pub open spec fn message(self) -> Seq<char> {
        match self {
            RunErrorView::SpawnFailed { program, detail } => "Failed to spawn '"@ + program + "': "@
                + detail,
            RunErrorView::IoFailure { detail } => detail,
            RunErrorView::NonZeroExit { status, stderr } => "Execution failed: "@ + status
                + "\nStderr: "@ + trim(stderr),
        }
    }
}

impl View for RunError {
    type V = RunErrorView;

    open spec fn view(&self) -> RunErrorView {
        match self {
            RunError::SpawnFailed { program, detail } => RunErrorView::SpawnFailed {
                program: program@,
                detail: detail@,
            },
            RunError::IoFailure { detail } => RunErrorView::IoFailure { detail: detail@ },
            RunError::NonZeroExit { status, stderr } => RunErrorView::NonZeroExit {
                status: status@,
                stderr: stderr@,
            },
        }
    }
}

impl RunError {
    /// The error in words.
    pub fn message(&self) -> (s: String)
        ensures
            s@ == self@.message(),
    {
        match self {
            RunError::SpawnFailed { program, detail } => {
                let mut s = "Failed to spawn '".to_owned();
                s.append(program.as_str());
                s.append("': ");
                s.append(detail.as_str());
                s
            },
            RunError::IoFailure { detail } => detail.clone(),
            RunError::NonZeroExit { status, stderr } => {
                let mut s = "Execution failed: ".to_owned();
                s.append(status.as_str());
                s.append("\nStderr: ");
                s.append(trim_text(stderr.as_str()).as_str());
                s
            },
        }
    }
}

/// The outcome of a run as plain text.
pub open spec fn run_result_view(r: Result<String, RunError>) -> Result<Seq<char>, RunErrorView> {
    match r {
        Ok(out) => Ok(out@),
        Err(e) => Err(e@),
    }
}

impl Captured {
    /// The outcome of the run: the standard output of a child that
    /// succeeded, else its status and what it wrote to standard error.
    pub open spec fn spec_outcome(self) -> Result<Seq<char>, RunErrorView> {
        if self.success {
            Ok(self.stdout@)
        } else {
            Err(RunErrorView::NonZeroExit { status: self.status@, stderr: self.stderr@ })
        }
    }

    /// The outcome of the run: the standard output of a child that
    /// succeeded, else its status and what it wrote to standard error.
    pub fn outcome(self) -> (r: Result<String, RunError>)
        ensures
            run_result_view(r) == self.spec_outcome(),
    {
        if self.success {
            Ok(self.stdout)
        } else {
            Err(RunError::NonZeroExit { status: self.status, stderr: self.stderr })
        }
    }

    /// What is shown of the run: the trimmed output unless it is empty, the
    /// trimmed error output unless it is empty, and the status of a child
    /// that failed.
    pub fn shown(&self) -> (d: RunDisplay)
        ensures
            d.output_view() == (if trim(self.stdout@).len() == 0 {
                None
            } else {
                Some(trim(self.stdout@))
            }),
            d.error_view() == (if trim(self.stderr@).len() == 0 {
                None
            } else {
                Some(trim(self.stderr@))
            }),
            d.failure_view() == (if self.success {
                None
            } else {
                Some("Execution failed: "@ + self.status@)
            }),
            d.succeeded() == self.success,
    {
        let out = trim_text(self.stdout.as_str());
        let err = trim_text(self.stderr.as_str());
        let output = if out.as_str().is_empty() {
            None
        } else {
            Some(out)
        };
        let error = if err.as_str().is_empty() {
            None
        } else {
            Some(err)
        };
        let failure = if self.success {
            None
        } else {
            let mut s = "Execution failed: ".to_owned();
            s.append(self.status.as_str());
            Some(s)
        };
        RunDisplay { output, error, failure }
    }
}

/// What is shown of a run in the simple watch mode.
#[derive(Debug)]
pub struct RunDisplay {
    /// The trimmed standard output; `None` stands for "no output".
    pub output: Option<String>,
    /// The trimmed standard error, where there is any.
    pub error: Option<String>,
    /// The line that reports a failed exit status.
    pub failure: Option<String>,
}

/// An optional string as plain text.
pub open spec fn option_view(o: Option<String>) -> Option<Seq<char>> {
    match o {
        Some(s) => Some(s@),
        None => None,
    }
}

impl RunDisplay {
    pub open spec fn output_view(self) -> Option<Seq<char>> {
        option_view(self.output)
    }

    pub open spec fn error_view(self) -> Option<Seq<char>> {
        option_view(self.error)
    }

    pub open spec fn failure_view(self) -> Option<Seq<char>> {
        option_view(self.failure)
    }

    /// The run counts as a success.
    pub open spec fn succeeded(self) -> bool {
        self.failure is None
    }
}

/// How a compilation ended.
#[derive(Debug)]
pub enum CompileOutcome {
    /// The compiler succeeded and said nothing.
    Clean,
    /// The compiler succeeded; `diagnostics` holds its warnings, trimmed.
    Warnings { diagnostics: String },
    /// The compiler failed; `diagnostics` holds what it reported, trimmed.
    Failed { diagnostics: String },
}

/// A compile outcome as plain text.
pub enum CompileOutcomeView {
    Clean,
    Warnings { diagnostics: Seq<char> },
    Failed { diagnostics: Seq<char> },
}

impl View for CompileOutcome {
    type V = CompileOutcomeView;

    open spec fn view(&self) -> CompileOutcomeView {
        match self {
            CompileOutcome::Clean => CompileOutcomeView::Clean,
            CompileOutcome::Warnings { diagnostics } => CompileOutcomeView::Warnings {
                diagnostics: diagnostics@,
            },
            CompileOutcome::Failed { diagnostics } => CompileOutcomeView::Failed {
                diagnostics: diagnostics@,
            },
        }
    }
}

impl CompileOutcome {
    /// An artifact was produced and may be run.
    pub open spec fn spec_usable(self) -> bool {
        !(self is Failed)
    }

    /// An artifact was produced and may be run.
    pub fn usable(&self) -> (r: bool)
        ensures
            r == self.spec_usable(),
    {
        match self {
            CompileOutcome::Failed { .. } => false,
            _ => true,
        }
    }
}

/// How a compiler run with this exit status and this error output is judged:
/// a failed status fails the build, and error output of a successful run is
/// a warning.
pub open spec fn spec_compile_outcome(success: bool, stderr: Seq<char>) -> CompileOutcomeView {
    if !success {
        CompileOutcomeView::Failed { diagnostics: trim(stderr) }
    } else if stderr.len() > 0 {
        CompileOutcomeView::Warnings { diagnostics: trim(stderr) }
    } else {
        CompileOutcomeView::Clean
    }
}

/// Judges a finished compiler run by its exit status and its error output.
/// Warnings do not fail a build.
pub fn compile_outcome(success: bool, stderr: &str) -> (r: CompileOutcome)
    ensures
        r@ == spec_compile_outcome(success, stderr@),
        r.spec_usable() == success,
{
    if !success {
        CompileOutcome::Failed { diagnostics: trim_text(stderr) }
    } else if !stderr.is_empty() {
        CompileOutcome::Warnings { diagnostics: trim_text(stderr) }
    } else {
        CompileOutcome::Clean
    }
}

/// The arguments of the compiler for one source file and one artifact.
pub open spec fn spec_compiler_arguments(source: Seq<char>, artifact: Seq<char>) -> Seq<Seq<char>> {
    seq!["-std=c++17"@, "-Wall"@, "-Wextra"@, "-O2"@, "-lm"@, "-o"@, artifact, source]
}

/// The arguments of the compiler for one source file and one artifact:
/// the language standard, the warning and optimisation flags, and the two
/// paths.
pub fn compiler_arguments(source: &str, artifact: &str) -> (args: Vec<String>)
    ensures
        strings_view(args@) == spec_compiler_arguments(source@, artifact@),
{
    let mut args: Vec<String> = Vec::new();
    args.push("-std=c++17".to_owned());
    args.push("-Wall".to_owned());
    args.push("-Wextra".to_owned());
    args.push("-O2".to_owned());
    args.push("-lm".to_owned());
    args.push("-o".to_owned());
    args.push(artifact.to_owned());
    args.push(source.to_owned());
    proof {
        assert(strings_view(args@) =~= spec_compiler_arguments(source@, artifact@));
    }
    args
}

} // verus!
