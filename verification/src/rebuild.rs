//! One rebuild in watch mode: try the program in-process first, fall back to
//! compiling with the `kestrelc` executable itself and running the binary it
//! writes, and say on the terminal what happened.

use vstd::prelude::*;

use crate::jit::{JitOutcome, JitOutcomeView};
use crate::output::{outputs, Output, OutputView};
use crate::text::{decimal, decimal_text};

verus! {

/// How compiling with the `kestrelc` executable went.
pub enum CompileStatus {
    /// It compiled the program.
    Succeeded,
    /// It rejected the program (and reported why itself).
    Failed,
    /// It could not be started; the text of the error.
    CouldNotStart(String),
}

/// How running the compiled binary went.
pub enum RunStatus {
    /// It exited with this code.
    Exited(i32),
    /// It ended without an exit code; the text of its exit status.
    Killed(String),
    /// It could not be started; the text of the error.
    CouldNotStart(String),
}

/// The outcome of the outside work a rebuild asked for.
pub enum BuildEvent {
    /// The in-process attempt ended so.
    Jit(JitOutcome),
    /// Whether a binary from an earlier run lies at the binary path.
    StaleBinary(bool),
    /// The self-compile ended so.
    SelfCompiled(CompileStatus),
    /// The binary's run ended so.
    BinaryRan(RunStatus),
}

/// Where a rebuild stands: which outside work it waits for, or that it is
/// over.
#[derive(Clone, Copy, PartialEq, Eq, Structural, Debug)]
pub enum BuildStage {
    /// Try the program in-process.
    AwaitingJit,
    /// Tell whether a binary lies at the binary path.
    AwaitingStaleCheck,
    /// Compile the program with the `kestrelc` executable.
    AwaitingCompile,
    /// Run the binary at the binary path.
    AwaitingRun,
    Done,
}

/// The path of the binary that compiling `<stem>.kes` writes: `./<stem>`.
pub open spec fn binary_path_text(stem: Seq<char>) -> Seq<char> {
    "./"@ + stem
}

/// The path of the binary that compiling `<stem>.kes` writes.
pub fn binary_path(stem: &str) -> (p: String)
    ensures
        p@ == binary_path_text(stem@),
{
    String::from_str("./").concat(stem)
}

/// Clears the screen and names the file being rebuilt.
pub open spec fn start_outputs(path: Seq<char>) -> Seq<OutputView> {
    seq![
        OutputView::Raw("\x1B[2J\x1B[1;1H"@),
        OutputView::Line("kestrelc watch: "@ + path),
        OutputView::Flush,
    ]
}

/// What a rebuild writes first; it then waits for the in-process attempt.
pub fn build_start(path: &str) -> (out: Vec<Output>)
    ensures
        outputs(out@) == start_outputs(path@),
{
    let mut out: Vec<Output> = Vec::new();
    out.push(Output::Raw(String::from_str("\x1B[2J\x1B[1;1H")));
    out.push(Output::Line(String::from_str("kestrelc watch: ").concat(path)));
    out.push(Output::Flush);
    assert(outputs(out@) =~= start_outputs(path@));
    out
}

/// What follows an outcome. The in-process run ends the rebuild (after a
/// look for a stale binary); a compile error ends it; an unsupported program
/// or a JIT backend failure falls back to the self-compile, whose success
/// leads to running the binary. An outcome that does not answer the stage
/// leaves it as it is.
pub open spec fn build_next(stage: BuildStage, event: BuildEvent) -> BuildStage {
    match (stage, event) {
        (BuildStage::AwaitingJit, BuildEvent::Jit(o)) => match o {
            JitOutcome::Ran(_) => BuildStage::AwaitingStaleCheck,
            JitOutcome::CompileError => BuildStage::Done,
            _ => BuildStage::AwaitingCompile,
        },
        (BuildStage::AwaitingStaleCheck, BuildEvent::StaleBinary(_)) => BuildStage::Done,
        (BuildStage::AwaitingCompile, BuildEvent::SelfCompiled(s)) => match s {
            CompileStatus::Succeeded => BuildStage::AwaitingRun,
            _ => BuildStage::Done,
        },
        (BuildStage::AwaitingRun, BuildEvent::BinaryRan(_)) => BuildStage::Done,
        _ => stage,
    }
}

/// What an outcome writes; `elapsed` is the time since the rebuild started,
/// `exe` the path of the `kestrelc` executable.
pub open spec fn build_outputs(
    stage: BuildStage,
    event: BuildEvent,
    stem: Seq<char>,
    exe: Seq<char>,
    elapsed: Seq<char>,
) -> Seq<OutputView> {
    let bin = binary_path_text(stem);
    match (stage, event) {
        (BuildStage::AwaitingJit, BuildEvent::Jit(o)) => match o@ {
            JitOutcomeView::Ran(code) => seq![
                OutputView::Line(
                    "--- exited with code "@ + decimal(code as int) + " (finished in "@ + elapsed
                        + ", in-process) ---"@,
                ),
            ],
            JitOutcomeView::CompileError => seq![
                OutputView::Line("--- failed in "@ + elapsed + " ---"@),
            ],
            JitOutcomeView::Unsupported(why) => seq![
                OutputView::Line(
                    "kestrelc watch: "@ + why + " -- using the normal compile path for this run"@,
                ),
            ],
            JitOutcomeView::InternalError(why) => seq![
                OutputView::Line(
                    "kestrelc watch: JIT backend error ("@ + why
                        + ") -- using the normal compile path for this run"@,
                ),
            ],
        },
        (BuildStage::AwaitingStaleCheck, BuildEvent::StaleBinary(true)) => seq![
            OutputView::Line(
                "kestrelc watch: note: "@ + bin
                    + " on disk is from an earlier run, not this one (in-process runs don't write a binary)"@,
            ),
        ],
        (BuildStage::AwaitingCompile, BuildEvent::SelfCompiled(s)) => match s {
            CompileStatus::Succeeded => seq![OutputView::Line("--- running "@ + bin + " ---"@)],
            CompileStatus::Failed => seq![OutputView::Line("--- failed in "@ + elapsed + " ---"@)],
            CompileStatus::CouldNotStart(e) => seq![
                OutputView::ErrLine("kestrelc: failed to invoke self ('"@ + exe + "'): "@ + e@),
            ],
        },
        (BuildStage::AwaitingRun, BuildEvent::BinaryRan(r)) => match r {
            RunStatus::Exited(code) => seq![
                OutputView::Line(
                    "--- exited with code "@ + decimal(code as int) + " (finished in "@ + elapsed
                        + ") ---"@,
                ),
            ],
            RunStatus::Killed(status) => seq![
                OutputView::Line(
                    "--- exited with "@ + status@ + " (finished in "@ + elapsed + ") ---"@,
                ),
            ],
            RunStatus::CouldNotStart(e) => seq![
                OutputView::ErrLine("kestrelc: failed to run '"@ + bin + "': "@ + e@),
            ],
        },
        _ => Seq::empty(),
    }
}

/// Takes the outcome of a rebuild's outside work: what to write and what
/// follows.
pub fn build_step(stage: BuildStage, event: BuildEvent, stem: &str, exe: &str, elapsed: &str) -> (r: (
    Vec<Output>,
    BuildStage,
))
    ensures
        outputs(r.0@) == build_outputs(stage, event, stem@, exe@, elapsed@),
        r.1 == build_next(stage, event),
{
    let ghost ev = event;
    let mut out: Vec<Output> = Vec::new();
    let next = match (stage, event) {
        (BuildStage::AwaitingJit, BuildEvent::Jit(o)) => match o {
            JitOutcome::Ran(code) => {
                let line = String::from_str("--- exited with code ").concat(
                    decimal_text(code).as_str(),
                ).concat(" (finished in ").concat(elapsed).concat(", in-process) ---");
                out.push(Output::Line(line));
                BuildStage::AwaitingStaleCheck
            },
            JitOutcome::CompileError => {
                out.push(
                    Output::Line(String::from_str("--- failed in ").concat(elapsed).concat(" ---")),
                );
                BuildStage::Done
            },
            JitOutcome::Unsupported(why) => {
                let line = String::from_str("kestrelc watch: ").concat(why.as_str()).concat(
                    " -- using the normal compile path for this run",
                );
                out.push(Output::Line(line));
                BuildStage::AwaitingCompile
            },
            JitOutcome::InternalError(why) => {
                let line = String::from_str("kestrelc watch: JIT backend error (").concat(
                    why.as_str(),
                ).concat(") -- using the normal compile path for this run");
                out.push(Output::Line(line));
                BuildStage::AwaitingCompile
            },
        },
        (BuildStage::AwaitingStaleCheck, BuildEvent::StaleBinary(stale)) => {
            if stale {
                let line = String::from_str("kestrelc watch: note: ").concat(
                    binary_path(stem).as_str(),
                ).concat(
                    " on disk is from an earlier run, not this one (in-process runs don't write a binary)",
                );
                out.push(Output::Line(line));
            }
            BuildStage::Done
        },
        (BuildStage::AwaitingCompile, BuildEvent::SelfCompiled(s)) => match s {
            CompileStatus::Succeeded => {
                let line = String::from_str("--- running ").concat(binary_path(stem).as_str()).concat(
                    " ---",
                );
                out.push(Output::Line(line));
                BuildStage::AwaitingRun
            },
            CompileStatus::Failed => {
                out.push(
                    Output::Line(String::from_str("--- failed in ").concat(elapsed).concat(" ---")),
                );
                BuildStage::Done
            },
            CompileStatus::CouldNotStart(e) => {
                let line = String::from_str("kestrelc: failed to invoke self ('").concat(exe).concat(
                    "'): ",
                ).concat(e.as_str());
                out.push(Output::ErrLine(line));
                BuildStage::Done
            },
        },
        (BuildStage::AwaitingRun, BuildEvent::BinaryRan(r)) => {
            match r {
                RunStatus::Exited(code) => {
                    let line = String::from_str("--- exited with code ").concat(
                        decimal_text(code as i64).as_str(),
                    ).concat(" (finished in ").concat(elapsed).concat(") ---");
                    out.push(Output::Line(line));
                },
                RunStatus::Killed(status) => {
                    let line = String::from_str("--- exited with ").concat(status.as_str()).concat(
                        " (finished in ",
                    ).concat(elapsed).concat(") ---");
                    out.push(Output::Line(line));
                },
                RunStatus::CouldNotStart(e) => {
                    let line = String::from_str("kestrelc: failed to run '").concat(
                        binary_path(stem).as_str(),
                    ).concat("': ").concat(e.as_str());
                    out.push(Output::ErrLine(line));
                },
            }
            BuildStage::Done
        },
        _ => stage,
    };
    proof {
        if out@.len() == 0 {
            assert(outputs(out@) =~= Seq::empty());
        } else {
            assert(outputs(out@) =~= seq![out@[0]@]);
        }
    }
    (out, next)
}

/// The self-compile is asked for exactly when the in-process attempt found
/// the program unsupported or hit a backend failure; a compile error or an
/// in-process run never leads to it.
pub proof fn law_fallback_only_after_jit_gave_way(o: JitOutcome)
    ensures
        (build_next(BuildStage::AwaitingJit, BuildEvent::Jit(o)) == BuildStage::AwaitingCompile)
            == (o is Unsupported || o is InternalError),
        o is Ran ==> build_next(BuildStage::AwaitingJit, BuildEvent::Jit(o))
            == BuildStage::AwaitingStaleCheck,
        o is CompileError ==> build_next(BuildStage::AwaitingJit, BuildEvent::Jit(o))
            == BuildStage::Done,
{
}

/// The binary is run only after the self-compile succeeded, and every
/// rebuild that reaches the binary's run or the stale-binary check ends at
/// the next outcome.
pub proof fn law_binary_runs_only_after_compile(stage: BuildStage, event: BuildEvent)
    ensures
        build_next(stage, event) == BuildStage::AwaitingRun ==> (stage == BuildStage::AwaitingRun
            || (stage == BuildStage::AwaitingCompile && event matches BuildEvent::SelfCompiled(
            CompileStatus::Succeeded,
        ))),
        (stage == BuildStage::AwaitingRun && event is BinaryRan) ==> build_next(stage, event)
            == BuildStage::Done,
        (stage == BuildStage::AwaitingStaleCheck && event is StaleBinary) ==> build_next(
            stage,
            event,
        ) == BuildStage::Done,
        stage == BuildStage::Done ==> build_next(stage, event) == BuildStage::Done,
{
}

} // verus!
