//! The in-process JIT path of watch mode: the order of the front-end checks,
//! and how the outcome of each decides between running in-process, giving
//! up, and falling back to the ahead-of-time compile path.

use vstd::prelude::*;

use crate::error::{ErrorView, KestrelcError};
use crate::modules::cant_read_message;
use crate::output::{outputs, report_errors, report_error, report_line, report_lines, Output, OutputView};

verus! {

/// The message for a caught panic, from what its payload turned out to be:
/// a `&str` payload's text, else a `String` payload's text, else `fallback`.
pub fn panic_text(as_str: Option<String>, as_string: Option<String>, fallback: &str) -> (msg: String)
    ensures
        msg@ == match (as_str, as_string) {
            (Some(s), _) => s@,
            (None, Some(s)) => s@,
            (None, None) => fallback@,
        },
{
    match as_str {
        Some(s) => s,
        None => match as_string {
            Some(s) => s,
            None => String::from_str(fallback),
        },
    }
}

/// The message for a panic caught in the JIT backend: the payload's text
/// when it is a `&str` (`as_str`) or a `String` (`as_string`), else
/// "unknown panic".
pub fn panic_message(as_str: Option<String>, as_string: Option<String>) -> (msg: String)
    ensures
        msg@ == match (as_str, as_string) {
            (Some(s), _) => s@,
            (None, Some(s)) => s@,
            (None, None) => "unknown panic"@,
        },
{
    panic_text(as_str, as_string, "unknown panic")
}

/// The message for a caught panic's payload texts, as `panic_message` gives it.
pub open spec fn panic_message_text(as_str: Option<String>, as_string: Option<String>) -> Seq<char> {
    match (as_str, as_string) {
        (Some(s), _) => s@,
        (None, Some(s)) => s@,
        (None, None) => "unknown panic"@,
    }
}

/// How the in-process attempt at a program ended.
pub enum JitOutcome {
    /// Compiled and ran in-process; `main`'s result.
    Ran(i64),
    /// The front end rejected the program; the errors were already reported.
    CompileError,
    /// The program uses something the JIT does not support yet; why.
    Unsupported(String),
    /// The JIT backend itself failed on a valid program; why.
    InternalError(String),
}

/// A JIT outcome as a mathematical value.
pub enum JitOutcomeView {
    Ran(i64),
    CompileError,
    Unsupported(Seq<char>),
    InternalError(Seq<char>),
}

impl View for JitOutcome {
    type V = JitOutcomeView;

    open spec fn view(&self) -> JitOutcomeView {
        match self {
            JitOutcome::Ran(r) => JitOutcomeView::Ran(*r),
            JitOutcome::CompileError => JitOutcomeView::CompileError,
            JitOutcome::Unsupported(m) => JitOutcomeView::Unsupported(m@),
            JitOutcome::InternalError(m) => JitOutcomeView::InternalError(m@),
        }
    }
}

/// The stages of the in-process attempt, in the order they run.
#[derive(Clone, Copy, PartialEq, Eq, Structural, Debug)]
pub enum JitStage {
    ReadSource,
    Lex,
    Parse,
    Resolve,
    Purity,
    ParallelMap,
    Types,
    FindMain,
    CheckSupport,
    RunBackend,
}

/// The stage that follows a stage that passed.
pub open spec fn stage_after(stage: JitStage) -> JitStage {
    match stage {
        JitStage::ReadSource => JitStage::Lex,
        JitStage::Lex => JitStage::Parse,
        JitStage::Parse => JitStage::Resolve,
        JitStage::Resolve => JitStage::Purity,
        JitStage::Purity => JitStage::ParallelMap,
        JitStage::ParallelMap => JitStage::Types,
        JitStage::Types => JitStage::FindMain,
        JitStage::FindMain => JitStage::CheckSupport,
        _ => JitStage::RunBackend,
    }
}

/// The stages whose failure means the program itself is invalid.
pub open spec fn is_front_end(stage: JitStage) -> bool {
    !(stage is CheckSupport || stage is RunBackend)
}

/// What the JIT backend did with a program that passed every check.
pub enum BackendResult {
    /// It compiled and ran; `main`'s result.
    Returned(i64),
    /// It failed with this error message.
    Failed(String),
    /// It panicked; the payload's text when it is a `&str` or a `String`.
    Panicked { as_str: Option<String>, as_string: Option<String> },
}

/// The outcome of one stage.
pub enum JitEvent {
    /// Reading the source file: done, or the text of the I/O error.
    SourceRead(Result<(), String>),
    /// Lexing or parsing: done, or the error.
    Scanned(Result<(), KestrelcError>),
    /// Name resolution, purity, `parallel_map` or type checking: the errors found.
    Checked(Vec<KestrelcError>),
    /// Whether the program declares `main`.
    MainFound(bool),
    /// Whether the JIT supports the program, or why not.
    SupportChecked(Result<(), String>),
    /// The JIT backend's run.
    BackendRan(BackendResult),
}

/// What follows a stage: another stage, or the end of the attempt.
pub enum JitNext {
    Stage(JitStage),
    Finish(JitOutcome),
}

/// What follows a stage, as a mathematical value.
pub enum JitNextView {
    Stage(JitStage),
    Finish(JitOutcomeView),
}

impl View for JitNext {
    type V = JitNextView;

    open spec fn view(&self) -> JitNextView {
        match self {
            JitNext::Stage(s) => JitNextView::Stage(*s),
            JitNext::Finish(o) => JitNextView::Finish(o@),
        }
    }
}

/// "kestrelc: No 'main' function found"
pub open spec fn no_main_message() -> Seq<char> {
    "kestrelc: No 'main' function found"@
}

/// The errors a check found, as values.
pub open spec fn error_views(errors: Seq<KestrelcError>) -> Seq<ErrorView> {
    errors.map_values(|e: KestrelcError| e@)
}

/// What follows a stage's outcome. A front-end failure ends the attempt as a
/// compile error; an unsupported program or a backend failure ends it in a
/// way that lets the caller fall back; an outcome that does not answer the
/// stage leaves the stage as it is.
pub open spec fn jit_next(stage: JitStage, event: JitEvent) -> JitNextView {
    match (stage, event) {
        (JitStage::ReadSource, JitEvent::SourceRead(Err(_))) => JitNextView::Finish(JitOutcomeView::CompileError),
        (JitStage::ReadSource, JitEvent::SourceRead(Ok(()))) => JitNextView::Stage(JitStage::Lex),
        (JitStage::Lex, JitEvent::Scanned(r)) | (JitStage::Parse, JitEvent::Scanned(r)) => match r {
            Err(_) => JitNextView::Finish(JitOutcomeView::CompileError),
            Ok(()) => JitNextView::Stage(stage_after(stage)),
        },
        (JitStage::Resolve, JitEvent::Checked(errors))
        | (JitStage::Purity, JitEvent::Checked(errors))
        | (JitStage::ParallelMap, JitEvent::Checked(errors))
        | (JitStage::Types, JitEvent::Checked(errors)) => if errors@.len() == 0 {
            JitNextView::Stage(stage_after(stage))
        } else {
            JitNextView::Finish(JitOutcomeView::CompileError)
        },
        (JitStage::FindMain, JitEvent::MainFound(found)) => if found {
            JitNextView::Stage(JitStage::CheckSupport)
        } else {
            JitNextView::Finish(JitOutcomeView::CompileError)
        },
        (JitStage::CheckSupport, JitEvent::SupportChecked(r)) => match r {
            Ok(()) => JitNextView::Stage(JitStage::RunBackend),
            Err(why) => JitNextView::Finish(JitOutcomeView::Unsupported(why@)),
        },
        (JitStage::RunBackend, JitEvent::BackendRan(r)) => match r {
            BackendResult::Returned(v) => JitNextView::Finish(JitOutcomeView::Ran(v)),
            BackendResult::Failed(why) => JitNextView::Finish(JitOutcomeView::InternalError(why@)),
            BackendResult::Panicked { as_str, as_string } => JitNextView::Finish(
                JitOutcomeView::InternalError(panic_message_text(as_str, as_string)),
            ),
        },
        _ => JitNextView::Stage(stage),
    }
}

/// What a stage's outcome writes: the unreadable file, the front end's
/// errors, or the missing `main`; nothing otherwise.
pub open spec fn jit_outputs(stage: JitStage, event: JitEvent, path: Seq<char>) -> Seq<OutputView> {
    match (stage, event) {
        (JitStage::ReadSource, JitEvent::SourceRead(Err(io))) => seq![
            OutputView::ErrLine(cant_read_message(path, io@)),
        ],
        (JitStage::Lex, JitEvent::Scanned(Err(e))) | (JitStage::Parse, JitEvent::Scanned(Err(e))) => seq![
            report_line(e@, "kestrelc: "@),
        ],
        (JitStage::Resolve, JitEvent::Checked(errors))
        | (JitStage::Purity, JitEvent::Checked(errors))
        | (JitStage::ParallelMap, JitEvent::Checked(errors))
        | (JitStage::Types, JitEvent::Checked(errors)) => report_lines(error_views(errors@)),
        (JitStage::FindMain, JitEvent::MainFound(false)) => seq![OutputView::ErrLine(no_main_message())],
        _ => Seq::empty(),
    }
}

/// Takes one stage's outcome for the source file at `path`: what to write,
/// and what follows.
pub fn jit_step(stage: JitStage, event: JitEvent, path: &str) -> (r: (Vec<Output>, JitNext))
    ensures
        outputs(r.0@) == jit_outputs(stage, event, path@),
        r.1@ == jit_next(stage, event),
{
    let ghost ev = event;
    let mut out: Vec<Output> = Vec::new();
    let next = match (stage, event) {
        (JitStage::ReadSource, JitEvent::SourceRead(Err(io))) => {
            let msg = String::from_str("kestrelc: can't read '").concat(path).concat("': ").concat(
                io.as_str(),
            );
            out.push(Output::ErrLine(msg));
            JitNext::Finish(JitOutcome::CompileError)
        },
        (JitStage::ReadSource, JitEvent::SourceRead(Ok(()))) => JitNext::Stage(JitStage::Lex),
        (JitStage::Lex, JitEvent::Scanned(r)) | (JitStage::Parse, JitEvent::Scanned(r)) => match r {
            Err(e) => {
                out.push(report_error(&e));
                JitNext::Finish(JitOutcome::CompileError)
            },
            Ok(()) => JitNext::Stage(
                match stage {
                    JitStage::Lex => JitStage::Parse,
                    _ => JitStage::Resolve,
                },
            ),
        },
        (JitStage::Resolve, JitEvent::Checked(errors))
        | (JitStage::Purity, JitEvent::Checked(errors))
        | (JitStage::ParallelMap, JitEvent::Checked(errors))
        | (JitStage::Types, JitEvent::Checked(errors)) => {
            if errors.len() == 0 {
                JitNext::Stage(
                    match stage {
                        JitStage::Resolve => JitStage::Purity,
                        JitStage::Purity => JitStage::ParallelMap,
                        JitStage::ParallelMap => JitStage::Types,
                        _ => JitStage::FindMain,
                    },
                )
            } else {
                out = report_errors(&errors);
                JitNext::Finish(JitOutcome::CompileError)
            }
        },
        (JitStage::FindMain, JitEvent::MainFound(found)) => {
            if found {
                JitNext::Stage(JitStage::CheckSupport)
            } else {
                out.push(Output::ErrLine(String::from_str("kestrelc: No 'main' function found")));
                JitNext::Finish(JitOutcome::CompileError)
            }
        },
        (JitStage::CheckSupport, JitEvent::SupportChecked(r)) => match r {
            Ok(()) => JitNext::Stage(JitStage::RunBackend),
            Err(why) => JitNext::Finish(JitOutcome::Unsupported(why)),
        },
        (JitStage::RunBackend, JitEvent::BackendRan(r)) => match r {
            BackendResult::Returned(v) => JitNext::Finish(JitOutcome::Ran(v)),
            BackendResult::Failed(why) => JitNext::Finish(JitOutcome::InternalError(why)),
            BackendResult::Panicked { as_str, as_string } => JitNext::Finish(
                JitOutcome::InternalError(panic_message(as_str, as_string)),
            ),
        },
        _ => JitNext::Stage(stage),
    };
    proof {
        if out@.len() == 0 {
            assert(outputs(out@) =~= Seq::empty());
        } else if out@.len() == 1 {
            assert(outputs(out@) =~= seq![out@[0]@]);
        }
    }
    (out, next)
}

/// A failing front-end stage always ends the attempt as a compile error and
/// never as a reason to fall back; only the support check can say
/// "unsupported", and only the backend run can say "ran" or "internal
/// error".
pub proof fn law_only_backend_failures_fall_back(stage: JitStage, event: JitEvent)
    ensures
        jit_next(stage, event) is Finish && is_front_end(stage) ==> jit_next(stage, event)
            == JitNextView::Finish(JitOutcomeView::CompileError),
        jit_next(stage, event) matches JitNextView::Finish(JitOutcomeView::Unsupported(_))
            ==> stage == JitStage::CheckSupport,
        jit_next(stage, event) matches JitNextView::Finish(JitOutcomeView::Ran(_)) ==> stage
            == JitStage::RunBackend,
        jit_next(stage, event) matches JitNextView::Finish(JitOutcomeView::InternalError(_))
            ==> stage == JitStage::RunBackend,
{
}

/// The outcome is the kind of result its stage produces.
pub open spec fn answers_stage(stage: JitStage, event: JitEvent) -> bool {
    match (stage, event) {
        (JitStage::ReadSource, JitEvent::SourceRead(_)) => true,
        (JitStage::Lex, JitEvent::Scanned(_)) => true,
        (JitStage::Parse, JitEvent::Scanned(_)) => true,
        (JitStage::Resolve, JitEvent::Checked(_)) => true,
        (JitStage::Purity, JitEvent::Checked(_)) => true,
        (JitStage::ParallelMap, JitEvent::Checked(_)) => true,
        (JitStage::Types, JitEvent::Checked(_)) => true,
        (JitStage::FindMain, JitEvent::MainFound(_)) => true,
        (JitStage::CheckSupport, JitEvent::SupportChecked(_)) => true,
        (JitStage::RunBackend, JitEvent::BackendRan(_)) => true,
        _ => false,
    }
}

/// The outcome says the program failed a front-end check: the file could
/// not be read, lexing or parsing failed, a check found at least one error,
/// or there is no `main`.
pub open spec fn reports_failure(event: JitEvent) -> bool {
    match event {
        JitEvent::SourceRead(r) => r is Err,
        JitEvent::Scanned(r) => r is Err,
        JitEvent::Checked(errors) => errors@.len() > 0,
        JitEvent::MainFound(found) => !found,
        _ => false,
    }
}

/// A front-end stage passes only when its check found nothing wrong: a
/// single error, or any failure, ends the attempt as a compile error, so an
/// invalid program never reaches the backend; a clean outcome hands over to
/// the next stage. A check that found errors reports every one of them,
/// under one header.
pub proof fn law_front_end_failures_stop(stage: JitStage, event: JitEvent, path: Seq<char>)
    requires
        is_front_end(stage),
        answers_stage(stage, event),
    ensures
        reports_failure(event) ==> jit_next(stage, event) == JitNextView::Finish(
            JitOutcomeView::CompileError,
        ),
        !reports_failure(event) ==> jit_next(stage, event) == JitNextView::Stage(
            stage_after(stage),
        ),
        reports_failure(event) ==> jit_outputs(stage, event, path).len() > 0,
        event matches JitEvent::Checked(errors) ==> jit_outputs(stage, event, path).len() == (if errors@.len()
            == 0 {
            0
        } else {
            errors@.len() + 1
        }),
{
}

/// The backend's own result is what the attempt ends with: the value `main`
/// returned, or the backend's error or panic text as an internal error; a
/// program the JIT does not support ends with the reason why.
pub proof fn law_backend_result_is_passed_on(event: JitEvent)
    ensures
        event matches JitEvent::BackendRan(BackendResult::Returned(x)) ==> jit_next(
            JitStage::RunBackend,
            event,
        ) == JitNextView::Finish(JitOutcomeView::Ran(x)),
        event matches JitEvent::BackendRan(BackendResult::Failed(why)) ==> jit_next(
            JitStage::RunBackend,
            event,
        ) == JitNextView::Finish(JitOutcomeView::InternalError(why@)),
        event matches JitEvent::SupportChecked(Err(why)) ==> jit_next(
            JitStage::CheckSupport,
            event,
        ) == JitNextView::Finish(JitOutcomeView::Unsupported(why@)),
        event matches JitEvent::SupportChecked(Ok(())) ==> jit_next(JitStage::CheckSupport, event)
            == JitNextView::Stage(JitStage::RunBackend),
{
}

/// The stages run in a fixed order: a stage that passes hands over to the
/// next one, and no stage is skipped.
pub proof fn law_stages_in_order(stage: JitStage, event: JitEvent)
    ensures
        jit_next(stage, event) matches JitNextView::Stage(next) ==> next == stage || next
            == stage_after(stage),
{
}

} // verus!
