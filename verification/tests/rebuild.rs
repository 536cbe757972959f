use kestrelc::jit::JitOutcome;
use kestrelc::output::Output;
use kestrelc::rebuild::{binary_path, build_start, build_step, BuildEvent, BuildStage, CompileStatus, RunStatus};
use kestrelc::text::decimal_text;

fn line(out: &[Output]) -> String {
    match out {
        [Output::Line(s)] => s.clone(),
        [Output::ErrLine(s)] => format!("E:{s}"),
        _ => panic!("expected one line"),
    }
}

fn step(stage: BuildStage, event: BuildEvent) -> (String, BuildStage) {
    let (out, next) = build_step(stage, event, "prog", "/bin/kestrelc", "1.25ms");
    (if out.is_empty() { String::new() } else { line(&out) }, next)
}

#[test]
fn decimal_rendering() {
    assert_eq!(decimal_text(0), "0");
    assert_eq!(decimal_text(42), "42");
    assert_eq!(decimal_text(-7), "-7");
    assert_eq!(decimal_text(i64::MAX), i64::MAX.to_string());
    assert_eq!(decimal_text(i64::MIN), i64::MIN.to_string());
}

#[test]
fn a_rebuild_starts_by_clearing_the_screen() {
    let out = build_start("prog.kes");
    assert_eq!(out.len(), 3);
    assert!(matches!(&out[0], Output::Raw(s) if s == "\x1B[2J\x1B[1;1H"));
    assert!(matches!(&out[1], Output::Line(s) if s == "kestrelc watch: prog.kes"));
    assert!(matches!(&out[2], Output::Flush));
    assert_eq!(binary_path("prog"), "./prog");
}

#[test]
fn an_in_process_run_ends_the_rebuild_without_compiling() {
    let (l, next) = step(BuildStage::AwaitingJit, BuildEvent::Jit(JitOutcome::Ran(3)));
    assert_eq!(l, "--- exited with code 3 (finished in 1.25ms, in-process) ---");
    assert_eq!(next, BuildStage::AwaitingStaleCheck);
    let (l, next) = step(next, BuildEvent::StaleBinary(true));
    assert_eq!(
        l,
        "kestrelc watch: note: ./prog on disk is from an earlier run, not this one (in-process runs don't write a binary)"
    );
    assert_eq!(next, BuildStage::Done);
    let (l, next) = step(BuildStage::AwaitingStaleCheck, BuildEvent::StaleBinary(false));
    assert_eq!(l, "");
    assert_eq!(next, BuildStage::Done);
}

#[test]
fn a_compile_error_ends_the_rebuild() {
    let (l, next) = step(BuildStage::AwaitingJit, BuildEvent::Jit(JitOutcome::CompileError));
    assert_eq!(l, "--- failed in 1.25ms ---");
    assert_eq!(next, BuildStage::Done);
}

#[test]
fn unsupported_and_backend_errors_fall_back_to_compiling() {
    let (l, next) = step(BuildStage::AwaitingJit, BuildEvent::Jit(JitOutcome::Unsupported("arrays".to_string())));
    assert_eq!(l, "kestrelc watch: arrays -- using the normal compile path for this run");
    assert_eq!(next, BuildStage::AwaitingCompile);
    let (l, next) =
        step(BuildStage::AwaitingJit, BuildEvent::Jit(JitOutcome::InternalError("define_function".to_string())));
    assert_eq!(l, "kestrelc watch: JIT backend error (define_function) -- using the normal compile path for this run");
    assert_eq!(next, BuildStage::AwaitingCompile);
}

#[test]
fn compiling_then_running_the_binary() {
    let (l, next) = step(BuildStage::AwaitingCompile, BuildEvent::SelfCompiled(CompileStatus::Succeeded));
    assert_eq!(l, "--- running ./prog ---");
    assert_eq!(next, BuildStage::AwaitingRun);
    let (l, next) = step(next, BuildEvent::BinaryRan(RunStatus::Exited(-2)));
    assert_eq!(l, "--- exited with code -2 (finished in 1.25ms) ---");
    assert_eq!(next, BuildStage::Done);
    let (l, _) = step(BuildStage::AwaitingRun, BuildEvent::BinaryRan(RunStatus::Killed("signal: 9 (SIGKILL)".to_string())));
    assert_eq!(l, "--- exited with signal: 9 (SIGKILL) (finished in 1.25ms) ---");
    let (l, _) = step(BuildStage::AwaitingRun, BuildEvent::BinaryRan(RunStatus::CouldNotStart("not found".to_string())));
    assert_eq!(l, "E:kestrelc: failed to run './prog': not found");
}

#[test]
fn compile_failures() {
    let (l, next) = step(BuildStage::AwaitingCompile, BuildEvent::SelfCompiled(CompileStatus::Failed));
    assert_eq!(l, "--- failed in 1.25ms ---");
    assert_eq!(next, BuildStage::Done);
    let (l, next) =
        step(BuildStage::AwaitingCompile, BuildEvent::SelfCompiled(CompileStatus::CouldNotStart("denied".to_string())));
    assert_eq!(l, "E:kestrelc: failed to invoke self ('/bin/kestrelc'): denied");
    assert_eq!(next, BuildStage::Done);
}

#[test]
fn an_outcome_out_of_turn_changes_nothing() {
    let (l, next) = step(BuildStage::AwaitingRun, BuildEvent::StaleBinary(true));
    assert_eq!(l, "");
    assert_eq!(next, BuildStage::AwaitingRun);
}
