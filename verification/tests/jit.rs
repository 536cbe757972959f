use kestrelc::error::{ErrorKind, KestrelcError, Span};
use kestrelc::jit::{jit_step, panic_message, BackendResult, JitEvent, JitNext, JitOutcome, JitStage};
use kestrelc::output::Output;

fn err(kind: ErrorKind, msg: &str, line: usize, len: usize) -> KestrelcError {
    KestrelcError { kind, message: msg.to_string(), span: Span { line, col: 3, len } }
}

fn next_stage(r: &JitNext) -> Option<JitStage> {
    match r {
        JitNext::Stage(s) => Some(*s),
        JitNext::Finish(_) => None,
    }
}

#[test]
fn panic_messages() {
    assert_eq!(panic_message(Some("index out of bounds".to_string()), None), "index out of bounds");
    assert_eq!(panic_message(None, Some("boom".to_string())), "boom");
    assert_eq!(panic_message(None, None), "unknown panic");
}

#[test]
fn a_clean_program_passes_every_stage_in_order() {
    let path = "prog.kes";
    let mut stage = JitStage::ReadSource;
    let events = vec![
        JitEvent::SourceRead(Ok(())),
        JitEvent::Scanned(Ok(())),
        JitEvent::Scanned(Ok(())),
        JitEvent::Checked(vec![]),
        JitEvent::Checked(vec![]),
        JitEvent::Checked(vec![]),
        JitEvent::Checked(vec![]),
        JitEvent::MainFound(true),
        JitEvent::SupportChecked(Ok(())),
    ];
    let expected = [
        JitStage::Lex,
        JitStage::Parse,
        JitStage::Resolve,
        JitStage::Purity,
        JitStage::ParallelMap,
        JitStage::Types,
        JitStage::FindMain,
        JitStage::CheckSupport,
        JitStage::RunBackend,
    ];
    for (ev, want) in events.into_iter().zip(expected) {
        let (out, next) = jit_step(stage, ev, path);
        assert!(out.is_empty());
        stage = next_stage(&next).unwrap();
        assert_eq!(stage, want);
    }
    let (_, next) = jit_step(stage, JitEvent::BackendRan(BackendResult::Returned(7)), path);
    assert!(matches!(next, JitNext::Finish(JitOutcome::Ran(7))));
}

#[test]
fn an_unreadable_source_is_a_compile_error() {
    let (out, next) = jit_step(JitStage::ReadSource, JitEvent::SourceRead(Err("No such file".to_string())), "p.kes");
    assert!(matches!(&out[..], [Output::ErrLine(s)] if s == "kestrelc: can't read 'p.kes': No such file"));
    assert!(matches!(next, JitNext::Finish(JitOutcome::CompileError)));
}

#[test]
fn a_parse_error_is_reported_once_and_is_a_compile_error() {
    let (out, next) = jit_step(JitStage::Parse, JitEvent::Scanned(Err(err(ErrorKind::Parse, "expected ;", 4, 0))), "p.kes");
    match &out[..] {
        [Output::Diagnostic { prefix, line, col, len, message }] => {
            assert_eq!(prefix, "kestrelc: ");
            assert_eq!((*line, *col, *len), (4, 3, 1));
            assert_eq!(message, "expected ;");
        }
        _ => panic!("one diagnostic"),
    }
    assert!(matches!(next, JitNext::Finish(JitOutcome::CompileError)));
}

#[test]
fn check_errors_are_reported_together() {
    let errors = vec![err(ErrorKind::Type, "mismatch", 0, 0), err(ErrorKind::Purity, "impure", 2, 5)];
    let (out, next) = jit_step(JitStage::Types, JitEvent::Checked(errors), "p.kes");
    assert_eq!(out.len(), 3);
    assert!(matches!(&out[0], Output::KindHeader(ErrorKind::Type)));
    assert!(matches!(&out[1], Output::ErrLine(s) if s == "  mismatch"));
    assert!(matches!(&out[2], Output::Diagnostic { prefix, len: 5, .. } if prefix == "  "));
    assert!(matches!(next, JitNext::Finish(JitOutcome::CompileError)));
}

#[test]
fn a_program_without_main_is_a_compile_error() {
    let (out, next) = jit_step(JitStage::FindMain, JitEvent::MainFound(false), "p.kes");
    assert!(matches!(&out[..], [Output::ErrLine(s)] if s == "kestrelc: No 'main' function found"));
    assert!(matches!(next, JitNext::Finish(JitOutcome::CompileError)));
}

#[test]
fn unsupported_programs_and_backend_failures_fall_back() {
    let (out, next) = jit_step(JitStage::CheckSupport, JitEvent::SupportChecked(Err("structs".to_string())), "p.kes");
    assert!(out.is_empty());
    assert!(matches!(next, JitNext::Finish(JitOutcome::Unsupported(m)) if m == "structs"));
    let (_, next) =
        jit_step(JitStage::RunBackend, JitEvent::BackendRan(BackendResult::Failed("isa".to_string())), "p.kes");
    assert!(matches!(next, JitNext::Finish(JitOutcome::InternalError(m)) if m == "isa"));
    let (_, next) = jit_step(
        JitStage::RunBackend,
        JitEvent::BackendRan(BackendResult::Panicked { as_str: None, as_string: None }),
        "p.kes",
    );
    assert!(matches!(next, JitNext::Finish(JitOutcome::InternalError(m)) if m == "unknown panic"));
}

#[test]
fn an_event_out_of_turn_leaves_the_stage() {
    let (out, next) = jit_step(JitStage::Lex, JitEvent::MainFound(true), "p.kes");
    assert!(out.is_empty());
    assert_eq!(next_stage(&next), Some(JitStage::Lex));
}
