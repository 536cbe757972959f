use kestrelc::output::Output;
use kestrelc::watch::{is_rebuild_trigger, watcher_reaction, ChangeKind, WatchEvent, WatchSession, WatchStage, WatcherReaction, DEBOUNCE_MILLIS};

fn err_line(out: &[Output]) -> String {
    match out {
        [Output::ErrLine(s)] => s.clone(),
        _ => panic!("expected one line on standard error"),
    }
}

#[test]
fn only_writes_and_creations_trigger_a_rebuild() {
    assert!(is_rebuild_trigger(ChangeKind::Modify));
    assert!(is_rebuild_trigger(ChangeKind::Create));
    for k in [ChangeKind::Any, ChangeKind::Access, ChangeKind::Remove, ChangeKind::Other] {
        assert!(!is_rebuild_trigger(k));
    }
}

#[test]
fn watcher_callback_reactions() {
    assert!(matches!(watcher_reaction(Ok(ChangeKind::Modify)), WatcherReaction::Signal));
    assert!(matches!(watcher_reaction(Ok(ChangeKind::Remove)), WatcherReaction::Ignore));
    match watcher_reaction(Err("inotify gone".to_string())) {
        WatcherReaction::Report(line) => assert_eq!(line, "kestrelc: watch error: inotify gone"),
        _ => panic!("a watch error is reported"),
    }
}

#[test]
fn debounce_window_is_a_tenth_of_a_second() {
    assert_eq!(DEBOUNCE_MILLIS, 100);
}

#[test]
fn a_missing_file_fails_at_once() {
    let mut s = WatchSession::start("does_not_exist.kes".to_string());
    let out = s.step(WatchEvent::FileExists(false));
    assert_eq!(err_line(&out), "kestrelc: can't read 'does_not_exist.kes': No such file or directory");
    assert_eq!(s.stage(), WatchStage::Ended(false));
    assert!(s.step(WatchEvent::BuildDone).is_empty());
    assert_eq!(s.stage(), WatchStage::Ended(false));
}

#[test]
fn a_path_without_a_stem_fails() {
    let mut s = WatchSession::start("/".to_string());
    let out = s.step(WatchEvent::FileExists(true));
    assert_eq!(err_line(&out), "kestrelc: '/' has no file stem");
    assert_eq!(s.stage(), WatchStage::Ended(false));
}

#[test]
fn setup_failures_are_reported_and_end_the_session() {
    let mut s = WatchSession::start("dir/prog.kes".to_string());
    s.step(WatchEvent::FileExists(true));
    assert_eq!(s.stem(), "prog");
    let out = s.step(WatchEvent::ExecutableFound(Err("no /proc".to_string())));
    assert_eq!(err_line(&out), "kestrelc: can't find my own executable path: no /proc");
    assert_eq!(s.stage(), WatchStage::Ended(false));

    let mut s = WatchSession::start("prog.kes".to_string());
    s.step(WatchEvent::FileExists(true));
    s.step(WatchEvent::ExecutableFound(Ok(())));
    let out = s.step(WatchEvent::WatcherStarted(Err("too many watches".to_string())));
    assert_eq!(err_line(&out), "kestrelc: failed to start file watcher: too many watches");

    let mut s = WatchSession::start("prog.kes".to_string());
    s.step(WatchEvent::FileExists(true));
    s.step(WatchEvent::ExecutableFound(Ok(())));
    s.step(WatchEvent::WatcherStarted(Ok(())));
    let out = s.step(WatchEvent::FileWatched(Err("denied".to_string())));
    assert_eq!(err_line(&out), "kestrelc: failed to watch 'prog.kes': denied");
    assert_eq!(s.stage(), WatchStage::Ended(false));
}

#[test]
fn a_session_rebuilds_after_each_save_and_ends_when_the_watcher_goes() {
    let mut s = WatchSession::start("dir/prog.kes".to_string());
    assert!(s.step(WatchEvent::FileExists(true)).is_empty());
    assert_eq!(s.stage(), WatchStage::FindingExecutable);
    s.step(WatchEvent::ExecutableFound(Ok(())));
    s.step(WatchEvent::WatcherStarted(Ok(())));
    let out = s.step(WatchEvent::FileWatched(Ok(())));
    match &out[..] {
        [Output::Line(l)] => assert_eq!(l, "kestrelc: watching dir/prog.kes (Ctrl+C to stop)"),
        _ => panic!("watching is announced"),
    }
    assert_eq!(s.stage(), WatchStage::Building);
    s.step(WatchEvent::BuildDone);
    assert_eq!(s.stage(), WatchStage::Waiting);
    s.step(WatchEvent::ChangeSettled(true));
    assert_eq!(s.stage(), WatchStage::Building);
    s.step(WatchEvent::BuildDone);
    s.step(WatchEvent::ChangeSettled(false));
    assert_eq!(s.stage(), WatchStage::Ended(true));
}
