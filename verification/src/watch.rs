//! `kestrelc watch <file.kes>`: the checks before watching starts, which
//! file-system events call for a rebuild, and the rebuild loop.

use vstd::prelude::*;

use crate::output::{outputs, Output, OutputView};

verus! {

/// The quiet period, in milliseconds, after which a burst of change events
/// counts as one save.
pub const DEBOUNCE_MILLIS: u64 = 100;

/// The kind of a file-system event, as the watcher reports it.
#[derive(Clone, Copy, PartialEq, Eq, Structural, Debug)]
pub enum ChangeKind {
    Any,
    Access,
    Create,
    Modify,
    Remove,
    Other,
}

/// Whether an event of this kind calls for a rebuild: a file written or
/// created does; a read, a removal or an unknown event does not.
pub fn is_rebuild_trigger(kind: ChangeKind) -> (trigger: bool)
    ensures
        trigger == (kind == ChangeKind::Modify || kind == ChangeKind::Create),
{
    match kind {
        ChangeKind::Modify | ChangeKind::Create => true,
        _ => false,
    }
}

/// What the watcher's callback does with one report.
pub enum WatcherReaction {
    /// Signal the rebuild loop.
    Signal,
    /// Nothing.
    Ignore,
    /// Write this line on standard error and keep watching.
    Report(String),
}

/// The watcher's callback: an event of a triggering kind signals the rebuild
/// loop, any other event is ignored, and a watch error is reported without
/// stopping.
pub fn watcher_reaction(report: Result<ChangeKind, String>) -> (r: WatcherReaction)
    ensures
        match report {
            Ok(kind) => if kind == ChangeKind::Modify || kind == ChangeKind::Create {
                r is Signal
            } else {
                r is Ignore
            },
            Err(e) => r matches WatcherReaction::Report(line) && line@ == "kestrelc: watch error: "@
                + e@,
        },
{
    match report {
        Ok(kind) => if is_rebuild_trigger(kind) {
            WatcherReaction::Signal
        } else {
            WatcherReaction::Ignore
        },
        Err(e) => WatcherReaction::Report(
            String::from_str("kestrelc: watch error: ").concat(e.as_str()),
        ),
    }
}

/// The file stem of a path, as `std::path::Path::file_stem` computes it.
pub uninterp spec fn path_file_stem(path: Seq<char>) -> Option<Seq<char>>;

/// Wraps `std::path::Path::file_stem`; its text is named by `path_file_stem`.
#[verifier::external_body]
fn file_stem_of(path: &str) -> (stem: Option<String>)
    ensures
        match stem {
            Some(s) => path_file_stem(path@) == Some(s@),
            None => path_file_stem(path@) is None,
        },
{
    match std::path::Path::new(path).file_stem() {
        Some(s) => Some(s.to_string_lossy().into_owned()),
        None => None,
    }
}

/// Where a watch session stands: which outside work it waits for, or how it
/// ended.
#[derive(Clone, Copy, PartialEq, Eq, Structural, Debug)]
pub enum WatchStage {
    /// Tell whether the file exists.
    CheckingFile,
    /// Find the path of the running `kestrelc` executable.
    FindingExecutable,
    /// Start the file-system watcher.
    StartingWatcher,
    /// Watch the file.
    WatchingFile,
    /// Rebuild the file (see `build_start`).
    Building,
    /// Wait for the next save (see `drain_debounced`, with `DEBOUNCE_MILLIS`).
    Waiting,
    /// The session is over; whether it ended successfully.
    Ended(bool),
}

/// The outcome of the outside work a session asked for.
pub enum WatchEvent {
    FileExists(bool),
    /// The executable's path was found, or the text of the error.
    ExecutableFound(Result<(), String>),
    /// The watcher started, or the text of the error.
    WatcherStarted(Result<(), String>),
    /// The file is being watched, or the text of the error.
    FileWatched(Result<(), String>),
    /// The rebuild is over.
    BuildDone,
    /// The wait ended: a save settled (`true`) or the watcher went away.
    ChangeSettled(bool),
}

/// A watch session as a mathematical value: the file, its stem (once
/// known) and the stage.
pub struct WatchView {
    pub path: Seq<char>,
    pub stem: Seq<char>,
    pub stage: WatchStage,
}

/// A `kestrelc watch` session on one file, driven by the caller.
pub struct WatchSession {
    path: String,
    stem: String,
    stage: WatchStage,
}

impl View for WatchSession {
    type V = WatchView;

    closed spec fn view(&self) -> WatchView {
        WatchView { path: self.path@, stem: self.stem@, stage: self.stage }
    }
}

/// How a session answers an outcome. Every failed check ends it
/// unsuccessfully; once the file is watched, it rebuilds, then waits, and
/// rebuilds after each settled save until the watcher goes away, which ends
/// it successfully. An outcome that does not answer the stage leaves the
/// session as it is.
pub open spec fn watch_next(v: WatchView, event: WatchEvent) -> WatchView {
    match (v.stage, event) {
        (WatchStage::CheckingFile, WatchEvent::FileExists(exists)) => if !exists {
            WatchView { stage: WatchStage::Ended(false), ..v }
        } else {
            match path_file_stem(v.path) {
                Some(stem) => WatchView { stem, stage: WatchStage::FindingExecutable, ..v },
                None => WatchView { stage: WatchStage::Ended(false), ..v },
            }
        },
        (WatchStage::FindingExecutable, WatchEvent::ExecutableFound(r)) => WatchView {
            stage: if r is Ok {
                WatchStage::StartingWatcher
            } else {
                WatchStage::Ended(false)
            },
            ..v
        },
        (WatchStage::StartingWatcher, WatchEvent::WatcherStarted(r)) => WatchView {
            stage: if r is Ok {
                WatchStage::WatchingFile
            } else {
                WatchStage::Ended(false)
            },
            ..v
        },
        (WatchStage::WatchingFile, WatchEvent::FileWatched(r)) => WatchView {
            stage: if r is Ok {
                WatchStage::Building
            } else {
                WatchStage::Ended(false)
            },
            ..v
        },
        (WatchStage::Building, WatchEvent::BuildDone) => WatchView {
            stage: WatchStage::Waiting,
            ..v
        },
        (WatchStage::Waiting, WatchEvent::ChangeSettled(saved)) => WatchView {
            stage: if saved {
                WatchStage::Building
            } else {
                WatchStage::Ended(true)
            },
            ..v
        },
        _ => v,
    }
}

/// What a session writes in answer to an outcome: the reason a check
/// failed, or the announcement that watching has begun.
pub open spec fn watch_outputs(v: WatchView, event: WatchEvent) -> Seq<OutputView> {
    let p = v.path;
    match (v.stage, event) {
        (WatchStage::CheckingFile, WatchEvent::FileExists(exists)) => if !exists {
            seq![
                OutputView::ErrLine(
                    "kestrelc: can't read '"@ + p + "': No such file or directory"@,
                ),
            ]
        } else if path_file_stem(p) is None {
            seq![OutputView::ErrLine("kestrelc: '"@ + p + "' has no file stem"@)]
        } else {
            Seq::empty()
        },
        (WatchStage::FindingExecutable, WatchEvent::ExecutableFound(Err(e))) => seq![
            OutputView::ErrLine("kestrelc: can't find my own executable path: "@ + e@),
        ],
        (WatchStage::StartingWatcher, WatchEvent::WatcherStarted(Err(e))) => seq![
            OutputView::ErrLine("kestrelc: failed to start file watcher: "@ + e@),
        ],
        (WatchStage::WatchingFile, WatchEvent::FileWatched(r)) => match r {
            Err(e) => seq![OutputView::ErrLine("kestrelc: failed to watch '"@ + p + "': "@ + e@)],
            Ok(()) => seq![OutputView::Line("kestrelc: watching "@ + p + " (Ctrl+C to stop)"@)],
        },
        _ => Seq::empty(),
    }
}

impl WatchSession {
    /// Starts a session on the file at `path`; the first work asked for is
    /// whether it exists.
    pub fn start(path: String) -> (s: WatchSession)
        ensures
            s@.path == path@,
            s@.stem == Seq::<char>::empty(),
            s@.stage == WatchStage::CheckingFile,
    {
        WatchSession { path, stem: String::new(), stage: WatchStage::CheckingFile }
    }

    /// The stage the session is at.
    pub fn stage(&self) -> (stage: WatchStage)
        ensures
            stage == self@.stage,
    {
        self.stage
    }

    /// The watched file's path.
    pub fn path(&self) -> (p: &String)
        ensures
            p@ == self@.path,
    {
        &self.path
    }

    /// The watched file's stem, which names the binary a compile writes.
    pub fn stem(&self) -> (s: &String)
        ensures
            s@ == self@.stem,
    {
        &self.stem
    }

    /// Takes an outcome: what to write, and the session moves on.
    pub fn step(&mut self, event: WatchEvent) -> (out: Vec<Output>)
        ensures
            final(self)@ == watch_next(old(self)@, event),
            outputs(out@) == watch_outputs(old(self)@, event),
    {
        let ghost ev = event;
        let mut out: Vec<Output> = Vec::new();
        match (self.stage, event) {
            (WatchStage::CheckingFile, WatchEvent::FileExists(exists)) => {
                if !exists {
                    let line = String::from_str("kestrelc: can't read '").concat(
                        self.path.as_str(),
                    ).concat("': No such file or directory");
                    out.push(Output::ErrLine(line));
                    self.stage = WatchStage::Ended(false);
                } else {
                    match file_stem_of(self.path.as_str()) {
                        Some(stem) => {
                            self.stem = stem;
                            self.stage = WatchStage::FindingExecutable;
                        },
                        None => {
                            let line = String::from_str("kestrelc: '").concat(
                                self.path.as_str(),
                            ).concat("' has no file stem");
                            out.push(Output::ErrLine(line));
                            self.stage = WatchStage::Ended(false);
                        },
                    }
                }
            },
            (WatchStage::FindingExecutable, WatchEvent::ExecutableFound(r)) => match r {
                Ok(()) => {
                    self.stage = WatchStage::StartingWatcher;
                },
                Err(e) => {
                    let line = String::from_str("kestrelc: can't find my own executable path: ").concat(
                        e.as_str(),
                    );
                    out.push(Output::ErrLine(line));
                    self.stage = WatchStage::Ended(false);
                },
            },
            (WatchStage::StartingWatcher, WatchEvent::WatcherStarted(r)) => match r {
                Ok(()) => {
                    self.stage = WatchStage::WatchingFile;
                },
                Err(e) => {
                    let line = String::from_str("kestrelc: failed to start file watcher: ").concat(
                        e.as_str(),
                    );
                    out.push(Output::ErrLine(line));
                    self.stage = WatchStage::Ended(false);
                },
            },
            (WatchStage::WatchingFile, WatchEvent::FileWatched(r)) => match r {
                Ok(()) => {
                    let line = String::from_str("kestrelc: watching ").concat(
                        self.path.as_str(),
                    ).concat(" (Ctrl+C to stop)");
                    out.push(Output::Line(line));
                    self.stage = WatchStage::Building;
                },
                Err(e) => {
                    let line = String::from_str("kestrelc: failed to watch '").concat(
                        self.path.as_str(),
                    ).concat("': ").concat(e.as_str());
                    out.push(Output::ErrLine(line));
                    self.stage = WatchStage::Ended(false);
                },
            },
            (WatchStage::Building, WatchEvent::BuildDone) => {
                self.stage = WatchStage::Waiting;
            },
            (WatchStage::Waiting, WatchEvent::ChangeSettled(saved)) => {
                self.stage = if saved {
                    WatchStage::Building
                } else {
                    WatchStage::Ended(true)
                };
            },
            _ => {},
        }
        proof {
            if out@.len() == 0 {
                assert(outputs(out@) =~= Seq::empty());
            } else {
                assert(outputs(out@) =~= seq![out@[0]@]);
            }
        }
        out
    }
}

/// The outcome reports that a setup step failed: the file is missing, the
/// executable was not found, the watcher did not start, or the file could
/// not be watched.
pub open spec fn setup_failed(event: WatchEvent) -> bool {
    match event {
        WatchEvent::FileExists(exists) => !exists,
        WatchEvent::ExecutableFound(r) => r is Err,
        WatchEvent::WatcherStarted(r) => r is Err,
        WatchEvent::FileWatched(r) => r is Err,
        _ => false,
    }
}

/// The setup stage that an outcome answers.
pub open spec fn setup_stage_of(event: WatchEvent) -> Option<WatchStage> {
    match event {
        WatchEvent::FileExists(_) => Some(WatchStage::CheckingFile),
        WatchEvent::ExecutableFound(_) => Some(WatchStage::FindingExecutable),
        WatchEvent::WatcherStarted(_) => Some(WatchStage::StartingWatcher),
        WatchEvent::FileWatched(_) => Some(WatchStage::WatchingFile),
        _ => None,
    }
}

/// Every failed setup step ends the session unsuccessfully, with its one
/// error line. A session only waits for saves after a rebuild, only
/// rebuilds once the file is watched or after a settled save, and only ends
/// successfully from waiting; so it can end successfully only after the
/// file was watched.
pub proof fn law_setup_failure_ends_session(v: WatchView, event: WatchEvent)
    ensures
        (setup_failed(event) && setup_stage_of(event) == Some(v.stage)) ==> watch_next(v, event).stage
            == WatchStage::Ended(false) && watch_outputs(v, event).len() == 1 && watch_outputs(
            v,
            event,
        )[0] is ErrLine,
        (watch_next(v, event).stage == WatchStage::Waiting && v.stage != WatchStage::Waiting) ==> (
        v.stage == WatchStage::Building && event == WatchEvent::BuildDone),
        (watch_next(v, event).stage == WatchStage::Building && v.stage != WatchStage::Building) ==> (
        (v.stage == WatchStage::WatchingFile && event matches WatchEvent::FileWatched(Ok(())))
            || v.stage == WatchStage::Waiting),
        (watch_next(v, event).stage == WatchStage::Ended(true) && v.stage != WatchStage::Ended(true))
            ==> v.stage == WatchStage::Waiting,
        (v.stage == WatchStage::CheckingFile && event == WatchEvent::FileExists(true)) ==> match path_file_stem(v.path) {
            Some(stem) => watch_next(v, event).stage == WatchStage::FindingExecutable
                && watch_next(v, event).stem == stem,
            None => watch_next(v, event).stage == WatchStage::Ended(false),
        },
{
}

/// The first rebuild happens only once every check passed and the file is
/// watched; whatever a rebuild's outcome (a compile error included), the
/// session goes on waiting for the next save; every failed check ends the session unsuccessfully with one
/// line on standard error; and the session ends successfully only when the
/// wait for a save finds the watcher gone.
pub proof fn law_watch_session(v: WatchView, event: WatchEvent)
    ensures
        (watch_next(v, event).stage == WatchStage::Building && v.stage != WatchStage::Building)
            ==> (v.stage == WatchStage::Waiting && event == WatchEvent::ChangeSettled(true)) || (
        v.stage == WatchStage::WatchingFile && event matches WatchEvent::FileWatched(Ok(()))),
        (watch_next(v, event).stage == WatchStage::Ended(false) && v.stage != WatchStage::Ended(
            false,
        )) ==> watch_outputs(v, event).len() == 1 && watch_outputs(v, event)[0] is ErrLine,
        (watch_next(v, event).stage == WatchStage::Ended(true) && v.stage != WatchStage::Ended(
            true,
        )) ==> v.stage == WatchStage::Waiting && event == WatchEvent::ChangeSettled(false),
        v.stage is Ended ==> watch_next(v, event) == v,
        (v.stage == WatchStage::Building && event == WatchEvent::BuildDone) ==> watch_next(
            v,
            event,
        ).stage == WatchStage::Waiting,
{
}

} // verus!
