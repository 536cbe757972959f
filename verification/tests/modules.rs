use kestrelc::error::{ErrorKind, KestrelcError, Span};
use kestrelc::modules::{discover_modules, resolve_module_path, DiscoveryAction, DiscoveryEvent, LoadFailure};

/// An in-memory tree of `.kes` files: each canonical path with the module
/// names its `use` lines name, or a file that fails to parse.
struct Files {
    files: Vec<(&'static str, Result<Vec<&'static str>, &'static str>)>,
}

impl Files {
    fn find(&self, path: &str) -> Option<&Result<Vec<&'static str>, &'static str>> {
        self.files.iter().find(|(p, _)| *p == path).map(|(_, f)| f)
    }
}

/// Drives a discovery over `files` from `entry`; on success the discovered
/// paths in order, and the number of loads.
fn discover(files: &Files, entry: &str) -> (Result<Vec<String>, KestrelcError>, usize) {
    let mut d = discover_modules(entry.to_string());
    let mut loads = 0;
    loop {
        let event = match d.action() {
            DiscoveryAction::Canonicalize(p) => match files.find(p) {
                Some(_) => DiscoveryEvent::Canonicalized(Ok(p.clone())),
                None => DiscoveryEvent::Canonicalized(Err("No such file or directory (os error 2)".to_string())),
            },
            DiscoveryAction::Load(c) => {
                loads += 1;
                match files.find(c) {
                    Some(Ok(uses)) => DiscoveryEvent::Loaded(Ok(uses.iter().map(|u| u.to_string()).collect())),
                    Some(Err(msg)) => DiscoveryEvent::Loaded(Err(LoadFailure::Invalid(KestrelcError {
                        kind: ErrorKind::Parse,
                        message: msg.to_string(),
                        span: Span { line: 1, col: 5, len: 2 },
                    }))),
                    None => DiscoveryEvent::Loaded(Err(LoadFailure::Unreadable("gone".to_string()))),
                }
            }
            DiscoveryAction::CheckModuleFile { candidate, .. } => {
                DiscoveryEvent::ModuleFileChecked(files.find(candidate).is_some())
            }
            DiscoveryAction::Finished(r) => {
                let r = match r {
                    Ok(()) => Ok(d.discovered().clone()),
                    Err(e) => Err(e.duplicate()),
                };
                return (r, loads);
            }
        };
        d.step(event);
    }
}

#[test]
fn discovers_a_directly_used_module() {
    let files = Files { files: vec![("/p/math_utils.kes", Ok(vec![])), ("/p/main.kes", Ok(vec!["math_utils"]))] };
    let (r, _) = discover(&files, "/p/main.kes");
    let discovered = r.unwrap();
    assert_eq!(discovered.len(), 2);
}

#[test]
fn discovers_transitively_used_modules() {
    let files = Files {
        files: vec![("/p/c.kes", Ok(vec![])), ("/p/b.kes", Ok(vec!["c"])), ("/p/main.kes", Ok(vec!["b"]))],
    };
    let (r, _) = discover(&files, "/p/main.kes");
    let discovered = r.unwrap();
    assert_eq!(discovered.len(), 3, "expected main, b, and c all discovered");
    assert_eq!(discovered, vec!["/p/c.kes".to_string(), "/p/b.kes".to_string(), "/p/main.kes".to_string()]);
}

#[test]
fn a_missing_module_is_a_clear_error_not_a_panic() {
    let files = Files { files: vec![("/p/main.kes", Ok(vec!["nope"]))] };
    let (r, _) = discover(&files, "/p/main.kes");
    let err = r.unwrap_err();
    assert!(err.message.contains("not found"), "got: {}", err.message);
    assert_eq!(err.message, "kestrelc: module 'nope' not found -- expected '/p/nope.kes'");
    assert_eq!(err.kind, ErrorKind::Resolve);
    assert_eq!(err.span, Span { line: 1, col: 1, len: 0 });
}

#[test]
fn an_import_cycle_is_a_compile_error_not_infinite_recursion() {
    let files = Files { files: vec![("/p/a.kes", Ok(vec!["b"])), ("/p/b.kes", Ok(vec!["a"]))] };
    let (r, loads) = discover(&files, "/p/a.kes");
    let err = r.unwrap_err();
    assert!(err.message.contains("cycle"), "got: {}", err.message);
    assert_eq!(err.message, "kestrelc: import cycle detected: /p/a.kes -> /p/b.kes -> /p/a.kes");
    assert_eq!(loads, 2);
}

#[test]
fn a_cycle_below_the_entry_names_only_the_cycle() {
    let files = Files {
        files: vec![("/p/main.kes", Ok(vec!["a"])), ("/p/a.kes", Ok(vec!["b"])), ("/p/b.kes", Ok(vec!["a"]))],
    };
    let (r, _) = discover(&files, "/p/main.kes");
    assert_eq!(r.unwrap_err().message, "kestrelc: import cycle detected: /p/a.kes -> /p/b.kes -> /p/a.kes");
}

#[test]
fn a_module_used_twice_is_discovered_once_not_an_error() {
    let files = Files {
        files: vec![("/p/c.kes", Ok(vec![])), ("/p/b.kes", Ok(vec!["c"])), ("/p/main.kes", Ok(vec!["b", "c"]))],
    };
    let (r, loads) = discover(&files, "/p/main.kes");
    let discovered = r.unwrap();
    assert_eq!(discovered.len(), 3);
    assert_eq!(loads, 3);
}

#[test]
fn a_missing_entry_file_cannot_be_read() {
    let files = Files { files: vec![] };
    let (r, _) = discover(&files, "/p/main.kes");
    assert_eq!(
        r.unwrap_err().message,
        "kestrelc: can't read '/p/main.kes': No such file or directory (os error 2)"
    );
}

#[test]
fn an_unreadable_module_file_is_reported_with_its_canonical_path() {
    let mut d = discover_modules("main.kes".to_string());
    d.step(DiscoveryEvent::Canonicalized(Ok("/p/main.kes".to_string())));
    d.step(DiscoveryEvent::Loaded(Err(LoadFailure::Unreadable("permission denied".to_string()))));
    match d.action() {
        DiscoveryAction::Finished(Err(e)) => {
            assert_eq!(e.message, "kestrelc: can't read '/p/main.kes': permission denied")
        }
        _ => panic!("discovery should have failed"),
    }
}

#[test]
fn a_parse_error_in_a_module_is_passed_through() {
    let files = Files { files: vec![("/p/main.kes", Ok(vec!["bad"])), ("/p/bad.kes", Err("unexpected token"))] };
    let (r, _) = discover(&files, "/p/main.kes");
    let err = r.unwrap_err();
    assert_eq!(err.kind, ErrorKind::Parse);
    assert_eq!(err.message, "unexpected token");
    assert_eq!(err.span, Span { line: 1, col: 5, len: 2 });
}

#[test]
fn an_event_that_does_not_answer_the_action_changes_nothing() {
    let mut d = discover_modules("/p/main.kes".to_string());
    d.step(DiscoveryEvent::ModuleFileChecked(true));
    match d.action() {
        DiscoveryAction::Canonicalize(p) => assert_eq!(p, "/p/main.kes"),
        _ => panic!("action should be unchanged"),
    }
}

#[test]
fn a_use_resolves_next_to_the_importer() {
    assert_eq!(resolve_module_path("/tmp/x/main.kes", "math_utils"), "/tmp/x/math_utils.kes");
    assert_eq!(resolve_module_path("/tmp/x/sub/vectors.kes", "geometry"), "/tmp/x/sub/geometry.kes");
    assert_ne!(resolve_module_path("/tmp/x/main.kes", "math_utils"), "/tmp/x/other/math_utils.kes");
}

#[test]
fn a_bare_importer_name_resolves_in_its_own_directory() {
    assert_eq!(resolve_module_path("main.kes", "util"), "util.kes");
    assert_eq!(resolve_module_path("/", "util"), "./util.kes");
}
