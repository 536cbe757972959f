use kestrelc::error::{ErrorKind, KestrelcError, Span};
use kestrelc::output::{report_error, report_errors, Output};

#[test]
fn an_error_without_location_is_a_plain_line() {
    let e = KestrelcError { kind: ErrorKind::Resolve, message: "bad".to_string(), span: Span { line: 0, col: 0, len: 0 } };
    assert!(matches!(report_error(&e), Output::ErrLine(s) if s == "kestrelc: bad"));
}

#[test]
fn a_located_error_is_at_least_one_column_wide() {
    let e = KestrelcError { kind: ErrorKind::Lex, message: "stray".to_string(), span: Span { line: 2, col: 9, len: 0 } };
    match report_error(&e) {
        Output::Diagnostic { prefix, line, col, len, message } => {
            assert_eq!((prefix.as_str(), line, col, len, message.as_str()), ("kestrelc: ", 2, 9, 1, "stray"));
        }
        _ => panic!("a diagnostic"),
    }
    let e = KestrelcError { kind: ErrorKind::Lex, message: "stray".to_string(), span: Span { line: 2, col: 9, len: 4 } };
    assert!(matches!(report_error(&e), Output::Diagnostic { len: 4, .. }));
}

#[test]
fn no_errors_report_nothing() {
    assert!(report_errors(&vec![]).is_empty());
}
