//! What the driver writes to the terminal, as values the caller prints, and
//! how compile errors are reported.

use vstd::prelude::*;

use crate::error::{ErrorKind, ErrorView, KestrelcError};

verus! {

/// One thing to write to the terminal.
pub enum Output {
    /// Text for standard output, written as is, with no newline.
    Raw(String),
    /// A line on standard output.
    Line(String),
    /// A line on standard error.
    ErrLine(String),
    /// A line on standard error: `prefix`, then the compiler's rendering of
    /// `message` at that source location (line, column, length).
    Diagnostic { prefix: String, line: usize, col: usize, len: usize, message: String },
    /// The line "kestrelc: <label of the kind>:" on standard error.
    KindHeader(ErrorKind),
    /// Flush standard output.
    Flush,
}

/// An output as a mathematical value.
pub enum OutputView {
    Raw(Seq<char>),
    Line(Seq<char>),
    ErrLine(Seq<char>),
    Diagnostic { prefix: Seq<char>, line: usize, col: usize, len: usize, message: Seq<char> },
    KindHeader(ErrorKind),
    Flush,
}

impl View for Output {
    type V = OutputView;

    open spec fn view(&self) -> OutputView {
        match self {
            Output::Raw(s) => OutputView::Raw(s@),
            Output::Line(s) => OutputView::Line(s@),
            Output::ErrLine(s) => OutputView::ErrLine(s@),
            Output::Diagnostic { prefix, line, col, len, message } => OutputView::Diagnostic {
                prefix: prefix@,
                line: *line,
                col: *col,
                len: *len,
                message: message@,
            },
            Output::KindHeader(k) => OutputView::KindHeader(*k),
            Output::Flush => OutputView::Flush,
        }
    }
}

/// The values of a sequence of outputs.
pub open spec fn outputs(v: Seq<Output>) -> Seq<OutputView> {
    v.map_values(|o: Output| o@)
}

/// One reported error: with no location (line 0) the bare message after
/// `prefix`; otherwise a diagnostic at its location, at least one column wide.
pub open spec fn report_line(e: ErrorView, prefix: Seq<char>) -> OutputView {
    if e.span.line == 0 {
        OutputView::ErrLine(prefix + e.message)
    } else {
        OutputView::Diagnostic {
            prefix,
            line: e.span.line,
            col: e.span.col,
            len: if e.span.len == 0 { 1 } else { e.span.len },
            message: e.message,
        }
    }
}

/// The lines that report several errors: a header naming the first error's
/// kind, then each error indented by two spaces.
pub open spec fn report_lines(errors: Seq<ErrorView>) -> Seq<OutputView> {
    (if errors.len() == 0 {
        Seq::empty()
    } else {
        seq![OutputView::KindHeader(errors[0].kind)]
    }) + errors.map_values(|e: ErrorView| report_line(e, "  "@))
}

fn report_with_prefix(e: &KestrelcError, prefix: &str) -> (out: Output)
    ensures
        out@ == report_line(e@, prefix@),
{
    if e.span.line == 0 {
        Output::ErrLine(String::from_str(prefix).concat(e.message.as_str()))
    } else {
        Output::Diagnostic {
            prefix: String::from_str(prefix),
            line: e.span.line,
            col: e.span.col,
            len: if e.span.len == 0 { 1 } else { e.span.len },
            message: e.message.clone(),
        }
    }
}

/// Reports one compile error, prefixed with "kestrelc: ".
pub fn report_error(e: &KestrelcError) -> (out: Output)
    ensures
        out@ == report_line(e@, "kestrelc: "@),
{
    report_with_prefix(e, "kestrelc: ")
}

/// Reports a list of compile errors: a header with the first one's kind,
/// then each error indented by two spaces.
pub fn report_errors(errors: &Vec<KestrelcError>) -> (out: Vec<Output>)
    ensures
        outputs(out@) == report_lines(errors@.map_values(|e: KestrelcError| e@)),
{
    let ghost es = errors@.map_values(|e: KestrelcError| e@);
    let mut out: Vec<Output> = Vec::new();
    if errors.len() > 0 {
        out.push(Output::KindHeader(errors[0].kind));
    }
    let ghost head = outputs(out@);
    assert(head =~= (if es.len() == 0 {
        Seq::empty()
    } else {
        seq![OutputView::KindHeader(es[0].kind)]
    }));
    let mut i: usize = 0;
    while i < errors.len()
        invariant
            i <= errors.len(),
            es == errors@.map_values(|e: KestrelcError| e@),
            outputs(out@) == head + es.take(i as int).map_values(
                |e: ErrorView| report_line(e, "  "@),
            ),
        decreases errors.len() - i,
    {
        let line = report_with_prefix(&errors[i], "  ");
        let ghost before = out@;
        let ghost line_view = line@;
        out.push(line);
        assert(outputs(out@) =~= outputs(before).push(line_view));
        assert(es[i as int] == errors@[i as int]@);
        assert(es.take(i + 1) =~= es.take(i as int).push(es[i as int]));
        assert(es.take(i + 1).map_values(|e: ErrorView| report_line(e, "  "@)) =~= es.take(
            i as int,
        ).map_values(|e: ErrorView| report_line(e, "  "@)).push(report_line(es[i as int], "  "@)));
        assert(outputs(out@) =~= head + es.take(i + 1).map_values(
            |e: ErrorView| report_line(e, "  "@),
        ));
        i = i + 1;
    }
    assert(es.take(i as int) =~= es);
    out
}

} // verus!
