//! The compiler's error value, as far as the driver reads it.

use vstd::prelude::*;

verus! {

/// Which compiler stage rejected the program.
#[derive(Clone, Copy, PartialEq, Eq, Structural, Debug)]
pub enum ErrorKind {
    Lex,
    Parse,
    Resolve,
    Purity,
    Type,
    Codegen,
}

/// Where in the source an error points; line 0 means "no location".
#[derive(Clone, Copy, PartialEq, Eq, Structural, Debug)]
pub struct Span {
    pub line: usize,
    pub col: usize,
    pub len: usize,
}

/// A compile error: its stage, its message and its location.
#[derive(Debug)]
pub struct KestrelcError {
    pub kind: ErrorKind,
    pub message: String,
    pub span: Span,
}

/// An error as a mathematical value.
pub struct ErrorView {
    pub kind: ErrorKind,
    pub message: Seq<char>,
    pub span: Span,
}

impl View for KestrelcError {
    type V = ErrorView;

    open spec fn view(&self) -> ErrorView {
        ErrorView { kind: self.kind, message: self.message@, span: self.span }
    }
}

/// The error that module resolution reports: stage `Resolve`, pointing at
/// line 1, column 1, with no length.
pub open spec fn resolve_error(message: Seq<char>) -> ErrorView {
    ErrorView { kind: ErrorKind::Resolve, message, span: Span { line: 1, col: 1, len: 0 } }
}

impl KestrelcError {
    /// A module-resolution error carrying `message`.
    pub fn resolve(message: String) -> (e: KestrelcError)
        ensures
            e@ == resolve_error(message@),
    {
        KestrelcError { kind: ErrorKind::Resolve, message, span: Span { line: 1, col: 1, len: 0 } }
    }

    /// A copy of this error.
    pub fn duplicate(&self) -> (e: KestrelcError)
        ensures
            e@ == self@,
    {
        KestrelcError { kind: self.kind, message: self.message.clone(), span: self.span }
    }
}

} // verus!
