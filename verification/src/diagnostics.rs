//! Accumulating diagnostics: compile errors are collected, never thrown, so
//! that one pass over a component can report many independent problems.

use vstd::prelude::*;

verus! {

/// A source location, kept only so that diagnostics can point back at the
/// place in the UI source that caused them.
#[derive(Clone, Copy, PartialEq, Eq, Structural, Debug)]
pub struct Span {
    pub offset: usize,
}

/// One compiler error: a message and the source span it refers to.
#[derive(Debug)]
pub struct CompilerDiagnostic {
    pub message: String,
    pub span: Span,
}

/// The mathematical content of a diagnostic: the message as a character
/// sequence and the span it points at.
pub ghost struct DiagView {
    pub message: Seq<char>,
    pub span: Span,
}

impl View for CompilerDiagnostic {
    type V = DiagView;

    open spec fn view(&self) -> DiagView {
        DiagView { message: self.message@, span: self.span }
    }
}

/// The views of a sequence of diagnostics, in order.
pub open spec fn diags_view(s: Seq<CompilerDiagnostic>) -> Seq<DiagView> {
    s.map_values(|d: CompilerDiagnostic| d@)
}

/// An append-only collection of diagnostics shared across one emission pass.
#[derive(Debug)]
pub struct Diagnostics {
    pub inner: Vec<CompilerDiagnostic>,
}

impl Diagnostics {
    /// A fresh sink with no diagnostics recorded.
    pub fn new() -> (r: Diagnostics)
        ensures
            r.inner@.len() == 0,
    {
        Diagnostics { inner: Vec::new() }
    }

    /// Appends one error; nothing already recorded is changed or dropped.
    pub fn push_compiler_error(&mut self, e: CompilerDiagnostic)
        ensures
            final(self).inner@ == old(self).inner@.push(e),
    {
        self.inner.push(e);
    }

    /// True exactly when at least one error has been recorded.
    pub fn has_error(&self) -> (r: bool)
        ensures
            r == (self.inner@.len() > 0),
    {
        self.inner.len() > 0
    }
}

} // verus!
