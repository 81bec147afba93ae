use vstd::prelude::*;

use crate::util::Span;

verus! {

/// A diagnostic of the checker: where it is, what it says and how serious it is.
pub struct Diag {
    pub span: Span,
    pub message: String,
    pub kind: DiagKind,
}

#[derive(Clone, Copy, Debug, PartialEq, Eq, Structural)]
pub enum DiagKind {
    Error,
    Warning,
    Info,
}

impl Diag {
    /// An error at `span` with `message`.
    pub fn error(span: Span, message: String) -> (r: Diag)
        ensures
            r.span == span,
            r.message == message,
            r.kind == DiagKind::Error,
    {
        Diag { span, message, kind: DiagKind::Error }
    }
}

} // verus!
