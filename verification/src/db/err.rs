use vstd::prelude::*;

use crate::db::input::SourceFile;
use crate::util::Span;

verus! {

/// A diagnostic reported for a source file.
pub struct Diagnostic {
    pub message: String,
    pub span: Span,
    pub level: Level,
    pub path: String,
    pub file: SourceFile,
}

#[derive(Clone, Copy, Debug, PartialEq, Eq, Structural)]
pub enum Level {
    Error,
    Warning,
}

} // verus!
