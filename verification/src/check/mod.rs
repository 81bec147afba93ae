use vstd::prelude::*;

use crate::util::Span;

pub mod err;
pub mod instance;
pub mod members;
pub mod message;
pub mod state;
pub mod type_state;

verus! {

/// What a span of source text names, for semantic highlighting.
#[derive(Clone, Copy, Debug, PartialEq, Eq, Structural)]
pub enum TokenKind {
    Var,
    Param,
    Func,
    Struct,
    Enum,
    Trait,
    Member,
    Module,
    Property,
    Generic,
}

/// A highlighted span.
#[derive(Clone, Copy, Debug, PartialEq, Eq, Structural)]
pub struct SemanticToken {
    pub span: Span,
    pub kind: TokenKind,
}

} // verus!
