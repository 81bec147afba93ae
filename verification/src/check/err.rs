use vstd::prelude::*;

use crate::db::path::ModulePath;
use crate::ty::Ty;
use crate::util::{Span, Spanned};

verus! {

/// A diagnostic found while checking a file; the message is written where it is shown.
#[allow(inconsistent_fields)]
pub enum CheckError {
    /// A name that resolves to nothing.
    Unresolved { name: Spanned<String> },
    /// A method called where no `self` is in scope.
    MissingReceiver { span: Span, expected: Ty },
    /// A call with the wrong number of arguments.
    UnexpectedArgs { expected: usize, found: usize, span: Span, func: Ty },
    /// A call of something that is not a function.
    ExpectedFunction { found: Ty, span: Span },
    /// A field that the struct does not have.
    NoField { field: String, struct_name: ModulePath, span: Span },
    /// A tuple field index past the end.
    IndexOutOfBounds { index: usize, len: usize, span: Span },
    /// A tuple field that is not an integer.
    ExpectedIntegerIndex { span: Span },
    /// A field of a unit struct.
    UnitStructNoFields { span: Span },
    /// A field access on a declaration that is not a struct.
    ExpectedStructDecl { found: ModulePath, span: Span },
    /// A static function name that more than one impl provides.
    AmbiguousFunction { span: Span },
    /// A field pattern for a field the struct does not have.
    FieldNotFound { field: String, span: Span },
    /// A struct pattern whose shape differs from the struct's.
    StructPatternMismatch { span: Span },
    /// A struct pattern matched against a type that is not a struct.
    ExpectedStructType { found: Ty, span: Span },
    /// A struct pattern whose name is not a struct.
    ExpectedStruct { span: Span },
    /// A struct pattern of another struct than the one expected.
    StructMismatch { expected: ModulePath, found: ModulePath, span: Span },
    /// A lambda parameter beyond those expected.
    UnexpectedArgument { span: Span },
    /// An assignment to something that is neither a name nor a field.
    ExpectedIdentOrField { span: Span },
    /// A value of another type than the one expected.
    TypeMismatch { expected: Ty, found: Ty, span: Span },
}

} // verus!
