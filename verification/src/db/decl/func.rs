use vstd::prelude::*;

use crate::ty::{Generic, Ty};

verus! {

/// A declared function: its generics, receiver, named arguments and result.
pub struct Function {
    pub name: String,
    pub generics: Vec<Generic>,
    pub receiver: Option<Ty>,
    pub args: Vec<(String, Ty)>,
    pub ret: Ty,
    pub required: bool,
}

} // verus!
