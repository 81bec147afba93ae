use vstd::prelude::*;

use crate::ty::{clone_tys, func_view, lemma_view_parts, ty_view, tys_view, FuncTy, Ty, TyModel};

verus! {

/// The body of a struct or of an enum member.
pub enum StructDecl {
    Fields(Vec<(String, Ty)>),
    Tuple(Vec<Ty>),
    Unit,
}

/// The types of named fields, in order.
pub open spec fn field_tys(fields: Seq<(String, Ty)>) -> Seq<TyModel> {
    Seq::new(fields.len(), |i: int| fields[i].1@)
}

/// The argument types of the constructor of a struct body.
pub open spec fn constructor_args(body: StructDecl) -> Seq<TyModel> {
    match body {
        StructDecl::Fields(fields) => field_tys(fields@),
        StructDecl::Tuple(tys) => tys_view(tys@),
        StructDecl::Unit => Seq::empty(),
    }
}

impl StructDecl {
    /// The type of the constructor that builds `self_ty` from this body; a unit body has none.
    #[must_use]
    pub fn get_constructor_ty(&self, self_ty: Ty) -> (r: Option<FuncTy>)
        ensures
            match r {
                Some(f) => !(*self is Unit) && func_view(f) == TyModel::Function(
                    None,
                    constructor_args(*self),
                    Box::new(self_ty@),
                ),
                None => *self is Unit,
            },
    {
        match self {
            StructDecl::Fields(fields) => {
                let mut args: Vec<Ty> = Vec::new();
                let mut i: usize = 0;
                while i < fields.len()
                    invariant
                        i <= fields@.len(),
                        args@.len() == i,
                        forall|j: int| 0 <= j < i ==> args@[j]@ == fields@[j].1@,
                    decreases fields@.len() - i,
                {
                    args.push(fields[i].1.deep_clone());
                    i = i + 1;
                }
                let f = FuncTy { receiver: None, args, ret: Box::new(self_ty) };
                proof {
                    lemma_view_parts(Ty::Function(f));
                    assert(func_view(f)->Function_1 =~= field_tys(fields@));
                }
                Some(f)
            },
            StructDecl::Tuple(fields) => {
                let args = clone_tys(fields);
                let f = FuncTy { receiver: None, args, ret: Box::new(self_ty) };
                proof {
                    lemma_view_parts(Ty::Function(f));
                }
                Some(f)
            },
            StructDecl::Unit => None,
        }
    }

    /// The number of values the constructor takes.
    pub fn arg_count(&self) -> (r: u32)
        ensures
            r == match *self {
                StructDecl::Fields(fields) => fields@.len() as u32,
                StructDecl::Tuple(fields) => fields@.len() as u32,
                StructDecl::Unit => 0u32,
            },
    {
        match self {
            StructDecl::Fields(fields) => fields.len() as u32,
            StructDecl::Tuple(fields) => fields.len() as u32,
            StructDecl::Unit => 0,
        }
    }
}

} // verus!
