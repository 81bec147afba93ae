use vstd::prelude::*;

use crate::db::decl::Decl;
use crate::fs::project::{imply_spec, pairs_view, param_defined, param_spec, GenericMap};
use crate::ty::{Generic, Ty, TyModel};

verus! {

/// An impl: the type it is for and, for a trait impl, the trait it implements.
pub struct ImplForDecl {
    pub generics: Vec<Generic>,
    pub from_ty: Ty,
    pub to_ty: Option<Ty>,
    pub functions: Vec<Decl>,
}

/// The trait type an impl maps `ty` to: the generics that make `from_ty` the type `ty` are put
/// into `to_ty`; where `from_ty` does not match, none are.
pub open spec fn map_model(i: ImplForDecl, ty: TyModel) -> TyModel {
    let implied = match imply_spec(i.from_ty@, ty) {
        Some(m) => m,
        None => Seq::empty(),
    };
    param_spec(i.to_ty->0@, implied)
}

impl ImplForDecl {
    #[must_use]
    pub fn map(&self, ty: &Ty) -> (r: Ty)
        requires
            self.to_ty is Some,
            param_defined(self.to_ty->0@),
        ensures
            r@ == map_model(*self, ty@),
    {
        let implied: GenericMap = match self.from_ty.imply_generics(ty) {
            Some(m) => m,
            None => {
                let e: GenericMap = Vec::new();
                proof {
                    assert(pairs_view(e@) =~= Seq::empty());
                }
                e
            },
        };
        match &self.to_ty {
            Some(to) => to.parameterize(&implied),
            None => unreached(),
        }
    }
}

} // verus!
