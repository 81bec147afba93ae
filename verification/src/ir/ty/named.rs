use vstd::prelude::*;

use crate::check::err::CheckError;
use crate::check::state::CheckState;
use crate::check::state::spec_generic;
use crate::ir::expr::ident::{ident_ir_of, SpannedQualifiedNameIR};
use crate::ir::ty::{applied_args, check_types, type_check_frame, type_model, type_wf, types_model, TypeIR, TypeIRData};
use crate::parser::ast::{clone_name, segments, NamedType, Type};
use crate::ty::{lemma_view_parts, Named, Ty, TyModel};
use crate::util::Spanned;

verus! {

/// A checked named type.
pub struct NamedTypeIR<'db> {
    pub name: SpannedQualifiedNameIR<'db>,
    pub args: Vec<Spanned<TypeIR<'db>>>,
}

/// What checking a named type records and reports: `Any` and `Nothing` by their span, a generic
/// in scope by its name, with nothing reported; otherwise the path with what each prefix resolves
/// to and the checked arguments, as many as the declaration takes, or all of them where the path
/// resolves to nothing, which is reported at the segment that names nothing.
pub open spec fn named_type_data(t: NamedType, old: CheckState, new: CheckState, data: TypeIRData) -> bool {
    let segs = segments(t.name@);
    if segs.len() == 1 && segs[0] == "Any"@ {
        data == TypeIRData::Any(t.name@[0].1) && new.errors == old.errors
    } else if segs.len() == 1 && segs[0] == "Nothing"@ {
        data == TypeIRData::Nothing(t.name@[0].1) && new.errors == old.errors
    } else if segs.len() == 1 && spec_generic(old.generics@, segs[0]) is Some {
        data matches TypeIRData::Generic(n) && n.0@ == segs[0] && n.1 == t.name@[0].1 && new.errors == old.errors
    } else {
        &&& data matches TypeIRData::Named(n) && ident_ir_of(new, t.name@, n.name@)
            && forall|i: int| 0 <= i < n.args@.len() ==> #[trigger] n.args@[i].1 == t.args@[i].1
        &&& match old.resolve(segs) {
            Ok(d) => data->Named_0.args@.len() == applied_args(d, t.args@.len() as int),
            Err(i) => {
                &&& data->Named_0.args@.len() == t.args@.len()
                &&& new.errors@.len() > old.errors@.len()
                &&& new.errors@[old.errors@.len() as int] matches CheckError::Unresolved { name } && name.0@
                    == t.name@[i].0@ && name.1 == t.name@[i].1
            },
        }
    }
}

impl NamedType {
    /// Checks a named type: `Any`, `Nothing`, a generic in scope or a declaration, whose arguments
    /// are checked as far as it has generics; an unresolved name is reported and its type is
    /// unknown.
    pub fn check<'db>(&self, state: &mut CheckState<'db>) -> (r: TypeIR<'db>)
        requires
            old(state).wf(),
            type_wf(Type::Named(*self)),
        ensures
            type_check_frame(*old(state), *final(state)),
            r.ty@ == type_model(Type::Named(*self), *old(state), old(state).type_state.next_id() as int).0,
            final(state).type_state.next_id() == type_model(Type::Named(*self), *old(state), old(state).type_state.next_id() as int).1,
            named_type_data(*self, *old(state), *final(state), r.data),
        decreases Type::Named(*self), 1nat,
    {
        let ghost st = *state;
        let ghost segs = segments(self.name@);
        proof {
            assert(segs.len() == self.name@.len());
        }
        if self.name.len() == 1 {
            let name = clone_name(&self.name[0]);
            proof {
                assert(segs[0] == self.name@[0].0@);
                reveal_strlit("Any");
                reveal_strlit("Nothing");
            }
            if crate::db::decl::str_eq(name.0.as_str(), "Any") {
                return TypeIR { data: TypeIRData::Any(name.1), ty: Ty::Any };
            }
            if crate::db::decl::str_eq(name.0.as_str(), "Nothing") {
                return TypeIR { data: TypeIRData::Nothing(name.1), ty: Ty::Nothing };
            }
            match state.get_generic(name.0.as_str()) {
                Some(generic) => {
                    let g = generic.deep_clone();
                    proof {
                        Ty::lemma_generic_view(g);
                    }
                    let ty = Ty::Generic(g);
                    return TypeIR { data: TypeIRData::Generic(name), ty };
                },
                None => {},
            }
        }
        match state.get_decl_with_error(self.name.as_slice()) {
            Ok(decl) => {
                let count = if !decl.kind_has_generics() {
                    0
                } else {
                    let gens = decl.generics();
                    proof {
                        assert(crate::ty::generics_view(gens@).len() == gens@.len());
                        assert(crate::ty::generics_view(crate::db::decl::decl_generics(*decl)).len()
                            == crate::db::decl::decl_generics(*decl).len());
                    }
                    let g = gens.len();
                    if self.args.len() < g {
                        self.args.len()
                    } else {
                        g
                    }
                };
                assert(count == applied_args(*decl, self.args@.len() as int));
                let (args, arg_tys) = check_types(&self.args, count, state);
                let ty = Ty::Named(Named { name: decl.path.copy(), args: arg_tys });
                proof {
                    lemma_view_parts(ty);
                }
                let name = state.get_ident_ir(&self.name);
                TypeIR { data: TypeIRData::Named(NamedTypeIR { name, args }), ty }
            },
            Err(err) => {
                let ghost pre = *state;
                state.error(CheckError::Unresolved { name: err });
                let ghost mid = *state;
                let (args, _) = check_types(&self.args, self.args.len(), state);
                proof {
                    crate::ir::ty::lemma_types_model_frame(self.args@, self.args@.len() as int, st, mid, st.type_state.next_id() as int);
                }
                let name = state.get_ident_ir(&self.name);
                proof {
                    let k = pre.errors@.len() as int;
                    assert(mid.errors@[k] == state.errors@[k]);
                }
                TypeIR { data: TypeIRData::Named(NamedTypeIR { name, args }), ty: Ty::Unknown }
            },
        }
    }
}

} // verus!
