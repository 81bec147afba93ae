use vstd::prelude::*;

use crate::check::state::CheckState;
use crate::ir::ty::{type_model, type_wf, TypeIR};
use crate::parser::ast::{GenericArg, GenericArgs};
use crate::ty::{generics_view, Generic, Ty, TyModel};
use crate::util::Spanned;

verus! {

broadcast use vstd::std_specs::vec::group_vec_axioms;

/// A checked generic parameter: its name, its bound as written and the generic it declares.
pub struct GenericArgIR<'db> {
    pub name: Spanned<String>,
    pub super_: Option<Spanned<TypeIR<'db>>>,
    pub generic: Generic,
}

pub struct GenericArgsIR<'db>(pub Vec<Spanned<GenericArgIR<'db>>>);

/// What declaring generics leaves unchanged: all but the innermost scope of generics, the
/// errors and the type variables.
pub open spec fn generic_frame(old: CheckState, new: CheckState) -> bool {
    &&& new.wf()
    &&& new.depth() == old.depth()
    &&& new.variables == old.variables
    &&& new.generics@.drop_last() == old.generics@.drop_last()
    &&& old.generics@.last()@.is_prefix_of(new.generics@.last()@)
    &&& new.project == old.project
    &&& new.module == old.module
    &&& new.path == old.path
    &&& new.imports == old.imports
    &&& old.errors@.is_prefix_of(new.errors@)
    &&& new.type_state.next_id() >= old.type_state.next_id()
}

/// Whether every bound written in the generics is a well-formed type.
pub open spec fn generic_args_wf(g: GenericArgs) -> bool {
    forall|i: int| 0 <= i < g.0@.len() ==> ((#[trigger] g.0@[i]).0.super_ matches Some(t) ==> type_wf(t.0))
}

impl GenericArg {
    /// Declares the generic in the innermost scope, bounded by its written bound or by `Any`.
    pub fn check<'db>(&self, state: &mut CheckState<'db>) -> (r: GenericArgIR<'db>)
        requires
            old(state).wf(),
            self.super_ matches Some(t) ==> type_wf(t.0),
        ensures
            generic_frame(*old(state), *final(state)),
            final(state).generics@.last()@.len() == old(state).generics@.last()@.len() + 1,
            final(state).generics@.last()@.drop_last() == old(state).generics@.last()@,
            final(state).generics@.last()@.last()@ == r.generic@,
            r.name.0@ == self.name.0@ && r.name.1 == self.name.1,
            r.generic.name.0@ == self.name.0@ && r.generic.name.1 == self.name.1,
            r.generic.super_@ == match self.super_ {
                Some(t) => type_model(t.0, *old(state), old(state).type_state.next_id() as int).0,
                None => TyModel::Any,
            },
            match self.super_ {
                Some(t) => r.super_ matches Some(s) && s.1 == t.1 && s.0.ty@ == r.generic.super_@,
                None => r.super_ is None,
            },
    {
        let (super_ir, bound) = match &self.super_ {
            Some(t) => {
                let ir = t.0.check_ir(state);
                let bound = ir.ty.deep_clone();
                (Some((ir, t.1)), bound)
            },
            None => (None, Ty::Any),
        };
        let generic = Generic { name: (self.name.0.clone(), self.name.1), super_: Box::new(bound) };
        let ghost before = *state;
        state.insert_generic(generic.deep_clone());
        proof {
            assert(state.generics@.drop_last() == before.generics@.drop_last());
        }
        GenericArgIR { name: (self.name.0.clone(), self.name.1), super_: super_ir, generic }
    }
}

impl GenericArgs {
    /// Declares the generics in order in the innermost scope; a later bound may name an earlier
    /// generic.
    pub fn check<'db>(&self, state: &mut CheckState<'db>) -> (r: GenericArgsIR<'db>)
        requires
            old(state).wf(),
            generic_args_wf(*self),
        ensures
            generic_frame(*old(state), *final(state)),
            r.0@.len() == self.0@.len(),
            generics_view(final(state).generics@.last()@) == generics_view(old(state).generics@.last()@)
                + Seq::new(r.0@.len(), |i: int| r.0@[i].0.generic@),
            forall|i: int| 0 <= i < r.0@.len() ==> {
                &&& (#[trigger] r.0@[i]).1 == self.0@[i].1
                &&& r.0@[i].0.name.0@ == self.0@[i].0.name.0@
                &&& r.0@[i].0.generic.name.0@ == self.0@[i].0.name.0@
            },
    {
        let ghost st = *state;
        let mut out: Vec<Spanned<GenericArgIR<'db>>> = Vec::new();
        let mut i: usize = 0;
        while i < self.0.len()
            invariant
                i <= self.0@.len(),
                generic_args_wf(*self),
                generic_frame(st, *state),
                out@.len() == i,
                generics_view(state.generics@.last()@) == generics_view(st.generics@.last()@) + Seq::new(
                    out@.len(),
                    |k: int| out@[k].0.generic@,
                ),
                forall|k: int| 0 <= k < i ==> {
                    &&& (#[trigger] out@[k]).1 == self.0@[k].1
                    &&& out@[k].0.name.0@ == self.0@[k].0.name.0@
                    &&& out@[k].0.generic.name.0@ == self.0@[k].0.name.0@
                },
            decreases self.0@.len() - i,
        {
            let ghost before = *state;
            let ghost prev = out@;
            assert(self.0@[i as int].0.super_ matches Some(t) ==> type_wf(t.0));
            let arg = self.0[i].0.check(state);
            out.push((arg, self.0[i].1));
            proof {
                assert(generics_view(state.generics@.last()@) =~= generics_view(before.generics@.last()@).push(out@.last().0.generic@));
                assert(Seq::new(out@.len(), |k: int| out@[k].0.generic@) =~= Seq::new(prev.len(), |k: int| prev[k].0.generic@).push(out@.last().0.generic@));
            }
            i = i + 1;
        }
        GenericArgsIR(out)
    }
}

} // verus!
