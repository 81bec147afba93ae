use vstd::prelude::*;

use crate::check::state::{spec_generic, CheckState};
use crate::db::decl::{decl_generics, has_generics, Decl};
use crate::ir::ty::named::NamedTypeIR;
use crate::parser::ast::{segments, NamedType, Type};
use crate::check::err::CheckError;
use crate::check::instance::is_instance;
use crate::check::type_state::only_data_of;
use crate::ty::{lemma_view_parts, FuncTy, Generic, Named, Ty, TyModel};
use crate::util::{Span, Spanned};

pub mod named;

verus! {

broadcast use vstd::std_specs::vec::group_vec_axioms;

/// A checked type: what was written and the type it denotes.
pub struct TypeIR<'db> {
    pub data: TypeIRData<'db>,
    pub ty: Ty,
}

pub enum TypeIRData<'db> {
    Any(Span),
    Nothing(Span),
    Generic(Spanned<String>),
    Named(NamedTypeIR<'db>),
    Tuple(Vec<Spanned<TypeIR<'db>>>),
    Sum(Vec<Spanned<TypeIR<'db>>>),
    Function {
        receiver: Option<Box<Spanned<TypeIR<'db>>>>,
        args: Vec<Spanned<TypeIR<'db>>>,
        ret: Box<Spanned<TypeIR<'db>>>,
    },
    Wildcard(Span),
}

/// A fresh type variable while ids remain; the unknown type once they are used up.
pub open spec fn fresh_model(next: int) -> (TyModel, int) {
    if next < u32::MAX {
        (TyModel::TypeVar(next as u32), next + 1)
    } else {
        (TyModel::Unknown, next)
    }
}

/// The number of arguments a named type applies to its declaration: those that have a generic.
pub open spec fn applied_args(d: Decl, n: int) -> int {
    if !has_generics(d) {
        0
    } else if n < decl_generics(d).len() {
        n
    } else {
        decl_generics(d).len() as int
    }
}

/// The type a written type denotes in state `st`, with the next free type variable id: a wildcard
/// takes a fresh variable, a one-segment name may be `Any`, `Nothing` or a generic in scope, other
/// names resolve to declarations, applied to as many arguments as they have generics.
pub open spec fn type_model(t: Type, st: CheckState, next: int) -> (TyModel, int)
    decreases t, 0int,
{
    match t {
        Type::Named(nt) => {
            let segs = segments(nt.name@);
            if segs.len() == 1 && segs[0] == "Any"@ {
                (TyModel::Any, next)
            } else if segs.len() == 1 && segs[0] == "Nothing"@ {
                (TyModel::Nothing, next)
            } else if segs.len() == 1 && spec_generic(st.generics@, segs[0]) is Some {
                (TyModel::Generic(spec_generic(st.generics@, segs[0])->0@), next)
            } else {
                match st.resolve(segs) {
                    Ok(d) => {
                        let n = applied_args(d, nt.args@.len() as int);
                        let r = types_model(nt.args@, n, st, next);
                        (TyModel::Named(d.path@, r.0), r.1)
                    },
                    Err(_) => (TyModel::Unknown, types_model(nt.args@, nt.args@.len() as int, st, next).1),
                }
            }
        },
        Type::Tuple(ts) => {
            let r = types_model(ts@, ts@.len() as int, st, next);
            (TyModel::Tuple(r.0), r.1)
        },
        Type::Sum(ts) => {
            let r = types_model(ts@, ts@.len() as int, st, next);
            (TyModel::Sum(r.0), r.1)
        },
        Type::Function { receiver, args, ret } => {
            let rec = match receiver {
                Some(r) => {
                    let m = type_model(r.0, st, next);
                    (Some(Box::new(m.0)), m.1)
                },
                None => (None, next),
            };
            let a = types_model(args@, args@.len() as int, st, rec.1);
            let r = type_model(ret.0, st, a.1);
            (TyModel::Function(rec.0, a.0, Box::new(r.0)), r.1)
        },
        Type::Wildcard(_) => fresh_model(next),
    }
}

/// The types the first `n` written types of `ts` denote, checked left to right.
pub open spec fn types_model(ts: Seq<Spanned<Type>>, n: int, st: CheckState, next: int) -> (Seq<TyModel>, int)
    decreases ts, n,
{
    if n <= 0 || n > ts.len() {
        (Seq::empty(), next)
    } else {
        let front = types_model(ts, n - 1, st, next);
        let back = type_model(ts[n - 1].0, st, front.1);
        (front.0.push(back.0), back.1)
    }
}

/// Whether every name written in the type has a segment.
pub open spec fn type_wf(t: Type) -> bool
    decreases t,
{
    match t {
        Type::Named(nt) => nt.name@.len() >= 1 && forall|i: int| 0 <= i < nt.args@.len() ==> type_wf(#[trigger] nt.args@[i].0),
        Type::Tuple(ts) => forall|i: int| 0 <= i < ts@.len() ==> type_wf(#[trigger] ts@[i].0),
        Type::Sum(ts) => forall|i: int| 0 <= i < ts@.len() ==> type_wf(#[trigger] ts@[i].0),
        Type::Function { receiver, args, ret } => {
            &&& (receiver matches Some(r) ==> type_wf(r.0))
            &&& forall|i: int| 0 <= i < args@.len() ==> type_wf(#[trigger] args@[i].0)
            &&& type_wf(ret.0)
        },
        Type::Wildcard(_) => true,
    }
}

/// What checking a type leaves unchanged: all but the errors and the type variables.
pub open spec fn type_check_frame(old: CheckState, new: CheckState) -> bool {
    &&& new.wf()
    &&& new.variables == old.variables
    &&& new.generics == old.generics
    &&& new.project == old.project
    &&& new.module == old.module
    &&& new.path == old.path
    &&& new.imports == old.imports
    &&& old.errors@.is_prefix_of(new.errors@)
    &&& new.type_state.next_id() >= old.type_state.next_id()
}

impl<'db> CheckState<'db> {
    /// A fresh type variable declared at `span`; once ids are used up, the unknown type.
    pub fn fresh_var(&mut self, span: Span) -> (r: Ty)
        requires
            old(self).wf(),
        ensures
            type_check_frame(*old(self), *final(self)),
            final(self).errors == old(self).errors,
            r@ == fresh_model(old(self).type_state.next_id() as int).0,
            final(self).type_state.next_id() == fresh_model(old(self).type_state.next_id() as int).1,
    {
        if self.type_state.len() < u32::MAX {
            let id = self.type_state.new_type_var(span);
            Ty::TypeVar { id }
        } else {
            Ty::Unknown
        }
    }
}

impl Type {
    /// Checks a written type: the type it denotes, with the unresolved names reported.
    pub fn check_ir<'db>(&self, state: &mut CheckState<'db>) -> (r: TypeIR<'db>)
        requires
            old(state).wf(),
            type_wf(*self),
        ensures
            type_check_frame(*old(state), *final(state)),
            r.ty@ == type_model(*self, *old(state), old(state).type_state.next_id() as int).0,
            final(state).type_state.next_id() == type_model(*self, *old(state), old(state).type_state.next_id() as int).1,
        decreases self, 2nat,
    {
        let ghost st = *state;
        let ghost next = state.type_state.next_id() as int;
        match self {
            Type::Named(named) => {
                let r = named.check(state);
                r
            },
            Type::Tuple(tys) => {
                let (irs, t) = check_types(tys, tys.len(), state);
                let r = TypeIR { data: TypeIRData::Tuple(irs), ty: Ty::Tuple(t) };
                proof {
                    lemma_view_parts(r.ty);
                }
                r
            },
            Type::Sum(tys) => {
                let (irs, t) = check_types(tys, tys.len(), state);
                let r = TypeIR { data: TypeIRData::Sum(irs), ty: Ty::Sum(t) };
                proof {
                    lemma_view_parts(r.ty);
                }
                r
            },
            Type::Function { receiver, args, ret } => {
                let (rec_ir, rec_ty) = match receiver {
                    Some(rec) => {
                        let ir = rec.0.check_ir(state);
                        let ty = ir.ty.deep_clone();
                        (Some(Box::new((ir, rec.1))), Some(Box::new(ty)))
                    },
                    None => (None, None),
                };
                let ghost s1 = *state;
                let ghost rn: int = s1.type_state.next_id() as int;
                proof {
                    lemma_types_model_frame(args@, args@.len() as int, st, s1, rn);
                }
                let (arg_irs, arg_tys) = check_types(args, args.len(), state);
                let ghost s2 = *state;
                proof {
                    lemma_type_model_frame(ret.0, st, s2, s2.type_state.next_id() as int);
                }
                let ret_ir = ret.0.check_ir(state);
                let ret_ty = ret_ir.ty.deep_clone();
                let r = TypeIR {
                    data: TypeIRData::Function { receiver: rec_ir, args: arg_irs, ret: Box::new((ret_ir, ret.1)) },
                    ty: Ty::Function(FuncTy { receiver: rec_ty, args: arg_tys, ret: Box::new(ret_ty) }),
                };
                proof {
                    lemma_view_parts(r.ty);
                }
                r
            },
            Type::Wildcard(s) => {
                let ty = state.fresh_var(*s);
                TypeIR { data: TypeIRData::Wildcard(*s), ty }
            },
        }
    }
}

impl Type {
    /// The type a written type denotes, with the unresolved names reported.
    pub fn check<'db>(&self, state: &mut CheckState<'db>) -> (r: Ty)
        requires
            old(state).wf(),
            type_wf(*self),
        ensures
            type_check_frame(*old(state), *final(state)),
            r@ == type_model(*self, *old(state), old(state).type_state.next_id() as int).0,
            final(state).type_state.next_id() == type_model(*self, *old(state), old(state).type_state.next_id() as int).1,
    {
        self.check_ir(state).ty
    }

    /// Checks a written type against the bound of a generic: a type variable gets the bound, any
    /// other type is expected to be an instance of the bound's super type.
    pub fn expect_is_bound_by<'db>(&self, bound: &Generic, state: &mut CheckState<'db>, span: Span) -> (r: Ty)
        requires
            old(state).wf(),
            type_wf(*self),
        ensures
            type_check_frame(*old(state), *final(state)),
            r@ == type_model(*self, *old(state), old(state).type_state.next_id() as int).0,
            final(state).type_state.next_id() == type_model(*self, *old(state), old(state).type_state.next_id() as int).1,
            r matches Ty::TypeVar { id } ==> (id < final(state).type_state.next_id()
                ==> final(state).type_state.data(id).bounds@.last()@ == bound@),
            !(r is TypeVar) && !is_instance(r@, bound.super_@) ==> (final(state).errors@.last() matches CheckError::TypeMismatch {
                expected: e,
                found,
                span: s,
            } && e@ == bound.super_@ && found@ == r@ && s == span),
    {
        let ty = self.check(state);
        let ghost mid = *state;
        bind_checked(&ty, bound, state, span);
        proof {
            assert(mid.errors@.is_prefix_of(state.errors@)) by {
                if !(ty is TypeVar) && !is_instance(ty@, bound.super_@) {
                    assert(state.errors@.drop_last() == mid.errors@);
                    assert(mid.errors@ =~= state.errors@.subrange(0, mid.errors@.len() as int));
                } else {
                    assert(state.errors == mid.errors);
                    assert(mid.errors@ =~= state.errors@.subrange(0, mid.errors@.len() as int));
                }
            }
            assert(old(state).errors@.is_prefix_of(state.errors@)) by {
                assert(old(state).errors@ =~= state.errors@.subrange(0, old(state).errors@.len() as int)) by {
                    assert forall|i: int| 0 <= i < old(state).errors@.len() implies old(state).errors@[i] == state.errors@[i] by {
                        assert(old(state).errors@[i] == mid.errors@[i]);
                    }
                }
            }
        }
        ty
    }
}

/// Binds a checked type by the bound of a generic: a type variable gets the bound; any other type
/// is expected to be an instance of the bound's super type, and a mismatch is reported.
pub fn bind_checked<'db>(ty: &Ty, bound: &Generic, state: &mut CheckState<'db>, span: Span)
    requires
        old(state).wf(),
    ensures
        final(state).wf(),
        final(state).variables == old(state).variables,
        final(state).generics == old(state).generics,
        final(state).project == old(state).project,
        final(state).module == old(state).module,
        final(state).path == old(state).path,
        final(state).imports == old(state).imports,
        final(state).type_state.next_id() == old(state).type_state.next_id(),
        *ty matches Ty::TypeVar { id } ==> final(state).errors == old(state).errors,
        *ty matches Ty::TypeVar { id } ==> (id < old(state).type_state.next_id() ==> {
            &&& only_data_of(old(state).type_state, final(state).type_state, id)
            &&& final(state).type_state.data(id).bounds@.drop_last() == old(state).type_state.data(id).bounds@
            &&& final(state).type_state.data(id).bounds@.last()@ == bound@
        }),
        *ty matches Ty::TypeVar { id } ==> (id >= old(state).type_state.next_id() ==> final(state).type_state
            == old(state).type_state),
        !(*ty is TypeVar) ==> if is_instance(ty@, bound.super_@) {
            final(state).errors == old(state).errors
        } else {
            &&& final(state).errors@.len() == old(state).errors@.len() + 1
            &&& final(state).errors@.drop_last() == old(state).errors@
            &&& final(state).errors@.last() matches CheckError::TypeMismatch { expected: e, found, span: s }
                && e@ == bound.super_@ && found@ == ty@ && s == span
        },
{
    match ty {
        Ty::TypeVar { id } => {
            if *id < state.type_state.len() {
                let b = bound.deep_clone();
                state.type_state.add_bound(*id, b);
                proof {
                    assert(state.type_state.data(*id).bounds@.drop_last() =~= old(state).type_state.data(*id).bounds@);
                }
            }
        },
        _ => {
            ty.expect_is_instance_of(&bound.super_, state, span);
        },
    }
}

/// Checks the first `n` written types of `ts`, left to right.
pub fn check_types<'db>(ts: &Vec<Spanned<Type>>, n: usize, state: &mut CheckState<'db>) -> (r: (
    Vec<Spanned<TypeIR<'db>>>,
    Vec<Ty>,
))
    requires
        old(state).wf(),
        n <= ts@.len(),
        forall|i: int| 0 <= i < ts@.len() ==> type_wf(#[trigger] ts@[i].0),
    ensures
        type_check_frame(*old(state), *final(state)),
        r.0@.len() == n,
        r.1@.len() == n,
        forall|i: int| 0 <= i < n ==> #[trigger] r.0@[i].1 == ts@[i].1 && r.0@[i].0.ty@ == r.1@[i]@,
        crate::ty::tys_view(r.1@) == types_model(ts@, n as int, *old(state), old(state).type_state.next_id() as int).0,
        final(state).type_state.next_id() == types_model(ts@, n as int, *old(state), old(state).type_state.next_id() as int).1,
    decreases ts, 0nat,
{
    let ghost st = *state;
    let ghost next = state.type_state.next_id() as int;
    let mut irs: Vec<Spanned<TypeIR<'db>>> = Vec::new();
    let mut tys: Vec<Ty> = Vec::new();
    let mut i: usize = 0;
    while i < n
        invariant
            i <= n <= ts@.len(),
            forall|k: int| 0 <= k < ts@.len() ==> type_wf(#[trigger] ts@[k].0),
            type_check_frame(st, *state),
            st.wf(),
            irs@.len() == i,
            tys@.len() == i,
            forall|k: int| 0 <= k < i ==> #[trigger] irs@[k].1 == ts@[k].1 && irs@[k].0.ty@ == tys@[k]@,
            crate::ty::tys_view(tys@) == types_model(ts@, i as int, st, next).0,
            state.type_state.next_id() == types_model(ts@, i as int, st, next).1,
        decreases n - i,
    {
        proof {
            assert(decreases_to!(ts => ts@[i as int]));
            lemma_type_model_frame(ts@[i as int].0, st, *state, state.type_state.next_id() as int);
        }
        let ir = ts[i].0.check_ir(state);
        let ty = ir.ty.deep_clone();
        let ghost before = tys@;
        irs.push((ir, ts[i].1));
        tys.push(ty);
        proof {
            assert(crate::ty::tys_view(tys@) =~= crate::ty::tys_view(before).push(ty@));
        }
        i = i + 1;
    }
    (irs, tys)
}

/// The model of a type depends only on what checking a type leaves unchanged.
pub proof fn lemma_type_model_frame(t: Type, a: CheckState, b: CheckState, next: int)
    requires
        b.generics == a.generics,
        b.project == a.project,
        b.module == a.module,
        b.imports == a.imports,
    ensures
        type_model(t, a, next) == type_model(t, b, next),
{
    lemma_type_model_eq(t, a, b, next);
}

proof fn lemma_type_model_eq(t: Type, a: CheckState, b: CheckState, next: int)
    requires
        b.generics == a.generics,
        b.project == a.project,
        b.module == a.module,
        b.imports == a.imports,
    ensures
        type_model(t, a, next) == type_model(t, b, next),
    decreases t, 0int,
{
    match t {
        Type::Named(nt) => {
            assert(a.resolve(segments(nt.name@)) == b.resolve(segments(nt.name@)));
            let len = nt.args@.len() as int;
            lemma_types_model_eq(nt.args@, len, a, b, next);
            if a.resolve(segments(nt.name@)) is Ok {
                let d = a.resolve(segments(nt.name@))->Ok_0;
                lemma_types_model_eq(nt.args@, applied_args(d, len), a, b, next);
            }
        },
        Type::Tuple(ts) => lemma_types_model_eq(ts@, ts@.len() as int, a, b, next),
        Type::Sum(ts) => lemma_types_model_eq(ts@, ts@.len() as int, a, b, next),
        Type::Function { receiver, args, ret } => {
            let rn = match receiver {
                Some(r) => {
                    lemma_type_model_eq(r.0, a, b, next);
                    type_model(r.0, a, next).1
                },
                None => next,
            };
            lemma_types_model_eq(args@, args@.len() as int, a, b, rn);
            lemma_type_model_eq(ret.0, a, b, types_model(args@, args@.len() as int, a, rn).1);
        },
        Type::Wildcard(_) => {},
    }
}

/// The models of written types depend only on what checking a type leaves unchanged.
pub proof fn lemma_types_model_frame(ts: Seq<Spanned<Type>>, n: int, a: CheckState, b: CheckState, next: int)
    requires
        b.generics == a.generics,
        b.project == a.project,
        b.module == a.module,
        b.imports == a.imports,
    ensures
        types_model(ts, n, a, next) == types_model(ts, n, b, next),
{
    lemma_types_model_eq(ts, n, a, b, next);
}

proof fn lemma_types_model_eq(ts: Seq<Spanned<Type>>, n: int, a: CheckState, b: CheckState, next: int)
    requires
        b.generics == a.generics,
        b.project == a.project,
        b.module == a.module,
        b.imports == a.imports,
    ensures
        types_model(ts, n, a, next) == types_model(ts, n, b, next),
    decreases ts, n,
{
    if 0 < n <= ts.len() {
        lemma_types_model_eq(ts, n - 1, a, b, next);
        lemma_type_model_eq(ts[n - 1].0, a, b, types_model(ts, n - 1, a, next).1);
    }
}

} // verus!
