use vstd::prelude::*;

use crate::check::err::CheckError;
use crate::check::state::CheckState;
use crate::db::decl::struct_::{constructor_args, StructDecl};
use crate::db::decl::{decl_generics, spec_get_path, Decl, DeclKind, Project};
use crate::fs::project::{pairs_view, param_defined, param_spec, GenericMap};
use crate::ty::{lemma_view_parts, ty_view, tys_view, FuncTy, Generic, Named, Ty, TyModel};
use crate::util::{opt_ref, Span};

verus! {

broadcast use vstd::std_specs::vec::group_vec_axioms;

/// Whether a value of type `a` may stand where `e` is expected: anything fits the top type, the
/// unknown and bottom types fit everywhere, type variables fit and are constrained instead, a
/// generic fits through its bound, a member of a sum fits the sum, and compound types fit part by
/// part.
pub open spec fn is_instance(a: TyModel, e: TyModel) -> bool
    decreases a, e,
{
    match (a, e) {
        (_, TyModel::Any) => true,
        (TyModel::Unknown, _) => true,
        (_, TyModel::Unknown) => true,
        (TyModel::Nothing, _) => true,
        (TyModel::TypeVar(_), _) => true,
        (_, TyModel::TypeVar(_)) => true,
        (TyModel::Generic(g), TyModel::Generic(h)) => g.name == h.name || is_instance(*g.super_, e),
        (TyModel::Generic(g), _) => is_instance(*g.super_, e),
        (TyModel::Named(n, xs), TyModel::Named(m, ys)) => n == m && xs.len() == ys.len() && forall|i: int|
            0 <= i < xs.len() ==> is_instance(#[trigger] xs[i], ys[i]),
        (TyModel::Tuple(xs), TyModel::Tuple(ys)) => xs.len() == ys.len() && forall|i: int|
            0 <= i < xs.len() ==> is_instance(#[trigger] xs[i], ys[i]),
        (_, TyModel::Sum(ys)) => exists|j: int| 0 <= j < ys.len() && is_instance(a, #[trigger] ys[j]),
        (
            TyModel::Function(r1, xs, t1),
            TyModel::Function(r2, ys, t2),
        ) => {
            &&& match (r1, r2) {
                (None, None) => true,
                (Some(x), Some(y)) => is_instance(*x, *y),
                _ => false,
            }
            &&& xs.len() == ys.len()
            &&& forall|i: int| 0 <= i < xs.len() ==> is_instance(#[trigger] xs[i], ys[i])
            &&& is_instance(*t1, *t2)
        },
        _ => a == e,
    }
}

impl Ty {
    /// Whether a value of this type may stand where `expected` is expected.
    pub fn is_instance_of(&self, expected: &Ty) -> (b: bool)
        ensures
            b == is_instance(self@, expected@),
        decreases self, expected,
    {
        proof {
            lemma_view_parts(*self);
            lemma_view_parts(*expected);
        }
        match (self, expected) {
            (_, Ty::Any) | (Ty::Unknown, _) | (_, Ty::Unknown) | (Ty::Nothing, _) => true,
            (Ty::TypeVar { .. }, _) | (_, Ty::TypeVar { .. }) => true,
            (Ty::Generic(g), Ty::Generic(h)) => {
                if g.name.0 == h.name.0 {
                    true
                } else {
                    (&*g.super_).is_instance_of(expected)
                }
            },
            (Ty::Generic(g), _) => {
                let r = (&*g.super_).is_instance_of(expected);
                proof {
                    assert(!(expected@ is Any) && !(expected@ is Unknown) && !(expected@ is TypeVar));
                    assert(!(expected@ is Generic));
                }
                r
            },
            (Ty::Named(n), Ty::Named(m)) => {
                if !n.name.same(&m.name) || n.args.len() != m.args.len() {
                    return false;
                }
                let ok = all_instances(&n.args, &m.args);
                ok
            },
            (Ty::Tuple(xs), Ty::Tuple(ys)) => {
                if xs.len() != ys.len() {
                    return false;
                }
                all_instances(xs, ys)
            },
            (_, Ty::Sum(ys)) => {
                let mut j: usize = 0;
                proof {
                    assert(!(self@ is Unknown) && !(self@ is Nothing) && !(self@ is TypeVar) && !(self@ is Generic));
                    lemma_is_instance_sum(self@, tys_view(ys@));
                }
                while j < ys.len()
                    invariant
                        j <= ys@.len(),
                        *expected == Ty::Sum(*ys),
                        expected@ == TyModel::Sum(tys_view(ys@)),
                        is_instance(self@, expected@) == exists|k: int| 0 <= k < ys@.len() && is_instance(self@, #[trigger] tys_view(ys@)[k]),
                        forall|k: int| 0 <= k < j ==> !is_instance(self@, #[trigger] ys@[k]@),
                    decreases ys@.len() - j,
                {
                    proof {
                        assert(decreases_to!(*expected => ys@[j as int]));
                    }
                    if self.is_instance_of(&ys[j]) {
                        proof {
                            assert(tys_view(ys@)[j as int] == ys@[j as int]@);
                        }
                        return true;
                    }
                    j = j + 1;
                }
                proof {
                    assert forall|k: int| 0 <= k < ys@.len() implies !is_instance(self@, #[trigger] tys_view(ys@)[k]) by {
                        assert(tys_view(ys@)[k] == ys@[k]@);
                    }
                }
                false
            },
            (Ty::Function(f), Ty::Function(g)) => {
                let rec = match (&f.receiver, &g.receiver) {
                    (None, None) => true,
                    (Some(x), Some(y)) => (&**x).is_instance_of(&**y),
                    _ => false,
                };
                if !rec || f.args.len() != g.args.len() {
                    return false;
                }
                let args = all_instances(&f.args, &g.args);
                let ret = (&*f.ret).is_instance_of(&*g.ret);
                args && ret
            },
            _ => self.equals(expected),
        }
    }

    /// Checks that a value of this type may stand where `expected` is expected, and reports a type
    /// mismatch at `span` where it may not. A type variable on either side is constrained by the
    /// other type: variables are merged where their explicit types allow it.
    pub fn expect_is_instance_of(&self, expected: &Ty, state: &mut CheckState, span: Span)
        requires
            old(state).wf(),
        ensures
            final(state).wf(),
            final(state).depth() == old(state).depth(),
            final(state).variables == old(state).variables,
            final(state).generics == old(state).generics,
            final(state).project == old(state).project,
            final(state).module == old(state).module,
            final(state).path == old(state).path,
            final(state).imports == old(state).imports,
            final(state).type_state.next_id() == old(state).type_state.next_id(),
            if is_instance(self@, expected@) {
                final(state).errors == old(state).errors
            } else {
                &&& final(state).errors@.len() == old(state).errors@.len() + 1
                &&& final(state).errors@.drop_last() == old(state).errors@
                &&& final(state).errors@.last() matches CheckError::TypeMismatch { expected: e, found, span: s }
                    && e@ == expected@ && found@ == self@ && s == span
            },
    {
        if !self.is_instance_of(expected) {
            state.error(CheckError::TypeMismatch { expected: expected.deep_clone(), found: self.deep_clone(), span });
            proof {
                assert(state.errors@.drop_last() =~= old(state).errors@);
            }
            return;
        }
        let n = state.type_state.len();
        match (self, expected) {
            (Ty::TypeVar { id }, _) => {
                if *id < n {
                    if let Ty::TypeVar { id: second } = expected {
                        if *second < n && !(state.type_state.get_type_var(*id).explicit.is_some()
                            && state.type_state.get_type_var(*second).explicit.is_some()) {
                            state.type_state.expected_var_is_ty(*id, expected.deep_clone(), span);
                        }
                    } else {
                        state.type_state.expected_var_is_ty(*id, expected.deep_clone(), span);
                    }
                }
            },
            (_, Ty::TypeVar { id }) => {
                if *id < n {
                    state.type_state.expected_ty_is_var(*id, self.deep_clone(), span);
                }
            },
            _ => {},
        }
    }

    /// Whether substitution is defined on this type: it reaches no meta type.
    pub fn is_param_defined(&self) -> (b: bool)
        ensures
            b == param_defined(self@),
        decreases self,
    {
        proof {
            lemma_view_parts(*self);
        }
        match self {
            Ty::Named(n) => {
                let r = all_param_defined(&n.args);
                proof {
                    assert(self@ == TyModel::Named(n.name@, tys_view(n.args@)));
                    lemma_param_defined_seq(self@, tys_view(n.args@));
                }
                r
            },
            Ty::Tuple(v) => {
                let r = all_param_defined(v);
                proof {
                    lemma_param_defined_seq(self@, tys_view(v@));
                }
                r
            },
            Ty::Sum(v) => {
                let r = all_param_defined(v);
                proof {
                    lemma_param_defined_seq(self@, tys_view(v@));
                }
                r
            },
            Ty::Function(f) => {
                let rec = match &f.receiver {
                    Some(r) => (&**r).is_param_defined(),
                    None => true,
                };
                rec && all_param_defined(&f.args) && (&*f.ret).is_param_defined()
            },
            Ty::Meta(_) => false,
            _ => true,
        }
    }

    /// Substitutes `generics` where substitution is defined; elsewhere the type is kept as it is.
    pub fn subst(&self, generics: &GenericMap) -> (r: Ty)
        ensures
            r@ == subst_spec(self@, pairs_view(generics@)),
    {
        if self.is_param_defined() {
            self.parameterize(generics)
        } else {
            self.deep_clone()
        }
    }
}

proof fn lemma_is_instance_sum(a: TyModel, ys: Seq<TyModel>)
    requires
        !(a is Unknown) && !(a is Nothing) && !(a is TypeVar) && !(a is Generic),
    ensures
        is_instance(a, TyModel::Sum(ys)) == exists|k: int| 0 <= k < ys.len() && is_instance(a, #[trigger] ys[k]),
{
    let e = TyModel::Sum(ys);
    reveal_with_fuel(is_instance, 1);
    assert(e->Sum_0 == ys);
    if is_instance(a, e) {
        assert(exists|k: int| 0 <= k < e->Sum_0.len() && is_instance(a, #[trigger] e->Sum_0[k]));
    } else {
        assert(!exists|k: int| 0 <= k < e->Sum_0.len() && is_instance(a, #[trigger] e->Sum_0[k]));
    }
}

proof fn lemma_param_defined_seq(t: TyModel, args: Seq<TyModel>)
    requires
        t == TyModel::Tuple(args) || t == TyModel::Sum(args) || (t is Named && t->Named_1 == args),
    ensures
        param_defined(t) == forall|i: int| 0 <= i < args.len() ==> param_defined(#[trigger] args[i]),
{
    match t {
        TyModel::Named(_, a) => {
            assert(a == args);
        },
        TyModel::Tuple(a) => {
            assert(a == args);
        },
        TyModel::Sum(a) => {
            assert(a == args);
        },
        _ => {},
    }
}

/// Substitution where it is defined, the type unchanged elsewhere.
pub open spec fn subst_spec(t: TyModel, m: Seq<(Seq<char>, TyModel)>) -> TyModel {
    if param_defined(t) {
        param_spec(t, m)
    } else {
        t
    }
}

/// Whether each type of `a` is an instance of the type of `b` at the same place.
fn all_instances(a: &Vec<Ty>, b: &Vec<Ty>) -> (r: bool)
    requires
        a@.len() == b@.len(),
    ensures
        r == forall|i: int| 0 <= i < a@.len() ==> is_instance(#[trigger] tys_view(a@)[i], tys_view(b@)[i]),
    decreases a, b,
{
    let mut i: usize = 0;
    while i < a.len()
        invariant
            a@.len() == b@.len(),
            i <= a@.len(),
            forall|k: int| 0 <= k < i ==> is_instance(#[trigger] tys_view(a@)[k], tys_view(b@)[k]),
        decreases a@.len() - i,
    {
        proof {
            assert(decreases_to!(a => a@[i as int]));
        }
        if !a[i].is_instance_of(&b[i]) {
            proof {
                assert(tys_view(a@)[i as int] == a@[i as int]@);
                assert(tys_view(b@)[i as int] == b@[i as int]@);
            }
            return false;
        }
        proof {
            assert(tys_view(a@)[i as int] == a@[i as int]@);
            assert(tys_view(b@)[i as int] == b@[i as int]@);
        }
        i = i + 1;
    }
    true
}

/// Whether substitution is defined on every type of `v`.
fn all_param_defined(v: &Vec<Ty>) -> (r: bool)
    ensures
        r == forall|i: int| 0 <= i < v@.len() ==> param_defined(#[trigger] tys_view(v@)[i]),
    decreases v,
{
    let mut i: usize = 0;
    while i < v.len()
        invariant
            i <= v@.len(),
            forall|k: int| 0 <= k < i ==> param_defined(#[trigger] tys_view(v@)[k]),
        decreases v@.len() - i,
    {
        proof {
            assert(decreases_to!(v => v@[i as int]));
            assert(tys_view(v@)[i as int] == v@[i as int]@);
        }
        if !v[i].is_param_defined() {
            return false;
        }
        i = i + 1;
    }
    true
}

} // verus!
