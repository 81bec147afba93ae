use vstd::prelude::*;

use crate::check::err::CheckError;
use crate::check::members::func_ty_model;
use crate::check::state::CheckState;
use crate::db::decl::Project;
use crate::ir::expr::rel::{
    arity_step, checks_to, expects_to, exprs_checked, exprs_expected, receiver_step, ty_expected,
};
use crate::ir::expr::{
    expect_ty, expr_wf, exprs_wf, lemma_frame_refl, lemma_frame_trans, reports_mismatch, same_spans, scope_frame, CallIR,
    ExprIR, ExprIRData,
};
use crate::parser::ast::{Call, Expr};
use crate::ty::{lemma_view_parts, tys_view, Ty, TyModel};
use crate::util::{Span, Spanned};

verus! {

broadcast use vstd::std_specs::vec::group_vec_axioms;

/// The type of a call of a value of type `callee`: the result type of the function it can be
/// called as, or unknown.
pub open spec fn call_model(project: Project, callee: TyModel) -> TyModel {
    match func_ty_model(project, callee) {
        Some(TyModel::Function(_, _, ret)) => *ret,
        _ => TyModel::Unknown,
    }
}

/// Checks the expressions of `es` in order.
pub fn check_exprs<'db>(es: &Vec<Spanned<Expr>>, state: &mut CheckState<'db>) -> (r: Vec<Spanned<ExprIR<'db>>>)
    requires
        old(state).wf(),
        exprs_wf(es@),
    ensures
        scope_frame(*old(state), *final(state)),
        same_spans(r@, es@),
        exprs_checked(es@, r@, *old(state), *final(state)),
    decreases *es, 3int,
{
    let ghost st = *state;
    let mut irs: Vec<Spanned<ExprIR<'db>>> = Vec::new();
    let mut i: usize = 0;
    proof {
        lemma_frame_refl(st);
    }
    while i < es.len()
        invariant
            i <= es@.len(),
            exprs_wf(es@),
            scope_frame(st, *state),
            irs@.len() == i,
            forall|k: int| 0 <= k < i ==> #[trigger] irs@[k].1 == es@[k].1,
            exprs_checked(es@.take(i as int), irs@, st, *state),
        decreases es@.len() - i,
    {
        proof {
            assert(expr_wf(es@[i as int].0));
            assert(decreases_to!(*es => es@[i as int]));
        }
        let ghost before = *state;
        let ghost irs0 = irs@;
        let e = es[i].0.check(state);
        proof {
            lemma_frame_trans(st, before, *state);
        }
        irs.push((e, es[i].1));
        proof {
            assert(es@.take(i + 1).drop_last() =~= es@.take(i as int));
            assert(irs@.drop_last() =~= irs0);
            assert(es@.take(i + 1).last() == es@[i as int]);
            assert(scope_frame(st, before));
            assert(exprs_checked(es@.take(i + 1), irs@, st, *state));
        }
        i = i + 1;
    }
    proof {
        assert(es@.take(es@.len() as int) =~= es@);
    }
    irs
}

/// Checks the expressions of `es` against the types of `expected` at the same places, as far as
/// both go; what they give is not kept.
fn expect_exprs<'db>(es: &Vec<Spanned<Expr>>, expected: &Vec<Ty>, state: &mut CheckState<'db>)
    requires
        old(state).wf(),
        exprs_wf(es@),
    ensures
        scope_frame(*old(state), *final(state)),
        exists|xs: Seq<Spanned<ExprIR>>|
            #![trigger same_spans(xs, es@.take(min_len(es@.len(), expected@.len())))]
            same_spans(xs, es@.take(min_len(es@.len(), expected@.len()))) && exprs_expected(
                es@,
                tys_view(expected@),
                xs,
                min_len(es@.len(), expected@.len()),
                *old(state),
                *final(state),
            ),
    decreases *es, 3int,
{
    let ghost st = *state;
    let n = if es.len() < expected.len() {
        es.len()
    } else {
        expected.len()
    };
    let mut i: usize = 0;
    let ghost mut xs: Seq<Spanned<ExprIR>> = Seq::empty();
    proof {
        lemma_frame_refl(st);
    }
    while i < n
        invariant
            i <= n,
            n == min_len(es@.len(), expected@.len()),
            n <= es@.len(),
            n <= expected@.len(),
            exprs_wf(es@),
            scope_frame(st, *state),
            same_spans(xs, es@.take(i as int)),
            exprs_expected(es@, tys_view(expected@), xs, i as int, st, *state),
        decreases n - i,
    {
        proof {
            assert(expr_wf(es@[i as int].0));
            assert(decreases_to!(*es => es@[i as int]));
        }
        let ghost before = *state;
        let e = es[i].0.expect(state, &expected[i], es[i].1);
        proof {
            lemma_frame_trans(st, before, *state);
            let xs2 = xs.push((e, es@[i as int].1));
            assert(xs2.drop_last() =~= xs);
            assert(tys_view(expected@)[i as int] == expected@[i as int]@);
            assert(scope_frame(st, before));
            assert(exprs_expected(es@, tys_view(expected@), xs2, i + 1, st, *state));
            assert(same_spans(xs2, es@.take(i + 1))) by {
                assert forall|k: int| 0 <= k < xs2.len() implies #[trigger] xs2[k].1 == es@.take(i + 1)[k].1 by {
                    if k < i {
                        assert(xs[k].1 == es@.take(i as int)[k].1);
                    }
                }
            }
            xs = xs2;
        }
        i = i + 1;
    }
}

/// The smaller of two lengths.
pub open spec fn min_len(a: nat, b: nat) -> int {
    if a < b {
        a as int
    } else {
        b as int
    }
}

/// Whether an error reports a call at `span` with `found` arguments where `expected` are taken.
pub open spec fn is_unexpected_args(e: CheckError, expected: nat, found: nat, span: Span) -> bool {
    e matches CheckError::UnexpectedArgs { expected: x, found: y, span: s, .. } && x == expected && y == found && s == span
}

impl Call {
    /// Checks a call, as `checks_to` says: the callee is checked; where its type is unknown, the
    /// arguments are checked twice; where it cannot be called, that is reported and the arguments
    /// are checked; otherwise the receiver must fit `self`, the number of arguments must match,
    /// each argument is expected against its parameter as far as both go, and the arguments are
    /// checked once more. The call has the result type of the callee, or the unknown type.
    pub fn check<'db>(&self, state: &mut CheckState<'db>) -> (r: ExprIR<'db>)
        requires
            old(state).wf(),
            expr_wf(Expr::Call(*self)),
        ensures
            scope_frame(*old(state), *final(state)),
            r.data matches ExprIRData::Call(ci) && ci.expr.1 == self.name.1 && same_spans(ci.args@, self.args@)
                && r.ty@ == call_model(*old(state).project, ci.expr.0.ty@),
            checks_to(Expr::Call(*self), r, *old(state), *final(state)),
        decreases Expr::Call(*self), 5int,
    {
        let ghost st = *state;
        let project: &'db Project = state.project;
        let name_ir = self.name.0.check(state);
        let ghost s1 = *state;
        proof {
            lemma_view_parts(name_ir.ty);
        }
        if let Ty::Unknown = name_ir.ty {
            let first = check_exprs(&self.args, state);
            let ghost s2 = *state;
            let args = check_exprs(&self.args, state);
            proof {
                lemma_frame_trans(st, s1, s2);
                lemma_frame_trans(st, s2, *state);
            }
            let r = ExprIR { data: ExprIRData::Call(CallIR { expr: Box::new((name_ir, self.name.1)), args }), ty: Ty::Unknown };
            proof {
                assert(scope_frame(st, s1));
                assert(scope_frame(s1, s2) && same_spans(first@, self.args@));
                assert(checks_to(Expr::Call(*self), r, st, *state));
            }
            return r;
        }
        let func_ty = name_ir.ty.try_get_func_ty(project);
        match func_ty {
            Some(f) => {
                match &f.receiver {
                    Some(receiver) => {
                        let self_ty = match state.get_variable("self") {
                            Some(v) => Some(v.ty.deep_clone()),
                            None => None,
                        };
                        let ghost before = *state;
                        match self_ty {
                            Some(t) => {
                                expect_ty(&t, &**receiver, state, self.name.1);
                                proof {
                                    assert(ty_expected(before, *state, t@, (**receiver)@, self.name.1));
                                }
                            },
                            None => {
                                state.error(
                                    CheckError::MissingReceiver { span: self.name.1, expected: (&**receiver).deep_clone() },
                                );
                                proof {
                                    assert(before.errors@.is_prefix_of(state.errors@));
                                    assert(before.variables@.last()@.is_prefix_of(state.variables@.last()@));
                                    assert(state.errors@.drop_last() =~= before.errors@);
                                }
                            },
                        }
                        proof {
                            lemma_frame_trans(st, s1, before);
                            lemma_frame_trans(st, before, *state);
                        }
                    },
                    None => {
                        proof {
                            lemma_frame_trans(st, s1, *state);
                        }
                    },
                }
                let ghost s2 = *state;
                if f.args.len() != self.args.len() {
                    let ghost before = *state;
                    let func = Ty::Function(f.deep_clone());
                    state.error(
                        CheckError::UnexpectedArgs { expected: f.args.len(), found: self.args.len(), span: self.name.1, func },
                    );
                    proof {
                        assert(before.errors@.is_prefix_of(state.errors@));
                        assert(before.variables@.last()@.is_prefix_of(state.variables@.last()@));
                        assert(state.errors@.drop_last() =~= before.errors@);
                        lemma_frame_trans(st, before, *state);
                    }
                }
                let ghost s3 = *state;
                expect_exprs(&self.args, &f.args, state);
                let ghost s4 = *state;
                let ty = (&*f.ret).deep_clone();
                let args = check_exprs(&self.args, state);
                proof {
                    lemma_frame_trans(st, s3, s4);
                    lemma_frame_trans(st, s4, *state);
                    lemma_view_parts(Ty::Function(f));
                }
                let r = ExprIR { data: ExprIRData::Call(CallIR { expr: Box::new((name_ir, self.name.1)), args }), ty };
                proof {
                    let params = tys_view(f.args@);
                    assert(crate::ty::func_view(f)->Function_1 == params);
                    let recv = crate::ty::func_view(f)->Function_0;
                    assert(receiver_step(recv, self.name.1, s1, s2));
                    assert(arity_step(params.len(), self.args@.len(), self.name.1, s2, s3));
                    let xs = choose|xs: Seq<Spanned<ExprIR>>|
                        same_spans(xs, self.args@.take(min_len(self.args@.len(), f.args@.len()))) && exprs_expected(
                            self.args@,
                            tys_view(f.args@),
                            xs,
                            min_len(self.args@.len(), f.args@.len()),
                            s3,
                            s4,
                        );
                    assert(scope_frame(s3, s4));
                    assert(scope_frame(st, s1));
                    assert(checks_to(Expr::Call(*self), r, st, *state));
                }
                r
            },
            None => {
                let ghost before = *state;
                state.error(CheckError::ExpectedFunction { found: name_ir.ty.deep_clone(), span: self.name.1 });
                proof {
                    assert(before.errors@.is_prefix_of(state.errors@));
                    assert(before.variables@.last()@.is_prefix_of(state.variables@.last()@));
                    assert(state.errors@.drop_last() =~= before.errors@);
                    lemma_frame_trans(st, before, *state);
                }
                let ghost s2 = *state;
                let args = check_exprs(&self.args, state);
                proof {
                    lemma_frame_trans(st, s2, *state);
                }
                let r = ExprIR { data: ExprIRData::Call(CallIR { expr: Box::new((name_ir, self.name.1)), args }), ty: Ty::Unknown };
                proof {
                    assert(scope_frame(st, s1));
                    assert(scope_frame(s1, s2));
                    assert(checks_to(Expr::Call(*self), r, st, *state));
                }
                r
            },
        }
    }

    /// Checks a call where a value of type `expected` is expected: as `check`, then the call's
    /// type is compared with `expected`.
    pub fn expect<'db>(&self, state: &mut CheckState<'db>, expected: &Ty, span: Span) -> (r: ExprIR<'db>)
        requires
            old(state).wf(),
            expr_wf(Expr::Call(*self)),
        ensures
            scope_frame(*old(state), *final(state)),
            r.data matches ExprIRData::Call(ci) && ci.expr.1 == self.name.1 && same_spans(ci.args@, self.args@)
                && r.ty@ == call_model(*old(state).project, ci.expr.0.ty@),
            reports_mismatch(*final(state), r.ty@, expected@, span),
            expects_to(Expr::Call(*self), r, *old(state), *final(state), expected@, span),
        decreases Expr::Call(*self), 6int,
    {
        let ghost st = *state;
        let ir = self.check(state);
        let ghost mid = *state;
        expect_ty(&ir.ty, expected, state, span);
        proof {
            lemma_frame_trans(st, mid, *state);
            assert(ty_expected(mid, *state, ir.ty@, expected@, span));
        }
        ir
    }
}

} // verus!
