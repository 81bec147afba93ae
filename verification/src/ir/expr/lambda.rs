use vstd::prelude::*;

use crate::check::err::CheckError;
use crate::check::state::CheckState;
use crate::check::TokenKind;
use crate::ir::common::pattern::{expect_pattern_rule, pattern_wf};
use crate::ir::expr::call::min_len;
use crate::ir::expr::rel::{
    checks_to, entered, exited, expects_to, extra_args_step, it_step, param_expected, params_expected, self_step,
    ty_expected,
};
use crate::ir::expr::{
    block_ty, check_block, expect_block, expect_ty, expr_wf, lemma_frame_refl, lemma_frame_trans, same_spans,
    scope_frame, ExprIR, ExprIRData, LambdaIR, LambdaParamIR,
};
use crate::ir::ty::{fresh_model, type_model, type_wf, TypeIR, TypeIRData};
use crate::parser::ast::{Expr, Lambda, LambdaParam};
use crate::ty::{lemma_view_parts, tys_view, FuncTy, Ty, TyModel};
use crate::util::{Span, Spanned};

verus! {

broadcast use vstd::std_specs::vec::group_vec_axioms;

/// The type of a checked lambda: a function from the types of its parameters to the type of its
/// body.
pub open spec fn lambda_model(li: LambdaIR) -> TyModel {
    TyModel::Function(
        None,
        Seq::new(li.args@.len(), |i: int| li.args@[i].0.ty.0.ty@),
        Box::new(block_ty(li.body.0)),
    )
}

/// Whether a lambda parameter's pattern and written type are well formed.
pub open spec fn param_wf(p: LambdaParam) -> bool {
    pattern_wf(p.pattern.0) && (p.ty matches Some(t) ==> type_wf(t.0))
}

/// How a lambda parameter is checked from `old` to `new`: its written type, or a fresh type
/// variable recorded as a wildcard at `span` where it has none; then its pattern is expected to
/// match values of that type.
pub open spec fn param_rule(p: LambdaParam, span: Span, r: LambdaParamIR, old: CheckState, new: CheckState) -> bool {
    &&& r.pattern.1 == p.pattern.1
    &&& r.ty.0.ty@ == match p.ty {
        Some(t) => type_model(t.0, old, old.type_state.next_id() as int).0,
        None => fresh_model(old.type_state.next_id() as int).0,
    }
    &&& r.ty.1 == match p.ty {
        Some(t) => t.1,
        None => span,
    }
    &&& p.ty is None ==> r.ty.0.data == TypeIRData::Wildcard(span)
    &&& exists|mid: CheckState|
        #![trigger expect_pattern_rule(p.pattern.0, mid, new, r.ty.0.ty@, r.pattern.0)]
        scope_frame(old, mid) && scope_frame(mid, new) && expect_pattern_rule(p.pattern.0, mid, new, r.ty.0.ty@, r.pattern.0)
}

/// Whether the states `sts` lead from one parameter check to the next, each parameter checked as
/// `param_rule` says and giving the parameter at its place in `irs`.
pub open spec fn params_chain(args: Seq<Spanned<LambdaParam>>, irs: Seq<Spanned<LambdaParamIR>>, sts: Seq<CheckState>) -> bool {
    &&& sts.len() == args.len() + 1
    &&& irs.len() == args.len()
    &&& forall|k: int| 0 <= k < args.len() ==> #[trigger] param_rule(args[k].0, args[k].1, irs[k].0, sts[k], sts[k + 1])
}

impl LambdaParam {
    /// Checks a parameter: its written type, or a fresh type variable where it has none, and its
    /// pattern against that type.
    pub fn check<'db>(&self, state: &mut CheckState<'db>, span: Span) -> (r: LambdaParamIR<'db>)
        requires
            old(state).wf(),
            param_wf(*self),
        ensures
            scope_frame(*old(state), *final(state)),
            r.pattern.1 == self.pattern.1,
            r.ty.0.ty@ == match self.ty {
                Some(t) => type_model(t.0, *old(state), old(state).type_state.next_id() as int).0,
                None => fresh_model(old(state).type_state.next_id() as int).0,
            },
            r.ty.1 == match self.ty {
                Some(t) => t.1,
                None => span,
            },
            param_rule(*self, span, r, *old(state), *final(state)),
    {
        let ghost st = *state;
        match &self.ty {
            Some(t) => {
                let expected = t.0.check_ir(state);
                let ghost mid = *state;
                let pattern = self.pattern.0.expect(state, &expected.ty);
                proof {
                    crate::ir::expr::lemma_frame_of_type_check(st, mid);
                    lemma_frame_trans(st, mid, *state);
                    assert(expect_pattern_rule(self.pattern.0, mid, *state, expected.ty@, pattern));
                    assert(scope_frame(st, mid));
                    assert(scope_frame(mid, *state));
                }
                let r = LambdaParamIR { pattern: (pattern, self.pattern.1), ty: (expected, t.1) };
                proof {
                    assert(expect_pattern_rule(self.pattern.0, mid, *state, r.ty.0.ty@, r.pattern.0));
                }
                r
            },
            None => {
                let ty = state.fresh_var(self.pattern.1);
                let ghost mid = *state;
                let pattern = self.pattern.0.expect(state, &ty);
                proof {
                    crate::ir::expr::lemma_frame_of_type_check(st, mid);
                    lemma_frame_trans(st, mid, *state);
                    assert(expect_pattern_rule(self.pattern.0, mid, *state, ty@, pattern));
                    assert(scope_frame(st, mid));
                    assert(scope_frame(mid, *state));
                }
                let r = LambdaParamIR { pattern: (pattern, self.pattern.1), ty: (TypeIR { data: TypeIRData::Wildcard(span), ty }, span) };
                proof {
                    assert(expect_pattern_rule(self.pattern.0, mid, *state, r.ty.0.ty@, r.pattern.0));
                }
                r
            },
        }
    }

    /// Checks a parameter whose type must fit `expected`.
    pub fn expect<'db>(&self, state: &mut CheckState<'db>, expected: &Ty, span: Span) -> (r: LambdaParamIR<'db>)
        requires
            old(state).wf(),
            param_wf(*self),
        ensures
            scope_frame(*old(state), *final(state)),
            r.pattern.1 == self.pattern.1,
            crate::ir::expr::reports_mismatch(*final(state), r.ty.0.ty@, expected@, r.ty.1),
            param_expected(*self, span, expected@, r, *old(state), *final(state)),
    {
        let ghost st = *state;
        let ir = self.check(state, span);
        let ghost mid = *state;
        expect_ty(&ir.ty.0.ty, expected, state, ir.ty.1);
        proof {
            lemma_frame_trans(st, mid, *state);
            assert(param_rule(*self, span, ir, st, mid));
        }
        ir
    }
}

/// Whether every parameter and statement of a lambda is well formed.
pub open spec fn lambda_wf(l: Lambda) -> bool {
    &&& forall|i: int| 0 <= i < l.args@.len() ==> param_wf(#[trigger] l.args@[i].0)
    &&& crate::ir::expr::block_wf(l.body.0@)
}

proof fn lemma_lambda_wf(l: Lambda)
    requires
        expr_wf(Expr::Lambda(l)),
    ensures
        lambda_wf(l),
{
    assert forall|i: int| 0 <= i < l.args@.len() implies param_wf(#[trigger] l.args@[i].0) by {
        assert(pattern_wf(l.args@[i].0.pattern.0));
    }
}

impl Lambda {
    /// Checks the parameters in a scope of their own, then the body; the lambda is a function from
    /// the parameter types to the body's type.
    pub fn check<'db>(&self, state: &mut CheckState<'db>) -> (r: ExprIR<'db>)
        requires
            old(state).wf(),
            expr_wf(Expr::Lambda(*self)),
        ensures
            scope_frame(*old(state), *final(state)),
            final(state).variables@ == old(state).variables@,
            r.data matches ExprIRData::Lambda(li) && same_spans(li.args@, self.args@) && r.ty@ == lambda_model(li),
            checks_to(Expr::Lambda(*self), r, *old(state), *final(state)),
        decreases Expr::Lambda(*self), 5int,
    {
        proof {
            lemma_lambda_wf(*self);
        }
        let ghost st = *state;
        state.enter_scope();
        let ghost inner = *state;
        let args = self.check_params(state);
        let ghost s1 = *state;
        let block = check_block(&self.body.0, state);
        proof {
            lemma_frame_trans(inner, s1, *state);
        }
        let ghost s2 = *state;
        let (vars, generics) = state.exit_scope();
        proof {
            assert(s2.variables@ == s1.variables@);
            assert(generics@ == inner.generics@.last()@);
            assert(st.variables@.last()@.is_prefix_of(state.variables@.last()@));
            assert(st.errors@.is_prefix_of(state.errors@)) by {
                assert(inner.errors == st.errors);
            }
            assert(state.generics@ =~= st.generics@);
            assert(state.variables@ =~= st.variables@);
        }
        let body = match block.data {
            ExprIRData::CodeBlock(b) => b,
            _ => unreached(),
        };
        let mut arg_tys: Vec<Ty> = Vec::new();
        let mut i: usize = 0;
        while i < args.len()
            invariant
                i <= args@.len(),
                arg_tys@.len() == i,
                forall|k: int| 0 <= k < i ==> #[trigger] arg_tys@[k]@ == args@[k].0.ty.0.ty@,
            decreases args@.len() - i,
        {
            arg_tys.push(args[i].0.ty.0.ty.deep_clone());
            i = i + 1;
        }
        let ty = Ty::Function(FuncTy { receiver: None, args: arg_tys, ret: Box::new(block.ty) });
        let ir = LambdaIR { args, body: (body, self.body.1), vars, generics };
        proof {
            lemma_view_parts(ty);
            assert(ty@->Function_1 =~= Seq::new(ir.args@.len(), |k: int| ir.args@[k].0.ty.0.ty@));
        }
        let r = ExprIR { data: ExprIRData::Lambda(ir), ty };
        proof {
            let li = r.data->Lambda_0;
            let sts = choose|sts: Seq<CheckState>| params_chain(self.args@, li.args@, sts) && sts[0] == inner && sts.last() == s1;
            assert(entered(st, inner));
            assert(scope_frame(s1, s2));
            assert(exited(s2, *state, li.vars@, li.generics@));
            assert(checks_to(Expr::Lambda(*self), r, st, *state));
        }
        r
    }

    /// Checks the parameters in order.
    fn check_params<'db>(&self, state: &mut CheckState<'db>) -> (r: Vec<Spanned<LambdaParamIR<'db>>>)
        requires
            old(state).wf(),
            lambda_wf(*self),
        ensures
            scope_frame(*old(state), *final(state)),
            same_spans(r@, self.args@),
            exists|sts: Seq<CheckState>|
                #![trigger params_chain(self.args@, r@, sts)]
                params_chain(self.args@, r@, sts) && sts[0] == *old(state) && sts.last() == *final(state),
    {
        let ghost st = *state;
        let mut args: Vec<Spanned<LambdaParamIR<'db>>> = Vec::new();
        let mut i: usize = 0;
        let ghost mut sts: Seq<CheckState> = seq![st];
        proof {
            lemma_frame_refl(st);
        }
        while i < self.args.len()
            invariant
                i <= self.args@.len(),
                lambda_wf(*self),
                scope_frame(st, *state),
                args@.len() == i,
                forall|k: int| 0 <= k < i ==> #[trigger] args@[k].1 == self.args@[k].1,
                sts.len() == i + 1,
                sts[0] == st,
                sts.last() == *state,
                forall|k: int| 0 <= k < i ==> #[trigger] param_rule(self.args@[k].0, self.args@[k].1, args@[k].0, sts[k], sts[k + 1]),
            decreases self.args@.len() - i,
        {
            proof {
                assert(param_wf(self.args@[i as int].0));
            }
            let ghost before = *state;
            let a = self.args[i].0.check(state, self.args[i].1);
            proof {
                lemma_frame_trans(st, before, *state);
                let sts2 = sts.push(*state);
                assert forall|k: int| 0 <= k < i + 1 implies #[trigger] param_rule(
                    self.args@[k].0,
                    self.args@[k].1,
                    args@.push((a, self.args@[i as int].1))[k].0,
                    sts2[k],
                    sts2[k + 1],
                ) by {
                    if k < i {
                        assert(param_rule(self.args@[k].0, self.args@[k].1, args@[k].0, sts[k], sts[k + 1]));
                    }
                }
                sts = sts2;
            }
            args.push((a, self.args[i].1));
            i = i + 1;
        }
        proof {
            assert(params_chain(self.args@, args@, sts));
        }
        args
    }

    /// Checks a lambda where a value of type `expected` is expected, as `expects_to` says. Against
    /// a function type, the parameters are checked against its parameters (extra ones are
    /// reported), a lone expected parameter is bound to `it` where none is written, the receiver
    /// becomes `self`, and the body is checked against the result type. Otherwise the lambda is
    /// checked as it is and must fit; its body and parameters are then checked once more, and those
    /// are kept. Either way the result has the type of the body.
    pub fn expect<'db>(&self, state: &mut CheckState<'db>, expected: &Ty, span: Span) -> (r: ExprIR<'db>)
        requires
            old(state).wf(),
            expr_wf(Expr::Lambda(*self)),
        ensures
            scope_frame(*old(state), *final(state)),
            r.data matches ExprIRData::Lambda(li) && r.ty@ == block_ty(li.body.0),
            expects_to(Expr::Lambda(*self), r, *old(state), *final(state), expected@, span),
        decreases Expr::Lambda(*self), 6int,
    {
        proof {
            lemma_lambda_wf(*self);
        }
        let ghost st = *state;
        state.enter_scope();
        let ghost inner = *state;
        proof {
            lemma_frame_refl(inner);
            lemma_view_parts(*expected);
        }
        match expected {
            Ty::Function(ef) => {
                let ghost params = tys_view(ef.args@);
                let n = if self.args.len() < ef.args.len() {
                    self.args.len()
                } else {
                    ef.args.len()
                };
                let mut args: Vec<Spanned<LambdaParamIR<'db>>> = Vec::new();
                let mut i: usize = 0;
                while i < n
                    invariant
                        i <= n,
                        n == min_len(self.args@.len(), ef.args@.len()),
                        n <= self.args@.len(),
                        n <= ef.args@.len(),
                        params == tys_view(ef.args@),
                        lambda_wf(*self),
                        scope_frame(inner, *state),
                        args@.len() == i,
                        forall|k: int| 0 <= k < i ==> #[trigger] args@[k].1 == self.args@[k].1,
                        params_expected(self.args@, params, args@, i as int, inner, *state),
                    decreases n - i,
                {
                    proof {
                        assert(param_wf(self.args@[i as int].0));
                    }
                    let ghost before = *state;
                    let ghost args0 = args@;
                    let a = self.args[i].0.expect(state, &ef.args[i], self.args[i].1);
                    proof {
                        lemma_frame_trans(inner, before, *state);
                    }
                    args.push((a, self.args[i].1));
                    proof {
                        assert(args@.drop_last() =~= args0);
                        assert(params[i as int] == ef.args@[i as int]@);
                        assert(param_expected(self.args@[i as int].0, self.args@[i as int].1, params[i as int], a, before, *state));
                        assert(args@.last().0 == a);
                        assert(params_expected(self.args@, params, args@, i + 1, inner, *state));
                    }
                    i = i + 1;
                }
                let ghost s1 = *state;
                let mut j: usize = ef.args.len();
                let ghost from = ef.args@.len() as int;
                while j < self.args.len()
                    invariant
                        scope_frame(inner, *state),
                        scope_frame(inner, s1),
                        from == ef.args@.len(),
                        from <= j,
                        from < self.args@.len() ==> j <= self.args@.len(),
                        j == from ==> *state == s1,
                        from >= self.args@.len() ==> j == from,
                        *state == (CheckState { errors: state.errors, ..s1 }),
                        state.errors@ == s1.errors@ + Seq::new(
                            (j - from) as nat,
                            |k: int| CheckError::UnexpectedArgument { span: self.args@[from + k].1 },
                        ),
                    decreases self.args@.len() - j,
                {
                    let ghost before = *state;
                    state.error(CheckError::UnexpectedArgument { span: self.args[j].1 });
                    proof {
                        assert(before.errors@.is_prefix_of(state.errors@));
                        assert(before.variables@.last()@.is_prefix_of(state.variables@.last()@));
                        lemma_frame_trans(inner, before, *state);
                        assert(state.errors@ =~= s1.errors@ + Seq::new(
                            (j + 1 - from) as nat,
                            |k: int| CheckError::UnexpectedArgument { span: self.args@[from + k].1 },
                        ));
                    }
                    j = j + 1;
                }
                let ghost s2 = *state;
                proof {
                    if from < self.args@.len() {
                        assert(s2.errors@ =~= s1.errors@ + Seq::new(
                            (self.args@.len() - params.len()) as nat,
                            |k: int| CheckError::UnexpectedArgument { span: self.args@[params.len() + k].1 },
                        ));
                    }
                    assert(extra_args_step(self.args@, params.len(), s1, s2));
                }
                if self.args.len() == 0 && ef.args.len() == 1 {
                    let ghost before = *state;
                    state.insert_variable(String::from_str("it"), ef.args[0].deep_clone(), TokenKind::Var, span);
                    proof {
                        assert(before.errors@.is_prefix_of(state.errors@));
                        assert(before.variables@.last()@.is_prefix_of(state.variables@.last()@));
                        lemma_frame_trans(inner, before, *state);
                    }
                }
                let ghost s3 = *state;
                proof {
                    assert(params.len() == 1 ==> params[0] == ef.args@[0]@);
                    assert(it_step(self.args@.len() == 0 && params.len() == 1, params[0], span, s2, s3));
                }
                match &ef.receiver {
                    Some(rec) => {
                        let ghost before = *state;
                        state.add_self_param((&**rec).deep_clone(), span);
                        proof {
                            assert(before.errors@.is_prefix_of(state.errors@));
                            assert(before.variables@.last()@.is_prefix_of(state.variables@.last()@));
                            lemma_frame_trans(inner, before, *state);
                        }
                    },
                    None => {},
                }
                let ghost s4 = *state;
                proof {
                    assert(self_step(expected@->Function_0, span, s3, s4));
                }
                let block = expect_block(&self.body.0, state, &*ef.ret, self.body.1);
                let ghost s5 = *state;
                proof {
                    lemma_frame_trans(inner, s4, *state);
                }
                let (vars, generics) = state.exit_scope();
                proof {
                    assert(st.variables@.last()@.is_prefix_of(state.variables@.last()@));
                    assert(st.errors@.is_prefix_of(state.errors@)) by {
                        assert(inner.errors == st.errors);
                    }
                    assert(state.generics@ =~= st.generics@);
                    assert(state.variables@ =~= st.variables@);
                }
                let body = match block.data {
                    ExprIRData::CodeBlock(b) => b,
                    _ => unreached(),
                };
                let r = ExprIR {
                    data: ExprIRData::Lambda(LambdaIR { args, body: (body, self.body.1), vars, generics }),
                    ty: block.ty,
                };
                proof {
                    let li = r.data->Lambda_0;
                    assert(entered(st, inner));
                    assert(exited(s5, *state, li.vars@, li.generics@));
                    assert(expects_to(Expr::Lambda(*self), r, st, *state, expected@, span));
                }
                r
            },
            _ => {
                let ir = self.check(state);
                let ghost s1 = *state;
                expect_ty(&ir.ty, expected, state, span);
                let ghost s2 = *state;
                proof {
                    lemma_frame_trans(inner, s1, *state);
                    assert(ty_expected(s1, s2, ir.ty@, expected@, span));
                }
                let (vars, generics) = state.exit_scope();
                let ghost s3 = *state;
                proof {
                    assert(st.variables@.last()@.is_prefix_of(state.variables@.last()@));
                    assert(st.errors@.is_prefix_of(state.errors@)) by {
                        assert(inner.errors == st.errors);
                    }
                    assert(state.generics@ =~= st.generics@);
                    assert(state.variables@ =~= st.variables@);
                    assert(scope_frame(st, s3));
                }
                let block = check_block(&self.body.0, state);
                let ghost s4 = *state;
                let args = self.check_params(state);
                proof {
                    lemma_frame_trans(st, s3, s4);
                    lemma_frame_trans(st, s4, *state);
                }
                let body = match block.data {
                    ExprIRData::CodeBlock(b) => b,
                    _ => unreached(),
                };
                let r = ExprIR {
                    data: ExprIRData::Lambda(LambdaIR { args, body: (body, self.body.1), vars, generics }),
                    ty: block.ty,
                };
                proof {
                    let li = r.data->Lambda_0;
                    let sts = choose|sts: Seq<CheckState>| params_chain(self.args@, li.args@, sts) && sts[0] == s4 && sts.last() == *state;
                    assert(entered(st, inner));
                    assert(exited(s2, s3, li.vars@, li.generics@));
                    assert(scope_frame(s3, s4));
                    assert(!(expected@ is Function));
                    assert(expects_to(Expr::Lambda(*self), r, st, *state, expected@, span));
                }
                r
            },
        }
    }
}

} // verus!
