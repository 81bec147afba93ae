use vstd::prelude::*;

use crate::check::err::CheckError;
use crate::check::instance::is_instance;
use crate::check::members::func_ty_model;
use crate::check::state::{spec_var, CheckState, VarDecl};
use crate::check::TokenKind;
use crate::ir::common::pattern::{declared, expect_pattern_rule};
use crate::ir::expr::call::{is_unexpected_args, min_len};
use crate::ir::expr::field::{field_model, field_reported};
use crate::ir::expr::ident::{ident_defs_rule, ident_error_is, ident_model};
use crate::ir::expr::lambda::{lambda_model, param_rule, params_chain};
use crate::ir::expr::match_arm::match_model;
use crate::ir::expr::{
    block_ty, check_rule, irs_tys, same_spans, reports_mismatch, scope_frame, CodeBlockIR, ExprIR, ExprIRData, LambdaParamIR,
    MatchArmIR,
};
use crate::ir::stmt::{LetIR, StmtIR, AssignIR};
use crate::ir::ty::{type_check_frame, type_model};
use crate::parser::ast::{Assign, Expr, Lambda, LambdaParam, LetStatement, MatchArm, Stmt};
use crate::ty::{spec_std_named, spec_unit, Generic, TyModel};
use crate::util::{Span, Spanned};

verus! {

/// What comparing a type with the expected one does: only the errors may change, by exactly one
/// mismatch where the type does not fit.
pub open spec fn ty_expected(old: CheckState, new: CheckState, ty: TyModel, expected: TyModel, span: Span) -> bool {
    &&& scope_frame(old, new)
    &&& new.variables == old.variables
    &&& new.type_state.next_id() == old.type_state.next_id()
    &&& reports_mismatch(new, ty, expected, span)
    &&& is_instance(ty, expected) ==> new.errors == old.errors
    &&& !is_instance(ty, expected) ==> new.errors@.len() == old.errors@.len() + 1 && new.errors@.drop_last()
        == old.errors@
}

/// A new empty scope of variables and of generics, nothing else changed.
pub open spec fn entered(old: CheckState, inner: CheckState) -> bool {
    &&& inner.wf()
    &&& inner.depth() == old.depth() + 1
    &&& inner.variables@.drop_last() == old.variables@
    &&& inner.variables@.last()@.len() == 0
    &&& inner.generics@.drop_last() == old.generics@
    &&& inner.generics@.last()@.len() == 0
    &&& inner.type_state == old.type_state
    &&& inner.errors == old.errors
    &&& inner.project == old.project
    &&& inner.module == old.module
    &&& inner.path == old.path
    &&& inner.imports == old.imports
}

/// The innermost scope closed, its variables and generics being `vars` and `generics`.
pub open spec fn exited(inner: CheckState, new: CheckState, vars: Seq<VarDecl>, generics: Seq<Generic>) -> bool {
    &&& new.wf()
    &&& new.depth() == inner.depth() - 1
    &&& new.variables@ == inner.variables@.drop_last()
    &&& new.generics@ == inner.generics@.drop_last()
    &&& vars == inner.variables@.last()@
    &&& generics == inner.generics@.last()@
    &&& new.type_state == inner.type_state
    &&& new.errors == inner.errors
    &&& new.project == inner.project
    &&& new.module == inner.module
    &&& new.path == inner.path
    &&& new.imports == inner.imports
}

/// Only an error added to the state: `e`.
pub open spec fn reported_one(old: CheckState, new: CheckState, e: CheckError) -> bool {
    new == (CheckState { errors: new.errors, ..old }) && new.errors@ == old.errors@.push(e)
}

/// How a path used as an expression is checked, as `check_ident` says.
pub open spec fn ident_checked(p: Seq<Spanned<String>>, r: ExprIR, old: CheckState, new: CheckState) -> bool {
    let m = ident_model(old, p, old.type_state.next_id() as int);
    &&& scope_frame(old, new)
    &&& new.variables == old.variables
    &&& r.data matches ExprIRData::Ident(defs) && ident_defs_rule(old, p, defs@)
    &&& r.ty@ == m.0
    &&& new.type_state.next_id() == m.1
    &&& if m.2 {
        &&& new.errors@.len() == old.errors@.len() + 1
        &&& new.errors@.drop_last() == old.errors@
        &&& ident_error_is(old, p, new.errors@.last())
    } else {
        new.errors == old.errors
    }
}

/// How a field of a value of type `sty` is looked up once the value is checked.
pub open spec fn field_looked_up(name: Spanned<String>, struct_span: Span, sty: TyModel, ty: TyModel, old: CheckState, new: CheckState) -> bool {
    &&& scope_frame(old, new)
    &&& new.variables == old.variables
    &&& new.type_state.next_id() == old.type_state.next_id()
    &&& ty == field_model(*old.project, sty, name.0@)
    &&& field_reported(*old.project, sty, name.0@, struct_span, name.1, old.errors@, new.errors@)
}

/// How the receiver of a called function is checked: the type of `self` against it, or a
/// missing `self` reported.
pub open spec fn receiver_step(recv: Option<Box<TyModel>>, span: Span, old: CheckState, new: CheckState) -> bool {
    match recv {
        None => new == old,
        Some(rt) => match spec_var(old.variables@, "self"@) {
            Some(v) => ty_expected(old, new, v.ty@, *rt, span),
            None => {
                &&& scope_frame(old, new)
                &&& new.variables == old.variables
                &&& new.type_state == old.type_state
                &&& new.errors@.len() == old.errors@.len() + 1
                &&& new.errors@.drop_last() == old.errors@
                &&& new.errors@.last() matches CheckError::MissingReceiver { span: s, expected: t } && s == span && t@
                    == *rt
            },
        },
    }
}

/// How the number of arguments is checked: a wrong number is reported, and nothing else.
pub open spec fn arity_step(n: nat, found: nat, span: Span, old: CheckState, new: CheckState) -> bool {
    if n != found {
        &&& scope_frame(old, new)
        &&& new.variables == old.variables
        &&& new.type_state == old.type_state
        &&& new.errors@.len() == old.errors@.len() + 1
        &&& new.errors@.drop_last() == old.errors@
        &&& is_unexpected_args(new.errors@.last(), n, found, span)
    } else {
        new == old
    }
}

/// The parameters beyond the `from` that the expected function type has, each reported as
/// unexpected, in order, and nothing else.
pub open spec fn extra_args_step(args: Seq<Spanned<LambdaParam>>, from: nat, old: CheckState, new: CheckState) -> bool {
    if from < args.len() {
        &&& new == (CheckState { errors: new.errors, ..old })
        &&& new.errors@ == old.errors@ + Seq::new(
            (args.len() - from) as nat,
            |j: int| CheckError::UnexpectedArgument { span: args[from + j].1 },
        )
    } else {
        new == old
    }
}

/// Where `bind` holds, the variable `it` of type `ty` declared at `span`.
pub open spec fn it_step(bind: bool, ty: TyModel, span: Span, old: CheckState, new: CheckState) -> bool {
    if bind {
        &&& new.wf()
        &&& new.depth() == old.depth()
        &&& declared(old, new, "it"@, ty, span)
        &&& new.variables@.drop_last() == old.variables@.drop_last()
        &&& new.generics == old.generics
        &&& new.type_state == old.type_state
        &&& new.project == old.project
        &&& new.module == old.module
        &&& new.path == old.path
        &&& new.imports == old.imports
    } else {
        new == old
    }
}

/// Where the expected function has a receiver, the parameter `self` of that type at `span`.
pub open spec fn self_step(recv: Option<Box<TyModel>>, span: Span, old: CheckState, new: CheckState) -> bool {
    match recv {
        None => new == old,
        Some(rt) => {
            &&& new.wf()
            &&& new.depth() == old.depth()
            &&& new.variables@.drop_last() == old.variables@.drop_last()
            &&& new.variables@.last()@.drop_last() == old.variables@.last()@
            &&& new.variables@.last()@.len() == old.variables@.last()@.len() + 1
            &&& new.variables@.last()@.last().name@ == "self"@
            &&& new.variables@.last()@.last().ty@ == *rt
            &&& new.variables@.last()@.last().kind == TokenKind::Param
            &&& new.variables@.last()@.last().span == span
            &&& new.generics == old.generics
            &&& new.type_state == old.type_state
            &&& new.errors == old.errors
            &&& new.project == old.project
            &&& new.module == old.module
            &&& new.path == old.path
            &&& new.imports == old.imports
        },
    }
}

/// How a lambda parameter is checked against an expected type.
pub open spec fn param_expected(p: LambdaParam, span: Span, expected: TyModel, r: LambdaParamIR, old: CheckState, new: CheckState) -> bool {
    exists|mid: CheckState|
        #![trigger param_rule(p, span, r, old, mid)]
        param_rule(p, span, r, old, mid) && scope_frame(old, mid) && ty_expected(mid, new, r.ty.0.ty@, expected, r.ty.1)
}

/// The first `n` parameters checked against the expected types in order, from `old` to `new`.
pub open spec fn params_expected(
    args: Seq<Spanned<LambdaParam>>,
    tys: Seq<TyModel>,
    irs: Seq<Spanned<LambdaParamIR>>,
    n: int,
    old: CheckState,
    new: CheckState,
) -> bool
    decreases n,
{
    if n <= 0 {
        irs.len() == 0 && new == old
    } else {
        &&& irs.len() == n
        &&& irs.last().1 == args[n - 1].1
        &&& exists|mid: CheckState|
            #![trigger param_expected(args[n - 1].0, args[n - 1].1, tys[n - 1], irs.last().0, mid, new)]
            params_expected(args, tys, irs.drop_last(), n - 1, old, mid) && param_expected(
                args[n - 1].0,
                args[n - 1].1,
                tys[n - 1],
                irs.last().0,
                mid,
                new,
            )
    }
}

/// How an expression is checked from `old` to `new`: for each kind of expression, its parts are
/// checked in order, each from the state the previous part left, as the node's own check does.
pub open spec fn checks_to(e: Expr, r: ExprIR, old: CheckState, new: CheckState) -> bool
    decreases e, 0int, 0int,
{
    match e {
        Expr::Literal(_) => check_rule(e, r, old) && new == old,
        Expr::Error => check_rule(e, r, old) && new == old,
        Expr::Ident(p) => ident_checked(p@, r, old, new),
        Expr::Field(f) => {
            &&& r.data matches ExprIRData::Field(fi) && fi.name.0@ == f.name.0@ && fi.name.1 == f.name.1
                && fi.struct_.1 == f.struct_.1
            &&& exists|mid: CheckState|
                #![trigger field_looked_up(f.name, f.struct_.1, r.data->Field_0.struct_.0.ty@, r.ty@, mid, new)]
                checks_to(f.struct_.0, r.data->Field_0.struct_.0, old, mid) && field_looked_up(
                    f.name,
                    f.struct_.1,
                    r.data->Field_0.struct_.0.ty@,
                    r.ty@,
                    mid,
                    new,
                )
        },
        Expr::Call(c) => {
            &&& r.data matches ExprIRData::Call(ci) && ci.expr.1 == c.name.1
            &&& exists|s1: CheckState|
                #![trigger scope_frame(old, s1)]
                scope_frame(old, s1) && checks_to(c.name.0, r.data->Call_0.expr.0, old, s1) && {
                    let ci = r.data->Call_0;
                    let callee = ci.expr.0.ty@;
                    if callee == TyModel::Unknown {
                        &&& r.ty@ == TyModel::Unknown
                        &&& exists|s2: CheckState, first: Seq<Spanned<ExprIR>>|
                            #![trigger scope_frame(s1, s2), same_spans(first, c.args@)]
                            scope_frame(s1, s2) && same_spans(first, c.args@) && exprs_checked(c.args@, first, s1, s2)
                                && exprs_checked(c.args@, ci.args@, s2, new)
                    } else {
                        match func_ty_model(*old.project, callee) {
                            Some(TyModel::Function(recv, params, ret)) => {
                                &&& r.ty@ == *ret
                                &&& exists|s2: CheckState, s3: CheckState, s4: CheckState, xs: Seq<Spanned<ExprIR>>|
                                    #![trigger receiver_step(recv, c.name.1, s1, s2), arity_step(params.len(), c.args@.len(), c.name.1, s2, s3), scope_frame(s3, s4), same_spans(xs, c.args@.take(min_len(c.args@.len(), params.len())))]
                                    {
                                        &&& scope_frame(s3, s4)
                                        &&& same_spans(xs, c.args@.take(min_len(c.args@.len(), params.len())))
                                        &&& receiver_step(recv, c.name.1, s1, s2)
                                        &&& arity_step(params.len(), c.args@.len(), c.name.1, s2, s3)
                                        &&& exprs_expected(c.args@, params, xs, min_len(c.args@.len(), params.len()), s3, s4)
                                        &&& exprs_checked(c.args@, ci.args@, s4, new)
                                    }
                            },
                            _ => {
                                &&& r.ty@ == TyModel::Unknown
                                &&& exists|s2: CheckState|
                                    #![trigger scope_frame(s1, s2)]
                                    {
                                        &&& scope_frame(s1, s2)
                                        &&& s2.variables == s1.variables
                                        &&& s2.type_state == s1.type_state
                                        &&& s2.errors@.len() == s1.errors@.len() + 1
                                        &&& s2.errors@.drop_last() == s1.errors@
                                        &&& s2.errors@.last() matches CheckError::ExpectedFunction { found, span }
                                            && found@ == callee && span == c.name.1
                                        &&& exprs_checked(c.args@, ci.args@, s2, new)
                                    }
                            },
                        }
                    }
                }
        },
        Expr::Tuple(es) => r.data matches ExprIRData::Tuple(irs) && r.ty@ == TyModel::Tuple(irs_tys(irs@))
            && exprs_checked(es@, irs@, old, new),
        Expr::Op(o) => {
            &&& r.data matches ExprIRData::Op(oi) && oi.kind == o.kind && oi.left.1 == o.right.1 && oi.right.1
                == o.right.1
            &&& r.ty@ == TyModel::Unknown
            &&& exists|mid: CheckState|
                #![trigger scope_frame(old, mid)]
                scope_frame(old, mid) && checks_to(o.left.0, r.data->Op_0.left.0, old, mid) && checks_to(o.right.0, r.data->Op_0.right.0, mid, new)
        },
        Expr::While(w) => {
            &&& r.data matches ExprIRData::While(wi) && wi.expr.1 == w.expr.1 && wi.block.1 == w.block.1
            &&& r.ty@ == spec_unit()
            &&& exists|mid: CheckState|
                #![trigger scope_frame(old, mid)]
                scope_frame(old, mid) && expects_to(
                    w.expr.0,
                    r.data->While_0.expr.0,
                    old,
                    mid,
                    spec_std_named("Bool"@),
                    w.expr.1,
                ) && block_checked(w.block.0@, r.data->While_0.block.0, mid, new)
        },
        Expr::CodeBlock(b) => r.data matches ExprIRData::CodeBlock(bi) && r.ty@ == block_ty(bi) && block_checked(
            b@,
            bi,
            old,
            new,
        ),
        Expr::Lambda(l) => {
            &&& r.data matches ExprIRData::Lambda(li) && r.ty@ == lambda_model(li) && li.body.1 == l.body.1
                && li.generics@.len() == 0
            &&& exists|inner: CheckState, s1: CheckState, s2: CheckState, sts: Seq<CheckState>|
                #![trigger entered(old, inner), params_chain(l.args@, r.data->Lambda_0.args@, sts), scope_frame(s1, s2), exited(s2, new, r.data->Lambda_0.vars@, r.data->Lambda_0.generics@)]
                {
                    &&& entered(old, inner)
                    &&& params_chain(l.args@, r.data->Lambda_0.args@, sts) && sts[0] == inner && sts.last() == s1
                    &&& scope_frame(s1, s2)
                    &&& block_checked(l.body.0@, r.data->Lambda_0.body.0, s1, s2)
                    &&& exited(s2, new, r.data->Lambda_0.vars@, r.data->Lambda_0.generics@)
                }
        },
        Expr::Match(m) => {
            &&& r.data matches ExprIRData::Match(mi) && mi.expr.1 == m.expr.1 && r.ty@ == match_model(mi)
            &&& exists|s1: CheckState|
                #![trigger scope_frame(old, s1)]
                scope_frame(old, s1) && checks_to(m.expr.0, r.data->Match_0.expr.0, old, s1) && arms_checked(
                    m.arms@,
                    r.data->Match_0.arms@,
                    r.data->Match_0.expr.0.ty@,
                    m.arms@.len() as int,
                    s1,
                    new,
                )
        },
    }
}

/// How an expression is checked where a value of type `expected` is expected at `span`.
pub open spec fn expects_to(e: Expr, r: ExprIR, old: CheckState, new: CheckState, expected: TyModel, span: Span) -> bool
    decreases e, 1int, 0int,
{
    match e {
        Expr::Error => check_rule(e, r, old) && new == old,
        Expr::Literal(_) => check_rule(e, r, old) && ty_expected(old, new, r.ty@, expected, span),
        Expr::CodeBlock(_) => checks_to(e, r, old, new),
        Expr::Lambda(l) => {
            &&& r.data matches ExprIRData::Lambda(li) && r.ty@ == block_ty(li.body.0) && li.body.1 == l.body.1
            &&& match expected {
                TyModel::Function(recv, params, ret) => {
                    let li = r.data->Lambda_0;
                    exists|inner: CheckState, s1: CheckState, s2: CheckState, s3: CheckState, s4: CheckState, s5: CheckState|
                        #![trigger entered(old, inner), extra_args_step(l.args@, params.len(), s1, s2), self_step(recv, span, s3, s4), exited(s5, new, li.vars@, li.generics@)]
                        {
                            &&& entered(old, inner)
                            &&& params_expected(l.args@, params, li.args@, min_len(l.args@.len(), params.len()), inner, s1)
                            &&& extra_args_step(l.args@, params.len(), s1, s2)
                            &&& it_step(l.args@.len() == 0 && params.len() == 1, params[0], span, s2, s3)
                            &&& self_step(recv, span, s3, s4)
                            &&& block_expected_to(l.body.0@, li.body.0, s4, s5, *ret, l.body.1)
                            &&& exited(s5, new, li.vars@, li.generics@)
                        }
                },
                _ => {
                    let li = r.data->Lambda_0;
                    exists|inner: CheckState, s1: CheckState, s2: CheckState, s3: CheckState, s4: CheckState, r1: ExprIR, sts: Seq<CheckState>|
                        #![trigger entered(old, inner), ty_expected(s1, s2, r1.ty@, expected, span), exited(s2, s3, li.vars@, li.generics@), scope_frame(s3, s4), params_chain(l.args@, li.args@, sts)]
                        {
                            &&& entered(old, inner)
                            &&& checks_to(e, r1, inner, s1)
                            &&& ty_expected(s1, s2, r1.ty@, expected, span)
                            &&& exited(s2, s3, li.vars@, li.generics@)
                            &&& scope_frame(s3, s4)
                            &&& block_checked(l.body.0@, li.body.0, s3, s4)
                            &&& params_chain(l.args@, li.args@, sts) && sts[0] == s4 && sts.last() == new
                        }
                },
            }
        },
        Expr::Match(m) => {
            &&& r.data matches ExprIRData::Match(mi) && mi.expr.1 == m.expr.1 && r.ty@ == expected
            &&& exists|s1: CheckState|
                #![trigger scope_frame(old, s1)]
                scope_frame(old, s1) && checks_to(m.expr.0, r.data->Match_0.expr.0, old, s1) && arms_expected(
                    m.arms@,
                    r.data->Match_0.arms@,
                    r.data->Match_0.expr.0.ty@,
                    expected,
                    span,
                    m.arms@.len() as int,
                    s1,
                    new,
                )
        },
        Expr::Tuple(es) => match expected {
            TyModel::Tuple(ts) => if ts.len() == es@.len() {
                r.data matches ExprIRData::Tuple(irs) && r.ty@ == TyModel::Tuple(irs_tys(irs@)) && exprs_expected(
                    es@,
                    ts,
                    irs@,
                    es@.len() as int,
                    old,
                    new,
                )
            } else {
                exists|mid: CheckState|
                    #![trigger ty_expected(mid, new, r.ty@, expected, span)]
                    checks_to(e, r, old, mid) && ty_expected(mid, new, r.ty@, expected, span)
            },
            _ => exists|mid: CheckState|
                #![trigger ty_expected(mid, new, r.ty@, expected, span)]
                checks_to(e, r, old, mid) && ty_expected(mid, new, r.ty@, expected, span),
        },
        _ => exists|mid: CheckState|
            #![trigger ty_expected(mid, new, r.ty@, expected, span)]
            checks_to(e, r, old, mid) && ty_expected(mid, new, r.ty@, expected, span),
    }
}

/// The first `n` expressions checked in order from `old` to `new`, giving `irs`.
pub open spec fn exprs_checked(es: Seq<Spanned<Expr>>, irs: Seq<Spanned<ExprIR>>, old: CheckState, new: CheckState) -> bool
    decreases es, 2int, 0int,
{
    if es.len() == 0 {
        irs.len() == 0 && new == old
    } else {
        &&& irs.len() == es.len()
        &&& irs.last().1 == es.last().1
        &&& exists|mid: CheckState|
            #![trigger scope_frame(old, mid)]
            scope_frame(old, mid) && exprs_checked(es.drop_last(), irs.drop_last(), old, mid) && checks_to(
                es.last().0,
                irs.last().0,
                mid,
                new,
            )
    }
}

/// The first `n` expressions expected against the types at their places, in order.
pub open spec fn exprs_expected(
    es: Seq<Spanned<Expr>>,
    ts: Seq<TyModel>,
    irs: Seq<Spanned<ExprIR>>,
    n: int,
    old: CheckState,
    new: CheckState,
) -> bool
    decreases es, 2int, n,
{
    if n <= 0 || n > es.len() {
        irs.len() == 0 && new == old
    } else {
        &&& irs.len() == n
        &&& irs.last().1 == es[n - 1].1
        &&& exists|mid: CheckState|
            #![trigger scope_frame(old, mid)]
            scope_frame(old, mid) && exprs_expected(es, ts, irs.drop_last(), n - 1, old, mid) && expects_to(
                es[n - 1].0,
                irs.last().0,
                mid,
                new,
                ts[n - 1],
                es[n - 1].1,
            )
    }
}

/// A block checked in a scope of its own: each statement in order.
pub open spec fn block_checked(stmts: Seq<Spanned<Stmt>>, b: CodeBlockIR, old: CheckState, new: CheckState) -> bool
    decreases stmts, 3int, 0int,
{
    exists|inner: CheckState, fin: CheckState|
        #![trigger entered(old, inner), exited(fin, new, b.vars@, b.generics@)]
        {
            &&& entered(old, inner)
            &&& stmts_checked(stmts, b.stmts@, stmts.len() as int, inner, fin)
            &&& exited(fin, new, b.vars@, b.generics@)
        }
}

/// A block checked in a scope of its own, its last statement against `expected`; an empty block
/// has the unit type, compared with `expected`.
pub open spec fn block_expected_to(
    stmts: Seq<Spanned<Stmt>>,
    b: CodeBlockIR,
    old: CheckState,
    new: CheckState,
    expected: TyModel,
    span: Span,
) -> bool
    decreases stmts, 3int, 0int,
{
    exists|inner: CheckState, s1: CheckState, fin: CheckState|
        #![trigger entered(old, inner), scope_frame(inner, s1), exited(fin, new, b.vars@, b.generics@)]
        {
            &&& entered(old, inner)
            &&& scope_frame(inner, s1)
            &&& if stmts.len() == 0 {
                &&& b.stmts@.len() == 0
                &&& s1 == inner
                &&& ty_expected(inner, fin, spec_unit(), expected, span)
            } else {
                &&& b.stmts@.len() == stmts.len()
                &&& b.stmts@.last().1 == stmts.last().1
                &&& stmts_checked(stmts, b.stmts@.drop_last(), stmts.len() - 1, inner, s1)
                &&& stmt_expects_to(stmts.last().0, b.stmts@.last().0, s1, fin, expected, span)
            }
            &&& exited(fin, new, b.vars@, b.generics@)
        }
}

/// The first `n` statements checked in order from `old` to `new`, giving `irs`.
pub open spec fn stmts_checked(stmts: Seq<Spanned<Stmt>>, irs: Seq<Spanned<StmtIR>>, n: int, old: CheckState, new: CheckState) -> bool
    decreases stmts, 2int, n,
{
    if n <= 0 || n > stmts.len() {
        irs.len() == 0 && new == old
    } else {
        &&& irs.len() == n
        &&& irs.last().1 == stmts[n - 1].1
        &&& exists|mid: CheckState|
            #![trigger scope_frame(old, mid)]
            scope_frame(old, mid) && stmts_checked(stmts, irs.drop_last(), n - 1, old, mid) && stmt_checks_to(stmts[n - 1].0, irs.last().0, mid, new)
    }
}

/// How a statement is checked: an expression as `checks_to`; a `let` checks the written type,
/// expects or checks the value, then expects the pattern against the value's type; an assignment
/// checks its target, then checks the value where the target's type is unknown and expects it
/// against that type otherwise, and reports a target that is neither a name nor a field.
pub open spec fn stmt_checks_to(s: Stmt, r: StmtIR, old: CheckState, new: CheckState) -> bool
    decreases s, 1int, 0int,
{
    match s {
        Stmt::Expr(e) => r matches StmtIR::Expr(x) && checks_to(e, x, old, new),
        Stmt::Let(l) => r matches StmtIR::Let(x) && let_checked(l, x, old, new),
        Stmt::Assign(a) => r matches StmtIR::Assign(x) && assign_checked(a, x, old, new),
    }
}

/// How a statement is checked where its value must have type `expected`.
pub open spec fn stmt_expects_to(s: Stmt, r: StmtIR, old: CheckState, new: CheckState, expected: TyModel, span: Span) -> bool
    decreases s, 2int, 0int,
{
    match s {
        Stmt::Expr(e) => r matches StmtIR::Expr(x) && expects_to(e, x, old, new, expected, span),
        _ => exists|mid: CheckState|
            #![trigger scope_frame(old, mid)]
            scope_frame(old, mid) && stmt_checks_to(s, r, old, mid) && if expected == spec_unit() {
                new == mid
            } else {
                &&& new == (CheckState { errors: new.errors, ..mid })
                &&& new.errors@.len() == mid.errors@.len() + 1
                &&& new.errors@.drop_last() == mid.errors@
                &&& new.errors@.last() matches CheckError::TypeMismatch { expected: e, found, span: sp } && e@
                    == expected && found@ == spec_unit() && sp == span
            },
    }
}

/// How a `let` is checked: the written type, where there is one, is checked first and the value
/// expected against it, else the value is checked; then the pattern is expected against the
/// value's type.
pub open spec fn let_checked(l: LetStatement, r: LetIR, old: CheckState, new: CheckState) -> bool
    decreases l, 0int, 0int,
{
    &&& r.pattern.1 == l.pattern.1
    &&& r.expr.1 == l.value.1
    &&& exists|s1: CheckState, s2: CheckState|
        #![trigger scope_frame(old, s1), scope_frame(s1, s2)]
        {
            &&& scope_frame(old, s1)
            &&& scope_frame(s1, s2)
            &&& match l.ty {
                Some(t) => {
                    &&& type_check_frame(old, s1)
                    &&& s1.type_state.next_id() == type_model(t.0, old, old.type_state.next_id() as int).1
                    &&& r.ty matches Some(x) && x.1 == t.1 && x.0.ty@ == type_model(
                        t.0,
                        old,
                        old.type_state.next_id() as int,
                    ).0 && expects_to(l.value.0, r.expr.0, s1, s2, x.0.ty@, l.value.1)
                },
                None => r.ty is None && s1 == old && checks_to(l.value.0, r.expr.0, old, s2),
            }
            &&& expect_pattern_rule(l.pattern.0, s2, new, r.expr.0.ty@, r.pattern.0)
        }
}

/// How an assignment is checked.
pub open spec fn assign_checked(a: Assign, r: AssignIR, old: CheckState, new: CheckState) -> bool
    decreases a, 0int, 0int,
{
    &&& r.refr.1 == a.refr.1
    &&& r.value.1 == a.value.1
    &&& exists|s1: CheckState, s2: CheckState|
        #![trigger scope_frame(old, s1), scope_frame(s1, s2)]
        {
            &&& scope_frame(old, s1)
            &&& checks_to(a.refr.0, r.refr.0, old, s1)
            &&& scope_frame(s1, s2)
            &&& if r.refr.0.ty@ == TyModel::Unknown {
                checks_to(a.value.0, r.value.0, s1, s2)
            } else {
                expects_to(a.value.0, r.value.0, s1, s2, r.refr.0.ty@, a.value.1)
            }
            &&& if a.refr.0 is Field || a.refr.0 is Ident {
                new == s2
            } else {
                reported_one(s2, new, CheckError::ExpectedIdentOrField { span: a.refr.1 })
            }
        }
}

/// How a match arm is checked in a scope of its own: the pattern against the matched type `ty`,
/// then the expression.
pub open spec fn arm_checked(a: MatchArm, r: MatchArmIR, ty: TyModel, old: CheckState, new: CheckState) -> bool
    decreases a, 0int, 0int,
{
    &&& r.pattern.1 == a.pattern.1
    &&& r.expr.1 == a.expr.1
    &&& exists|inner: CheckState, s1: CheckState, s2: CheckState|
        #![trigger entered(old, inner), expect_pattern_rule(a.pattern.0, inner, s1, ty, r.pattern.0), exited(s2, new, r.vars@, r.generics@)]
        {
            &&& entered(old, inner)
            &&& expect_pattern_rule(a.pattern.0, inner, s1, ty, r.pattern.0)
            &&& checks_to(a.expr.0, r.expr.0, s1, s2)
            &&& exited(s2, new, r.vars@, r.generics@)
        }
}

/// How a match arm is checked where its expression must have type `expected` at `span`.
pub open spec fn arm_expected(a: MatchArm, r: MatchArmIR, ty: TyModel, expected: TyModel, span: Span, old: CheckState, new: CheckState) -> bool
    decreases a, 0int, 0int,
{
    &&& r.pattern.1 == a.pattern.1
    &&& r.expr.1 == a.expr.1
    &&& exists|inner: CheckState, s1: CheckState, s2: CheckState|
        #![trigger entered(old, inner), expect_pattern_rule(a.pattern.0, inner, s1, ty, r.pattern.0), exited(s2, new, r.vars@, r.generics@)]
        {
            &&& entered(old, inner)
            &&& expect_pattern_rule(a.pattern.0, inner, s1, ty, r.pattern.0)
            &&& expects_to(a.expr.0, r.expr.0, s1, s2, expected, span)
            &&& exited(s2, new, r.vars@, r.generics@)
        }
}

/// The first `n` arms of a match checked in order: the first as it is, each later one against
/// the type of the first arm's expression, at that arm's expression.
pub open spec fn arms_checked(arms: Seq<Spanned<MatchArm>>, irs: Seq<Spanned<MatchArmIR>>, ty: TyModel, n: int, old: CheckState, new: CheckState) -> bool
    decreases arms, 2int, n,
{
    if n <= 0 || n > arms.len() {
        irs.len() == 0 && new == old
    } else {
        &&& irs.len() == n
        &&& irs.last().1 == arms[n - 1].1
        &&& exists|mid: CheckState|
            #![trigger scope_frame(old, mid)]
            scope_frame(old, mid) && arms_checked(arms, irs.drop_last(), ty, n - 1, old, mid) && if n == 1 {
                arm_checked(arms[0].0, irs[0].0, ty, mid, new)
            } else {
                arm_expected(arms[n - 1].0, irs.last().0, ty, irs[0].0.expr.0.ty@, arms[n - 1].0.expr.1, mid, new)
            }
    }
}

/// The first `n` arms of a match checked in order, each against `expected` at `span`.
pub open spec fn arms_expected(
    arms: Seq<Spanned<MatchArm>>,
    irs: Seq<Spanned<MatchArmIR>>,
    ty: TyModel,
    expected: TyModel,
    span: Span,
    n: int,
    old: CheckState,
    new: CheckState,
) -> bool
    decreases arms, 2int, n,
{
    if n <= 0 || n > arms.len() {
        irs.len() == 0 && new == old
    } else {
        &&& irs.len() == n
        &&& irs.last().1 == arms[n - 1].1
        &&& exists|mid: CheckState|
            #![trigger scope_frame(old, mid)]
            scope_frame(old, mid) && arms_expected(arms, irs.drop_last(), ty, expected, span, n - 1, old, mid) && arm_expected(
                arms[n - 1].0,
                irs.last().0,
                ty,
                expected,
                span,
                mid,
                new,
            )
    }
}


/// A checked call has the result type of the function its callee checks to, and the unknown type
/// where the callee's type is unknown or cannot be called.
pub proof fn law_call_result(c: crate::parser::ast::Call, r: ExprIR, old: CheckState, new: CheckState)
    requires
        checks_to(Expr::Call(c), r, old, new),
    ensures
        r.data is Call,
        r.data->Call_0.expr.0.ty@ == TyModel::Unknown ==> r.ty@ == TyModel::Unknown,
        r.data->Call_0.expr.0.ty@ != TyModel::Unknown ==> r.ty@ == match func_ty_model(
            *old.project,
            r.data->Call_0.expr.0.ty@,
        ) {
            Some(TyModel::Function(_, _, ret)) => *ret,
            _ => TyModel::Unknown,
        },
{
}

} // verus!
