use vstd::prelude::*;

use crate::check::err::CheckError;
use crate::check::instance::is_instance;
use crate::check::state::{CheckState, VarDecl};
use crate::ir::common::pattern::{pattern_wf, PatternIR};
use crate::ir::expr::ident::{check_ident, expect_ident, ident_model, SpannedQualifiedNameIR};
use crate::ir::expr::lit::lit_ty_model;
use crate::ir::expr::rel::{
    block_checked, block_expected_to, checks_to, entered, exited, expects_to, exprs_checked, exprs_expected, stmt_expects_to, stmts_checked,
};
use crate::ir::stmt::{stmt_ty, StmtIR};
use crate::ir::ty::{type_wf, TypeIR};
use crate::parser::ast::{lit_view, Expr, Literal, OpKind, Stmt};
use crate::ty::{lemma_view_parts, spec_unit, tys_view, Generic, Ty, TyModel};
use crate::util::{Span, Spanned};

pub mod call;
pub mod field;
pub mod ident;
pub mod lambda;
pub mod lit;
pub mod match_arm;
pub mod op;
pub mod rel;
pub mod while_;

verus! {

broadcast use vstd::std_specs::vec::group_vec_axioms;

/// A checked expression and its type.
pub struct ExprIR<'db> {
    pub data: ExprIRData<'db>,
    pub ty: Ty,
}

pub enum ExprIRData<'db> {
    Literal(Literal),
    Field(FieldIR<'db>),
    Ident(SpannedQualifiedNameIR<'db>),
    CodeBlock(CodeBlockIR<'db>),
    Call(CallIR<'db>),
    Match(MatchIR<'db>),
    Tuple(Vec<Spanned<ExprIR<'db>>>),
    Op(OpIR<'db>),
    Lambda(LambdaIR<'db>),
    While(WhileIR<'db>),
    Error,
}

pub struct FieldIR<'db> {
    pub name: Spanned<String>,
    pub struct_: Box<Spanned<ExprIR<'db>>>,
}

pub struct CallIR<'db> {
    pub expr: Box<Spanned<ExprIR<'db>>>,
    pub args: Vec<Spanned<ExprIR<'db>>>,
}

/// A checked block with the variables and generics its scope declared.
pub struct CodeBlockIR<'db> {
    pub stmts: Vec<Spanned<StmtIR<'db>>>,
    pub vars: Vec<VarDecl>,
    pub generics: Vec<Generic>,
}

pub struct MatchIR<'db> {
    pub expr: Box<Spanned<ExprIR<'db>>>,
    pub arms: Vec<Spanned<MatchArmIR<'db>>>,
}

/// A checked arm with the variables and generics its scope declared.
pub struct MatchArmIR<'db> {
    pub pattern: Spanned<PatternIR<'db>>,
    pub expr: Box<Spanned<ExprIR<'db>>>,
    pub generics: Vec<Generic>,
    pub vars: Vec<VarDecl>,
}

pub struct OpIR<'db> {
    pub left: Box<Spanned<ExprIR<'db>>>,
    pub right: Box<Spanned<ExprIR<'db>>>,
    pub kind: OpKind,
}

/// A checked lambda with the variables and generics its scope declared.
pub struct LambdaIR<'db> {
    pub args: Vec<Spanned<LambdaParamIR<'db>>>,
    pub body: Spanned<CodeBlockIR<'db>>,
    pub vars: Vec<VarDecl>,
    pub generics: Vec<Generic>,
}

pub struct LambdaParamIR<'db> {
    pub pattern: Spanned<PatternIR<'db>>,
    pub ty: Spanned<TypeIR<'db>>,
}

pub struct WhileIR<'db> {
    pub expr: Box<Spanned<ExprIR<'db>>>,
    pub block: Spanned<CodeBlockIR<'db>>,
}

/// What checking an expression leaves unchanged: the scopes but for variables added to the
/// innermost one, the context of the file and the errors found before; type variables are only
/// added.
pub open spec fn scope_frame(old: CheckState, new: CheckState) -> bool {
    &&& new.wf()
    &&& new.depth() == old.depth()
    &&& new.variables@.drop_last() == old.variables@.drop_last()
    &&& old.variables@.last()@.is_prefix_of(new.variables@.last()@)
    &&& new.generics@ == old.generics@
    &&& new.project == old.project
    &&& new.module == old.module
    &&& new.path == old.path
    &&& new.imports == old.imports
    &&& old.errors@.is_prefix_of(new.errors@)
    &&& new.type_state.next_id() >= old.type_state.next_id()
}

/// The frame holds of a state and itself.
pub proof fn lemma_frame_refl(a: CheckState)
    requires
        a.wf(),
    ensures
        scope_frame(a, a),
{
    assert(a.variables@.last()@.is_prefix_of(a.variables@.last()@));
    assert(a.errors@.is_prefix_of(a.errors@));
}

/// The frame is transitive.
pub proof fn lemma_frame_trans(a: CheckState, b: CheckState, c: CheckState)
    requires
        scope_frame(a, b),
        scope_frame(b, c),
    ensures
        scope_frame(a, c),
{
    let va = a.variables@.last()@;
    let vb = b.variables@.last()@;
    let vc = c.variables@.last()@;
    assert(va =~= vc.subrange(0, va.len() as int)) by {
        assert forall|i: int| 0 <= i < va.len() implies va[i] == vc[i] by {
            assert(va[i] == vb[i]);
            assert(vb[i] == vc[i]);
        }
    }
    let ea = a.errors@;
    let eb = b.errors@;
    let ec = c.errors@;
    assert(ea =~= ec.subrange(0, ea.len() as int)) by {
        assert forall|i: int| 0 <= i < ea.len() implies ea[i] == ec[i] by {
            assert(ea[i] == eb[i]);
            assert(eb[i] == ec[i]);
        }
    }
}

/// A state where only the errors and the type variables changed is within the frame.
pub proof fn lemma_frame_of_type_check(a: CheckState, b: CheckState)
    requires
        crate::ir::ty::type_check_frame(a, b),
        a.wf(),
    ensures
        scope_frame(a, b),
{
    assert(a.variables@.last()@.is_prefix_of(b.variables@.last()@));
}

/// Whether every path, pattern and type written in the expression is well formed.
pub open spec fn expr_wf(e: Expr) -> bool
    decreases e,
{
    match e {
        Expr::Literal(_) => true,
        Expr::Error => true,
        Expr::Field(f) => expr_wf(f.struct_.0),
        Expr::Ident(p) => p@.len() >= 1,
        Expr::CodeBlock(b) => forall|i: int| 0 <= i < b@.len() ==> stmt_wf(#[trigger] b@[i].0),
        Expr::Call(c) => expr_wf(c.name.0) && forall|i: int| 0 <= i < c.args@.len() ==> expr_wf(#[trigger] c.args@[i].0),
        Expr::Match(m) => expr_wf(m.expr.0) && forall|i: int|
            0 <= i < m.arms@.len() ==> pattern_wf(#[trigger] m.arms@[i].0.pattern.0) && expr_wf(m.arms@[i].0.expr.0),
        Expr::Tuple(es) => forall|i: int| 0 <= i < es@.len() ==> expr_wf(#[trigger] es@[i].0),
        Expr::Op(o) => expr_wf(o.left.0) && expr_wf(o.right.0),
        Expr::Lambda(l) => {
            &&& forall|i: int| 0 <= i < l.args@.len() ==> pattern_wf(#[trigger] l.args@[i].0.pattern.0) && (
            l.args@[i].0.ty matches Some(t) ==> type_wf(t.0))
            &&& forall|i: int| 0 <= i < l.body.0@.len() ==> stmt_wf(#[trigger] l.body.0@[i].0)
        },
        Expr::While(w) => expr_wf(w.expr.0) && forall|i: int| 0 <= i < w.block.0@.len() ==> stmt_wf(#[trigger] w.block.0@[i].0),
    }
}

/// Whether every path, pattern and type written in the statement is well formed.
pub open spec fn stmt_wf(s: Stmt) -> bool
    decreases s,
{
    match s {
        Stmt::Let(l) => pattern_wf(l.pattern.0) && (l.ty matches Some(t) ==> type_wf(t.0)) && expr_wf(l.value.0),
        Stmt::Expr(e) => expr_wf(e),
        Stmt::Assign(a) => expr_wf(a.refr.0) && expr_wf(a.value.0),
    }
}

/// Whether every statement of a block is well formed.
pub open spec fn block_wf(b: Seq<Spanned<Stmt>>) -> bool {
    forall|i: int| 0 <= i < b.len() ==> stmt_wf(#[trigger] b[i].0)
}

/// Whether every expression of a list is well formed.
pub open spec fn exprs_wf(es: Seq<Spanned<Expr>>) -> bool {
    forall|i: int| 0 <= i < es.len() ==> expr_wf(#[trigger] es[i].0)
}

/// The type of a block: that of its last statement, or the unit type if it has none.
pub open spec fn block_ty(b: CodeBlockIR) -> TyModel {
    if b.stmts@.len() == 0 {
        spec_unit()
    } else {
        stmt_ty(b.stmts@.last().0)
    }
}

/// The types of a list of checked expressions.
pub open spec fn irs_tys(irs: Seq<Spanned<ExprIR>>) -> Seq<TyModel> {
    Seq::new(irs.len(), |i: int| irs[i].0.ty@)
}

/// Whether the checked list has the spans of the written one.
pub open spec fn same_spans<A, B>(a: Seq<Spanned<A>>, b: Seq<Spanned<B>>) -> bool {
    a.len() == b.len() && forall|i: int| 0 <= i < a.len() ==> #[trigger] a[i].1 == b[i].1
}

/// Whether a type mismatch against `expected` at `span` is the last error whenever `ty` does not
/// fit it.
pub open spec fn reports_mismatch(st: CheckState, ty: TyModel, expected: TyModel, span: Span) -> bool {
    !is_instance(ty, expected) ==> (st.errors@.last() matches CheckError::TypeMismatch { expected: e, found, span: s }
        && e@ == expected && found@ == ty && s == span)
}

/// How a checked expression relates to the written one in state `st`: the variant is the same, and
/// the type follows the rule of the variant from the types of the checked parts.
pub open spec fn check_rule(e: Expr, r: ExprIR, st: CheckState) -> bool {
    let project = *st.project;
    match e {
        Expr::Literal(l) => r.data matches ExprIRData::Literal(m) && lit_view(m) == lit_view(l) && r.ty@
            == lit_ty_model(l),
        Expr::Error => r.data is Error && r.ty@ == TyModel::Unknown,
        Expr::Ident(p) => r.data is Ident && r.ty@ == ident_model(st, p@, st.type_state.next_id() as int).0,
        Expr::Field(f) => r.data matches ExprIRData::Field(fi) && fi.name.0@ == f.name.0@ && fi.name.1 == f.name.1
            && fi.struct_.1 == f.struct_.1 && r.ty@ == field::field_model(project, fi.struct_.0.ty@, f.name.0@),
        Expr::Call(c) => r.data matches ExprIRData::Call(ci) && ci.expr.1 == c.name.1 && same_spans(ci.args@, c.args@)
            && r.ty@ == call::call_model(project, ci.expr.0.ty@),
        Expr::Tuple(es) => r.data matches ExprIRData::Tuple(irs) && same_spans(irs@, es@) && r.ty@ == TyModel::Tuple(
            irs_tys(irs@),
        ),
        Expr::Op(o) => r.data matches ExprIRData::Op(oi) && oi.kind == o.kind && r.ty@ == TyModel::Unknown,
        Expr::While(w) => r.data matches ExprIRData::While(wi) && wi.expr.1 == w.expr.1 && wi.block.1 == w.block.1
            && r.ty@ == spec_unit(),
        Expr::CodeBlock(b) => r.data matches ExprIRData::CodeBlock(bi) && same_spans(bi.stmts@, b@) && r.ty@
            == block_ty(bi),
        Expr::Lambda(l) => r.data matches ExprIRData::Lambda(li) && same_spans(li.args@, l.args@) && r.ty@
            == lambda::lambda_model(li),
        Expr::Match(m) => r.data matches ExprIRData::Match(mi) && same_spans(mi.arms@, m.arms@) && r.ty@
            == match_arm::match_model(mi),
    }
}

/// How a checked expression relates to the written one when a type was expected: as when checked,
/// but a lambda has the type of its body and a match the expected type; where a type was
/// compared with the expected one and does not fit it, a mismatch is the last error.
pub open spec fn expect_rule(e: Expr, r: ExprIR, st: CheckState, fin: CheckState, expected: TyModel, span: Span) -> bool {
    match e {
        Expr::Lambda(l) => r.data matches ExprIRData::Lambda(li) && r.ty@ == block_ty(li.body.0),
        Expr::Match(m) => r.data matches ExprIRData::Match(mi) && same_spans(mi.arms@, m.arms@) && r.ty@ == expected,
        Expr::CodeBlock(_) | Expr::Error | Expr::Tuple(_) => check_rule(e, r, st),
        _ => check_rule(e, r, st) && reports_mismatch(fin, r.ty@, expected, span),
    }
}

/// Checks that a type fits the expected one, reporting a mismatch at `span` where it does not.
pub fn expect_ty(ty: &Ty, expected: &Ty, state: &mut CheckState, span: Span)
    requires
        old(state).wf(),
    ensures
        scope_frame(*old(state), *final(state)),
        final(state).variables == old(state).variables,
        final(state).type_state.next_id() == old(state).type_state.next_id(),
        reports_mismatch(*final(state), ty@, expected@, span),
        is_instance(ty@, expected@) ==> final(state).errors == old(state).errors,
        !is_instance(ty@, expected@) ==> final(state).errors@.len() == old(state).errors@.len() + 1
            && final(state).errors@.drop_last() == old(state).errors@,
{
    let ghost st = *state;
    ty.expect_is_instance_of(expected, state, span);
    proof {
        assert(st.errors@.is_prefix_of(state.errors@));
        assert(st.variables@.last()@.is_prefix_of(state.variables@.last()@));
    }
}

impl Expr {
    /// Checks an expression: its checked form and type, as `check_rule` says.
    pub fn check<'db>(&self, state: &mut CheckState<'db>) -> (r: ExprIR<'db>)
        requires
            old(state).wf(),
            expr_wf(*self),
        ensures
            scope_frame(*old(state), *final(state)),
            check_rule(*self, r, *old(state)),
            checks_to(*self, r, *old(state), *final(state)),
            (*self is Literal || *self is Error) ==> *final(state) == *old(state),
        decreases *self, 10int,
    {
        match self {
            Expr::Literal(lit) => {
                proof {
                    lemma_frame_refl(*state);
                }
                ExprIR { data: ExprIRData::Literal(lit.copy()), ty: lit.to_ty() }
            },
            Expr::Field(field) => field.check(state),
            Expr::Ident(ident) => check_ident(ident, state),
            Expr::CodeBlock(block) => check_block(block, state),
            Expr::Call(call) => call.check(state),
            Expr::Match(m) => m.check(state),
            Expr::Tuple(tuple) => check_tuple(tuple, state),
            Expr::Op(op) => op.check(state),
            Expr::Lambda(lambda) => lambda.check(state),
            Expr::While(w) => w.check(state),
            Expr::Error => {
                proof {
                    lemma_frame_refl(*state);
                }
                ExprIR { data: ExprIRData::Error, ty: Ty::Unknown }
            },
        }
    }

    /// Checks an expression where a value of type `expected` is expected, as `expect_rule` says; a
    /// block is checked without the expectation.
    pub fn expect<'db>(&self, state: &mut CheckState<'db>, expected: &Ty, span: Span) -> (r: ExprIR<'db>)
        requires
            old(state).wf(),
            expr_wf(*self),
        ensures
            scope_frame(*old(state), *final(state)),
            expect_rule(*self, r, *old(state), *final(state), expected@, span),
            expects_to(*self, r, *old(state), *final(state), expected@, span),
            *self is Error ==> *final(state) == *old(state),
            *self is Literal ==> if is_instance(r.ty@, expected@) {
                final(state).errors == old(state).errors
            } else {
                final(state).errors@.len() == old(state).errors@.len() + 1 && final(state).errors@.drop_last()
                    == old(state).errors@
            },
        decreases *self, 11int,
    {
        match self {
            Expr::Literal(lit) => {
                let ghost st = *state;
                let ty = lit.to_ty();
                expect_ty(&ty, expected, state, span);
                proof {
                    assert(rel::ty_expected(st, *state, ty@, expected@, span));
                }
                ExprIR { data: ExprIRData::Literal(lit.copy()), ty }
            },
            Expr::Field(field) => field.expect(state, expected, span),
            Expr::Ident(ident) => expect_ident(ident, state, expected, span),
            Expr::CodeBlock(block) => check_block(block, state),
            Expr::Call(call) => call.expect(state, expected, span),
            Expr::Match(m) => m.expect(state, expected, span),
            Expr::Tuple(tuple) => expect_tuple(tuple, state, expected, span),
            Expr::Op(op) => op.expect(state, expected, span),
            Expr::Lambda(lambda) => lambda.expect(state, expected, span),
            Expr::Error => {
                proof {
                    lemma_frame_refl(*state);
                }
                ExprIR { data: ExprIRData::Error, ty: Ty::Unknown }
            },
            Expr::While(w) => {
                let ghost st = *state;
                let ir = w.check(state);
                let ghost mid = *state;
                expect_ty(&Ty::unit(), expected, state, span);
                proof {
                    lemma_frame_trans(st, mid, *state);
                    assert(checks_to(*self, ir, st, mid));
                    assert(rel::ty_expected(mid, *state, ir.ty@, expected@, span));
                }
                ir
            },
        }
    }
}

/// Checks the statements of a block in a scope of its own, as `block_checked` says; the block has
/// the type of its last statement.
pub fn check_block<'db>(stmts: &Vec<Spanned<Stmt>>, state: &mut CheckState<'db>) -> (r: ExprIR<'db>)
    requires
        old(state).wf(),
        block_wf(stmts@),
    ensures
        scope_frame(*old(state), *final(state)),
        final(state).variables@ == old(state).variables@,
        r.data matches ExprIRData::CodeBlock(b) && same_spans(b.stmts@, stmts@) && r.ty@ == block_ty(b),
        checks_to(Expr::CodeBlock(*stmts), r, *old(state), *final(state)),
    decreases *stmts, 3int,
{
    let ghost st = *state;
    state.enter_scope();
    let ghost inner = *state;
    let mut out: Vec<Spanned<StmtIR<'db>>> = Vec::new();
    let mut i: usize = 0;
    proof {
        lemma_frame_refl(inner);
    }
    while i < stmts.len()
        invariant
            i <= stmts@.len(),
            block_wf(stmts@),
            scope_frame(inner, *state),
            out@.len() == i,
            forall|k: int| 0 <= k < i ==> #[trigger] out@[k].1 == stmts@[k].1,
            stmts_checked(stmts@, out@, i as int, inner, *state),
        decreases stmts@.len() - i,
    {
        proof {
            assert(stmt_wf(stmts@[i as int].0));
            assert(decreases_to!(*stmts => stmts@[i as int]));
        }
        let ghost before = *state;
        let ghost out0 = out@;
        let s = stmts[i].0.check(state);
        proof {
            lemma_frame_trans(inner, before, *state);
        }
        out.push((s, stmts[i].1));
        proof {
            assert(out@.drop_last() =~= out0);
            assert(scope_frame(inner, before));
            assert(stmts_checked(stmts@, out@, i + 1, inner, *state));
        }
        i = i + 1;
    }
    let ghost fin = *state;
    let (vars, generics) = state.exit_scope();
    let ty = if out.len() == 0 {
        Ty::unit()
    } else {
        out[out.len() - 1].0.get_ty()
    };
    proof {
        assert(st.variables@.last()@.is_prefix_of(state.variables@.last()@));
        assert(st.errors@.is_prefix_of(state.errors@)) by {
            assert(inner.errors == st.errors);
        }
        assert(state.generics@ =~= st.generics@);
        assert(state.variables@ =~= st.variables@);
    }
    let r = ExprIR { data: ExprIRData::CodeBlock(CodeBlockIR { stmts: out, vars, generics }), ty };
    proof {
        let b = r.data->CodeBlock_0;
        assert(entered(st, inner));
        assert(exited(fin, *state, b.vars@, b.generics@));
        assert(block_checked(stmts@, b, st, *state));
    }
    r
}

/// Checks the statements of a block in a scope of its own, the last one where a value of type
/// `expected` is expected, as `block_expected_to` says; an empty block has the unit type, which
/// must fit.
pub fn expect_block<'db>(stmts: &Vec<Spanned<Stmt>>, state: &mut CheckState<'db>, expected: &Ty, span: Span) -> (r:
    ExprIR<'db>)
    requires
        old(state).wf(),
        block_wf(stmts@),
    ensures
        scope_frame(*old(state), *final(state)),
        final(state).variables@ == old(state).variables@,
        r.data matches ExprIRData::CodeBlock(b) && same_spans(b.stmts@, stmts@) && r.ty@ == block_ty(b)
            && block_expected_to(stmts@, b, *old(state), *final(state), expected@, span),
    decreases *stmts, 4int,
{
    let ghost st = *state;
    state.enter_scope();
    let ghost inner = *state;
    let mut out: Vec<Spanned<StmtIR<'db>>> = Vec::new();
    let mut i: usize = 0;
    let n = stmts.len();
    let ghost mut lb = inner;
    proof {
        lemma_frame_refl(inner);
    }
    while i < n
        invariant
            n == stmts@.len(),
            i <= n,
            block_wf(stmts@),
            scope_frame(inner, *state),
            out@.len() == i,
            forall|k: int| 0 <= k < i ==> #[trigger] out@[k].1 == stmts@[k].1,
            i < n ==> stmts_checked(stmts@, out@, i as int, inner, *state),
            i == 0 ==> *state == inner,
            i == n && n > 0 ==> scope_frame(inner, lb) && stmts_checked(stmts@, out@.drop_last(), n - 1, inner, lb)
                && stmt_expects_to(stmts@[n - 1].0, out@[n - 1].0, lb, *state, expected@, span),
        decreases n - i,
    {
        proof {
            assert(stmt_wf(stmts@[i as int].0));
            assert(decreases_to!(*stmts => stmts@[i as int]));
        }
        let ghost before = *state;
        let ghost out0 = out@;
        let s = if i + 1 == n {
            stmts[i].0.expect(state, expected, span)
        } else {
            stmts[i].0.check(state)
        };
        proof {
            lemma_frame_trans(inner, before, *state);
            if i + 1 == n {
                lb = before;
            }
        }
        out.push((s, stmts[i].1));
        proof {
            assert(out@.drop_last() =~= out0);
            assert(scope_frame(inner, before));
            if i + 1 < n {
                assert(stmts_checked(stmts@, out@, i + 1, inner, *state));
            }
        }
        i = i + 1;
    }
    let ghost la = *state;
    if n == 0 {
        let ghost before = *state;
        expect_ty(&Ty::unit(), expected, state, span);
        proof {
            lemma_frame_trans(inner, before, *state);
            assert(rel::ty_expected(inner, *state, spec_unit(), expected@, span));
        }
    }
    let ghost fin = *state;
    let (vars, generics) = state.exit_scope();
    let ty = if out.len() == 0 {
        Ty::unit()
    } else {
        out[out.len() - 1].0.get_ty()
    };
    proof {
        assert(st.variables@.last()@.is_prefix_of(state.variables@.last()@));
        assert(st.errors@.is_prefix_of(state.errors@)) by {
            assert(inner.errors == st.errors);
        }
        assert(state.generics@ =~= st.generics@);
        assert(state.variables@ =~= st.variables@);
    }
    let r = ExprIR { data: ExprIRData::CodeBlock(CodeBlockIR { stmts: out, vars, generics }), ty };
    proof {
        let b = r.data->CodeBlock_0;
        assert(entered(st, inner));
        assert(exited(fin, *state, b.vars@, b.generics@));
        if n == 0 {
            assert(scope_frame(inner, inner));
        } else {
            assert(b.stmts@.drop_last() == out@.drop_last());
            assert(scope_frame(inner, lb));
        }
        assert(block_expected_to(stmts@, b, st, *state, expected@, span));
    }
    r
}

/// Checks the elements of a tuple in order.
pub fn check_tuple<'db>(es: &Vec<Spanned<Expr>>, state: &mut CheckState<'db>) -> (r: ExprIR<'db>)
    requires
        old(state).wf(),
        exprs_wf(es@),
    ensures
        scope_frame(*old(state), *final(state)),
        r.data matches ExprIRData::Tuple(irs) && same_spans(irs@, es@) && r.ty@ == TyModel::Tuple(irs_tys(irs@)),
        checks_to(Expr::Tuple(*es), r, *old(state), *final(state)),
    decreases *es, 3int,
{
    let ghost st = *state;
    let mut irs: Vec<Spanned<ExprIR<'db>>> = Vec::new();
    let mut tys: Vec<Ty> = Vec::new();
    let mut i: usize = 0;
    proof {
        lemma_frame_refl(st);
    }
    while i < es.len()
        invariant
            i <= es@.len(),
            exprs_wf(es@),
            scope_frame(st, *state),
            irs@.len() == i,
            tys@.len() == i,
            forall|k: int| 0 <= k < i ==> #[trigger] irs@[k].1 == es@[k].1 && irs@[k].0.ty@ == tys@[k]@,
            exprs_checked(es@.take(i as int), irs@, st, *state),
        decreases es@.len() - i,
    {
        proof {
            assert(expr_wf(es@[i as int].0));
            assert(decreases_to!(*es => es@[i as int]));
        }
        let ghost before = *state;
        let ghost irs0 = irs@;
        let e = es[i].0.check(state);
        proof {
            lemma_frame_trans(st, before, *state);
        }
        tys.push(e.ty.deep_clone());
        irs.push((e, es[i].1));
        proof {
            assert(es@.take(i + 1).drop_last() =~= es@.take(i as int));
            assert(irs@.drop_last() =~= irs0);
            assert(es@.take(i + 1).last() == es@[i as int]);
            assert(exprs_checked(es@.take(i + 1), irs@, st, *state));
        }
        i = i + 1;
    }
    proof {
        assert(es@.take(es@.len() as int) =~= es@);
    }
    let r = ExprIR { data: ExprIRData::Tuple(irs), ty: Ty::Tuple(tys) };
    proof {
        lemma_view_parts(r.ty);
        assert(r.ty@->Tuple_0 =~= irs_tys(irs@)) by {
            assert forall|k: int| 0 <= k < irs@.len() implies r.ty@->Tuple_0[k] == irs_tys(irs@)[k] by {
                assert(irs@[k].1 == es@[k].1);
            }
        }
    }
    r
}

/// Checks a tuple where a value of type `expected` is expected: against a tuple type of the same
/// length, element by element; otherwise as a whole.
pub fn expect_tuple<'db>(es: &Vec<Spanned<Expr>>, state: &mut CheckState<'db>, expected: &Ty, span: Span) -> (r:
    ExprIR<'db>)
    requires
        old(state).wf(),
        exprs_wf(es@),
    ensures
        scope_frame(*old(state), *final(state)),
        r.data matches ExprIRData::Tuple(irs) && same_spans(irs@, es@) && r.ty@ == TyModel::Tuple(irs_tys(irs@)),
        expects_to(Expr::Tuple(*es), r, *old(state), *final(state), expected@, span),
    decreases *es, 4int,
{
    let ghost st = *state;
    proof {
        lemma_view_parts(*expected);
    }
    let expected_elems: Option<&Vec<Ty>> = match expected {
        Ty::Tuple(ts) => if ts.len() == es.len() {
            Some(ts)
        } else {
            None
        },
        _ => None,
    };
    match expected_elems {
        Some(ts) => {
            let mut irs: Vec<Spanned<ExprIR<'db>>> = Vec::new();
            let mut tys: Vec<Ty> = Vec::new();
            let mut i: usize = 0;
            proof {
                lemma_frame_refl(st);
            }
            while i < es.len()
                invariant
                    i <= es@.len(),
                    ts@.len() == es@.len(),
                    exprs_wf(es@),
                    scope_frame(st, *state),
                    irs@.len() == i,
                    tys@.len() == i,
                    forall|k: int| 0 <= k < i ==> #[trigger] irs@[k].1 == es@[k].1 && irs@[k].0.ty@ == tys@[k]@,
                    exprs_expected(es@, tys_view(ts@), irs@, i as int, st, *state),
                decreases es@.len() - i,
            {
                proof {
                    assert(expr_wf(es@[i as int].0));
                    assert(decreases_to!(*es => es@[i as int]));
                }
                let ghost before = *state;
                let ghost irs0 = irs@;
                let e = es[i].0.expect(state, &ts[i], es[i].1);
                proof {
                    lemma_frame_trans(st, before, *state);
                }
                tys.push(e.ty.deep_clone());
                irs.push((e, es[i].1));
                proof {
                    assert(irs@.drop_last() =~= irs0);
                    assert(tys_view(ts@)[i as int] == ts@[i as int]@);
                    assert(scope_frame(st, before));
                    assert(exprs_expected(es@, tys_view(ts@), irs@, i + 1, st, *state));
                }
                i = i + 1;
            }
            let r = ExprIR { data: ExprIRData::Tuple(irs), ty: Ty::Tuple(tys) };
            proof {
                lemma_view_parts(r.ty);
                assert(r.ty@->Tuple_0 =~= irs_tys(irs@)) by {
            assert forall|k: int| 0 <= k < irs@.len() implies r.ty@->Tuple_0[k] == irs_tys(irs@)[k] by {
                assert(irs@[k].1 == es@[k].1);
            }
        }
                assert(expects_to(Expr::Tuple(*es), r, st, *state, expected@, span));
            }
            r
        },
        None => {
            let ir = check_tuple(es, state);
            let ghost mid = *state;
            expect_ty(&ir.ty, expected, state, span);
            proof {
                lemma_frame_trans(st, mid, *state);
                assert(rel::ty_expected(mid, *state, ir.ty@, expected@, span));
                assert(expects_to(Expr::Tuple(*es), ir, st, *state, expected@, span));
            }
            ir
        },
    }
}

} // verus!
