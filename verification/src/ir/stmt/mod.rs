use vstd::prelude::*;

use crate::check::err::CheckError;
use crate::check::state::CheckState;
use crate::ir::common::pattern::PatternIR;
use crate::ir::expr::rel::{assign_checked, let_checked, stmt_checks_to, stmt_expects_to};
use crate::ir::expr::{
    check_rule, expect_rule, lemma_frame_of_type_check, lemma_frame_refl, lemma_frame_trans, scope_frame, stmt_wf, ExprIR,
};
use crate::ir::ty::{type_model, TypeIR};
use crate::parser::ast::{Assign, Expr, LetStatement, Stmt};
use crate::ty::{lemma_view_parts, spec_unit, Ty, TyModel};
use crate::util::{Span, Spanned};

verus! {

pub enum StmtIR<'db> {
    Expr(ExprIR<'db>),
    Let(LetIR<'db>),
    Assign(AssignIR<'db>),
}

pub struct LetIR<'db> {
    pub pattern: Spanned<PatternIR<'db>>,
    pub ty: Option<Spanned<TypeIR<'db>>>,
    pub expr: Box<Spanned<ExprIR<'db>>>,
}

pub struct AssignIR<'db> {
    pub refr: Spanned<ExprIR<'db>>,
    pub value: Spanned<ExprIR<'db>>,
}

/// The type of a checked statement: an expression has its own, other statements the unit type.
pub open spec fn stmt_ty(s: StmtIR) -> TyModel {
    match s {
        StmtIR::Expr(e) => e.ty@,
        _ => spec_unit(),
    }
}

impl<'db> StmtIR<'db> {
    /// The type of the statement.
    pub fn get_ty(&self) -> (r: Ty)
        ensures
            r@ == stmt_ty(*self),
    {
        match self {
            StmtIR::Expr(e) => e.ty.deep_clone(),
            _ => Ty::unit(),
        }
    }
}

/// Whether the checked statement is of the written statement's kind; an expression statement is
/// checked as `check_rule` says.
pub open spec fn stmt_rule(s: Stmt, r: StmtIR, st: CheckState) -> bool {
    match s {
        Stmt::Let(_) => r is Let,
        Stmt::Expr(e) => r matches StmtIR::Expr(x) && check_rule(e, x, st),
        Stmt::Assign(_) => r is Assign,
    }
}

impl Stmt {
    /// Checks a statement, as `stmt_checks_to` says.
    pub fn check<'db>(&self, state: &mut CheckState<'db>) -> (r: StmtIR<'db>)
        requires
            old(state).wf(),
            stmt_wf(*self),
        ensures
            scope_frame(*old(state), *final(state)),
            stmt_rule(*self, r, *old(state)),
            stmt_checks_to(*self, r, *old(state), *final(state)),
        decreases *self, 3int,
    {
        match self {
            Stmt::Let(l) => StmtIR::Let(l.check(state)),
            Stmt::Expr(e) => StmtIR::Expr(e.check(state)),
            Stmt::Assign(a) => StmtIR::Assign(a.check(state)),
        }
    }

    /// Checks a statement whose value must have type `expected`, as `stmt_expects_to` says: an
    /// expression is checked against it; a `let` or an assignment has the unit type, and any other
    /// expected type is reported.
    pub fn expect<'db>(&self, state: &mut CheckState<'db>, expected: &Ty, span: Span) -> (r: StmtIR<'db>)
        requires
            old(state).wf(),
            stmt_wf(*self),
        ensures
            scope_frame(*old(state), *final(state)),
            match *self {
                Stmt::Expr(e) => r matches StmtIR::Expr(x) && expect_rule(e, x, *old(state), *final(state), expected@, span),
                Stmt::Let(_) => r is Let,
                Stmt::Assign(_) => r is Assign,
            },
            stmt_expects_to(*self, r, *old(state), *final(state), expected@, span),
        decreases *self, 4int,
    {
        let ghost st = *state;
        let ir = match self {
            Stmt::Expr(e) => {
                return StmtIR::Expr(e.expect(state, expected, span));
            },
            Stmt::Let(l) => StmtIR::Let(l.check(state)),
            Stmt::Assign(a) => StmtIR::Assign(a.check(state)),
        };
        let ghost s0 = *state;
        let actual = Ty::unit();
        if !expected.equals(&actual) {
            let ghost before = *state;
            state.error(CheckError::TypeMismatch { expected: expected.deep_clone(), found: actual, span });
            proof {
                assert(before.errors@.is_prefix_of(state.errors@));
                assert(before.variables@.last()@.is_prefix_of(state.variables@.last()@));
                assert(state.errors@.drop_last() =~= before.errors@);
                lemma_frame_trans(st, before, *state);
            }
        }
        proof {
            assert(scope_frame(st, s0));
            assert(stmt_checks_to(*self, ir, st, s0));
        }
        ir
    }
}

impl LetStatement {
    /// Checks a `let`, as `let_checked` says: the value against the written type where there is
    /// one, then the pattern against the value's type, declaring its variables in the current
    /// scope.
    pub fn check<'db>(&self, state: &mut CheckState<'db>) -> (r: LetIR<'db>)
        requires
            old(state).wf(),
            stmt_wf(Stmt::Let(*self)),
        ensures
            scope_frame(*old(state), *final(state)),
            r.pattern.1 == self.pattern.1,
            r.expr.1 == self.value.1,
            match self.ty {
                Some(t) => r.ty matches Some(x) && x.1 == t.1 && x.0.ty@ == type_model(
                    t.0,
                    *old(state),
                    old(state).type_state.next_id() as int,
                ).0,
                None => r.ty is None,
            },
            let_checked(*self, r, *old(state), *final(state)),
        decreases Stmt::Let(*self), 2int,
    {
        let ghost st = *state;
        let ghost mut m1 = st;
        let (ty, expr) = match &self.ty {
            Some(t) => {
                let expected = t.0.check_ir(state);
                let ghost mid = *state;
                proof {
                    lemma_frame_of_type_check(st, mid);
                    m1 = mid;
                }
                let e = self.value.0.expect(state, &expected.ty, self.value.1);
                proof {
                    lemma_frame_trans(st, mid, *state);
                }
                (Some((expected, t.1)), e)
            },
            None => {
                proof {
                    lemma_frame_refl(st);
                }
                (None, self.value.0.check(state))
            },
        };
        let ghost s1 = *state;
        let pattern = self.pattern.0.expect(state, &expr.ty);
        proof {
            lemma_frame_trans(st, s1, *state);
        }
        let r = LetIR { pattern: (pattern, self.pattern.1), ty, expr: Box::new((expr, self.value.1)) };
        proof {
            assert(scope_frame(st, m1));
            assert(scope_frame(m1, s1));
            assert(let_checked(*self, r, st, *state));
        }
        r
    }
}

impl Assign {
    /// Checks an assignment, as `assign_checked` says: the value must fit the type of the target,
    /// which must be a name or a field.
    pub fn check<'db>(&self, state: &mut CheckState<'db>) -> (r: AssignIR<'db>)
        requires
            old(state).wf(),
            stmt_wf(Stmt::Assign(*self)),
        ensures
            scope_frame(*old(state), *final(state)),
            r.refr.1 == self.refr.1,
            r.value.1 == self.value.1,
            check_rule(self.refr.0, r.refr.0, *old(state)),
            assign_checked(*self, r, *old(state), *final(state)),
        decreases Stmt::Assign(*self), 2int,
    {
        let ghost st = *state;
        let refr = self.refr.0.check(state);
        let ghost s1 = *state;
        proof {
            lemma_view_parts(refr.ty);
        }
        let value = if let Ty::Unknown = &refr.ty {
            self.value.0.check(state)
        } else {
            self.value.0.expect(state, &refr.ty, self.value.1)
        };
        let ghost s2 = *state;
        proof {
            lemma_frame_trans(st, s1, *state);
            assert(scope_frame(s1, s2));
        }
        let is_place = match &self.refr.0 {
            Expr::Field(_) | Expr::Ident(_) => true,
            _ => false,
        };
        if !is_place {
            let ghost before = *state;
            state.error(CheckError::ExpectedIdentOrField { span: self.refr.1 });
            proof {
                assert(before.errors@.is_prefix_of(state.errors@));
                assert(before.variables@.last()@.is_prefix_of(state.variables@.last()@));
                lemma_frame_trans(st, before, *state);
            }
        }
        let r = AssignIR { refr: (refr, self.refr.1), value: (value, self.value.1) };
        proof {
            assert(scope_frame(st, s1));
            assert(scope_frame(s1, s2));
            assert(assign_checked(*self, r, st, *state));
        }
        r
    }
}

} // verus!
