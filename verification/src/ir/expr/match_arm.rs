use vstd::prelude::*;

use crate::check::state::CheckState;
use crate::ir::common::pattern::{expect_pattern_rule, pattern_wf};
use crate::ir::expr::rel::{
    arm_checked, arm_expected, arms_checked, arms_expected, checks_to, entered, exited, expects_to,
};
use crate::ir::expr::{
    expr_wf, lemma_frame_refl, lemma_frame_trans, same_spans, scope_frame, ExprIR, ExprIRData, MatchArmIR,
    MatchIR,
};
use crate::parser::ast::{Expr, Match, MatchArm};
use crate::ty::{spec_unit, Ty, TyModel};
use crate::util::{Span, Spanned};

verus! {

broadcast use vstd::std_specs::vec::group_vec_axioms;

/// The type of a checked match: that of its first arm, or the unit type if it has none.
pub open spec fn match_model(mi: MatchIR) -> TyModel {
    if mi.arms@.len() == 0 {
        spec_unit()
    } else {
        mi.arms@[0].0.expr.0.ty@
    }
}

pub open spec fn arm_wf(a: MatchArm) -> bool {
    pattern_wf(a.pattern.0) && expr_wf(a.expr.0)
}

impl MatchArm {
    /// Checks an arm in a scope of its own: the pattern against the type `ty` of the matched value,
    /// then the expression.
    pub fn check<'db>(&self, state: &mut CheckState<'db>, ty: &Ty) -> (r: MatchArmIR<'db>)
        requires
            old(state).wf(),
            arm_wf(*self),
        ensures
            scope_frame(*old(state), *final(state)),
            final(state).variables@ == old(state).variables@,
            r.pattern.1 == self.pattern.1,
            r.expr.1 == self.expr.1,
            arm_checked(*self, r, ty@, *old(state), *final(state)),
        decreases *self, 3int,
    {
        let ghost st = *state;
        state.enter_scope();
        let ghost inner = *state;
        let pattern = self.pattern.0.expect(state, ty);
        let ghost s1 = *state;
        let expr = self.expr.0.check(state);
        proof {
            lemma_frame_trans(inner, s1, *state);
        }
        let ghost s2 = *state;
        let (vars, generics) = state.exit_scope();
        proof {
            assert(st.variables@.last()@.is_prefix_of(state.variables@.last()@));
            assert(st.errors@.is_prefix_of(state.errors@)) by {
                assert(inner.errors == st.errors);
            }
            assert(state.generics@ =~= st.generics@);
            assert(state.variables@ =~= st.variables@);
        }
        let r = MatchArmIR { pattern: (pattern, self.pattern.1), expr: Box::new((expr, self.expr.1)), generics, vars };
        proof {
            assert(entered(st, inner));
            assert(exited(s2, *state, r.vars@, r.generics@));
            assert(expect_pattern_rule(self.pattern.0, inner, s1, ty@, r.pattern.0));
        }
        r
    }

    /// Checks an arm whose expression must have type `expected`.
    pub fn expect<'db>(&self, state: &mut CheckState<'db>, expected: &Ty, span: Span, ty: &Ty) -> (r: MatchArmIR<'db>)
        requires
            old(state).wf(),
            arm_wf(*self),
        ensures
            scope_frame(*old(state), *final(state)),
            final(state).variables@ == old(state).variables@,
            r.pattern.1 == self.pattern.1,
            r.expr.1 == self.expr.1,
            arm_expected(*self, r, ty@, expected@, span, *old(state), *final(state)),
        decreases *self, 4int,
    {
        let ghost st = *state;
        state.enter_scope();
        let ghost inner = *state;
        let pattern = self.pattern.0.expect(state, ty);
        let ghost s1 = *state;
        let expr = self.expr.0.expect(state, expected, span);
        proof {
            lemma_frame_trans(inner, s1, *state);
        }
        let ghost s2 = *state;
        let (vars, generics) = state.exit_scope();
        proof {
            assert(st.variables@.last()@.is_prefix_of(state.variables@.last()@));
            assert(st.errors@.is_prefix_of(state.errors@)) by {
                assert(inner.errors == st.errors);
            }
            assert(state.generics@ =~= st.generics@);
            assert(state.variables@ =~= st.variables@);
        }
        let r = MatchArmIR { pattern: (pattern, self.pattern.1), expr: Box::new((expr, self.expr.1)), generics, vars };
        proof {
            assert(entered(st, inner));
            assert(exited(s2, *state, r.vars@, r.generics@));
            assert(expect_pattern_rule(self.pattern.0, inner, s1, ty@, r.pattern.0));
        }
        r
    }
}

proof fn lemma_match_wf(m: Match)
    requires
        expr_wf(Expr::Match(m)),
    ensures
        expr_wf(m.expr.0),
        forall|i: int| 0 <= i < m.arms@.len() ==> arm_wf(#[trigger] m.arms@[i].0),
{
    assert forall|i: int| 0 <= i < m.arms@.len() implies arm_wf(#[trigger] m.arms@[i].0) by {
        assert(pattern_wf(m.arms@[i].0.pattern.0));
    }
}

impl Match {
    /// Checks a match: the matched value, then each arm against its type; the first arm gives the
    /// type of the match and every other arm must have it.
    pub fn check<'db>(&self, state: &mut CheckState<'db>) -> (r: ExprIR<'db>)
        requires
            old(state).wf(),
            expr_wf(Expr::Match(*self)),
        ensures
            scope_frame(*old(state), *final(state)),
            r.data matches ExprIRData::Match(mi) && same_spans(mi.arms@, self.arms@) && r.ty@ == match_model(mi),
            checks_to(Expr::Match(*self), r, *old(state), *final(state)),
        decreases Expr::Match(*self), 5int,
    {
        proof {
            lemma_match_wf(*self);
        }
        let ghost st = *state;
        let scrutinee = self.expr.0.check(state);
        let ghost s1 = *state;
        let mut arms: Vec<Spanned<MatchArmIR<'db>>> = Vec::new();
        let mut first: Option<Ty> = None;
        let mut i: usize = 0;
        proof {
            lemma_frame_refl(s1);
        }
        while i < self.arms.len()
            invariant
                i <= self.arms@.len(),
                forall|k: int| 0 <= k < self.arms@.len() ==> arm_wf(#[trigger] self.arms@[k].0),
                scope_frame(s1, *state),
                arms@.len() == i,
                forall|k: int| 0 <= k < i ==> #[trigger] arms@[k].1 == self.arms@[k].1,
                i == 0 <==> first is None,
                i > 0 ==> (first matches Some(t) && t@ == arms@[0].0.expr.0.ty@),
                decreases_to!(Expr::Match(*self) => self.arms),
                arms_checked(self.arms@, arms@, scrutinee.ty@, i as int, s1, *state),
            decreases self.arms@.len() - i,
        {
            proof {
                assert(arm_wf(self.arms@[i as int].0));
                assert(decreases_to!(self.arms => self.arms@[i as int]));
            }
            let ghost before = *state;
            let arm = match &first {
                None => {
                    let a = self.arms[i].0.check(state, &scrutinee.ty);
                    first = Some(a.expr.0.ty.deep_clone());
                    a
                },
                Some(t) => self.arms[i].0.expect(state, t, self.arms[i].0.expr.1, &scrutinee.ty),
            };
            proof {
                lemma_frame_trans(s1, before, *state);
            }
            let ghost arms0 = arms@;
            arms.push((arm, self.arms[i].1));
            proof {
                assert(arms@.drop_last() =~= arms0);
                assert(scope_frame(s1, before));
                assert(arms_checked(self.arms@, arms@, scrutinee.ty@, i + 1, s1, *state));
            }
            i = i + 1;
        }
        proof {
            lemma_frame_trans(st, s1, *state);
        }
        let ty = match first {
            Some(t) => t,
            None => Ty::unit(),
        };
        let r = ExprIR { data: ExprIRData::Match(MatchIR { expr: Box::new((scrutinee, self.expr.1)), arms }), ty };
        proof {
            assert(scope_frame(st, s1));
            assert(checks_to(Expr::Match(*self), r, st, *state));
        }
        r
    }

    /// Checks a match where a value of type `expected` is expected: every arm must have that type,
    /// which is the type of the match.
    pub fn expect<'db>(&self, state: &mut CheckState<'db>, expected: &Ty, span: Span) -> (r: ExprIR<'db>)
        requires
            old(state).wf(),
            expr_wf(Expr::Match(*self)),
        ensures
            scope_frame(*old(state), *final(state)),
            r.data matches ExprIRData::Match(mi) && same_spans(mi.arms@, self.arms@) && r.ty@ == expected@,
            expects_to(Expr::Match(*self), r, *old(state), *final(state), expected@, span),
        decreases Expr::Match(*self), 6int,
    {
        proof {
            lemma_match_wf(*self);
        }
        let ghost st = *state;
        let scrutinee = self.expr.0.check(state);
        let ghost s1 = *state;
        let mut arms: Vec<Spanned<MatchArmIR<'db>>> = Vec::new();
        let mut i: usize = 0;
        proof {
            lemma_frame_refl(s1);
        }
        while i < self.arms.len()
            invariant
                i <= self.arms@.len(),
                forall|k: int| 0 <= k < self.arms@.len() ==> arm_wf(#[trigger] self.arms@[k].0),
                scope_frame(s1, *state),
                arms@.len() == i,
                forall|k: int| 0 <= k < i ==> #[trigger] arms@[k].1 == self.arms@[k].1,
                decreases_to!(Expr::Match(*self) => self.arms),
                arms_expected(self.arms@, arms@, scrutinee.ty@, expected@, span, i as int, s1, *state),
            decreases self.arms@.len() - i,
        {
            proof {
                assert(arm_wf(self.arms@[i as int].0));
                assert(decreases_to!(self.arms => self.arms@[i as int]));
            }
            let ghost before = *state;
            let arm = self.arms[i].0.expect(state, expected, span, &scrutinee.ty);
            proof {
                lemma_frame_trans(s1, before, *state);
            }
            let ghost arms0 = arms@;
            arms.push((arm, self.arms[i].1));
            proof {
                assert(arms@.drop_last() =~= arms0);
                assert(scope_frame(s1, before));
                assert(arms_expected(self.arms@, arms@, scrutinee.ty@, expected@, span, i + 1, s1, *state));
            }
            i = i + 1;
        }
        proof {
            lemma_frame_trans(st, s1, *state);
        }
        let r = ExprIR {
            data: ExprIRData::Match(MatchIR { expr: Box::new((scrutinee, self.expr.1)), arms }),
            ty: expected.deep_clone(),
        };
        proof {
            assert(scope_frame(st, s1));
            assert(expects_to(Expr::Match(*self), r, st, *state, expected@, span));
        }
        r
    }
}

} // verus!
