use vstd::prelude::*;

use crate::check::state::CheckState;
use crate::ir::expr::rel::checks_to;
use crate::ir::expr::{
    check_block, expect_rule, expr_wf, lemma_frame_trans, same_spans, scope_frame, ExprIR, ExprIRData, WhileIR,
};
use crate::parser::ast::{Expr, While};
use crate::ty::{spec_std_named, spec_unit, Ty};

verus! {

impl While {
    /// Checks a loop: the condition must be a boolean, the body is checked as a block, and the loop
    /// has the unit type.
    pub fn check<'db>(&self, state: &mut CheckState<'db>) -> (r: ExprIR<'db>)
        requires
            old(state).wf(),
            expr_wf(Expr::While(*self)),
        ensures
            scope_frame(*old(state), *final(state)),
            r.data matches ExprIRData::While(wi) && wi.expr.1 == self.expr.1 && wi.block.1 == self.block.1,
            r.ty@ == spec_unit(),
            r.data matches ExprIRData::While(wi) && same_spans(wi.block.0.stmts@, self.block.0@) && exists|mid: CheckState|
                #![trigger scope_frame(*old(state), mid)]
                scope_frame(*old(state), mid) && scope_frame(mid, *final(state)) && expect_rule(
                    self.expr.0,
                    wi.expr.0,
                    *old(state),
                    mid,
                    spec_std_named("Bool"@),
                    self.expr.1,
                ),
            checks_to(Expr::While(*self), r, *old(state), *final(state)),
        decreases Expr::While(*self), 5int,
    {
        let ghost st = *state;
        let cond = self.expr.0.expect(state, &Ty::bool(), self.expr.1);
        let ghost mid = *state;
        let block = check_block(&self.block.0, state);
        proof {
            lemma_frame_trans(st, mid, *state);
        }
        let body = match block.data {
            ExprIRData::CodeBlock(b) => b,
            _ => unreached(),
        };
        proof {
            assert(scope_frame(st, mid));
        }
        let r = ExprIR {
            data: ExprIRData::While(WhileIR { expr: Box::new((cond, self.expr.1)), block: (body, self.block.1) }),
            ty: Ty::unit(),
        };
        proof {
            assert(checks_to(Expr::While(*self), r, st, *state));
        }
        r
    }
}

} // verus!
