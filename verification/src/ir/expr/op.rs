use vstd::prelude::*;

use crate::check::state::CheckState;
use crate::ir::expr::rel::{checks_to, expects_to};
use crate::ir::expr::{expect_ty, expr_wf, lemma_frame_trans, reports_mismatch, scope_frame, ExprIR, ExprIRData, OpIR};
use crate::parser::ast::{Expr, Op};
use crate::ty::{Ty, TyModel};
use crate::util::Span;

verus! {

impl Op {
    /// Checks both operands; operators are not typed yet, so the result has the unknown type. Both
    /// operands are recorded with the span of the right one.
    pub fn check<'db>(&self, state: &mut CheckState<'db>) -> (r: ExprIR<'db>)
        requires
            old(state).wf(),
            expr_wf(Expr::Op(*self)),
        ensures
            scope_frame(*old(state), *final(state)),
            r.data matches ExprIRData::Op(oi) && oi.kind == self.kind && oi.left.1 == self.right.1 && oi.right.1
                == self.right.1,
            r.ty@ == TyModel::Unknown,
            checks_to(Expr::Op(*self), r, *old(state), *final(state)),
        decreases Expr::Op(*self), 5int,
    {
        let ghost st = *state;
        let left = self.left.0.check(state);
        let ghost mid = *state;
        let right = self.right.0.check(state);
        proof {
            lemma_frame_trans(st, mid, *state);
        }
        let r = ExprIR {
            data: ExprIRData::Op(OpIR { left: Box::new((left, self.right.1)), right: Box::new((right, self.right.1)), kind: self.kind }),
            ty: Ty::Unknown,
        };
        proof {
            assert(checks_to(self.left.0, r.data->Op_0.left.0, st, mid));
            assert(checks_to(self.right.0, r.data->Op_0.right.0, mid, *state));
            assert(r.data matches ExprIRData::Op(oi) && oi.kind == self.kind && oi.left.1 == self.right.1 && oi.right.1 == self.right.1);
            assert(r.ty@ == TyModel::Unknown);
            assert(exists|m: CheckState| checks_to(self.left.0, r.data->Op_0.left.0, st, m) && checks_to(self.right.0, r.data->Op_0.right.0, m, *state));
            assert(checks_to(Expr::Op(*self), r, st, *state)) by {
                reveal_with_fuel(checks_to, 2);
            }
        }
        r
    }

    /// Checks an operation where a value of type `expected` is expected.
    pub fn expect<'db>(&self, state: &mut CheckState<'db>, expected: &Ty, span: Span) -> (r: ExprIR<'db>)
        requires
            old(state).wf(),
            expr_wf(Expr::Op(*self)),
        ensures
            scope_frame(*old(state), *final(state)),
            r.data matches ExprIRData::Op(oi) && oi.kind == self.kind,
            r.ty@ == TyModel::Unknown,
            reports_mismatch(*final(state), r.ty@, expected@, span),
            expects_to(Expr::Op(*self), r, *old(state), *final(state), expected@, span),
        decreases Expr::Op(*self), 6int,
    {
        let ghost st = *state;
        let ir = self.check(state);
        let ghost mid = *state;
        expect_ty(&ir.ty, expected, state, span);
        proof {
            lemma_frame_trans(st, mid, *state);
            assert(checks_to(Expr::Op(*self), ir, st, mid));
            assert(crate::ir::expr::rel::ty_expected(mid, *state, ir.ty@, expected@, span));
        }
        ir
    }
}

} // verus!
