use vstd::prelude::*;

use crate::build::pattern::{bind_model, match_model, slot_of};
use crate::build::{scopes_view, spec_local, spec_param, BuildError, BuildState, ByteCode};
use crate::check::TokenKind;
use crate::db::decl::struct_::StructDecl;
use crate::db::decl::{spec_get_path, DeclKind, Project};
use crate::ir::expr::field::index_of_name;
use crate::ir::expr::ident::IdentDef;
use crate::ir::expr::lit::unescape_newlines;
use crate::ir::expr::{ExprIR, ExprIRData, MatchArmIR, MatchIR};
use crate::ir::stmt::StmtIR;
use crate::parser::ast::{lit_view, LiteralModel, OpKind};
use crate::ty::Ty;
use crate::util::Spanned;

verus! {

/// An instruction with its literal taken by value.
pub enum CodeModel {
    Push(LiteralModel),
    Pop,
    Copy,
    Print,
    Panic,
    Return,
    GetLocal(u32),
    SetLocal(u32),
    NewLocal(u32),
    Param(u32),
    Index(u32),
    Construct { id: u32, len: u32 },
    Match(u32),
    Call(u32),
    Je(i32),
    Jne(i32),
    Jmp(i32),
    Op(OpKind),
}

/// The value of an instruction.
pub open spec fn code_view(c: ByteCode) -> CodeModel {
    match c {
        ByteCode::Push(l) => CodeModel::Push(lit_view(l)),
        ByteCode::Pop => CodeModel::Pop,
        ByteCode::Copy => CodeModel::Copy,
        ByteCode::Print => CodeModel::Print,
        ByteCode::Panic => CodeModel::Panic,
        ByteCode::Return => CodeModel::Return,
        ByteCode::GetLocal(i) => CodeModel::GetLocal(i),
        ByteCode::SetLocal(i) => CodeModel::SetLocal(i),
        ByteCode::NewLocal(i) => CodeModel::NewLocal(i),
        ByteCode::Param(i) => CodeModel::Param(i),
        ByteCode::Index(i) => CodeModel::Index(i),
        ByteCode::Construct { id, len } => CodeModel::Construct { id, len },
        ByteCode::Match(i) => CodeModel::Match(i),
        ByteCode::Call(i) => CodeModel::Call(i),
        ByteCode::Je(i) => CodeModel::Je(i),
        ByteCode::Jne(i) => CodeModel::Jne(i),
        ByteCode::Jmp(i) => CodeModel::Jmp(i),
        ByteCode::Op(k) => CodeModel::Op(k),
    }
}

/// The values of a list of instructions.
pub open spec fn codes_view(s: Seq<ByteCode>) -> Seq<CodeModel> {
    s.map_values(|c: ByteCode| code_view(c))
}

/// Viewing distributes over joining.
pub proof fn lemma_codes_add(a: Seq<ByteCode>, b: Seq<ByteCode>)
    ensures
        codes_view(a + b) == codes_view(a) + codes_view(b),
{
    assert(codes_view(a + b) =~= codes_view(a) + codes_view(b));
}

/// The scopes of locals and the id counter of a compile.
pub struct Locals {
    pub vars: Seq<Seq<(String, u32)>>,
    pub counter: u32,
}

/// The locals of a compile state.
pub open spec fn locals_of(s: BuildState) -> Locals {
    Locals { vars: scopes_view(s.vars@), counter: s.counter }
}

/// The outcome of compiling a part: its instructions or the error that stopped it, and the
/// locals after (also on failure, as far as it got).
pub struct Built {
    pub code: Result<Seq<CodeModel>, BuildError>,
    pub locals: Locals,
}

/// Joins the instructions of a part after `a`, unless `a` failed.
pub open spec fn then_built(a: Built, b: Built) -> Built {
    match a.code {
        Ok(x) => Built {
            code: match b.code {
                Ok(y) => Ok(x + y),
                Err(e) => Err(e),
            },
            locals: b.locals,
        },
        Err(_) => a,
    }
}

/// Appends instructions to a successful outcome.
pub open spec fn with_tail(a: Built, tail: Seq<CodeModel>) -> Built {
    match a.code {
        Ok(x) => Built { code: Ok(x + tail), locals: a.locals },
        Err(_) => a,
    }
}

/// An outcome that failed at once.
pub open spec fn failed(e: BuildError, l: Locals) -> Built {
    Built { code: Err(e), locals: l }
}

/// The value a literal is pushed as.
pub open spec fn pushed(l: LiteralModel) -> LiteralModel {
    match l {
        LiteralModel::String(s) => LiteralModel::String(unescape_newlines(s)),
        m => m,
    }
}

/// The stack index of a field of a value of type `ty`: fields lie in reverse order.
pub open spec fn field_index_model(project: Project, ty: Ty, name: Seq<char>) -> Result<u32, BuildError> {
    match ty {
        Ty::Named(n) => match spec_get_path(project.decls, n.name@) {
            Some(d) => match d.kind {
                DeclKind::Struct { body: StructDecl::Fields(fs), .. } => slot_of(fs@, name),
                DeclKind::Struct { body: StructDecl::Tuple(tys), .. } => match index_of_name(name) {
                    Some(i) => if i < tys@.len() {
                        if tys@.len() - i - 1 <= u32::MAX {
                            Ok((tys@.len() - i - 1) as u32)
                        } else {
                            Err(BuildError::TooLarge)
                        }
                    } else {
                        Err(BuildError::Unsupported)
                    },
                    None => Err(BuildError::Unsupported),
                },
                _ => Err(BuildError::Unsupported),
            },
            None => Err(BuildError::Unsupported),
        },
        _ => Err(BuildError::Unsupported),
    }
}

/// A new innermost scope.
pub open spec fn entered(l: Locals) -> Locals {
    Locals { vars: l.vars.push(Seq::empty()), ..l }
}

/// The innermost scope left.
pub open spec fn exited(l: Locals) -> Locals {
    Locals { vars: l.vars.drop_last(), ..l }
}

/// The locals after a pattern bound `binds` in the innermost scope, with the counter at `counter`.
pub open spec fn bound(l: Locals, binds: Seq<(String, u32)>, counter: u32) -> Locals {
    Locals { vars: l.vars.drop_last().push(l.vars.last() + binds), counter }
}

/// Compiling a pattern's binding.
pub open spec fn bind_built(p: crate::ir::common::pattern::PatternIR, l: Locals) -> Built {
    let m = bind_model(p, l.counter);
    Built {
        code: match m.code {
            Ok(c) => Ok(codes_view(c)),
            Err(e) => Err(e),
        },
        locals: bound(l, m.binds, m.counter),
    }
}

/// The instruction that reads the value an identifier names.
pub open spec fn ident_code(ident: Seq<Spanned<IdentDef>>, params: Seq<String>, l: Locals) -> Result<CodeModel, BuildError> {
    if ident.len() == 0 {
        Err(BuildError::Unsupported)
    } else {
        match ident.last().0 {
            IdentDef::Variable(var) => match var.kind {
                TokenKind::Var => match spec_local(l.vars, var.name@) {
                    Some(id) => Ok(CodeModel::GetLocal(id)),
                    None => Err(BuildError::UnknownLocal),
                },
                TokenKind::Param => match spec_param(params, var.name@) {
                    Some(p) => if p <= u32::MAX {
                        Ok(CodeModel::Param(p as u32))
                    } else {
                        Err(BuildError::UnknownLocal)
                    },
                    None => Err(BuildError::UnknownLocal),
                },
                _ => Err(BuildError::Unsupported),
            },
            IdentDef::Decl(d) => match d.kind {
                DeclKind::Struct { body: StructDecl::Unit, .. } => Ok(CodeModel::Construct { id: d.id, len: 0 }),
                DeclKind::Member { body: StructDecl::Unit } => Ok(CodeModel::Construct { id: d.id, len: 0 }),
                _ => Err(BuildError::Unsupported),
            },
            _ => Err(BuildError::Unsupported),
        }
    }
}

/// The instruction that ends a call of `callee` with `n` arguments: a call of a function, or the
/// construction of a struct or member.
pub open spec fn call_code(callee: ExprIR, n: nat) -> Result<CodeModel, BuildError> {
    match callee.data {
        ExprIRData::Ident(ident) => if ident@.len() > 0 {
            match ident@.last().0 {
                IdentDef::Decl(d) => match d.kind {
                    DeclKind::Function(_) => Ok(CodeModel::Call(d.id)),
                    DeclKind::Struct { .. } => if n <= u32::MAX {
                        Ok(CodeModel::Construct { id: d.id, len: n as u32 })
                    } else {
                        Err(BuildError::TooLarge)
                    },
                    DeclKind::Member { .. } => if n <= u32::MAX {
                        Ok(CodeModel::Construct { id: d.id, len: n as u32 })
                    } else {
                        Err(BuildError::TooLarge)
                    },
                    _ => Err(BuildError::Unsupported),
                },
                _ => Err(BuildError::Unsupported),
            }
        } else {
            Err(BuildError::Unsupported)
        },
        _ => Err(BuildError::Unsupported),
    }
}

/// The code of a loop: the condition, a jump past the body when it fails, the body, and a jump
/// back to the condition.
pub open spec fn while_code(cond: Seq<CodeModel>, block: Seq<CodeModel>) -> Result<Seq<CodeModel>, BuildError> {
    if block.len() + 1 > i32::MAX || cond.len() + block.len() > usize::MAX || cond.len() + block.len() + 2 > i32::MAX {
        Err(BuildError::TooLarge)
    } else {
        Ok(cond + seq![CodeModel::Jne((block.len() + 1) as i32)] + block + seq![
            CodeModel::Jmp((-(cond.len() + block.len() + 2)) as i32),
        ])
    }
}

/// Compiling an expression to instructions that leave its value on the stack, from the locals `l`.
pub open spec fn expr_built(e: ExprIR, project: Project, params: Seq<String>, l: Locals) -> Built
    decreases e, 0int,
{
    match e.data {
        ExprIRData::Literal(lit) => Built { code: Ok(seq![CodeModel::Push(pushed(lit_view(lit)))]), locals: l },
        ExprIRData::Field(f) => {
            let s = expr_built(f.struct_.0, project, params, l);
            match s.code {
                Ok(c) => match field_index_model(project, f.struct_.0.ty, f.name.0@) {
                    Ok(i) => Built { code: Ok(c.push(CodeModel::Index(i))), locals: s.locals },
                    Err(x) => failed(x, s.locals),
                },
                Err(_) => s,
            }
        },
        ExprIRData::Ident(ident) => match ident_code(ident@, params, l) {
            Ok(c) => Built { code: Ok(seq![c]), locals: l },
            Err(x) => failed(x, l),
        },
        ExprIRData::CodeBlock(b) => block_built(b.stmts@, project, params, l),
        ExprIRData::Call(c) => {
            let a = exprs_built(c.args@, project, params, l);
            match a.code {
                Ok(x) => match call_code(c.expr.0, c.args@.len()) {
                    Ok(last) => Built { code: Ok(x.push(last)), locals: a.locals },
                    Err(err) => failed(err, a.locals),
                },
                Err(_) => a,
            }
        },
        ExprIRData::Match(m) => match_built(m, project, params, l),
        ExprIRData::Tuple(t) => {
            let a = exprs_built(t@, project, params, l);
            match a.code {
                Ok(x) => if x.len() <= u32::MAX {
                    Built { code: Ok(x.push(CodeModel::Construct { id: 0, len: x.len() as u32 })), locals: a.locals }
                } else {
                    failed(BuildError::TooLarge, a.locals)
                },
                Err(_) => a,
            }
        },
        ExprIRData::Op(o) => with_tail(
            then_built(
                expr_built(o.left.0, project, params, l),
                expr_built(o.right.0, project, params, expr_built(o.left.0, project, params, l).locals),
            ),
            seq![CodeModel::Op(o.kind)],
        ),
        ExprIRData::Lambda(_) => failed(BuildError::Unsupported, l),
        ExprIRData::While(w) => {
            let c = expr_built(w.expr.0, project, params, l);
            match c.code {
                Ok(cc) => {
                    let b = block_built(w.block.0.stmts@, project, params, c.locals);
                    match b.code {
                        Ok(bc) => match while_code(cc, bc) {
                            Ok(code) => Built { code: Ok(code), locals: b.locals },
                            Err(x) => failed(x, b.locals),
                        },
                        Err(_) => b,
                    }
                },
                Err(_) => c,
            }
        },
        ExprIRData::Error => failed(BuildError::Unsupported, l),
    }
}

/// Compiling a match: the matched value, then the arms.
pub open spec fn match_built(m: MatchIR, project: Project, params: Seq<String>, l: Locals) -> Built
    decreases m, 0int,
{
    let s = expr_built(m.expr.0, project, params, l);
    match s.code {
        Ok(_) => then_built(s, arms_built(m.arms@, m.arms@.len(), project, params, s.locals, 0, Seq::empty())),
        Err(_) => s,
    }
}

/// Compiling a list of expressions, one after the other.
pub open spec fn exprs_built(es: Seq<Spanned<ExprIR>>, project: Project, params: Seq<String>, l: Locals) -> Built
    decreases es, 0int,
{
    if es.len() == 0 {
        Built { code: Ok(Seq::empty()), locals: l }
    } else {
        let a = exprs_built(es.drop_last(), project, params, l);
        match a.code {
            Ok(_) => then_built(a, expr_built(es.last().0, project, params, a.locals)),
            Err(_) => a,
        }
    }
}

/// Compiling the statements of a block in a scope of its own.
pub open spec fn block_built(ss: Seq<Spanned<StmtIR>>, project: Project, params: Seq<String>, l: Locals) -> Built
    decreases ss, 1int,
{
    let s = stmts_built(ss, project, params, entered(l));
    Built { code: s.code, locals: exited(s.locals) }
}

/// Compiling statements one after the other.
pub open spec fn stmts_built(ss: Seq<Spanned<StmtIR>>, project: Project, params: Seq<String>, l: Locals) -> Built
    decreases ss, 0int,
{
    if ss.len() == 0 {
        Built { code: Ok(Seq::empty()), locals: l }
    } else {
        let a = stmts_built(ss.drop_last(), project, params, l);
        match a.code {
            Ok(_) => then_built(a, stmt_built(ss.last().0, project, params, a.locals)),
            Err(_) => a,
        }
    }
}

/// Compiling a statement.
pub open spec fn stmt_built(st: StmtIR, project: Project, params: Seq<String>, l: Locals) -> Built
    decreases st, 0int,
{
    match st {
        StmtIR::Expr(e) => expr_built(e, project, params, l),
        StmtIR::Let(x) => {
            let v = expr_built(x.expr.0, project, params, l);
            match v.code {
                Ok(_) => then_built(v, bind_built(x.pattern.0, v.locals)),
                Err(_) => v,
            }
        },
        StmtIR::Assign(a) => match a.refr.0.data {
            ExprIRData::Ident(name) => if name@.len() == 0 {
                failed(BuildError::Unsupported, l)
            } else {
                match name@.last().0 {
                    IdentDef::Variable(var) => match spec_local(l.vars, var.name@) {
                        Some(id) => with_tail(expr_built(a.value.0, project, params, l), seq![CodeModel::SetLocal(id)]),
                        None => failed(BuildError::UnknownLocal, l),
                    },
                    _ => failed(BuildError::Unsupported, l),
                }
            },
            _ => failed(BuildError::Unsupported, l),
        },
    }
}

/// The outcome of compiling the arms of a match, with the jump target counted.
pub struct ArmsBuilt {
    pub built: Built,
    pub end: i32,
}

/// Compiling the first `k` arms of a match from the last to the first, after the later ones were
/// compiled to `code` with the jump target at `end`.
pub open spec fn arms_built(
    arms: Seq<Spanned<MatchArmIR>>,
    k: nat,
    project: Project,
    params: Seq<String>,
    l: Locals,
    end: i32,
    code: Seq<CodeModel>,
) -> Built
    decreases arms, k as int,
{
    if k == 0 || k > arms.len() {
        Built { code: Ok(code), locals: l }
    } else {
        let a = arm_built(arms[k - 1].0, project, params, l, end);
        match a.built.code {
            Ok(c) => arms_built(arms, (k - 1) as nat, project, params, a.built.locals, a.end, c + code),
            Err(_) => a.built,
        }
    }
}

/// Compiling an arm: a copy of the matched value is tested; on failure the arm's block is skipped,
/// otherwise the pattern binds, the expression runs and control jumps past the later arms.
pub open spec fn arm_built(arm: MatchArmIR, project: Project, params: Seq<String>, l: Locals, end: i32) -> ArmsBuilt
    decreases arm, 0int,
{
    let t = match_model(arm.pattern.0, 0);
    match t.code {
        Err(x) => ArmsBuilt { built: failed(x, l), end },
        Ok(test) => {
            let b = bind_built(arm.pattern.0, l);
            match b.code {
                Err(_) => ArmsBuilt { built: b, end },
                Ok(bc) => {
                    let v = expr_built(arm.expr.0, project, params, b.locals);
                    match v.code {
                        Err(_) => ArmsBuilt { built: v, end },
                        Ok(vc) => {
                            let block = bc + vc + seq![CodeModel::Jmp(end)];
                            let code = seq![CodeModel::Copy] + codes_view(test) + seq![CodeModel::Jne(block.len() as i32)]
                                + block;
                            if block.len() > i32::MAX || code.len() > i32::MAX || end + code.len() > i32::MAX {
                                ArmsBuilt { built: failed(BuildError::TooLarge, v.locals), end }
                            } else {
                                ArmsBuilt { built: Built { code: Ok(code), locals: v.locals }, end: (end + code.len()) as i32 }
                            }
                        },
                    }
                },
            }
        },
    }
}

/// Whether a compile result is, viewed, what the model gives.
pub open spec fn built_is(r: Result<Vec<ByteCode>, BuildError>, m: Result<Seq<CodeModel>, BuildError>) -> bool {
    match r {
        Ok(code) => m == Ok::<Seq<CodeModel>, BuildError>(codes_view(code@)),
        Err(e) => m == Err::<Seq<CodeModel>, BuildError>(e),
    }
}

/// Entering a scope pushes an empty one.
pub proof fn lemma_entered(old: BuildState, new: BuildState)
    requires
        new.vars@.drop_last() == old.vars@,
        new.vars@.len() == old.vars@.len() + 1,
        new.vars@.last()@.len() == 0,
        new.counter == old.counter,
    ensures
        locals_of(new) == entered(locals_of(old)),
{
    assert(scopes_view(new.vars@) =~= scopes_view(old.vars@).push(Seq::empty())) by {
        assert(new.vars@.last()@ =~= Seq::<(String, u32)>::empty());
        assert forall|i: int| 0 <= i < old.vars@.len() implies new.vars@[i] == old.vars@[i] by {
            assert(new.vars@.drop_last()[i] == new.vars@[i]);
        }
    }
}

/// Leaving a scope drops the innermost one.
pub proof fn lemma_exited(old: BuildState, new: BuildState)
    requires
        old.vars@.len() >= 1,
        new.vars@ == old.vars@.drop_last(),
        new.counter == old.counter,
    ensures
        locals_of(new) == exited(locals_of(old)),
{
    assert(scopes_view(new.vars@) =~= scopes_view(old.vars@).drop_last()) by {
        assert forall|i: int| 0 <= i < new.vars@.len() implies new.vars@[i] == old.vars@[i] by {
            assert(old.vars@.drop_last()[i] == old.vars@[i]);
        }
    }
}

/// Binding a pattern adds its locals to the innermost scope.
pub proof fn lemma_bound(old: BuildState, new: BuildState, binds: Seq<(String, u32)>, counter: u32)
    requires
        old.vars@.len() >= 1,
        crate::build::pattern::declared_locals(old, new, binds, counter),
    ensures
        locals_of(new) == bound(locals_of(old), binds, counter),
{
    assert(scopes_view(new.vars@) =~= scopes_view(old.vars@).drop_last().push(scopes_view(old.vars@).last() + binds)) by {
        assert forall|i: int| 0 <= i < old.vars@.len() - 1 implies new.vars@[i] == old.vars@[i] by {
            assert(new.vars@.drop_last()[i] == old.vars@.drop_last()[i]);
        }
    }
}

/// Once compiling the first expressions has failed, later ones change nothing.
pub proof fn lemma_exprs_stuck(es: Seq<Spanned<ExprIR>>, project: Project, params: Seq<String>, l: Locals, k: int)
    requires
        0 <= k <= es.len(),
        exprs_built(es.take(k), project, params, l).code is Err,
    ensures
        exprs_built(es, project, params, l) == exprs_built(es.take(k), project, params, l),
    decreases es.len() - k,
{
    if k < es.len() {
        assert(es.take(k + 1).drop_last() =~= es.take(k));
        lemma_exprs_stuck(es, project, params, l, k + 1);
    } else {
        assert(es.take(k) =~= es);
    }
}

/// Once compiling the first statements has failed, later ones change nothing.
pub proof fn lemma_stmts_stuck(ss: Seq<Spanned<StmtIR>>, project: Project, params: Seq<String>, l: Locals, k: int)
    requires
        0 <= k <= ss.len(),
        stmts_built(ss.take(k), project, params, l).code is Err,
    ensures
        stmts_built(ss, project, params, l) == stmts_built(ss.take(k), project, params, l),
    decreases ss.len() - k,
{
    if k < ss.len() {
        assert(ss.take(k + 1).drop_last() =~= ss.take(k));
        lemma_stmts_stuck(ss, project, params, l, k + 1);
    } else {
        assert(ss.take(k) =~= ss);
    }
}


/// A compiled match arm copies the matched value before testing it, so that the binding and the
/// later arms still find it: its code is a `Copy`, the pattern's test, a jump over the arm's block
/// when the test fails, and the block, which ends with a jump to `end`; the end of the arms moves
/// past it by its length.
pub proof fn law_arm_copies_the_value(arm: MatchArmIR, project: Project, params: Seq<String>, l: Locals, end: i32)
    ensures
        arm_built(arm, project, params, l, end).built.code matches Ok(code) ==> {
            let test = codes_view(match_model(arm.pattern.0, 0).code->Ok_0);
            &&& code.len() >= test.len() + 3
            &&& code[0] == CodeModel::Copy
            &&& code.subrange(1, test.len() as int + 1) == test
            &&& code[test.len() as int + 1] == CodeModel::Jne((code.len() - test.len() - 2) as i32)
            &&& code.last() == CodeModel::Jmp(end)
            &&& arm_built(arm, project, params, l, end).end == end + code.len()
        },
{
    let a = arm_built(arm, project, params, l, end);
    if let Ok(code) = a.built.code {
        let test = codes_view(match_model(arm.pattern.0, 0).code->Ok_0);
        assert(code.subrange(1, test.len() as int + 1) =~= test);
    }
}


/// An operation is compiled as the code of its left operand, then that of its right operand, then
/// the operator, which acts on both values; it compiles exactly when both operands do.
pub proof fn law_op_code(e: ExprIR, project: Project, params: Seq<String>, l: Locals)
    ensures
        e.data matches ExprIRData::Op(o) ==> {
            let left = expr_built(o.left.0, project, params, l);
            let right = expr_built(o.right.0, project, params, left.locals);
            &&& (expr_built(e, project, params, l).code is Ok <==> (left.code is Ok && right.code is Ok))
            &&& expr_built(e, project, params, l).code matches Ok(code) ==> {
                &&& code.len() == left.code->Ok_0.len() + right.code->Ok_0.len() + 1
                &&& code.take(left.code->Ok_0.len() as int) == left.code->Ok_0
                &&& code.subrange(left.code->Ok_0.len() as int, code.len() - 1) == right.code->Ok_0
                &&& code.last() == CodeModel::Op(o.kind)
            }
        },
        e.data matches ExprIRData::Literal(lit) ==> expr_built(e, project, params, l).code == Ok::<Seq<CodeModel>, BuildError>(
            seq![CodeModel::Push(pushed(lit_view(lit)))],
        ),
{
    if let ExprIRData::Op(o) = e.data {
        let left = expr_built(o.left.0, project, params, l);
        let right = expr_built(o.right.0, project, params, left.locals);
        if let Ok(code) = expr_built(e, project, params, l).code {
            let x = left.code->Ok_0;
            let y = right.code->Ok_0;
            assert(code == x + y + seq![CodeModel::Op(o.kind)]);
            assert(code.take(x.len() as int) =~= x);
            assert(code.subrange(x.len() as int, code.len() - 1) =~= y);
        }
    }
}

} // verus!
