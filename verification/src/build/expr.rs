use vstd::prelude::*;

use crate::build::{build_frame, count_i32, count_u32, extend, scopes_view, BuildError, BuildState, ByteCode, FuncDef};
use crate::build::model::{
    arm_built, arms_built, block_built, built_is, code_view, codes_view, entered, expr_built, exprs_built, field_index_model,
    lemma_bound, lemma_codes_add, lemma_entered, lemma_exited, lemma_exprs_stuck, lemma_stmts_stuck, locals_of,
    match_built, pushed, stmt_built, stmts_built, then_built, CodeModel, Locals,
};
use crate::build::pattern::{bind_model, field_slot};
use crate::check::TokenKind;
use crate::db::decl::struct_::StructDecl;
use crate::db::decl::{DeclKind, Project};
use crate::ir::expr::field::parse_index;
use crate::ir::expr::ident::IdentDef;
use crate::ir::expr::{CallIR, CodeBlockIR, ExprIR, ExprIRData, FieldIR, MatchArmIR, MatchIR, WhileIR};
use crate::ir::stmt::{AssignIR, LetIR, StmtIR};
use crate::ir::top::{FuncIR, FunctionArgIR, TopIR};
use crate::parser::ast::{lit_view, LiteralModel};
use crate::ir::expr::lit::unescape_newlines;
use crate::ty::Ty;
use crate::util::Spanned;

verus! {

broadcast use vstd::std_specs::vec::group_vec_axioms;

/// Compiles the statements of a block in a scope of its own.
fn build_block<'db>(stmts: &Vec<Spanned<StmtIR<'db>>>, state: &mut BuildState<'db>) -> (r: Result<Vec<ByteCode>, BuildError>)
    requires
        old(state).vars@.len() >= 1,
    ensures
        build_frame(*old(state), *final(state)),
        built_is(r, block_built(stmts@, *old(state).project, old(state).params@, locals_of(*old(state))).code),
        locals_of(*final(state)) == block_built(stmts@, *old(state).project, old(state).params@, locals_of(*old(state))).locals,
    decreases stmts@, 2int,
{
    let ghost st = *state;
    let ghost l1 = entered(locals_of(st));
    state.enter_scope();
    proof {
        lemma_entered(st, *state);
    }
    let ghost inner = *state;
    let mut code: Vec<ByteCode> = Vec::new();
    let mut i: usize = 0;
    proof {
        assert(stmts@.take(0) =~= Seq::<Spanned<StmtIR>>::empty());
        assert(codes_view(code@) =~= Seq::<CodeModel>::empty());
    }
    while i < stmts.len()
        invariant
            i <= stmts@.len(),
            state.vars@.len() == st.vars@.len() + 1,
            state.vars@.len() >= 2,
            st == *old(state),
            state.params == st.params,
            state.project == st.project,
            l1 == entered(locals_of(st)),
            stmts_built(stmts@.take(i as int), *st.project, st.params@, l1).code == Ok::<Seq<CodeModel>, BuildError>(
                codes_view(code@),
            ),
            locals_of(*state) == stmts_built(stmts@.take(i as int), *st.project, st.params@, l1).locals,
        decreases stmts@.len() - i,
    {
        proof {
            assert(decreases_to!(stmts@ => stmts@[i as int]));
            assert(stmts@.take(i + 1).drop_last() =~= stmts@.take(i as int));
            assert(stmts@.take(i + 1).last() == stmts@[i as int]);
        }
        let ghost before = *state;
        let part = stmts[i].0.build(state);
        let part = match part {
            Ok(p) => p,
            Err(e) => {
                let ghost failed_at = *state;
                state.exit_scope();
                proof {
                    lemma_exited(failed_at, *state);
                    lemma_stmts_stuck(stmts@, *st.project, st.params@, l1, i + 1);
                }
                return Err(e);
            },
        };
        let ghost prev = code@;
        extend(&mut code, part);
        proof {
            lemma_codes_add(prev, part@);
        }
        i = i + 1;
    }
    proof {
        assert(stmts@.take(i as int) =~= stmts@);
    }
    let ghost done = *state;
    state.exit_scope();
    proof {
        lemma_exited(done, *state);
    }
    Ok(code)
}

/// The stack index of a field of a value of type `ty`: fields lie in reverse order.
fn field_index(project: &Project, ty: &Ty, name: &str) -> (r: Result<u32, BuildError>)
    ensures
        r == field_index_model(*project, *ty, name@),
{
    let (path, _) = match ty {
        Ty::Named(n) => (&n.name, &n.args),
        _ => {
            return Err(BuildError::Unsupported);
        },
    };
    let d = match project.get_decl(path) {
        Some(d) => d,
        None => {
            return Err(BuildError::Unsupported);
        },
    };
    match &d.kind {
        DeclKind::Struct { body: StructDecl::Fields(fs), .. } => field_slot(fs, name),
        DeclKind::Struct { body: StructDecl::Tuple(tys), .. } => match parse_index(name) {
            Some(i) => if i < tys.len() {
                count_u32(tys.len() - i - 1)
            } else {
                Err(BuildError::Unsupported)
            },
            None => Err(BuildError::Unsupported),
        },
        _ => Err(BuildError::Unsupported),
    }
}

/// Compiles a list of expressions one after the other.
fn build_exprs<'db>(es: &Vec<Spanned<ExprIR<'db>>>, state: &mut BuildState<'db>) -> (r: Result<Vec<ByteCode>, BuildError>)
    requires
        old(state).vars@.len() >= 1,
    ensures
        build_frame(*old(state), *final(state)),
        built_is(r, exprs_built(es@, *old(state).project, old(state).params@, locals_of(*old(state))).code),
        locals_of(*final(state)) == exprs_built(es@, *old(state).project, old(state).params@, locals_of(*old(state))).locals,
    decreases es@, 2int,
{
    let ghost st = *state;
    let ghost l0 = locals_of(st);
    let mut code: Vec<ByteCode> = Vec::new();
    let mut i: usize = 0;
    proof {
        assert(es@.take(0) =~= Seq::<Spanned<ExprIR>>::empty());
        assert(codes_view(code@) =~= Seq::<CodeModel>::empty());
    }
    while i < es.len()
        invariant
            i <= es@.len(),
            state.vars@.len() >= 1,
            build_frame(st, *state),
            st == *old(state),
            l0 == locals_of(st),
            exprs_built(es@.take(i as int), *st.project, st.params@, l0).code == Ok::<Seq<CodeModel>, BuildError>(
                codes_view(code@),
            ),
            locals_of(*state) == exprs_built(es@.take(i as int), *st.project, st.params@, l0).locals,
        decreases es@.len() - i,
    {
        proof {
            assert(decreases_to!(es@ => es@[i as int]));
            assert(es@.take(i + 1).drop_last() =~= es@.take(i as int));
            assert(es@.take(i + 1).last() == es@[i as int]);
        }
        let part = match es[i].0.build(state) {
            Ok(p) => p,
            Err(e) => {
                proof {
                    lemma_exprs_stuck(es@, *st.project, st.params@, l0, i + 1);
                }
                return Err(e);
            },
        };
        let ghost prev = code@;
        extend(&mut code, part);
        proof {
            lemma_codes_add(prev, part@);
        }
        i = i + 1;
    }
    proof {
        assert(es@.take(i as int) =~= es@);
    }
    Ok(code)
}

impl<'db> ExprIR<'db> {
    /// Compiles an expression to instructions that leave its value on the stack.
    pub fn build(&self, state: &mut BuildState<'db>) -> (r: Result<Vec<ByteCode>, BuildError>)
        requires
            old(state).vars@.len() >= 1,
        ensures
            build_frame(*old(state), *final(state)),
            built_is(r, expr_built(*self, *old(state).project, old(state).params@, locals_of(*old(state))).code),
            locals_of(*final(state)) == expr_built(*self, *old(state).project, old(state).params@, locals_of(*old(state))).locals,
        decreases *self, 3int,
    {
        let ghost st = *state;
        match &self.data {
            ExprIRData::Literal(lit) => {
                let mut code: Vec<ByteCode> = Vec::new();
                code.push(ByteCode::Push(lit.replace_chars()));
                proof {
                    assert(codes_view(code@) =~= seq![CodeModel::Push(pushed(lit_view(*lit)))]);
                }
                Ok(code)
            },
            ExprIRData::Field(field) => {
                let mut code = field.struct_.0.build(state)?;
                let index = field_index(state.project, &field.struct_.0.ty, field.name.0.as_str())?;
                let ghost prev = code@;
                code.push(ByteCode::Index(index));
                proof {
                    assert(codes_view(code@) =~= codes_view(prev).push(CodeModel::Index(index)));
                }
                Ok(code)
            },
            ExprIRData::Ident(ident) => {
                if ident.len() == 0 {
                    return Err(BuildError::Unsupported);
                }
                let mut code: Vec<ByteCode> = Vec::new();
                match &ident[ident.len() - 1].0 {
                    IdentDef::Variable(var) => match var.kind {
                        TokenKind::Var => match state.get_var(var.name.as_str()) {
                            Some(id) => code.push(ByteCode::GetLocal(id)),
                            None => {
                                return Err(BuildError::UnknownLocal);
                            },
                        },
                        TokenKind::Param => match state.get_param(var.name.as_str()) {
                            Some(p) => code.push(ByteCode::Param(p)),
                            None => {
                                return Err(BuildError::UnknownLocal);
                            },
                        },
                        _ => {
                            return Err(BuildError::Unsupported);
                        },
                    },
                    IdentDef::Decl(d) => match &d.kind {
                        DeclKind::Struct { body: StructDecl::Unit, .. } | DeclKind::Member { body: StructDecl::Unit } => {
                            code.push(ByteCode::Construct { id: d.id, len: 0 });
                        },
                        _ => {
                            return Err(BuildError::Unsupported);
                        },
                    },
                    _ => {
                        return Err(BuildError::Unsupported);
                    },
                }
                proof {
                    assert(codes_view(code@) =~= seq![code_view(code@[0])]);
                }
                Ok(code)
            },
            ExprIRData::CodeBlock(block) => {
                proof {
                    assert(decreases_to!(*self => block.stmts@));
                }
                build_block(&block.stmts, state)
            },
            ExprIRData::Call(call) => {
                proof {
                    assert(decreases_to!(*self => call.args@));
                }
                let mut code = build_exprs(&call.args, state)?;
                let callee = match &call.expr.0.data {
                    ExprIRData::Ident(ident) => if ident.len() > 0 {
                        match &ident[ident.len() - 1].0 {
                            IdentDef::Decl(d) => Some(*d),
                            _ => None,
                        }
                    } else {
                        None
                    },
                    _ => None,
                };
                let ghost prev = code@;
                match callee {
                    Some(d) => match &d.kind {
                        DeclKind::Function(_) => code.push(ByteCode::Call(d.id)),
                        DeclKind::Struct { .. } | DeclKind::Member { .. } => {
                            let len = count_u32(call.args.len())?;
                            code.push(ByteCode::Construct { id: d.id, len });
                        },
                        _ => {
                            return Err(BuildError::Unsupported);
                        },
                    },
                    None => {
                        return Err(BuildError::Unsupported);
                    },
                }
                proof {
                    assert(codes_view(code@) =~= codes_view(prev).push(code_view(code@.last())));
                }
                Ok(code)
            },
            ExprIRData::Match(m) => m.build(state),
            ExprIRData::Tuple(tuple) => {
                proof {
                    assert(decreases_to!(*self => tuple@));
                }
                let mut code = build_exprs(tuple, state)?;
                let len = count_u32(code.len())?;
                let ghost prev = code@;
                code.push(ByteCode::Construct { id: 0, len });
                proof {
                    assert(codes_view(code@) =~= codes_view(prev).push(CodeModel::Construct { id: 0, len }));
                }
                Ok(code)
            },
            ExprIRData::Op(op) => {
                let mut code = op.left.0.build(state)?;
                let right = op.right.0.build(state)?;
                let ghost prev = code@;
                extend(&mut code, right);
                let ghost mid = code@;
                code.push(ByteCode::Op(op.kind));
                proof {
                    lemma_codes_add(prev, right@);
                    assert(codes_view(code@) =~= codes_view(mid) + seq![CodeModel::Op(op.kind)]);
                }
                Ok(code)
            },
            ExprIRData::Lambda(_) => Err(BuildError::Unsupported),
            ExprIRData::While(w) => {
                let cond = w.expr.0.build(state)?;
                proof {
                    assert(decreases_to!(*self => w.block.0.stmts@));
                }
                let block = build_block(&w.block.0.stmts, state)?;
                let skip = count_i32(block.len())?;
                let skip = match skip.checked_add(1) {
                    Some(v) => v,
                    None => {
                        return Err(BuildError::TooLarge);
                    },
                };
                let total = match cond.len().checked_add(block.len()) {
                    Some(t) => t,
                    None => {
                        return Err(BuildError::TooLarge);
                    },
                };
                let back = count_i32(total)?;
                let back = match back.checked_add(2) {
                    Some(v) => v,
                    None => {
                        return Err(BuildError::TooLarge);
                    },
                };
                let ghost cv = cond@;
                let ghost bv = block@;
                let neg = -back;
                let mut code = cond;
                code.push(ByteCode::Jne(skip));
                extend(&mut code, block);
                code.push(ByteCode::Jmp(neg));
                proof {
                    assert(code@ =~= cv + seq![ByteCode::Jne(skip)] + bv + seq![ByteCode::Jmp(neg)]);
                    assert(codes_view(code@) =~= codes_view(cv) + seq![CodeModel::Jne(skip)] + codes_view(bv) + seq![
                        CodeModel::Jmp(neg),
                    ]);
                }
                Ok(code)
            },
            ExprIRData::Error => Err(BuildError::Unsupported),
        }
    }
}

impl<'db> MatchIR<'db> {
    /// Compiles a match: the matched value, then the arms in order; each arm's jumps to the end
    /// are measured from the arms after it, which are compiled first.
    pub fn build(&self, state: &mut BuildState<'db>) -> (r: Result<Vec<ByteCode>, BuildError>)
        requires
            old(state).vars@.len() >= 1,
        ensures
            build_frame(*old(state), *final(state)),
            built_is(r, match_built(*self, *old(state).project, old(state).params@, locals_of(*old(state))).code),
            locals_of(*final(state)) == match_built(*self, *old(state).project, old(state).params@, locals_of(*old(state))).locals,
        decreases *self, 2int,
    {
        let ghost st = *state;
        proof {
            assert(decreases_to!(*self => self.expr.0));
        }
        let mut code = self.expr.0.build(state)?;
        let ghost s1 = *state;
        let ghost total = arms_built(self.arms@, self.arms@.len(), *st.project, st.params@, locals_of(s1), 0, Seq::empty());
        let mut end: i32 = 0;
        let mut arms: Vec<ByteCode> = Vec::new();
        let mut k = self.arms.len();
        proof {
            assert(codes_view(arms@) =~= Seq::<CodeModel>::empty());
        }
        while k > 0
            invariant
                k <= self.arms@.len(),
                state.vars@.len() >= 1,
                build_frame(st, *state),
                st == *old(state),
                decreases_to!(*self => self.arms),
                total == arms_built(self.arms@, k as nat, *st.project, st.params@, locals_of(*state), end, codes_view(arms@)),
                expr_built(self.expr.0, *st.project, st.params@, locals_of(st)).code == Ok::<Seq<CodeModel>, BuildError>(
                    codes_view(code@),
                ),
                match_built(*self, *st.project, st.params@, locals_of(st)) == then_built(
                    expr_built(self.expr.0, *st.project, st.params@, locals_of(st)),
                    total,
                ),
            decreases k,
        {
            proof {
                assert(decreases_to!(self.arms => self.arms@[k - 1]));
            }
            let mut arm = match self.arms[k - 1].0.build(state, &mut end) {
                Ok(a) => a,
                Err(e) => {
                    return Err(e);
                },
            };
            let ghost av = arm@;
            extend(&mut arm, arms);
            proof {
                lemma_codes_add(av, arms@);
            }
            arms = arm;
            k = k - 1;
        }
        let ghost prev = code@;
        extend(&mut code, arms);
        proof {
            lemma_codes_add(prev, arms@);
        }
        Ok(code)
    }
}

impl<'db> MatchArmIR<'db> {
    /// Compiles an arm: a copy of the matched value is tested; on failure the arm's block is
    /// skipped, otherwise the pattern binds, the expression runs and control jumps past the later
    /// arms. `end` counts the instructions of the arms after this one and grows by this arm's.
    pub fn build(&self, state: &mut BuildState<'db>, end: &mut i32) -> (r: Result<Vec<ByteCode>, BuildError>)
        requires
            old(state).vars@.len() >= 1,
        ensures
            build_frame(*old(state), *final(state)),
            built_is(r, arm_built(*self, *old(state).project, old(state).params@, locals_of(*old(state)), *old(end)).built.code),
            locals_of(*final(state)) == arm_built(*self, *old(state).project, old(state).params@, locals_of(*old(state)), *old(end)).built.locals,
            *final(end) == arm_built(*self, *old(state).project, old(state).params@, locals_of(*old(state)), *old(end)).end,
        decreases *self, 2int,
    {
        let ghost st = *state;
        let mut counter: i32 = 0;
        let test = self.pattern.0.build_match(state, &mut counter)?;
        let mut code: Vec<ByteCode> = Vec::new();
        code.push(ByteCode::Copy);
        extend(&mut code, test);
        let ghost s0 = *state;
        let bind = self.pattern.0.build(state);
        proof {
            let m = bind_model(self.pattern.0, s0.counter);
            lemma_bound(s0, *state, m.binds, m.counter);
        }
        let mut block = bind?;
        let ghost bv = block@;
        let value = self.expr.0.build(state)?;
        extend(&mut block, value);
        block.push(ByteCode::Jmp(*end));
        let ghost blk = block@;
        let skip = count_i32(block.len())?;
        code.push(ByteCode::Jne(skip));
        extend(&mut code, block);
        let n = count_i32(code.len())?;
        proof {
            assert(blk =~= bv + value@ + seq![ByteCode::Jmp(*old(end))]);
            assert(codes_view(blk) =~= codes_view(bv) + codes_view(value@) + seq![CodeModel::Jmp(*old(end))]);
            assert(code@ =~= seq![ByteCode::Copy] + test@ + seq![ByteCode::Jne(skip)] + blk);
            assert(codes_view(code@) =~= seq![CodeModel::Copy] + codes_view(test@) + seq![CodeModel::Jne(skip)] + codes_view(blk));
        }
        match end.checked_add(n) {
            Some(v) => {
                *end = v;
            },
            None => {
                return Err(BuildError::TooLarge);
            },
        }
        Ok(code)
    }
}

impl<'db> StmtIR<'db> {
    /// Compiles a statement.
    pub fn build(&self, state: &mut BuildState<'db>) -> (r: Result<Vec<ByteCode>, BuildError>)
        requires
            old(state).vars@.len() >= 1,
        ensures
            build_frame(*old(state), *final(state)),
            built_is(r, stmt_built(*self, *old(state).project, old(state).params@, locals_of(*old(state))).code),
            locals_of(*final(state)) == stmt_built(*self, *old(state).project, old(state).params@, locals_of(*old(state))).locals,
        decreases *self, 3int,
    {
        match self {
            StmtIR::Expr(e) => e.build(state),
            StmtIR::Let(l) => {
                proof {
                    assert(decreases_to!(*self => *l));
                }
                l.build(state)
            },
            StmtIR::Assign(a) => {
                proof {
                    assert(decreases_to!(*self => *a));
                }
                a.build(state)
            },
        }
    }
}

impl<'db> LetIR<'db> {
    /// Compiles a `let`: the value, then the pattern binding it.
    pub fn build(&self, state: &mut BuildState<'db>) -> (r: Result<Vec<ByteCode>, BuildError>)
        requires
            old(state).vars@.len() >= 1,
        ensures
            build_frame(*old(state), *final(state)),
            built_is(r, stmt_built(StmtIR::Let(*self), *old(state).project, old(state).params@, locals_of(*old(state))).code),
            locals_of(*final(state)) == stmt_built(StmtIR::Let(*self), *old(state).project, old(state).params@, locals_of(*old(state))).locals,
        decreases *self, 2int,
    {
        proof {
            assert(decreases_to!(*self => self.expr.0));
        }
        let mut code = self.expr.0.build(state)?;
        let ghost s1 = *state;
        let bind = self.pattern.0.build(state);
        proof {
            let m = bind_model(self.pattern.0, s1.counter);
            lemma_bound(s1, *state, m.binds, m.counter);
        }
        let bind = bind?;
        let ghost prev = code@;
        extend(&mut code, bind);
        proof {
            lemma_codes_add(prev, bind@);
        }
        Ok(code)
    }
}

impl<'db> AssignIR<'db> {
    /// Compiles an assignment to a local: the value, then a store into the local.
    pub fn build(&self, state: &mut BuildState<'db>) -> (r: Result<Vec<ByteCode>, BuildError>)
        requires
            old(state).vars@.len() >= 1,
        ensures
            build_frame(*old(state), *final(state)),
            built_is(r, stmt_built(StmtIR::Assign(*self), *old(state).project, old(state).params@, locals_of(*old(state))).code),
            locals_of(*final(state)) == stmt_built(StmtIR::Assign(*self), *old(state).project, old(state).params@, locals_of(*old(state))).locals,
        decreases *self, 2int,
    {
        match &self.refr.0.data {
            ExprIRData::Ident(name) => {
                if name.len() == 0 {
                    return Err(BuildError::Unsupported);
                }
                match &name[name.len() - 1].0 {
                    IdentDef::Variable(var) => {
                        let id = match state.get_var(var.name.as_str()) {
                            Some(id) => id,
                            None => {
                                return Err(BuildError::UnknownLocal);
                            },
                        };
                        proof {
                            assert(decreases_to!(*self => self.value.0));
                        }
                        let mut code = self.value.0.build(state)?;
                        let ghost prev = code@;
                        code.push(ByteCode::SetLocal(id));
                        proof {
                            assert(codes_view(code@) =~= codes_view(prev) + seq![CodeModel::SetLocal(id)]);
                        }
                        Ok(code)
                    },
                    _ => Err(BuildError::Unsupported),
                }
            },
            _ => Err(BuildError::Unsupported),
        }
    }
}

/// The names of the parameters of a function, in order.
pub open spec fn arg_names(args: Seq<Spanned<FunctionArgIR>>) -> Seq<String> {
    args.map_values(|a: Spanned<FunctionArgIR>| a.0.name.0)
}

/// The locals of a function about to be compiled: one empty scope, ids from 0.
pub open spec fn fresh_locals() -> Locals {
    Locals { vars: seq![Seq::empty()], counter: 0 }
}

/// The id a function is compiled under: 0 for `main`, else that of its declaration.
pub open spec fn func_id(f: FuncIR) -> u32 {
    if f.name.0@ == "main"@ {
        0
    } else {
        match f.decl {
            Some(d) => d.id,
            None => 0,
        }
    }
}

/// The body of a function of the standard module: `print` and `panic` hand their parameter to
/// the instruction of that name; any other has an empty body.
pub open spec fn builtin_body(name: Seq<char>) -> Seq<ByteCode> {
    if name == "print"@ {
        seq![ByteCode::Param(0), ByteCode::Print, ByteCode::Return]
    } else if name == "panic"@ {
        seq![ByteCode::Param(0), ByteCode::Panic, ByteCode::Return]
    } else {
        seq![ByteCode::Return]
    }
}

/// A compiled function by value: its id, its number of arguments and its instructions.
pub type FuncModel = (u32, nat, Seq<CodeModel>);

/// What compiling a function gives. A function without a declaration cannot be compiled; a
/// function of the standard module is built in, its path naming it; any other has its statements
/// compiled with its parameters in scope, then a return. The number of parameters must fit a `u32`.
pub open spec fn func_model(f: FuncIR, project: Project) -> Result<FuncModel, BuildError> {
    match f.decl {
        None => Err(BuildError::Unsupported),
        Some(d) => {
            let body = if d.path@.len() >= 1 && d.path@[0] == "std"@ {
                if d.path@.len() < 2 {
                    Err(BuildError::Unsupported)
                } else {
                    Ok(codes_view(builtin_body(d.path@[1])))
                }
            } else {
                match stmts_built(f.body.stmts@, project, arg_names(f.args@), fresh_locals()).code {
                    Ok(c) => Ok(c.push(CodeModel::Return)),
                    Err(e) => Err(e),
                }
            };
            match body {
                Err(e) => Err(e),
                Ok(b) => if f.args@.len() <= u32::MAX {
                    Ok((func_id(f), f.args@.len(), b))
                } else {
                    Err(BuildError::TooLarge)
                },
            }
        },
    }
}

/// The value of a compiled function, with the fields set for code not yet placed in a file.
pub open spec fn def_model(f: (u32, FuncDef)) -> FuncModel {
    (f.0, f.1.args as nat, codes_view(f.1.body@))
}

/// Whether a compiled function has no offset, file, position or marks yet.
pub open spec fn unplaced(f: FuncDef) -> bool {
    f.offset == 0 && f.file == 0 && f.pos == (0u32, 0u32) && f.marks@.len() == 0
}

/// Whether a result of compiling is the model's: the same error, or a function of that value.
pub open spec fn built_func(r: Result<(u32, FuncDef), BuildError>, m: Result<FuncModel, BuildError>) -> bool {
    match m {
        Ok(v) => r matches Ok(f) && def_model(f) == v && unplaced(f.1),
        Err(e) => r == Err::<(u32, FuncDef), BuildError>(e),
    }
}

impl<'db> FuncIR<'db> {
    /// Compiles a function: `main` gets id 0, other functions their declaration's id; the functions
    /// `print` and `panic` of the standard module are built in; every body ends with a return.
    #[verifier::rlimit(40)]
    pub fn build(&self, state: &mut BuildState<'db>) -> (r: Result<(u32, FuncDef), BuildError>)
        ensures
            final(state).project == old(state).project,
            built_func(r, func_model(*self, *old(state).project)),
            self.decl is None ==> r is Err,
            r matches Ok(f) ==> f.0 == func_id(*self),
            r matches Ok(f) ==> {
                &&& f.1.args == self.args@.len()
                &&& f.1.body@.len() >= 1 && f.1.body@.last() is Return
                &&& (self.name.0@ == "main"@ ==> f.0 == 0)
                &&& (self.name.0@ != "main"@ ==> (self.decl matches Some(d) && f.0 == d.id))
                &&& (self.decl matches Some(d) ==> (d.path@.len() >= 2 && d.path@[0] == "std"@ ==> f.1.body@
                    == builtin_body(d.path@[1])))
            },
            self.decl matches Some(d) ==> (!(d.path@.len() >= 1 && d.path@[0] == "std"@) ==> match stmts_built(
                self.body.stmts@,
                *old(state).project,
                arg_names(self.args@),
                fresh_locals(),
            ).code {
                Ok(c) => if self.args@.len() <= u32::MAX {
                    r matches Ok(f) && codes_view(f.1.body@) == c.push(CodeModel::Return)
                } else {
                    r == Err::<(u32, FuncDef), BuildError>(BuildError::TooLarge)
                },
                Err(e) => r == Err::<(u32, FuncDef), BuildError>(e),
            }),
    {
        state.clear();
        let mut i: usize = 0;
        proof {
            assert(state.params@ =~= arg_names(self.args@.take(0)));
        }
        while i < self.args.len()
            invariant
                i <= self.args@.len(),
                state.vars@.len() == 1,
                state.vars@[0]@.len() == 0,
                state.counter == 0,
                state.project == old(state).project,
                state.params@ == arg_names(self.args@.take(i as int)),
            decreases self.args@.len() - i,
        {
            state.add_param(self.args[i].0.name.0.clone());
            proof {
                assert(arg_names(self.args@.take(i + 1)) =~= arg_names(self.args@.take(i as int)).push(self.args@[i as int].0.name.0));
            }
            i = i + 1;
        }
        proof {
            assert(self.args@.take(i as int) =~= self.args@);
            assert(locals_of(*state) == fresh_locals()) by {
                assert(state.vars@[0]@ =~= Seq::<(String, u32)>::empty());
                assert(scopes_view(state.vars@)[0] == state.vars@[0]@);
                assert(scopes_view(state.vars@) =~= seq![Seq::<(String, u32)>::empty()]);
            }
        }
        let ghost s0 = *state;
        let decl = match self.decl {
            Some(d) => d,
            None => {
                return Err(BuildError::Unsupported);
            },
        };
        proof {
            reveal_strlit("main");
            reveal_strlit("std");
            reveal_strlit("print");
            reveal_strlit("panic");
        }
        let id = if crate::db::decl::str_eq(self.name.0.as_str(), "main") {
            0
        } else {
            decl.id
        };
        let path = &decl.path.name;
        let mut body: Vec<ByteCode> = if path.len() >= 1 && crate::db::decl::str_eq(path[0].as_str(), "std") {
            if path.len() < 2 {
                return Err(BuildError::Unsupported);
            }
            let mut b: Vec<ByteCode> = Vec::new();
            if crate::db::decl::str_eq(path[1].as_str(), "print") {
                b.push(ByteCode::Param(0));
                b.push(ByteCode::Print);
            } else if crate::db::decl::str_eq(path[1].as_str(), "panic") {
                b.push(ByteCode::Param(0));
                b.push(ByteCode::Panic);
            }
            b
        } else {
            let mut b: Vec<ByteCode> = Vec::new();
            let mut k: usize = 0;
            let ghost ss = self.body.stmts@;
            proof {
                assert(ss.take(0) =~= Seq::<Spanned<StmtIR>>::empty());
                assert(codes_view(b@) =~= Seq::<CodeModel>::empty());
            }
            while k < self.body.stmts.len()
                invariant
                    k <= self.body.stmts@.len(),
                    ss == self.body.stmts@,
                    self.decl matches Some(d) && !(d.path@.len() >= 1 && d.path@[0] == "std"@),
                    state.vars@.len() >= 1,
                    state.project == old(state).project,
                    state.params == s0.params,
                    s0.project == old(state).project,
                    s0.params@ == arg_names(self.args@),
                    locals_of(s0) == fresh_locals(),
                    stmts_built(ss.take(k as int), *s0.project, s0.params@, fresh_locals()).code == Ok::<Seq<CodeModel>, BuildError>(
                        codes_view(b@),
                    ),
                    locals_of(*state) == stmts_built(ss.take(k as int), *s0.project, s0.params@, fresh_locals()).locals,
                decreases self.body.stmts@.len() - k,
            {
                proof {
                    assert(ss.take(k + 1).drop_last() =~= ss.take(k as int));
                    assert(ss.take(k + 1).last() == ss[k as int]);
                }
                let part = match self.body.stmts[k].0.build(state) {
                    Ok(p) => p,
                    Err(e) => {
                        proof {
                            lemma_stmts_stuck(ss, *s0.project, s0.params@, fresh_locals(), k + 1);
                            assert(stmts_built(ss, *s0.project, s0.params@, fresh_locals()).code == Err::<Seq<CodeModel>, BuildError>(e));
                            assert(func_model(*self, *old(state).project) == Err::<FuncModel, BuildError>(e));
                        }
                        return Err(e);
                    },
                };
                let ghost prev = b@;
                extend(&mut b, part);
                proof {
                    lemma_codes_add(prev, part@);
                }
                k = k + 1;
            }
            proof {
                assert(ss.take(k as int) =~= ss);
            }
            b
        };
        let ghost prev = body@;
        body.push(ByteCode::Return);
        proof {
            assert(codes_view(body@) =~= codes_view(prev).push(CodeModel::Return));
        }
        let args = count_u32(self.args.len())?;
        let r = (id, FuncDef { args, body, offset: 0, file: 0, pos: (0, 0), marks: Vec::new() });
        proof {
            assert(r.1.marks@.len() == 0);
            assert(def_model(r).2 == codes_view(body@));
            if decl.path@.len() >= 1 && decl.path@[0] == "std"@ {
                assert(body@ == builtin_body(decl.path@[1]));
            } else {
                assert(stmts_built(self.body.stmts@, *old(state).project, arg_names(self.args@), fresh_locals()).code
                    == Ok::<Seq<CodeModel>, BuildError>(codes_view(prev)));
            }
            assert(func_model(*self, *old(state).project) == Ok::<FuncModel, BuildError>(def_model(r)));
        }
        Ok(r)
    }
}

impl<'db> TopIR<'db> {
    /// Compiles a top-level item: only functions produce code.
    pub fn build(&self, state: &mut BuildState<'db>) -> (r: Option<Result<(u32, FuncDef), BuildError>>)
        ensures
            final(state).project == old(state).project,
            r is Some <==> self is Func,
            r matches Some(Ok(f)) ==> (*self matches TopIR::Func(g) && f.0 == func_id(g)),
            *self matches TopIR::Func(g) ==> (r matches Some(x) && built_func(x, func_model(g, *old(state).project))),
    {
        match self {
            TopIR::Func(f) => Some(f.build(state)),
            _ => None,
        }
    }
}

/// The position in `funcs` of the first function with id `id`.
pub open spec fn id_pos(funcs: Seq<(u32, FuncDef)>, id: u32) -> Option<int>
    decreases funcs.len(),
{
    if funcs.len() == 0 {
        None
    } else if funcs[0].0 == id {
        Some(0)
    } else {
        match id_pos(funcs.skip(1), id) {
            Some(i) => Some(i + 1),
            None => None,
        }
    }
}

/// Adds a compiled function, replacing the first one with the same id.
pub fn insert_func(funcs: &mut Vec<(u32, FuncDef)>, f: (u32, FuncDef))
    ensures
        final(funcs)@ == match id_pos(old(funcs)@, f.0) {
            Some(i) => old(funcs)@.update(i, f),
            None => old(funcs)@.push(f),
        },
{
    let mut i: usize = 0;
    proof {
        assert(funcs@.skip(0) =~= funcs@);
    }
    while i < funcs.len()
        invariant
            i <= funcs@.len(),
            funcs@ == old(funcs)@,
            id_pos(old(funcs)@, f.0) == match id_pos(old(funcs)@.skip(i as int), f.0) {
                Some(k) => Some(k + i),
                None => None::<int>,
            },
        decreases funcs@.len() - i,
    {
        proof {
            assert(old(funcs)@.skip(i as int).skip(1) =~= old(funcs)@.skip(i + 1));
        }
        if funcs[i].0 == f.0 {
            funcs.set(i, f);
            return;
        }
        i = i + 1;
    }
    funcs.push(f);
}

} // verus!
