use vstd::prelude::*;

use crate::ir::common::generic_args::GenericArgsIR;
use crate::ir::common::pattern::{PatternIR, StructFieldPatternIR};
use crate::ir::expr::ident::SpannedQualifiedNameIR;
use crate::ir::expr::{ExprIR, ExprIRData, LambdaParamIR};
use crate::ir::stmt::StmtIR;
use crate::ir::top::{FuncIR, FunctionArgIR, StructFieldIR, TopIR};
use crate::ir::ty::{TypeIR, TypeIRData};
use crate::ir::FileIR;
use crate::util::{Span, Spanned};

verus! {

broadcast use vstd::std_specs::vec::group_vec_axioms;

/// A node of a checked file, as found at an offset.
#[derive(Clone, Copy)]
pub enum NodeAt<'a, 'db> {
    File(&'a FileIR<'db>),
    Top(&'a TopIR<'db>),
    Func(&'a FuncIR<'db>),
    Arg(&'a FunctionArgIR<'db>),
    Field(&'a StructFieldIR<'db>),
    Generics(&'a GenericArgsIR<'db>),
    Stmt(&'a StmtIR<'db>),
    Expr(&'a ExprIR<'db>),
    Param(&'a LambdaParamIR<'db>),
    Pattern(&'a PatternIR<'db>),
    FieldPattern(&'a StructFieldPatternIR<'db>),
    Type(&'a TypeIR<'db>),
    Name(&'a SpannedQualifiedNameIR<'db>),
}

/// The position of the first span of a list that contains the offset.
pub open spec fn first_at<T>(s: Seq<Spanned<T>>, offset: usize) -> Option<int>
    decreases s.len(),
{
    if s.len() == 0 {
        None
    } else if s[0].1.spec_contains_offset(offset) {
        Some(0)
    } else {
        match first_at(s.skip(1), offset) {
            Some(i) => Some(i + 1),
            None => None,
        }
    }
}

/// The first position found lies in the list.
pub proof fn lemma_first_at<T>(s: Seq<Spanned<T>>, offset: usize)
    ensures
        first_at(s, offset) matches Some(i) ==> 0 <= i < s.len() && s[i].1.spec_contains_offset(offset),
    decreases s.len(),
{
    if s.len() > 0 {
        lemma_first_at(s.skip(1), offset);
    }
}

/// The position of the first span of a list that contains the offset.
fn first_containing<T>(s: &Vec<Spanned<T>>, offset: usize) -> (r: Option<usize>)
    ensures
        r matches Some(i) ==> i < s@.len(),
        match r {
            Some(i) => first_at(s@, offset) == Some(i as int),
            None => first_at(s@, offset) is None,
        },
{
    let mut i: usize = 0;
    proof {
        assert(s@.skip(0) =~= s@);
    }
    while i < s.len()
        invariant
            i <= s@.len(),
            first_at(s@, offset) == match first_at(s@.skip(i as int), offset) {
                Some(k) => Some(k + i),
                None => None::<int>,
            },
        decreases s@.len() - i,
    {
        proof {
            assert(s@.skip(i as int).skip(1) =~= s@.skip(i + 1));
        }
        if s[i].1.contains_offset(offset) {
            return Some(i);
        }
        i = i + 1;
    }
    None
}

/// The innermost type written at `offset`.
pub open spec fn type_at<'a, 'db>(t: &'a TypeIR<'db>, offset: usize) -> NodeAt<'a, 'db>
    decreases t,
{
    match t.data {
        TypeIRData::Named(n) => match first_at(n.args@, offset) {
            Some(i) => {
                proof {
                    lemma_first_at(n.args@, offset);
                }
                type_at(&n.args@[i].0, offset)
            },
            None => NodeAt::Type(t),
        },
        _ => NodeAt::Type(t),
    }
}

impl<'db> TypeIR<'db> {
    /// The innermost type written at `offset`: a named type leads to the argument containing it.
    pub fn at_offset<'a>(&'a self, offset: usize) -> (r: NodeAt<'a, 'db>)
        ensures
            r == type_at(self, offset),
        decreases self,
    {
        match &self.data {
            TypeIRData::Named(named) => match first_containing(&named.args, offset) {
                Some(i) => {
                    proof {
                        assert(decreases_to!(*self => self.data));
                        assert(decreases_to!(self.data => *named));
                        assert(decreases_to!(*named => named.args));
                        assert(decreases_to!(named.args => named.args@[i as int]));
                    }
                    named.args[i].0.at_offset(offset)
                },
                None => NodeAt::Type(self),
            },
            _ => NodeAt::Type(self),
        }
    }
}

/// The innermost pattern at `offset`: struct patterns lead to the field containing it, a unit
/// pattern to its name.
pub open spec fn pattern_at<'a, 'db>(p: &'a PatternIR<'db>, offset: usize) -> NodeAt<'a, 'db>
    decreases p,
{
    match *p {
        PatternIR::Struct { fields, .. } => match first_at(fields@, offset) {
            Some(i) => {
                proof {
                    lemma_first_at(fields@, offset);
                }
                match fields@[i].0 {
                    StructFieldPatternIR::Explicit { pattern, .. } => if pattern.1.spec_contains_offset(offset) {
                        pattern_at(&pattern.0, offset)
                    } else {
                        NodeAt::FieldPattern(&fields@[i].0)
                    },
                    StructFieldPatternIR::Implied { .. } => NodeAt::FieldPattern(&fields@[i].0),
                }
            },
            None => NodeAt::Pattern(p),
        },
        PatternIR::UnitStruct(name) => NodeAt::Name(&name),
        PatternIR::TupleStruct { fields, .. } => match first_at(fields@, offset) {
            Some(i) => {
                proof {
                    lemma_first_at(fields@, offset);
                }
                pattern_at(&fields@[i].0, offset)
            },
            None => NodeAt::Pattern(p),
        },
        _ => NodeAt::Pattern(p),
    }
}

impl<'db> PatternIR<'db> {
    /// The innermost pattern at `offset`: struct patterns lead to the field containing it, a unit
    /// pattern to its name.
    pub fn at_offset<'a>(&'a self, offset: usize) -> (r: NodeAt<'a, 'db>)
        ensures
            r == pattern_at(self, offset),
        decreases self,
    {
        match self {
            PatternIR::Struct { fields, .. } => match first_containing(fields, offset) {
                Some(i) => match &fields[i].0 {
                    StructFieldPatternIR::Explicit { pattern, .. } => {
                        if pattern.1.contains_offset(offset) {
                            proof {
                                assert(decreases_to!(*self => *fields));
                                assert(decreases_to!(*fields => fields@[i as int]));
                            }
                            pattern.0.at_offset(offset)
                        } else {
                            NodeAt::FieldPattern(&fields[i].0)
                        }
                    },
                    StructFieldPatternIR::Implied { .. } => NodeAt::FieldPattern(&fields[i].0),
                },
                None => NodeAt::Pattern(self),
            },
            PatternIR::UnitStruct(name) => NodeAt::Name(name),
            PatternIR::TupleStruct { fields, .. } => match first_containing(fields, offset) {
                Some(i) => {
                    proof {
                        assert(decreases_to!(*self => *fields));
                        assert(decreases_to!(*fields => fields@[i as int]));
                    }
                    fields[i].0.at_offset(offset)
                },
                None => NodeAt::Pattern(self),
            },
            _ => NodeAt::Pattern(self),
        }
    }
}

/// The innermost node of the statements of a block at `offset`, or `whole` where no statement
/// contains it.
pub open spec fn stmts_at<'a, 'db>(ss: Seq<Spanned<StmtIR<'db>>>, offset: usize, whole: NodeAt<'a, 'db>) -> NodeAt<'a, 'db>
    decreases ss,
{
    match first_at(ss, offset) {
        Some(i) => {
            proof {
                lemma_first_at(ss, offset);
            }
            stmt_at(&ss[i].0, offset)
        },
        None => whole,
    }
}

/// The innermost node of a list of expressions at `offset`, or `whole` where none contains it.
pub open spec fn exprs_at<'a, 'db>(es: Seq<Spanned<ExprIR<'db>>>, offset: usize, whole: NodeAt<'a, 'db>) -> NodeAt<'a, 'db>
    decreases es,
{
    match first_at(es, offset) {
        Some(i) => {
            proof {
                lemma_first_at(es, offset);
            }
            expr_at(&es[i].0, offset)
        },
        None => whole,
    }
}

/// The innermost node of an expression at `offset`.
pub open spec fn expr_at<'a, 'db>(e: &'a ExprIR<'db>, offset: usize) -> NodeAt<'a, 'db>
    decreases e,
{
    let whole = NodeAt::Expr(e);
    match e.data {
        ExprIRData::Literal(_) => whole,
        ExprIRData::Error => whole,
        ExprIRData::Op(_) => whole,
        ExprIRData::Field(f) => if f.struct_.1.spec_contains_offset(offset) {
            expr_at(&f.struct_.0, offset)
        } else {
            whole
        },
        ExprIRData::Ident(id) => NodeAt::Name(&id),
        ExprIRData::CodeBlock(b) => stmts_at(b.stmts@, offset, whole),
        ExprIRData::Call(c) => if c.expr.1.spec_contains_offset(offset) {
            expr_at(&c.expr.0, offset)
        } else {
            exprs_at(c.args@, offset, whole)
        },
        ExprIRData::Match(m) => if m.expr.1.spec_contains_offset(offset) {
            expr_at(&m.expr.0, offset)
        } else {
            match first_at(m.arms@, offset) {
                Some(i) => {
                    proof {
                        lemma_first_at(m.arms@, offset);
                    }
                    if m.arms@[i].0.pattern.1.spec_contains_offset(offset) {
                        pattern_at(&m.arms@[i].0.pattern.0, offset)
                    } else if m.arms@[i].0.expr.1.spec_contains_offset(offset) {
                        expr_at(&m.arms@[i].0.expr.0, offset)
                    } else {
                        whole
                    }
                },
                None => whole,
            }
        },
        ExprIRData::Tuple(t) => exprs_at(t@, offset, whole),
        ExprIRData::Lambda(l) => match first_at(l.args@, offset) {
            Some(i) => NodeAt::Param(&l.args@[i].0),
            None => if l.body.1.spec_contains_offset(offset) {
                stmts_at(l.body.0.stmts@, offset, whole)
            } else {
                whole
            },
        },
        ExprIRData::While(w) => if w.expr.1.spec_contains_offset(offset) {
            expr_at(&w.expr.0, offset)
        } else if w.block.1.spec_contains_offset(offset) {
            stmts_at(w.block.0.stmts@, offset, whole)
        } else {
            whole
        },
    }
}

/// The innermost node of a statement at `offset`.
pub open spec fn stmt_at<'a, 'db>(st: &'a StmtIR<'db>, offset: usize) -> NodeAt<'a, 'db>
    decreases st,
{
    match *st {
        StmtIR::Expr(e) => expr_at(&e, offset),
        StmtIR::Let(l) => if l.pattern.1.spec_contains_offset(offset) {
            pattern_at(&l.pattern.0, offset)
        } else {
            match l.ty {
                Some(ty) => if ty.1.spec_contains_offset(offset) {
                    type_at(&ty.0, offset)
                } else if l.expr.1.spec_contains_offset(offset) {
                    expr_at(&l.expr.0, offset)
                } else {
                    NodeAt::Stmt(st)
                },
                None => if l.expr.1.spec_contains_offset(offset) {
                    expr_at(&l.expr.0, offset)
                } else {
                    NodeAt::Stmt(st)
                },
            }
        },
        StmtIR::Assign(a) => if a.refr.1.spec_contains_offset(offset) {
            expr_at(&a.refr.0, offset)
        } else if a.value.1.spec_contains_offset(offset) {
            expr_at(&a.value.0, offset)
        } else {
            NodeAt::Stmt(st)
        },
    }
}

/// The innermost node of the statements of a block at `offset`.
fn block_at<'a, 'db>(stmts: &'a Vec<Spanned<StmtIR<'db>>>, offset: usize, whole: NodeAt<'a, 'db>) -> (r: NodeAt<'a, 'db>)
    ensures
        r == stmts_at(stmts@, offset, whole),
    decreases stmts@, 1int,
{
    match first_containing(stmts, offset) {
        Some(i) => {
            proof {
                assert(decreases_to!(stmts@ => stmts@[i as int]));
            }
            stmts[i].0.at_offset(offset)
        },
        None => whole,
    }
}

/// The innermost node of a list of expressions at `offset`.
fn list_exprs_at<'a, 'db>(es: &'a Vec<Spanned<ExprIR<'db>>>, offset: usize, whole: NodeAt<'a, 'db>) -> (r: NodeAt<'a, 'db>)
    ensures
        r == exprs_at(es@, offset, whole),
    decreases es@, 1int,
{
    match first_containing(es, offset) {
        Some(i) => {
            proof {
                assert(decreases_to!(es@ => es@[i as int]));
            }
            es[i].0.at_offset(offset)
        },
        None => whole,
    }
}

impl<'db> ExprIR<'db> {
    /// The innermost node at `offset`: the expression descends into the part whose span contains
    /// it. An operation stays itself, and a call whose parts do not contain the offset too.
    pub fn at_offset<'a>(&'a self, offset: usize) -> (r: NodeAt<'a, 'db>)
        ensures
            r == expr_at(self, offset),
        decreases self, 2int,
    {
        let whole = NodeAt::Expr(self);
        match &self.data {
            ExprIRData::Literal(_) | ExprIRData::Error | ExprIRData::Op(_) => whole,
            ExprIRData::Field(field) => if field.struct_.1.contains_offset(offset) {
                field.struct_.0.at_offset(offset)
            } else {
                whole
            },
            ExprIRData::Ident(ident) => NodeAt::Name(ident),
            ExprIRData::CodeBlock(block) => {
                proof {
                    assert(decreases_to!(*self => block.stmts@));
                }
                block_at(&block.stmts, offset, whole)
            },
            ExprIRData::Call(call) => if call.expr.1.contains_offset(offset) {
                call.expr.0.at_offset(offset)
            } else {
                proof {
                    assert(decreases_to!(*self => call.args@));
                }
                list_exprs_at(&call.args, offset, whole)
            },
            ExprIRData::Match(m) => if m.expr.1.contains_offset(offset) {
                m.expr.0.at_offset(offset)
            } else {
                proof {
                    assert(decreases_to!(*self => self.data));
                    assert(decreases_to!(self.data => *m));
                    assert(decreases_to!(*m => m.arms));
                }
                match first_containing(&m.arms, offset) {
                    Some(i) => {
                        proof {
                            assert(decreases_to!(m.arms => m.arms@[i as int]));
                        }
                        let arm = &m.arms[i].0;
                        if arm.pattern.1.contains_offset(offset) {
                            arm.pattern.0.at_offset(offset)
                        } else if arm.expr.1.contains_offset(offset) {
                            arm.expr.0.at_offset(offset)
                        } else {
                            whole
                        }
                    },
                    None => whole,
                }
            },
            ExprIRData::Tuple(tuple) => {
                proof {
                    assert(decreases_to!(*self => tuple@));
                }
                list_exprs_at(tuple, offset, whole)
            },
            ExprIRData::Lambda(lambda) => match first_containing(&lambda.args, offset) {
                Some(i) => NodeAt::Param(&lambda.args[i].0),
                None => if lambda.body.1.contains_offset(offset) {
                    proof {
                        assert(decreases_to!(*self => lambda.body.0.stmts@));
                    }
                    block_at(&lambda.body.0.stmts, offset, whole)
                } else {
                    whole
                },
            },
            ExprIRData::While(w) => if w.expr.1.contains_offset(offset) {
                w.expr.0.at_offset(offset)
            } else if w.block.1.contains_offset(offset) {
                proof {
                    assert(decreases_to!(*self => w.block.0.stmts@));
                }
                block_at(&w.block.0.stmts, offset, whole)
            } else {
                whole
            },
        }
    }
}

impl<'db> StmtIR<'db> {
    /// The innermost node of the statement at `offset`.
    pub fn at_offset<'a>(&'a self, offset: usize) -> (r: NodeAt<'a, 'db>)
        ensures
            r == stmt_at(self, offset),
        decreases self, 2int,
    {
        match self {
            StmtIR::Expr(e) => e.at_offset(offset),
            StmtIR::Let(l) => {
                if l.pattern.1.contains_offset(offset) {
                    return l.pattern.0.at_offset(offset);
                }
                if let Some(ty) = &l.ty {
                    if ty.1.contains_offset(offset) {
                        return ty.0.at_offset(offset);
                    }
                }
                if l.expr.1.contains_offset(offset) {
                    proof {
                        assert(decreases_to!(*self => *l));
                        assert(decreases_to!(*l => l.expr.0));
                    }
                    return l.expr.0.at_offset(offset);
                }
                NodeAt::Stmt(self)
            },
            StmtIR::Assign(a) => {
                proof {
                    assert(decreases_to!(*self => *a));
                    assert(decreases_to!(*a => a.refr.0));
                    assert(decreases_to!(*a => a.value.0));
                }
                if a.refr.1.contains_offset(offset) {
                    return a.refr.0.at_offset(offset);
                }
                if a.value.1.contains_offset(offset) {
                    return a.value.0.at_offset(offset);
                }
                NodeAt::Stmt(self)
            },
        }
    }
}

/// The innermost node of a function at `offset`: its receiver, generics, parameters, result type
/// or body statements, checked in that order, or the function itself.
pub open spec fn func_at<'a, 'db>(f: &'a FuncIR<'db>, offset: usize) -> NodeAt<'a, 'db> {
    if f.receiver matches Some(rec) && rec.1.spec_contains_offset(offset) {
        type_at(&f.receiver.unwrap().0, offset)
    } else if f.generics.1.spec_contains_offset(offset) {
        NodeAt::Generics(&f.generics.0)
    } else {
        match first_at(f.args@, offset) {
            Some(i) => if f.args@[i].0.ty.1.spec_contains_offset(offset) {
                type_at(&f.args@[i].0.ty.0, offset)
            } else {
                NodeAt::Arg(&f.args@[i].0)
            },
            None => if f.ret matches Some(t) && t.1.spec_contains_offset(offset) {
                type_at(&f.ret.unwrap().0, offset)
            } else {
                stmts_at(f.body.stmts@, offset, NodeAt::Func(f))
            },
        }
    }
}

impl<'db> FuncIR<'db> {
    /// The innermost node of the function at `offset`: its receiver, generics, parameters, result
    /// type or body statements, checked in that order.
    pub fn at_offset<'a>(&'a self, offset: usize) -> (r: NodeAt<'a, 'db>)
        ensures
            r == func_at(self, offset),
    {
        if let Some(receiver) = &self.receiver {
            if receiver.1.contains_offset(offset) {
                return receiver.0.at_offset(offset);
            }
        }
        if self.generics.1.contains_offset(offset) {
            return NodeAt::Generics(&self.generics.0);
        }
        match first_containing(&self.args, offset) {
            Some(i) => {
                let arg = &self.args[i].0;
                if arg.ty.1.contains_offset(offset) {
                    return arg.ty.0.at_offset(offset);
                }
                return NodeAt::Arg(arg);
            },
            None => {},
        }
        if let Some(ret) = &self.ret {
            if ret.1.contains_offset(offset) {
                return ret.0.at_offset(offset);
            }
        }
        block_at(&self.body.stmts, offset, NodeAt::Func(self))
    }
}

/// The innermost node of a list of functions at `offset`, or `whole` where none contains it.
pub open spec fn funcs_at<'a, 'db>(fs: Seq<Spanned<FuncIR<'db>>>, offset: usize, whole: NodeAt<'a, 'db>) -> NodeAt<'a, 'db> {
    match first_at(fs, offset) {
        Some(i) => func_at(&fs[i].0, offset),
        None => whole,
    }
}

/// The innermost node of an item at `offset`.
pub open spec fn top_at<'a, 'db>(t: &'a TopIR<'db>, offset: usize) -> NodeAt<'a, 'db> {
    match *t {
        TopIR::Func(f) => func_at(&f, offset),
        TopIR::Struct(s) => if s.generics.1.spec_contains_offset(offset) {
            NodeAt::Generics(&s.generics.0)
        } else if s.body.1.spec_contains_offset(offset) && s.body.0 is Fields {
            match first_at(s.body.0->Fields_0@, offset) {
                Some(i) => if s.body.0->Fields_0@[i].0.ty.1.spec_contains_offset(offset) {
                    type_at(&s.body.0->Fields_0@[i].0.ty.0, offset)
                } else {
                    NodeAt::Field(&s.body.0->Fields_0@[i].0)
                },
                None => NodeAt::Top(t),
            }
        } else {
            NodeAt::Top(t)
        },
        TopIR::Enum(e) => if e.generics.1.spec_contains_offset(offset) {
            NodeAt::Generics(&e.generics.0)
        } else {
            NodeAt::Top(t)
        },
        TopIR::Trait(tr) => if tr.generics.1.spec_contains_offset(offset) {
            NodeAt::Generics(&tr.generics.0)
        } else {
            funcs_at(tr.body@, offset, NodeAt::Top(t))
        },
        TopIR::Impl(i) => if i.generics.1.spec_contains_offset(offset) {
            NodeAt::Generics(&i.generics.0)
        } else if i.for_.1.spec_contains_offset(offset) {
            type_at(&i.for_.0, offset)
        } else if i.trait_ matches Some(tr) && tr.1.spec_contains_offset(offset) {
            type_at(&i.trait_.unwrap().0, offset)
        } else {
            funcs_at(i.body@, offset, NodeAt::Top(t))
        },
        TopIR::Use(u) => NodeAt::Name(&u),
    }
}

impl<'db> TopIR<'db> {
    /// The innermost node of the item at `offset`.
    pub fn at_offset<'a>(&'a self, offset: usize) -> (r: NodeAt<'a, 'db>)
        ensures
            r == top_at(self, offset),
    {
        match self {
            TopIR::Func(f) => f.at_offset(offset),
            TopIR::Struct(s) => {
                if s.generics.1.contains_offset(offset) {
                    return NodeAt::Generics(&s.generics.0);
                }
                if s.body.1.contains_offset(offset) {
                    if let crate::ir::top::StructBodyIR::Fields(fs) = &s.body.0 {
                        if let Some(i) = first_containing(fs, offset) {
                            let f = &fs[i].0;
                            if f.ty.1.contains_offset(offset) {
                                return f.ty.0.at_offset(offset);
                            }
                            return NodeAt::Field(f);
                        }
                    }
                }
                NodeAt::Top(self)
            },
            TopIR::Enum(e) => {
                if e.generics.1.contains_offset(offset) {
                    return NodeAt::Generics(&e.generics.0);
                }
                NodeAt::Top(self)
            },
            TopIR::Trait(t) => {
                if t.generics.1.contains_offset(offset) {
                    return NodeAt::Generics(&t.generics.0);
                }
                match first_containing(&t.body, offset) {
                    Some(i) => t.body[i].0.at_offset(offset),
                    None => NodeAt::Top(self),
                }
            },
            TopIR::Impl(i) => {
                if i.generics.1.contains_offset(offset) {
                    return NodeAt::Generics(&i.generics.0);
                }
                if i.for_.1.contains_offset(offset) {
                    return i.for_.0.at_offset(offset);
                }
                if let Some(t) = &i.trait_ {
                    if t.1.contains_offset(offset) {
                        return t.0.at_offset(offset);
                    }
                }
                match first_containing(&i.body, offset) {
                    Some(k) => i.body[k].0.at_offset(offset),
                    None => NodeAt::Top(self),
                }
            },
            TopIR::Use(u) => NodeAt::Name(u),
        }
    }
}

/// The innermost node of a file at `offset`: within the first item whose span contains it, or
/// the file.
pub open spec fn file_at<'a, 'db>(f: &'a FileIR<'db>, offset: usize) -> NodeAt<'a, 'db> {
    match first_at(f.tops@, offset) {
        Some(i) => top_at(&f.tops@[i].0, offset),
        None => NodeAt::File(f),
    }
}

impl<'db> FileIR<'db> {
    /// The innermost node at `offset`: within the first item whose span contains it, or the file.
    pub fn at_offset<'a>(&'a self, offset: usize) -> (r: NodeAt<'a, 'db>)
        ensures
            r == file_at(self, offset),
    {
        match first_containing(&self.tops, offset) {
            Some(i) => self.tops[i].0.at_offset(offset),
            None => NodeAt::File(self),
        }
    }
}


/// Looking up an offset descends into the part of an expression whose span holds it: the struct
/// part of a field access, the callee of a call, the matched value of a match and the condition
/// of a loop give the node found in them; in particular a name there is found as that name, not as
/// the enclosing expression.
pub proof fn law_at_offset_descends<'a, 'db>(e: &'a ExprIR<'db>, offset: usize)
    ensures
        e.data matches ExprIRData::Field(f) ==> (f.struct_.1.spec_contains_offset(offset) ==> expr_at(e, offset)
            == expr_at(&f.struct_.0, offset)),
        e.data matches ExprIRData::Call(c) ==> (c.expr.1.spec_contains_offset(offset) ==> expr_at(e, offset)
            == expr_at(&c.expr.0, offset)),
        e.data matches ExprIRData::Match(m) ==> (m.expr.1.spec_contains_offset(offset) ==> expr_at(e, offset)
            == expr_at(&m.expr.0, offset)),
        e.data matches ExprIRData::While(w) ==> (w.expr.1.spec_contains_offset(offset) ==> expr_at(e, offset)
            == expr_at(&w.expr.0, offset)),
        e.data matches ExprIRData::Field(f) ==> (f.struct_.1.spec_contains_offset(offset) && f.struct_.0.data is Ident
            ==> expr_at(e, offset) is Name),
        e.data matches ExprIRData::Ident(_) ==> expr_at(e, offset) is Name,
{
}


/// The first span of a list to hold the offset is the one whose earlier spans all miss it.
pub proof fn lemma_first_at_is<T>(s: Seq<Spanned<T>>, offset: usize, i: int)
    requires
        0 <= i < s.len(),
        s[i].1.spec_contains_offset(offset),
        forall|j: int| 0 <= j < i ==> !(#[trigger] s[j].1.spec_contains_offset(offset)),
    ensures
        first_at(s, offset) == Some(i),
    decreases i,
{
    if i > 0 {
        assert(!s[0].1.spec_contains_offset(offset));
        assert forall|j: int| 0 <= j < i - 1 implies !(#[trigger] s.skip(1)[j].1.spec_contains_offset(offset)) by {
            assert(s.skip(1)[j] == s[j + 1]);
        }
        lemma_first_at_is(s.skip(1), offset, i - 1);
    }
}

/// In a tuple, and among the arguments of a call whose callee does not hold the offset, the node
/// found is the one found in the first element whose span holds it.
pub proof fn law_at_offset_first_element<'a, 'db>(e: &'a ExprIR<'db>, offset: usize, i: int)
    ensures
        e.data matches ExprIRData::Tuple(t) ==> (0 <= i < t@.len() && t@[i].1.spec_contains_offset(offset) && (forall|j: int|
            0 <= j < i ==> !(#[trigger] t@[j].1.spec_contains_offset(offset))) ==> expr_at(e, offset) == expr_at(
            &t@[i].0,
            offset,
        )),
        e.data matches ExprIRData::Call(c) ==> (!c.expr.1.spec_contains_offset(offset) && 0 <= i < c.args@.len()
            && c.args@[i].1.spec_contains_offset(offset) && (forall|j: int|
            0 <= j < i ==> !(#[trigger] c.args@[j].1.spec_contains_offset(offset))) ==> expr_at(e, offset) == expr_at(
            &c.args@[i].0,
            offset,
        )),
{
    match e.data {
        ExprIRData::Tuple(t) => {
            if 0 <= i < t@.len() && t@[i].1.spec_contains_offset(offset) && (forall|j: int|
                0 <= j < i ==> !(#[trigger] t@[j].1.spec_contains_offset(offset))) {
                lemma_first_at_is(t@, offset, i);
                assert(exprs_at(t@, offset, NodeAt::Expr(e)) == expr_at(&t@[i].0, offset));
                assert(expr_at(e, offset) == exprs_at(t@, offset, NodeAt::Expr(e)));
            }
        },
        ExprIRData::Call(c) => {
            if !c.expr.1.spec_contains_offset(offset) && 0 <= i < c.args@.len() && c.args@[i].1.spec_contains_offset(offset) && (forall|j: int|
                0 <= j < i ==> !(#[trigger] c.args@[j].1.spec_contains_offset(offset))) {
                lemma_first_at_is(c.args@, offset, i);
                assert(exprs_at(c.args@, offset, NodeAt::Expr(e)) == expr_at(&c.args@[i].0, offset));
                assert(expr_at(e, offset) == exprs_at(c.args@, offset, NodeAt::Expr(e)));
            }
        },
        _ => {},
    }
}

} // verus!
