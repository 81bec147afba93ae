use vstd::prelude::*;

use crate::util::{Span, Spanned};

verus! {

/// A literal value; a float is kept as its source text.
pub enum Literal {
    String(String),
    Int(i64),
    Float(String),
    Char(char),
    Bool(bool),
}

#[derive(Clone, Copy, Debug, PartialEq, Eq, Structural)]
pub enum OpKind {
    Add,
    Sub,
    Mul,
    Div,
    Eq,
    Neq,
    Lt,
    Gt,
    Lte,
    Gte,
    And,
    Or,
}

/// A path such as `std::Option`, each segment with its span.
pub type SpannedQualifiedName = Vec<Spanned<String>>;

/// A type as written.
pub enum Type {
    Named(NamedType),
    Tuple(Vec<Spanned<Type>>),
    Sum(Vec<Spanned<Type>>),
    Function { receiver: Option<Box<Spanned<Type>>>, args: Vec<Spanned<Type>>, ret: Box<Spanned<Type>> },
    Wildcard(Span),
}

pub struct NamedType {
    pub name: SpannedQualifiedName,
    pub args: Vec<Spanned<Type>>,
}

/// A generic parameter as declared, with its optional bound.
pub struct GenericArg {
    pub name: Spanned<String>,
    pub super_: Option<Spanned<Type>>,
}

pub struct GenericArgs(pub Vec<Spanned<GenericArg>>);

#[allow(inconsistent_fields)]
pub enum Pattern {
    Name(Spanned<String>),
    Struct { name: SpannedQualifiedName, fields: Vec<Spanned<StructFieldPattern>> },
    UnitStruct(SpannedQualifiedName),
    TupleStruct { name: SpannedQualifiedName, fields: Vec<Spanned<Pattern>> },
}

pub enum StructFieldPattern {
    Implied(Spanned<String>),
    Explicit { field: Spanned<String>, pattern: Spanned<Pattern> },
}

pub enum Expr {
    Literal(Literal),
    Field(Field),
    Ident(SpannedQualifiedName),
    CodeBlock(Vec<Spanned<Stmt>>),
    Call(Call),
    Match(Match),
    Tuple(Vec<Spanned<Expr>>),
    Op(Op),
    Lambda(Lambda),
    While(While),
    Error,
}

pub struct Field {
    pub name: Spanned<String>,
    pub struct_: Box<Spanned<Expr>>,
}

pub struct Call {
    pub name: Box<Spanned<Expr>>,
    pub args: Vec<Spanned<Expr>>,
}

pub struct Match {
    pub expr: Box<Spanned<Expr>>,
    pub arms: Vec<Spanned<MatchArm>>,
}

pub struct MatchArm {
    pub pattern: Spanned<Pattern>,
    pub expr: Box<Spanned<Expr>>,
}

pub struct Op {
    pub left: Box<Spanned<Expr>>,
    pub right: Box<Spanned<Expr>>,
    pub kind: OpKind,
}

pub struct Lambda {
    pub args: Vec<Spanned<LambdaParam>>,
    pub body: Spanned<Vec<Spanned<Stmt>>>,
}

pub struct LambdaParam {
    pub pattern: Spanned<Pattern>,
    pub ty: Option<Spanned<Type>>,
}

pub struct While {
    pub expr: Box<Spanned<Expr>>,
    pub block: Spanned<Vec<Spanned<Stmt>>>,
}

pub enum Stmt {
    Let(LetStatement),
    Expr(Expr),
    Assign(Assign),
}

pub struct LetStatement {
    pub pattern: Spanned<Pattern>,
    pub ty: Option<Spanned<Type>>,
    pub value: Spanned<Expr>,
}

pub struct Assign {
    pub refr: Spanned<Expr>,
    pub value: Spanned<Expr>,
}

pub struct FunctionArg {
    pub name: Spanned<String>,
    pub ty: Spanned<Type>,
}

pub struct Func {
    pub receiver: Option<Spanned<Type>>,
    pub name: Spanned<String>,
    pub generics: Spanned<GenericArgs>,
    pub args: Vec<Spanned<FunctionArg>>,
    pub ret: Option<Spanned<Type>>,
    pub body: Option<Vec<Spanned<Stmt>>>,
}

pub struct StructField {
    pub name: Spanned<String>,
    pub ty: Spanned<Type>,
}

pub enum StructBody {
    Unit,
    Tuple(Vec<Spanned<Type>>),
    Fields(Vec<Spanned<StructField>>),
}

pub struct Struct {
    pub name: Spanned<String>,
    pub generics: Spanned<GenericArgs>,
    pub body: Spanned<StructBody>,
}

pub struct EnumMember {
    pub name: Spanned<String>,
    pub body: Spanned<StructBody>,
}

pub struct Enum {
    pub name: Spanned<String>,
    pub generics: Spanned<GenericArgs>,
    pub members: Vec<Spanned<EnumMember>>,
}

pub struct Trait {
    pub name: Spanned<String>,
    pub generics: Spanned<GenericArgs>,
    pub body: Vec<Spanned<Func>>,
}

pub struct Impl {
    pub generics: Spanned<GenericArgs>,
    pub trait_: Option<Spanned<Type>>,
    pub for_: Spanned<Type>,
    pub body: Vec<Spanned<Func>>,
}

pub enum Top {
    Func(Func),
    Struct(Struct),
    Enum(Enum),
    Trait(Trait),
    Impl(Impl),
    Use(SpannedQualifiedName),
}

pub type File = Vec<Spanned<Top>>;

/// Copies a name with its span.
pub fn clone_name(n: &Spanned<String>) -> (r: Spanned<String>)
    ensures
        r.0@ == n.0@,
        r.1 == n.1,
{
    (n.0.clone(), n.1)
}

/// The names of the segments of a path.
pub open spec fn segments(p: Seq<Spanned<String>>) -> Seq<Seq<char>> {
    Seq::new(p.len(), |i: int| p[i].0@)
}

/// Copies a path with its spans.
pub fn clone_qualified(p: &SpannedQualifiedName) -> (r: SpannedQualifiedName)
    ensures
        r@.len() == p@.len(),
        forall|i: int| 0 <= i < p@.len() ==> #[trigger] r@[i].0@ == p@[i].0@ && r@[i].1 == p@[i].1,
        segments(r@) == segments(p@),
{
    let mut r: SpannedQualifiedName = Vec::new();
    let mut i: usize = 0;
    while i < p.len()
        invariant
            i <= p@.len(),
            r@.len() == i,
            forall|j: int| 0 <= j < i ==> #[trigger] r@[j].0@ == p@[j].0@ && r@[j].1 == p@[j].1,
        decreases p@.len() - i,
    {
        r.push(clone_name(&p[i]));
        i = i + 1;
    }
    proof {
        assert(segments(r@) =~= segments(p@));
    }
    r
}

impl Literal {
    pub fn copy(&self) -> (r: Literal)
        ensures
            lit_view(r) == lit_view(*self),
    {
        match self {
            Literal::String(s) => Literal::String(s.clone()),
            Literal::Int(i) => Literal::Int(*i),
            Literal::Float(s) => Literal::Float(s.clone()),
            Literal::Char(c) => Literal::Char(*c),
            Literal::Bool(b) => Literal::Bool(*b),
        }
    }
}

/// The mathematical value of a literal.
pub enum LiteralModel {
    String(Seq<char>),
    Int(i64),
    Float(Seq<char>),
    Char(char),
    Bool(bool),
}

pub open spec fn lit_view(l: Literal) -> LiteralModel {
    match l {
        Literal::String(s) => LiteralModel::String(s@),
        Literal::Int(i) => LiteralModel::Int(i),
        Literal::Float(s) => LiteralModel::Float(s@),
        Literal::Char(c) => LiteralModel::Char(c),
        Literal::Bool(b) => LiteralModel::Bool(b),
    }
}

} // verus!
