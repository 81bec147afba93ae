use vstd::prelude::*;

use crate::check::{SemanticToken, TokenKind};
use crate::db::decl::decl_token_kind;
use crate::ir::common::generic_args::{GenericArgIR, GenericArgsIR};
use crate::ir::common::pattern::{PatternIR, StructFieldPatternIR};
use crate::ir::expr::ident::{IdentDef, SpannedQualifiedNameIR};
use crate::ir::expr::{CodeBlockIR, ExprIR, ExprIRData, LambdaParamIR, MatchArmIR};
use crate::ir::stmt::StmtIR;
use crate::ir::top::{FuncIR, FunctionArgIR, StructBodyIR, StructFieldIR, TopIR};
use crate::ir::ty::{TypeIR, TypeIRData};
use crate::ir::FileIR;
use crate::util::{push_char, Span, Spanned};

verus! {

broadcast use {vstd::std_specs::vec::group_vec_axioms, vstd::set::group_set_axioms};

/// Appends one token.
fn push_token(tokens: &mut Vec<SemanticToken>, span: crate::util::Span, kind: TokenKind)
    ensures
        final(tokens)@ == old(tokens)@.push(SemanticToken { span, kind }),
{
    tokens.push(SemanticToken { span, kind });
}

/// The kind of token a name is highlighted as; an unresolved name is not highlighted.
pub open spec fn def_kind(d: IdentDef) -> Option<TokenKind> {
    match d {
        IdentDef::Variable(_) => Some(TokenKind::Var),
        IdentDef::Decl(decl) => Some(decl_token_kind(*decl)),
        IdentDef::Generic(_) => Some(TokenKind::Generic),
        IdentDef::Unresolved => None,
    }
}

/// The tokens of a resolved path: one per segment that resolved.
pub open spec fn name_tokens(name: Seq<Spanned<IdentDef>>) -> Seq<SemanticToken>
    decreases name.len(),
{
    if name.len() == 0 {
        Seq::empty()
    } else {
        let front = name_tokens(name.drop_last());
        match def_kind(name.last().0) {
            Some(kind) => front.push(SemanticToken { span: name.last().1, kind }),
            None => front,
        }
    }
}

impl<'db> IdentDef<'db> {
    /// The kind of token the name is highlighted as.
    pub fn kind(&self) -> (r: Option<TokenKind>)
        ensures
            r == def_kind(*self),
    {
        match self {
            IdentDef::Variable(_) => Some(TokenKind::Var),
            IdentDef::Decl(decl) => Some(decl.get_kind()),
            IdentDef::Generic(_) => Some(TokenKind::Generic),
            IdentDef::Unresolved => None,
        }
    }

    /// The text shown when hovering over the name: what it refers to and its name.
    pub fn hover(&self) -> (r: Option<String>)
        ensures
            match *self {
                IdentDef::Variable(v) => r matches Some(s) && s@ == "Variable: "@ + v.name@,
                IdentDef::Decl(d) => r matches Some(s) && s@ == "Declaration: "@ + d.name@,
                IdentDef::Generic(g) => r matches Some(s) && s@ == "Generic: "@ + g.name.0@,
                IdentDef::Unresolved => r is None,
            },
    {
        match self {
            IdentDef::Variable(v) => Some(concat("Variable: ", v.name.as_str())),
            IdentDef::Decl(d) => Some(concat("Declaration: ", d.name.as_str())),
            IdentDef::Generic(g) => Some(concat("Generic: ", g.name.0.as_str())),
            IdentDef::Unresolved => None,
        }
    }
}

/// The two texts one after the other.
fn concat(a: &str, b: &str) -> (r: String)
    ensures
        r@ == a@ + b@,
{
    let mut s = String::from_str(a);
    let n = b.unicode_len();
    let mut i: usize = 0;
    while i < n
        invariant
            i <= n,
            n == b@.len(),
            s@ == a@ + b@.take(i as int),
        decreases n - i,
    {
        proof {
            assert(b@.take(i + 1) =~= b@.take(i as int).push(b@[i as int]));
        }
        push_char(&mut s, b.get_char(i));
        i = i + 1;
    }
    proof {
        assert(b@.take(n as int) =~= b@);
    }
    s
}

/// Appends the tokens of a resolved path.
pub fn ident_tokens(name: &SpannedQualifiedNameIR, tokens: &mut Vec<SemanticToken>)
    ensures
        final(tokens)@ == old(tokens)@ + name_tokens(name@),
{
    let mut i: usize = 0;
    proof {
        assert(name@.take(0) =~= Seq::<Spanned<IdentDef>>::empty());
        assert(old(tokens)@ + name_tokens(Seq::empty()) =~= old(tokens)@);
    }
    while i < name.len()
        invariant
            i <= name@.len(),
            tokens@ == old(tokens)@ + name_tokens(name@.take(i as int)),
        decreases name@.len() - i,
    {
        proof {
            assert(name@.take(i + 1).drop_last() =~= name@.take(i as int));
        }
        match name[i].0.kind() {
            Some(kind) => {
                tokens.push(SemanticToken { span: name[i].1, kind });
                proof {
                    assert(tokens@ =~= old(tokens)@ + name_tokens(name@.take(i + 1)));
                }
            },
            None => {},
        }
        i = i + 1;
    }
    proof {
        assert(name@.take(i as int) =~= name@);
    }
}

/// A token of the given span and kind.
pub open spec fn tok(span: Span, kind: TokenKind) -> SemanticToken {
    SemanticToken { span, kind }
}

/// The tokens of a written type, in source order: generics, resolved names and the types inside.
pub open spec fn type_tokens(t: TypeIR) -> Seq<SemanticToken>
    decreases t,
{
    match t.data {
        TypeIRData::Generic(name) => seq![tok(name.1, TokenKind::Generic)],
        TypeIRData::Named(n) => name_tokens(n.name@) + types_tokens(n.args@),
        TypeIRData::Tuple(ts) => types_tokens(ts@),
        TypeIRData::Sum(ts) => types_tokens(ts@),
        TypeIRData::Function { receiver, args, ret } => opt_type_tokens(receiver) + types_tokens(args@) + type_tokens(ret.0),
        _ => Seq::empty(),
    }
}

/// The tokens of a type that may be absent.
pub open spec fn opt_type_tokens(t: Option<Box<Spanned<TypeIR>>>) -> Seq<SemanticToken>
    decreases t,
{
    match t {
        Some(r) => type_tokens(r.0),
        None => Seq::empty(),
    }
}

/// The tokens of a list of types, one after the other.
pub open spec fn types_tokens(ts: Seq<Spanned<TypeIR>>) -> Seq<SemanticToken>
    decreases ts,
{
    if ts.len() == 0 {
        Seq::empty()
    } else {
        types_tokens(ts.drop_last()) + type_tokens(ts.last().0)
    }
}

/// Appends the tokens of each type of a list.
fn list_type_tokens(ts: &Vec<Spanned<TypeIR>>, tokens: &mut Vec<SemanticToken>)
    ensures
        final(tokens)@ == old(tokens)@ + types_tokens(ts@),
    decreases ts@, 1int,
{
    let mut i: usize = 0;
    proof {
        assert(ts@.take(0) =~= Seq::<Spanned<TypeIR>>::empty());
        assert(tokens@ =~= old(tokens)@ + types_tokens(ts@.take(0)));
    }
    while i < ts.len()
        invariant
            i <= ts@.len(),
            tokens@ == old(tokens)@ + types_tokens(ts@.take(i as int)),
        decreases ts@.len() - i,
    {
        proof {
            assert(decreases_to!(ts@ => ts@[i as int]));
            assert(ts@.take(i + 1).drop_last() =~= ts@.take(i as int));
        }
        ts[i].0.tokens(tokens);
        proof {
            assert(tokens@ =~= old(tokens)@ + types_tokens(ts@.take(i + 1)));
        }
        i = i + 1;
    }
    proof {
        assert(ts@.take(i as int) =~= ts@);
    }
}

impl<'db> TypeIR<'db> {
    /// Appends the tokens of a written type.
    pub fn tokens(&self, tokens: &mut Vec<SemanticToken>)
        ensures
            final(tokens)@ == old(tokens)@ + type_tokens(*self),
        decreases self, 0int,
    {
        match &self.data {
            TypeIRData::Generic(name) => {
                push_token(tokens, name.1, TokenKind::Generic);
                proof {
                    assert(tokens@ =~= old(tokens)@ + type_tokens(*self));
                }
            },
            TypeIRData::Named(named) => {
                ident_tokens(&named.name, tokens);
                proof {
                    assert(decreases_to!(*self => named.args@));
                }
                list_type_tokens(&named.args, tokens);
                proof {
                    assert(tokens@ =~= old(tokens)@ + type_tokens(*self));
                }
            },
            TypeIRData::Tuple(ts) | TypeIRData::Sum(ts) => {
                proof {
                    assert(decreases_to!(*self => ts@));
                }
                list_type_tokens(ts, tokens);
            },
            TypeIRData::Function { receiver, args, ret } => {
                match receiver {
                    Some(r) => r.0.tokens(tokens),
                    None => {
                        proof {
                            assert(tokens@ =~= old(tokens)@ + Seq::<SemanticToken>::empty());
                        }
                    },
                }
                let ghost t1 = tokens@;
                proof {
                    assert(t1 == old(tokens)@ + opt_type_tokens(*receiver));
                    assert(decreases_to!(*self => args@));
                }
                list_type_tokens(args, tokens);
                ret.0.tokens(tokens);
                proof {
                    assert(type_tokens(*self) == opt_type_tokens(*receiver) + types_tokens(args@) + type_tokens(ret.0));
                    assert(tokens@ =~= old(tokens)@ + type_tokens(*self));
                }
            },
            _ => {
                proof {
                    assert(tokens@ =~= old(tokens)@ + type_tokens(*self));
                }
            },
        }
    }
}

/// The tokens of a type that may be absent.
pub open spec fn maybe_type_tokens(t: Option<Spanned<TypeIR>>) -> Seq<SemanticToken> {
    match t {
        Some(b) => type_tokens(b.0),
        None => Seq::empty(),
    }
}

/// The tokens of declared generics: each name, then its bound.
pub open spec fn generics_tokens(gs: Seq<Spanned<GenericArgIR>>) -> Seq<SemanticToken>
    decreases gs.len(),
{
    if gs.len() == 0 {
        Seq::empty()
    } else {
        let g = gs.last().0;
        generics_tokens(gs.drop_last()) + seq![tok(g.name.1, TokenKind::Generic)] + maybe_type_tokens(g.super_)
    }
}

impl<'db> GenericArgsIR<'db> {
    /// Appends the tokens of declared generics: each name, then its bound.
    pub fn tokens(&self, tokens: &mut Vec<SemanticToken>)
        ensures
            final(tokens)@ == old(tokens)@ + generics_tokens(self.0@),
    {
        let mut i: usize = 0;
        proof {
            assert(self.0@.take(0) =~= Seq::<Spanned<GenericArgIR>>::empty());
            assert(tokens@ =~= old(tokens)@ + generics_tokens(self.0@.take(0)));
        }
        while i < self.0.len()
            invariant
                i <= self.0@.len(),
                tokens@ == old(tokens)@ + generics_tokens(self.0@.take(i as int)),
            decreases self.0@.len() - i,
        {
            proof {
                assert(self.0@.take(i + 1).drop_last() =~= self.0@.take(i as int));
            }
            push_token(tokens, self.0[i].0.name.1, TokenKind::Generic);
            match &self.0[i].0.super_ {
                Some(t) => t.0.tokens(tokens),
                None => {},
            }
            proof {
                assert(tokens@ =~= old(tokens)@ + generics_tokens(self.0@.take(i + 1)));
            }
            i = i + 1;
        }
        proof {
            assert(self.0@.take(i as int) =~= self.0@);
        }
    }
}

/// The tokens of a pattern, in source order: bound names are variables, written field names
/// properties.
pub open spec fn pattern_tokens(p: PatternIR) -> Seq<SemanticToken>
    decreases p,
{
    match p {
        PatternIR::Name(n) => seq![tok(n.1, TokenKind::Var)],
        PatternIR::Struct { name, fields } => name_tokens(name@) + field_patterns_tokens(fields@),
        PatternIR::UnitStruct(name) => name_tokens(name@),
        PatternIR::TupleStruct { name, fields } => name_tokens(name@) + patterns_tokens(fields@),
        PatternIR::Error => Seq::empty(),
    }
}

/// The tokens of a list of patterns, one after the other.
pub open spec fn patterns_tokens(ps: Seq<Spanned<PatternIR>>) -> Seq<SemanticToken>
    decreases ps,
{
    if ps.len() == 0 {
        Seq::empty()
    } else {
        patterns_tokens(ps.drop_last()) + pattern_tokens(ps.last().0)
    }
}

/// The tokens of a field of a struct pattern: its pattern, then the field's name.
pub open spec fn field_pattern_tokens(f: StructFieldPatternIR) -> Seq<SemanticToken>
    decreases f,
{
    match f {
        StructFieldPatternIR::Implied { name } => seq![tok(name.1, TokenKind::Var)],
        StructFieldPatternIR::Explicit { field, pattern } => pattern_tokens(pattern.0) + seq![tok(field.1, TokenKind::Property)],
    }
}

/// The tokens of the fields of a struct pattern, one after the other.
pub open spec fn field_patterns_tokens(fs: Seq<Spanned<StructFieldPatternIR>>) -> Seq<SemanticToken>
    decreases fs,
{
    if fs.len() == 0 {
        Seq::empty()
    } else {
        field_patterns_tokens(fs.drop_last()) + field_pattern_tokens(fs.last().0)
    }
}

impl<'db> PatternIR<'db> {
    /// Appends the tokens of a pattern: names bound are variables.
    pub fn tokens(&self, tokens: &mut Vec<SemanticToken>)
        ensures
            final(tokens)@ == old(tokens)@ + pattern_tokens(*self),
        decreases self,
    {
        match self {
            PatternIR::Name(name) => {
                push_token(tokens, name.1, TokenKind::Var);
                proof {
                    assert(tokens@ =~= old(tokens)@ + pattern_tokens(*self));
                }
            },
            PatternIR::Struct { name, fields } => {
                ident_tokens(name, tokens);
                let ghost mid = tokens@;
                let mut i: usize = 0;
                proof {
                    assert(fields@.take(0) =~= Seq::<Spanned<StructFieldPatternIR>>::empty());
                    assert(tokens@ =~= mid + field_patterns_tokens(fields@.take(0)));
                }
                while i < fields.len()
                    invariant
                        i <= fields@.len(),
                        tokens@ == mid + field_patterns_tokens(fields@.take(i as int)),
                        decreases_to!(*self => *fields),
                    decreases fields@.len() - i,
                {
                    proof {
                        assert(decreases_to!(*fields => fields@[i as int]));
                        assert(fields@.take(i + 1).drop_last() =~= fields@.take(i as int));
                    }
                    let ghost before = tokens@;
                    match &fields[i].0 {
                        StructFieldPatternIR::Implied { name } => push_token(tokens, name.1, TokenKind::Var),
                        StructFieldPatternIR::Explicit { field, pattern } => {
                            pattern.0.tokens(tokens);
                            push_token(tokens, field.1, TokenKind::Property);
                        },
                    }
                    proof {
                        assert(tokens@ =~= before + field_pattern_tokens(fields@[i as int].0));
                        assert(fields@.take(i + 1).last() == fields@[i as int]);
                        assert(tokens@ =~= mid + field_patterns_tokens(fields@.take(i + 1)));
                    }
                    i = i + 1;
                }
                proof {
                    assert(fields@.take(i as int) =~= fields@);
                    assert(tokens@ =~= old(tokens)@ + pattern_tokens(*self));
                }
            },
            PatternIR::UnitStruct(name) => ident_tokens(name, tokens),
            PatternIR::TupleStruct { name, fields } => {
                ident_tokens(name, tokens);
                let ghost mid = tokens@;
                let mut i: usize = 0;
                proof {
                    assert(fields@.take(0) =~= Seq::<Spanned<PatternIR>>::empty());
                    assert(tokens@ =~= mid + patterns_tokens(fields@.take(0)));
                }
                while i < fields.len()
                    invariant
                        i <= fields@.len(),
                        tokens@ == mid + patterns_tokens(fields@.take(i as int)),
                        decreases_to!(*self => *fields),
                    decreases fields@.len() - i,
                {
                    proof {
                        assert(decreases_to!(*fields => fields@[i as int]));
                        assert(fields@.take(i + 1).drop_last() =~= fields@.take(i as int));
                    }
                    fields[i].0.tokens(tokens);
                    proof {
                        assert(tokens@ =~= mid + patterns_tokens(fields@.take(i + 1)));
                    }
                    i = i + 1;
                }
                proof {
                    assert(fields@.take(i as int) =~= fields@);
                    assert(tokens@ =~= old(tokens)@ + pattern_tokens(*self));
                }
            },
            PatternIR::Error => {
                proof {
                    assert(tokens@ =~= old(tokens)@ + pattern_tokens(*self));
                }
            },
        }
    }
}

/// The tokens of an expression, in source order.
pub open spec fn expr_tokens(e: ExprIR) -> Seq<SemanticToken>
    decreases e,
{
    match e.data {
        ExprIRData::Literal(_) => Seq::empty(),
        ExprIRData::Error => Seq::empty(),
        ExprIRData::Field(f) => expr_tokens(f.struct_.0) + seq![tok(f.name.1, TokenKind::Property)],
        ExprIRData::Ident(name) => name_tokens(name@),
        ExprIRData::CodeBlock(b) => stmts_tokens(b.stmts@),
        ExprIRData::Call(c) => expr_tokens(c.expr.0) + exprs_tokens(c.args@),
        ExprIRData::Match(m) => expr_tokens(m.expr.0) + arms_tokens(m.arms@),
        ExprIRData::Tuple(t) => exprs_tokens(t@),
        ExprIRData::Op(o) => expr_tokens(o.left.0) + expr_tokens(o.right.0),
        ExprIRData::Lambda(l) => params_tokens(l.args@) + stmts_tokens(l.body.0.stmts@),
        ExprIRData::While(w) => expr_tokens(w.expr.0) + stmts_tokens(w.block.0.stmts@),
    }
}

/// The tokens of a list of expressions, one after the other.
pub open spec fn exprs_tokens(es: Seq<Spanned<ExprIR>>) -> Seq<SemanticToken>
    decreases es,
{
    if es.len() == 0 {
        Seq::empty()
    } else {
        exprs_tokens(es.drop_last()) + expr_tokens(es.last().0)
    }
}

/// The tokens of the arms of a match: each pattern, then its expression.
pub open spec fn arms_tokens(arms: Seq<Spanned<MatchArmIR>>) -> Seq<SemanticToken>
    decreases arms,
{
    if arms.len() == 0 {
        Seq::empty()
    } else {
        arms_tokens(arms.drop_last()) + pattern_tokens(arms.last().0.pattern.0) + expr_tokens(arms.last().0.expr.0)
    }
}

/// The tokens of the parameters of a lambda: each pattern, then its type.
pub open spec fn params_tokens(ps: Seq<Spanned<LambdaParamIR>>) -> Seq<SemanticToken>
    decreases ps.len(),
{
    if ps.len() == 0 {
        Seq::empty()
    } else {
        params_tokens(ps.drop_last()) + pattern_tokens(ps.last().0.pattern.0) + type_tokens(ps.last().0.ty.0)
    }
}

/// The tokens of a statement, in source order.
pub open spec fn stmt_tokens(st: StmtIR) -> Seq<SemanticToken>
    decreases st,
{
    match st {
        StmtIR::Expr(e) => expr_tokens(e),
        StmtIR::Let(l) => pattern_tokens(l.pattern.0) + maybe_type_tokens(l.ty) + expr_tokens(l.expr.0),
        StmtIR::Assign(a) => expr_tokens(a.refr.0) + expr_tokens(a.value.0),
    }
}

/// The tokens of the statements of a block, one after the other.
pub open spec fn stmts_tokens(ss: Seq<Spanned<StmtIR>>) -> Seq<SemanticToken>
    decreases ss,
{
    if ss.len() == 0 {
        Seq::empty()
    } else {
        stmts_tokens(ss.drop_last()) + stmt_tokens(ss.last().0)
    }
}

/// Appends the tokens of the statements of a block.
fn block_tokens(stmts: &Vec<Spanned<StmtIR>>, tokens: &mut Vec<SemanticToken>)
    ensures
        final(tokens)@ == old(tokens)@ + stmts_tokens(stmts@),
    decreases stmts@, 1int,
{
    let mut i: usize = 0;
    proof {
        assert(stmts@.take(0) =~= Seq::<Spanned<StmtIR>>::empty());
        assert(tokens@ =~= old(tokens)@ + stmts_tokens(stmts@.take(0)));
    }
    while i < stmts.len()
        invariant
            i <= stmts@.len(),
            tokens@ == old(tokens)@ + stmts_tokens(stmts@.take(i as int)),
        decreases stmts@.len() - i,
    {
        proof {
            assert(decreases_to!(stmts@ => stmts@[i as int]));
            assert(stmts@.take(i + 1).drop_last() =~= stmts@.take(i as int));
        }
        stmts[i].0.tokens(tokens);
        proof {
            assert(tokens@ =~= old(tokens)@ + stmts_tokens(stmts@.take(i + 1)));
        }
        i = i + 1;
    }
    proof {
        assert(stmts@.take(i as int) =~= stmts@);
    }
}

/// Appends the tokens of a list of expressions.
fn list_expr_tokens(es: &Vec<Spanned<ExprIR>>, tokens: &mut Vec<SemanticToken>)
    ensures
        final(tokens)@ == old(tokens)@ + exprs_tokens(es@),
    decreases es@, 1int,
{
    let mut i: usize = 0;
    proof {
        assert(es@.take(0) =~= Seq::<Spanned<ExprIR>>::empty());
        assert(tokens@ =~= old(tokens)@ + exprs_tokens(es@.take(0)));
    }
    while i < es.len()
        invariant
            i <= es@.len(),
            tokens@ == old(tokens)@ + exprs_tokens(es@.take(i as int)),
        decreases es@.len() - i,
    {
        proof {
            assert(decreases_to!(es@ => es@[i as int]));
            assert(es@.take(i + 1).drop_last() =~= es@.take(i as int));
        }
        es[i].0.tokens(tokens);
        proof {
            assert(tokens@ =~= old(tokens)@ + exprs_tokens(es@.take(i + 1)));
        }
        i = i + 1;
    }
    proof {
        assert(es@.take(i as int) =~= es@);
    }
}

/// Appends the tokens of the arms of a match.
fn list_arm_tokens(arms: &Vec<Spanned<MatchArmIR>>, tokens: &mut Vec<SemanticToken>)
    ensures
        final(tokens)@ == old(tokens)@ + arms_tokens(arms@),
    decreases arms@, 1int,
{
    let mut i: usize = 0;
    proof {
        assert(arms@.take(0) =~= Seq::<Spanned<MatchArmIR>>::empty());
        assert(tokens@ =~= old(tokens)@ + arms_tokens(arms@.take(0)));
    }
    while i < arms.len()
        invariant
            i <= arms@.len(),
            tokens@ == old(tokens)@ + arms_tokens(arms@.take(i as int)),
        decreases arms@.len() - i,
    {
        proof {
            assert(decreases_to!(arms@ => arms@[i as int]));
            assert(decreases_to!(arms@[i as int] => arms@[i as int].0));
            assert(arms@.take(i + 1).drop_last() =~= arms@.take(i as int));
        }
        arms[i].0.pattern.0.tokens(tokens);
        arms[i].0.expr.0.tokens(tokens);
        proof {
            assert(tokens@ =~= old(tokens)@ + arms_tokens(arms@.take(i + 1)));
        }
        i = i + 1;
    }
    proof {
        assert(arms@.take(i as int) =~= arms@);
    }
}

/// Appends the tokens of the parameters of a lambda.
fn list_param_tokens(ps: &Vec<Spanned<LambdaParamIR>>, tokens: &mut Vec<SemanticToken>)
    ensures
        final(tokens)@ == old(tokens)@ + params_tokens(ps@),
{
    let mut i: usize = 0;
    proof {
        assert(ps@.take(0) =~= Seq::<Spanned<LambdaParamIR>>::empty());
        assert(tokens@ =~= old(tokens)@ + params_tokens(ps@.take(0)));
    }
    while i < ps.len()
        invariant
            i <= ps@.len(),
            tokens@ == old(tokens)@ + params_tokens(ps@.take(i as int)),
        decreases ps@.len() - i,
    {
        proof {
            assert(ps@.take(i + 1).drop_last() =~= ps@.take(i as int));
        }
        ps[i].0.pattern.0.tokens(tokens);
        ps[i].0.ty.0.tokens(tokens);
        proof {
            assert(tokens@ =~= old(tokens)@ + params_tokens(ps@.take(i + 1)));
        }
        i = i + 1;
    }
    proof {
        assert(ps@.take(i as int) =~= ps@);
    }
}

impl<'db> ExprIR<'db> {
    /// Appends the tokens of an expression, in source order.
    pub fn tokens(&self, tokens: &mut Vec<SemanticToken>)
        ensures
            final(tokens)@ == old(tokens)@ + expr_tokens(*self),
        decreases *self, 2int,
    {
        match &self.data {
            ExprIRData::Literal(_) | ExprIRData::Error => {
                proof {
                    assert(tokens@ =~= old(tokens)@ + expr_tokens(*self));
                }
            },
            ExprIRData::Field(field) => {
                field.struct_.0.tokens(tokens);
                push_token(tokens, field.name.1, TokenKind::Property);
                proof {
                    assert(tokens@ =~= old(tokens)@ + expr_tokens(*self));
                }
            },
            ExprIRData::Ident(name) => ident_tokens(name, tokens),
            ExprIRData::CodeBlock(block) => {
                proof {
                    assert(decreases_to!(*self => block.stmts@));
                }
                block_tokens(&block.stmts, tokens);
            },
            ExprIRData::Call(call) => {
                call.expr.0.tokens(tokens);
                proof {
                    assert(decreases_to!(*self => call.args@));
                }
                list_expr_tokens(&call.args, tokens);
                proof {
                    assert(tokens@ =~= old(tokens)@ + expr_tokens(*self));
                }
            },
            ExprIRData::Match(m) => {
                m.expr.0.tokens(tokens);
                proof {
                    assert(decreases_to!(*self => m.arms@));
                }
                list_arm_tokens(&m.arms, tokens);
                proof {
                    assert(tokens@ =~= old(tokens)@ + expr_tokens(*self));
                }
            },
            ExprIRData::Tuple(tuple) => {
                proof {
                    assert(decreases_to!(*self => tuple@));
                }
                list_expr_tokens(tuple, tokens);
            },
            ExprIRData::Op(op) => {
                op.left.0.tokens(tokens);
                op.right.0.tokens(tokens);
                proof {
                    assert(tokens@ =~= old(tokens)@ + expr_tokens(*self));
                }
            },
            ExprIRData::Lambda(lambda) => {
                list_param_tokens(&lambda.args, tokens);
                proof {
                    assert(decreases_to!(*self => lambda.body.0.stmts@));
                }
                block_tokens(&lambda.body.0.stmts, tokens);
                proof {
                    assert(tokens@ =~= old(tokens)@ + expr_tokens(*self));
                }
            },
            ExprIRData::While(w) => {
                w.expr.0.tokens(tokens);
                proof {
                    assert(decreases_to!(*self => w.block.0.stmts@));
                }
                block_tokens(&w.block.0.stmts, tokens);
                proof {
                    assert(tokens@ =~= old(tokens)@ + expr_tokens(*self));
                }
            },
        }
    }
}

impl<'db> StmtIR<'db> {
    /// Appends the tokens of a statement, in source order.
    pub fn tokens(&self, tokens: &mut Vec<SemanticToken>)
        ensures
            final(tokens)@ == old(tokens)@ + stmt_tokens(*self),
        decreases *self, 2int,
    {
        match self {
            StmtIR::Expr(e) => e.tokens(tokens),
            StmtIR::Let(l) => {
                l.pattern.0.tokens(tokens);
                match &l.ty {
                    Some(t) => t.0.tokens(tokens),
                    None => {},
                }
                proof {
                    assert(decreases_to!(*self => *l));
                    assert(decreases_to!(*l => l.expr.0));
                }
                l.expr.0.tokens(tokens);
                proof {
                    assert(tokens@ =~= old(tokens)@ + stmt_tokens(*self));
                }
            },
            StmtIR::Assign(a) => {
                proof {
                    assert(decreases_to!(*self => *a));
                    assert(decreases_to!(*a => a.refr.0));
                    assert(decreases_to!(*a => a.value.0));
                }
                a.refr.0.tokens(tokens);
                a.value.0.tokens(tokens);
                proof {
                    assert(tokens@ =~= old(tokens)@ + stmt_tokens(*self));
                }
            },
        }
    }
}

/// The tokens of the parameters of a function: each name, then its type.
pub open spec fn args_tokens(args: Seq<Spanned<FunctionArgIR>>) -> Seq<SemanticToken>
    decreases args.len(),
{
    if args.len() == 0 {
        Seq::empty()
    } else {
        let a = args.last().0;
        args_tokens(args.drop_last()) + seq![tok(a.name.1, TokenKind::Param)] + type_tokens(a.ty.0)
    }
}

/// The tokens of a function: receiver, name, generics, parameters, result and body.
pub open spec fn func_tokens(f: FuncIR) -> Seq<SemanticToken> {
    maybe_type_tokens(f.receiver) + seq![tok(f.name.1, TokenKind::Func)] + generics_tokens(f.generics.0.0@)
        + args_tokens(f.args@) + maybe_type_tokens(f.ret) + stmts_tokens(f.body.stmts@)
}

/// The tokens of a list of functions, one after the other.
pub open spec fn funcs_tokens(fs: Seq<Spanned<FuncIR>>) -> Seq<SemanticToken>
    decreases fs.len(),
{
    if fs.len() == 0 {
        Seq::empty()
    } else {
        funcs_tokens(fs.drop_last()) + func_tokens(fs.last().0)
    }
}

/// The tokens of named fields: each name, then its type.
pub open spec fn fields_tokens(fs: Seq<Spanned<StructFieldIR>>) -> Seq<SemanticToken>
    decreases fs.len(),
{
    if fs.len() == 0 {
        Seq::empty()
    } else {
        let f = fs.last().0;
        fields_tokens(fs.drop_last()) + seq![tok(f.name.1, TokenKind::Property)] + type_tokens(f.ty.0)
    }
}

/// The tokens of a struct body: field names are properties.
pub open spec fn struct_body_tokens(b: StructBodyIR) -> Seq<SemanticToken> {
    match b {
        StructBodyIR::Unit => Seq::empty(),
        StructBodyIR::Tuple(ts) => types_tokens(ts@),
        StructBodyIR::Fields(fs) => fields_tokens(fs@),
    }
}

/// The tokens of a top-level item; an enum shows only its name.
pub open spec fn top_tokens(t: TopIR) -> Seq<SemanticToken> {
    match t {
        TopIR::Func(f) => func_tokens(f),
        TopIR::Struct(s) => seq![tok(s.name.1, TokenKind::Struct)] + generics_tokens(s.generics.0.0@) + struct_body_tokens(
            s.body.0,
        ),
        TopIR::Enum(e) => seq![tok(e.name.1, TokenKind::Enum)],
        TopIR::Trait(t) => seq![tok(t.name.1, TokenKind::Trait)] + generics_tokens(t.generics.0.0@) + funcs_tokens(t.body@),
        TopIR::Impl(i) => generics_tokens(i.generics.0.0@) + type_tokens(i.for_.0) + maybe_type_tokens(i.trait_)
            + funcs_tokens(i.body@),
        TopIR::Use(u) => name_tokens(u@),
    }
}

/// The tokens of the items of a file, one after the other.
pub open spec fn tops_tokens(ts: Seq<Spanned<TopIR>>) -> Seq<SemanticToken>
    decreases ts.len(),
{
    if ts.len() == 0 {
        Seq::empty()
    } else {
        tops_tokens(ts.drop_last()) + top_tokens(ts.last().0)
    }
}

/// Appends the tokens of a type that may be absent.
fn maybe_tokens(t: &Option<Spanned<TypeIR>>, tokens: &mut Vec<SemanticToken>)
    ensures
        final(tokens)@ == old(tokens)@ + maybe_type_tokens(*t),
{
    match t {
        Some(r) => r.0.tokens(tokens),
        None => {
            proof {
                assert(tokens@ =~= old(tokens)@ + maybe_type_tokens(*t));
            }
        },
    }
}

impl<'db> FuncIR<'db> {
    /// Appends the tokens of a function: receiver, name, generics, parameters, result and body.
    pub fn tokens(&self, tokens: &mut Vec<SemanticToken>)
        ensures
            final(tokens)@ == old(tokens)@ + func_tokens(*self),
    {
        maybe_tokens(&self.receiver, tokens);
        push_token(tokens, self.name.1, TokenKind::Func);
        self.generics.0.tokens(tokens);
        let ghost s3 = tokens@;
        let mut i: usize = 0;
        proof {
            assert(self.args@.take(0) =~= Seq::<Spanned<FunctionArgIR>>::empty());
            assert(tokens@ =~= s3 + args_tokens(self.args@.take(0)));
        }
        while i < self.args.len()
            invariant
                i <= self.args@.len(),
                tokens@ == s3 + args_tokens(self.args@.take(i as int)),
            decreases self.args@.len() - i,
        {
            proof {
                assert(self.args@.take(i + 1).drop_last() =~= self.args@.take(i as int));
            }
            push_token(tokens, self.args[i].0.name.1, TokenKind::Param);
            self.args[i].0.ty.0.tokens(tokens);
            proof {
                assert(tokens@ =~= s3 + args_tokens(self.args@.take(i + 1)));
            }
            i = i + 1;
        }
        proof {
            assert(self.args@.take(i as int) =~= self.args@);
        }
        maybe_tokens(&self.ret, tokens);
        block_tokens(&self.body.stmts, tokens);
        proof {
            assert(tokens@ =~= old(tokens)@ + func_tokens(*self));
        }
    }
}

/// Appends the tokens of a struct body: field names are properties.
fn body_tokens(body: &StructBodyIR, tokens: &mut Vec<SemanticToken>)
    ensures
        final(tokens)@ == old(tokens)@ + struct_body_tokens(*body),
{
    match body {
        StructBodyIR::Unit => {
            proof {
                assert(tokens@ =~= old(tokens)@ + struct_body_tokens(*body));
            }
        },
        StructBodyIR::Tuple(ts) => list_type_tokens(ts, tokens),
        StructBodyIR::Fields(fs) => {
            let mut i: usize = 0;
            proof {
                assert(fs@.take(0) =~= Seq::<Spanned<StructFieldIR>>::empty());
                assert(tokens@ =~= old(tokens)@ + fields_tokens(fs@.take(0)));
            }
            while i < fs.len()
                invariant
                    i <= fs@.len(),
                    tokens@ == old(tokens)@ + fields_tokens(fs@.take(i as int)),
                decreases fs@.len() - i,
            {
                proof {
                    assert(fs@.take(i + 1).drop_last() =~= fs@.take(i as int));
                }
                push_token(tokens, fs[i].0.name.1, TokenKind::Property);
                fs[i].0.ty.0.tokens(tokens);
                proof {
                    assert(tokens@ =~= old(tokens)@ + fields_tokens(fs@.take(i + 1)));
                }
                i = i + 1;
            }
            proof {
                assert(fs@.take(i as int) =~= fs@);
            }
        },
    }
}

/// Appends the tokens of a list of functions.
fn list_func_tokens(funcs: &Vec<Spanned<FuncIR>>, tokens: &mut Vec<SemanticToken>)
    ensures
        final(tokens)@ == old(tokens)@ + funcs_tokens(funcs@),
{
    let mut i: usize = 0;
    proof {
        assert(funcs@.take(0) =~= Seq::<Spanned<FuncIR>>::empty());
        assert(tokens@ =~= old(tokens)@ + funcs_tokens(funcs@.take(0)));
    }
    while i < funcs.len()
        invariant
            i <= funcs@.len(),
            tokens@ == old(tokens)@ + funcs_tokens(funcs@.take(i as int)),
        decreases funcs@.len() - i,
    {
        proof {
            assert(funcs@.take(i + 1).drop_last() =~= funcs@.take(i as int));
        }
        funcs[i].0.tokens(tokens);
        proof {
            assert(tokens@ =~= old(tokens)@ + funcs_tokens(funcs@.take(i + 1)));
        }
        i = i + 1;
    }
    proof {
        assert(funcs@.take(i as int) =~= funcs@);
    }
}

impl<'db> TopIR<'db> {
    /// Appends the tokens of a top-level item. An enum shows only its name.
    pub fn tokens(&self, tokens: &mut Vec<SemanticToken>)
        ensures
            final(tokens)@ == old(tokens)@ + top_tokens(*self),
    {
        match self {
            TopIR::Func(f) => f.tokens(tokens),
            TopIR::Struct(s) => {
                push_token(tokens, s.name.1, TokenKind::Struct);
                s.generics.0.tokens(tokens);
                body_tokens(&s.body.0, tokens);
                proof {
                    assert(tokens@ =~= old(tokens)@ + top_tokens(*self));
                }
            },
            TopIR::Enum(e) => {
                push_token(tokens, e.name.1, TokenKind::Enum);
                proof {
                    assert(tokens@ =~= old(tokens)@ + top_tokens(*self));
                }
            },
            TopIR::Trait(t) => {
                push_token(tokens, t.name.1, TokenKind::Trait);
                t.generics.0.tokens(tokens);
                list_func_tokens(&t.body, tokens);
                proof {
                    assert(tokens@ =~= old(tokens)@ + top_tokens(*self));
                }
            },
            TopIR::Impl(i) => {
                i.generics.0.tokens(tokens);
                i.for_.0.tokens(tokens);
                maybe_tokens(&i.trait_, tokens);
                list_func_tokens(&i.body, tokens);
                proof {
                    assert(tokens@ =~= old(tokens)@ + top_tokens(*self));
                }
            },
            TopIR::Use(u) => ident_tokens(u, tokens),
        }
    }
}

impl<'db> FileIR<'db> {
    /// The tokens of the whole file, item by item.
    pub fn tokens(&self) -> (r: Vec<SemanticToken>)
        ensures
            r@ == tops_tokens(self.tops@),
    {
        let mut tokens: Vec<SemanticToken> = Vec::new();
        let mut i: usize = 0;
        proof {
            assert(self.tops@.take(0) =~= Seq::<Spanned<TopIR>>::empty());
        }
        while i < self.tops.len()
            invariant
                i <= self.tops@.len(),
                tokens@ == tops_tokens(self.tops@.take(i as int)),
            decreases self.tops@.len() - i,
        {
            proof {
                assert(self.tops@.take(i + 1).drop_last() =~= self.tops@.take(i as int));
            }
            self.tops[i].0.tokens(&mut tokens);
            i = i + 1;
        }
        proof {
            assert(self.tops@.take(i as int) =~= self.tops@);
        }
        tokens
    }
}


/// The spans at which a path refers to a local variable.
pub open spec fn name_var_uses(name: Seq<Spanned<IdentDef>>) -> Set<Span> {
    Set::new(|s: Span| exists|k: int| 0 <= k < name.len() && name[k].0 is Variable && name[k].1 == s)
}

/// The spans at which an expression refers to a local variable, in any of its parts.
pub open spec fn var_uses(e: ExprIR) -> Set<Span>
    decreases e,
{
    match e.data {
        ExprIRData::Literal(_) => Set::empty(),
        ExprIRData::Error => Set::empty(),
        ExprIRData::Field(f) => var_uses(f.struct_.0),
        ExprIRData::Ident(name) => name_var_uses(name@),
        ExprIRData::CodeBlock(b) => stmts_var_uses(b.stmts@),
        ExprIRData::Call(c) => var_uses(c.expr.0).union(exprs_var_uses(c.args@)),
        ExprIRData::Match(m) => var_uses(m.expr.0).union(arms_var_uses(m.arms@)),
        ExprIRData::Tuple(t) => exprs_var_uses(t@),
        ExprIRData::Op(o) => var_uses(o.left.0).union(var_uses(o.right.0)),
        ExprIRData::Lambda(l) => stmts_var_uses(l.body.0.stmts@),
        ExprIRData::While(w) => var_uses(w.expr.0).union(stmts_var_uses(w.block.0.stmts@)),
    }
}

/// The spans at which a list of expressions refers to a local variable.
pub open spec fn exprs_var_uses(es: Seq<Spanned<ExprIR>>) -> Set<Span>
    decreases es,
{
    if es.len() == 0 {
        Set::empty()
    } else {
        exprs_var_uses(es.drop_last()).union(var_uses(es.last().0))
    }
}

/// The spans at which the expressions of match arms refer to a local variable.
pub open spec fn arms_var_uses(arms: Seq<Spanned<MatchArmIR>>) -> Set<Span>
    decreases arms,
{
    if arms.len() == 0 {
        Set::empty()
    } else {
        arms_var_uses(arms.drop_last()).union(var_uses(arms.last().0.expr.0))
    }
}

/// The spans at which the expressions of a statement refer to a local variable.
pub open spec fn stmt_var_uses(st: StmtIR) -> Set<Span>
    decreases st,
{
    match st {
        StmtIR::Expr(e) => var_uses(e),
        StmtIR::Let(l) => var_uses(l.expr.0),
        StmtIR::Assign(a) => var_uses(a.refr.0).union(var_uses(a.value.0)),
    }
}

/// The spans at which the statements of a block refer to a local variable.
pub open spec fn stmts_var_uses(ss: Seq<Spanned<StmtIR>>) -> Set<Span>
    decreases ss,
{
    if ss.len() == 0 {
        Set::empty()
    } else {
        stmts_var_uses(ss.drop_last()).union(stmt_var_uses(ss.last().0))
    }
}

/// A token of either part is a token of both parts together.
proof fn lemma_concat_contains(a: Seq<SemanticToken>, b: Seq<SemanticToken>, x: SemanticToken)
    ensures
        a.contains(x) || b.contains(x) ==> (a + b).contains(x),
{
    if a.contains(x) {
        let i = choose|i: int| 0 <= i < a.len() && a[i] == x;
        assert((a + b)[i] == x);
    } else if b.contains(x) {
        let j = choose|j: int| 0 <= j < b.len() && b[j] == x;
        assert((a + b)[a.len() + j] == x);
    }
}

/// Each part of a path that refers to a variable is highlighted as a variable at its span.
proof fn lemma_name_var_tokens(name: Seq<Spanned<IdentDef>>)
    ensures
        forall|s: Span| #[trigger] name_var_uses(name).contains(s) ==> name_tokens(name).contains(tok(s, TokenKind::Var)),
    decreases name.len(),
{
    if name.len() > 0 {
        lemma_name_var_tokens(name.drop_last());
        assert forall|s: Span| #[trigger] name_var_uses(name).contains(s) implies name_tokens(name).contains(
            tok(s, TokenKind::Var),
        ) by {
            let k = choose|k: int| 0 <= k < name.len() && name[k].0 is Variable && name[k].1 == s;
            let front = name_tokens(name.drop_last());
            if k < name.len() - 1 {
                assert(name.drop_last()[k] == name[k]);
                assert(name_var_uses(name.drop_last()).contains(s));
                assert(front.contains(tok(s, TokenKind::Var)));
                let i = choose|i: int| 0 <= i < front.len() && front[i] == tok(s, TokenKind::Var);
                match def_kind(name.last().0) {
                    Some(kind) => {
                        assert(front.push(SemanticToken { span: name.last().1, kind })[i] == tok(s, TokenKind::Var));
                    },
                    None => {},
                }
            } else {
                let t = front.push(SemanticToken { span: name.last().1, kind: TokenKind::Var });
                assert(t[t.len() - 1] == tok(s, TokenKind::Var));
            }
        }
    }
}

/// Every use of a local variable in an expression, in any of its parts, gives a variable token at
/// its span: no part of an expression is left out of its tokens.
pub proof fn law_var_uses_have_tokens(e: ExprIR)
    ensures
        forall|s: Span| #[trigger] var_uses(e).contains(s) ==> expr_tokens(e).contains(tok(s, TokenKind::Var)),
    decreases e,
{
    match e.data {
        ExprIRData::Literal(_) => {
            assert(var_uses(e) == Set::<Span>::empty());
        },
        ExprIRData::Error => {
            assert(var_uses(e) == Set::<Span>::empty());
        },
        ExprIRData::Field(f) => {
            law_var_uses_have_tokens(f.struct_.0);
            assert forall|s: Span| #[trigger] var_uses(e).contains(s) implies expr_tokens(e).contains(tok(s, TokenKind::Var)) by {
                assert(var_uses(e) == var_uses(f.struct_.0));
                assert(expr_tokens(e) == expr_tokens(f.struct_.0) + seq![tok(f.name.1, TokenKind::Property)]);
                lemma_concat_contains(expr_tokens(f.struct_.0), seq![tok(f.name.1, TokenKind::Property)], tok(s, TokenKind::Var));
            }
        },
        ExprIRData::Ident(name) => {
            lemma_name_var_tokens(name@);
            assert(var_uses(e) == name_var_uses(name@));
            assert(expr_tokens(e) == name_tokens(name@));
        },
        ExprIRData::CodeBlock(b) => {
            lemma_stmts_var_tokens(b.stmts@);
            assert(var_uses(e) == stmts_var_uses(b.stmts@));
            assert(expr_tokens(e) == stmts_tokens(b.stmts@));
        },
        ExprIRData::Call(c) => {
            law_var_uses_have_tokens(c.expr.0);
            lemma_exprs_var_tokens(c.args@);
            assert forall|s: Span| #[trigger] var_uses(e).contains(s) implies expr_tokens(e).contains(tok(s, TokenKind::Var)) by {
                assert(var_uses(e) == var_uses(c.expr.0).union(exprs_var_uses(c.args@)));
                assert(expr_tokens(e) == expr_tokens(c.expr.0) + exprs_tokens(c.args@));
                lemma_concat_contains(expr_tokens(c.expr.0), exprs_tokens(c.args@), tok(s, TokenKind::Var));
            }
        },
        ExprIRData::Match(m) => {
            law_var_uses_have_tokens(m.expr.0);
            lemma_arms_var_tokens(m.arms@);
            assert forall|s: Span| #[trigger] var_uses(e).contains(s) implies expr_tokens(e).contains(tok(s, TokenKind::Var)) by {
                assert(var_uses(e) == var_uses(m.expr.0).union(arms_var_uses(m.arms@)));
                assert(expr_tokens(e) == expr_tokens(m.expr.0) + arms_tokens(m.arms@));
                lemma_concat_contains(expr_tokens(m.expr.0), arms_tokens(m.arms@), tok(s, TokenKind::Var));
            }
        },
        ExprIRData::Tuple(t) => {
            lemma_exprs_var_tokens(t@);
            assert(var_uses(e) == exprs_var_uses(t@));
            assert(expr_tokens(e) == exprs_tokens(t@));
        },
        ExprIRData::Op(o) => {
            law_var_uses_have_tokens(o.left.0);
            law_var_uses_have_tokens(o.right.0);
            assert forall|s: Span| #[trigger] var_uses(e).contains(s) implies expr_tokens(e).contains(tok(s, TokenKind::Var)) by {
                assert(var_uses(e) == var_uses(o.left.0).union(var_uses(o.right.0)));
                assert(var_uses(o.left.0).contains(s) || var_uses(o.right.0).contains(s));
                assert(expr_tokens(o.left.0).contains(tok(s, TokenKind::Var)) || expr_tokens(o.right.0).contains(tok(s, TokenKind::Var)));
                lemma_concat_contains(expr_tokens(o.left.0), expr_tokens(o.right.0), tok(s, TokenKind::Var));
                assert(expr_tokens(e) == expr_tokens(o.left.0) + expr_tokens(o.right.0));
            }
        },
        ExprIRData::Lambda(l) => {
            lemma_stmts_var_tokens(l.body.0.stmts@);
            assert forall|s: Span| #[trigger] var_uses(e).contains(s) implies expr_tokens(e).contains(tok(s, TokenKind::Var)) by {
                assert(var_uses(e) == stmts_var_uses(l.body.0.stmts@));
                assert(expr_tokens(e) == params_tokens(l.args@) + stmts_tokens(l.body.0.stmts@));
                lemma_concat_contains(params_tokens(l.args@), stmts_tokens(l.body.0.stmts@), tok(s, TokenKind::Var));
            }
        },
        ExprIRData::While(w) => {
            law_var_uses_have_tokens(w.expr.0);
            lemma_stmts_var_tokens(w.block.0.stmts@);
            assert forall|s: Span| #[trigger] var_uses(e).contains(s) implies expr_tokens(e).contains(tok(s, TokenKind::Var)) by {
                assert(var_uses(e) == var_uses(w.expr.0).union(stmts_var_uses(w.block.0.stmts@)));
                assert(expr_tokens(e) == expr_tokens(w.expr.0) + stmts_tokens(w.block.0.stmts@));
                lemma_concat_contains(expr_tokens(w.expr.0), stmts_tokens(w.block.0.stmts@), tok(s, TokenKind::Var));
            }
        },
    }
}

proof fn lemma_exprs_var_tokens(es: Seq<Spanned<ExprIR>>)
    ensures
        forall|s: Span| #[trigger] exprs_var_uses(es).contains(s) ==> exprs_tokens(es).contains(tok(s, TokenKind::Var)),
    decreases es,
{
    if es.len() > 0 {
        lemma_exprs_var_tokens(es.drop_last());
        law_var_uses_have_tokens(es.last().0);
        assert forall|s: Span| #[trigger] exprs_var_uses(es).contains(s) implies exprs_tokens(es).contains(tok(s, TokenKind::Var)) by {
            assert(exprs_var_uses(es) == exprs_var_uses(es.drop_last()).union(var_uses(es.last().0)));
            assert(exprs_tokens(es) == exprs_tokens(es.drop_last()) + expr_tokens(es.last().0));
            lemma_concat_contains(exprs_tokens(es.drop_last()), expr_tokens(es.last().0), tok(s, TokenKind::Var));
        }
    }
}

proof fn lemma_arms_var_tokens(arms: Seq<Spanned<MatchArmIR>>)
    ensures
        forall|s: Span| #[trigger] arms_var_uses(arms).contains(s) ==> arms_tokens(arms).contains(tok(s, TokenKind::Var)),
    decreases arms,
{
    if arms.len() > 0 {
        lemma_arms_var_tokens(arms.drop_last());
        law_var_uses_have_tokens(arms.last().0.expr.0);
        assert forall|s: Span| #[trigger] arms_var_uses(arms).contains(s) implies arms_tokens(arms).contains(tok(s, TokenKind::Var)) by {
            let a = arms_tokens(arms.drop_last());
            let p = pattern_tokens(arms.last().0.pattern.0);
            let x = expr_tokens(arms.last().0.expr.0);
            assert(arms_var_uses(arms) == arms_var_uses(arms.drop_last()).union(var_uses(arms.last().0.expr.0)));
            assert(arms_tokens(arms) == a + p + x);
            lemma_concat_contains(a, p, tok(s, TokenKind::Var));
            lemma_concat_contains(a + p, x, tok(s, TokenKind::Var));
        }
    }
}

proof fn lemma_stmt_var_tokens(st: StmtIR)
    ensures
        forall|s: Span| #[trigger] stmt_var_uses(st).contains(s) ==> stmt_tokens(st).contains(tok(s, TokenKind::Var)),
    decreases st,
{
    match st {
        StmtIR::Expr(e) => {
            law_var_uses_have_tokens(e);
            assert(stmt_var_uses(st) == var_uses(e));
            assert(stmt_tokens(st) == expr_tokens(e));
        },
        StmtIR::Let(l) => {
            law_var_uses_have_tokens(l.expr.0);
            assert forall|s: Span| #[trigger] stmt_var_uses(st).contains(s) implies stmt_tokens(st).contains(tok(s, TokenKind::Var)) by {
                assert(stmt_var_uses(st) == var_uses(l.expr.0));
                assert(stmt_tokens(st) == pattern_tokens(l.pattern.0) + maybe_type_tokens(l.ty) + expr_tokens(l.expr.0));
                lemma_concat_contains(
                    pattern_tokens(l.pattern.0) + maybe_type_tokens(l.ty),
                    expr_tokens(l.expr.0),
                    tok(s, TokenKind::Var),
                );
            }
        },
        StmtIR::Assign(a) => {
            law_var_uses_have_tokens(a.refr.0);
            law_var_uses_have_tokens(a.value.0);
            assert forall|s: Span| #[trigger] stmt_var_uses(st).contains(s) implies stmt_tokens(st).contains(tok(s, TokenKind::Var)) by {
                assert(stmt_var_uses(st) == var_uses(a.refr.0).union(var_uses(a.value.0)));
                assert(stmt_tokens(st) == expr_tokens(a.refr.0) + expr_tokens(a.value.0));
                lemma_concat_contains(expr_tokens(a.refr.0), expr_tokens(a.value.0), tok(s, TokenKind::Var));
            }
        },
    }
}

proof fn lemma_stmts_var_tokens(ss: Seq<Spanned<StmtIR>>)
    ensures
        forall|s: Span| #[trigger] stmts_var_uses(ss).contains(s) ==> stmts_tokens(ss).contains(tok(s, TokenKind::Var)),
    decreases ss,
{
    if ss.len() > 0 {
        lemma_stmts_var_tokens(ss.drop_last());
        lemma_stmt_var_tokens(ss.last().0);
        assert forall|s: Span| #[trigger] stmts_var_uses(ss).contains(s) implies stmts_tokens(ss).contains(tok(s, TokenKind::Var)) by {
            assert(stmts_var_uses(ss) == stmts_var_uses(ss.drop_last()).union(stmt_var_uses(ss.last().0)));
            assert(stmts_tokens(ss) == stmts_tokens(ss.drop_last()) + stmt_tokens(ss.last().0));
            lemma_concat_contains(stmts_tokens(ss.drop_last()), stmt_tokens(ss.last().0), tok(s, TokenKind::Var));
        }
    }
}


/// The name of an accessed field is highlighted as a property at its span, after the tokens of
/// the value it is taken from.
pub proof fn law_field_name_token(e: ExprIR)
    ensures
        e.data matches ExprIRData::Field(f) ==> {
            &&& expr_tokens(e).last() == tok(f.name.1, TokenKind::Property)
            &&& expr_tokens(e).drop_last() == expr_tokens(f.struct_.0)
        },
{
    if let ExprIRData::Field(f) = e.data {
        assert(expr_tokens(e).drop_last() =~= expr_tokens(f.struct_.0));
    }
}

} // verus!
