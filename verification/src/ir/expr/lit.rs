use vstd::prelude::*;

use crate::parser::ast::{lit_view, Literal, LiteralModel};
use crate::ty::{spec_std_named, std_named, Ty, TyModel};
use crate::util::push_char;

verus! {

/// The type of a literal: the standard type of its kind.
pub open spec fn lit_ty_model(l: Literal) -> TyModel {
    match l {
        Literal::String(_) => spec_std_named("String"@),
        Literal::Int(_) => spec_std_named("Int"@),
        Literal::Bool(_) => spec_std_named("Bool"@),
        Literal::Float(_) => spec_std_named("Float"@),
        Literal::Char(_) => spec_std_named("Char"@),
    }
}

/// The text with each backslash followed by `n` turned into a newline, scanning left to right.
pub open spec fn unescape_newlines(s: Seq<char>) -> Seq<char>
    decreases s.len(),
{
    if s.len() == 0 {
        s
    } else if s.len() >= 2 && s[0] == '\\' && s[1] == 'n' {
        seq!['\n'] + unescape_newlines(s.skip(2))
    } else {
        seq![s[0]] + unescape_newlines(s.skip(1))
    }
}

/// The text of a string literal as a value: `\n` becomes a newline.
pub fn unescape(text: &str) -> (r: String)
    ensures
        r@ == unescape_newlines(text@),
{
    let n = text.unicode_len();
    let mut out = String::new();
    let mut i: usize = 0;
    proof {
        assert(text@.skip(0) =~= text@);
    }
    while i < n
        invariant
            i <= n,
            n == text@.len(),
            out@ + unescape_newlines(text@.skip(i as int)) == unescape_newlines(text@),
        decreases n - i,
    {
        let c = text.get_char(i);
        let ghost rest = text@.skip(i as int);
        if c == '\\' && i + 1 < n && text.get_char(i + 1) == 'n' {
            proof {
                assert(rest.skip(2) =~= text@.skip(i + 2));
                assert(out@.push('\n') + unescape_newlines(text@.skip(i + 2)) =~= out@ + unescape_newlines(rest));
            }
            push_char(&mut out, '\n');
            i = i + 2;
        } else {
            proof {
                assert(rest.skip(1) =~= text@.skip(i + 1));
                assert(out@.push(c) + unescape_newlines(text@.skip(i + 1)) =~= out@ + unescape_newlines(rest));
            }
            push_char(&mut out, c);
            i = i + 1;
        }
    }
    proof {
        assert(text@.skip(i as int) =~= Seq::<char>::empty());
        assert(out@ + unescape_newlines(Seq::<char>::empty()) =~= out@);
    }
    out
}

impl Literal {
    /// The type of the literal.
    pub fn to_ty(&self) -> (r: Ty)
        ensures
            r@ == lit_ty_model(*self),
    {
        match self {
            Literal::String(_) => std_named("String"),
            Literal::Int(_) => std_named("Int"),
            Literal::Bool(_) => std_named("Bool"),
            Literal::Float(_) => std_named("Float"),
            Literal::Char(_) => std_named("Char"),
        }
    }

    /// The literal as a value: in a string, `\n` becomes a newline; other literals are kept.
    pub fn replace_chars(&self) -> (r: Literal)
        ensures
            lit_view(r) == match lit_view(*self) {
                LiteralModel::String(s) => LiteralModel::String(unescape_newlines(s)),
                m => m,
            },
    {
        match self {
            Literal::String(text) => Literal::String(unescape(text.as_str())),
            _ => self.copy(),
        }
    }
}

/// Whether a text holds no escaped newline: no `\` directly followed by `n`.
pub open spec fn no_escape(t: Seq<char>) -> bool {
    forall|i: int| 0 <= i < t.len() - 1 ==> !(#[trigger] t[i] == '\\' && t[i + 1] == 'n')
}

/// The first character of an unescaped text.
proof fn lemma_unescape_first(t: Seq<char>)
    requires
        t.len() > 0,
    ensures
        unescape_newlines(t).len() > 0,
        unescape_newlines(t)[0] == if t.len() >= 2 && t[0] == '\\' && t[1] == 'n' {
            '\n'
        } else {
            t[0]
        },
{
}

/// Unescaping leaves no escaped newline behind.
proof fn lemma_unescape_clean(s: Seq<char>)
    ensures
        no_escape(unescape_newlines(s)),
    decreases s.len(),
{
    if s.len() > 0 {
        let u = unescape_newlines(s);
        if s.len() >= 2 && s[0] == '\\' && s[1] == 'n' {
            let rest = unescape_newlines(s.skip(2));
            lemma_unescape_clean(s.skip(2));
            assert(u == seq!['\n'] + rest);
            assert forall|i: int| 0 <= i < u.len() - 1 implies !(#[trigger] u[i] == '\\' && u[i + 1] == 'n') by {
                if i > 0 {
                    assert(u[i] == rest[i - 1] && u[i + 1] == rest[i]);
                }
            }
        } else {
            let rest = unescape_newlines(s.skip(1));
            lemma_unescape_clean(s.skip(1));
            assert(u == seq![s[0]] + rest);
            if s.len() > 1 {
                lemma_unescape_first(s.skip(1));
            }
            assert forall|i: int| 0 <= i < u.len() - 1 implies !(#[trigger] u[i] == '\\' && u[i + 1] == 'n') by {
                if i > 0 {
                    assert(u[i] == rest[i - 1] && u[i + 1] == rest[i]);
                } else {
                    assert(u[1] == rest[0]);
                }
            }
        }
    }
}

/// A text without escaped newlines is its own unescaped form.
proof fn lemma_unescape_clean_fixed(t: Seq<char>)
    requires
        no_escape(t),
    ensures
        unescape_newlines(t) == t,
    decreases t.len(),
{
    if t.len() > 0 {
        if t.len() >= 2 {
            assert(!(t[0] == '\\' && t[1] == 'n'));
        }
        let r = t.skip(1);
        assert forall|i: int| 0 <= i < r.len() - 1 implies !(#[trigger] r[i] == '\\' && r[i + 1] == 'n') by {
            assert(r[i] == t[i + 1] && r[i + 1] == t[i + 2]);
        }
        lemma_unescape_clean_fixed(r);
        assert(seq![t[0]] + r =~= t);
    }
}

/// Unescaping newlines twice is unescaping them once: the text of a literal, once its escapes are
/// replaced, has none left.
pub proof fn law_unescape_idempotent(s: Seq<char>)
    ensures
        unescape_newlines(unescape_newlines(s)) == unescape_newlines(s),
{
    lemma_unescape_clean(s);
    lemma_unescape_clean_fixed(unescape_newlines(s));
}


/// A literal has the standard type named after its kind: a string is a `std::String`, an integer a
/// `std::Int`, a boolean a `std::Bool`, a float a `std::Float` and a character a `std::Char`; two
/// literals have the same type only when they are of the same kind.
pub proof fn law_literal_type(l: Literal, m: Literal)
    ensures
        l is String ==> lit_ty_model(l) == TyModel::Named(seq!["std"@, "String"@], Seq::empty()),
        l is Int ==> lit_ty_model(l) == TyModel::Named(seq!["std"@, "Int"@], Seq::empty()),
        l is Bool ==> lit_ty_model(l) == TyModel::Named(seq!["std"@, "Bool"@], Seq::empty()),
        l is Float ==> lit_ty_model(l) == TyModel::Named(seq!["std"@, "Float"@], Seq::empty()),
        l is Char ==> lit_ty_model(l) == TyModel::Named(seq!["std"@, "Char"@], Seq::empty()),
        lit_ty_model(l) == lit_ty_model(m) ==> {
            &&& (l is String <==> m is String)
            &&& (l is Int <==> m is Int)
            &&& (l is Bool <==> m is Bool)
            &&& (l is Float <==> m is Float)
            &&& (l is Char <==> m is Char)
        },
{
    reveal_strlit("String");
    reveal_strlit("Int");
    reveal_strlit("Bool");
    reveal_strlit("Float");
    reveal_strlit("Char");
    let a = lit_ty_model(l)->Named_0[1];
    let b = lit_ty_model(m)->Named_0[1];
    assert(a[0] == match l {
        Literal::String(_) => 'S',
        Literal::Int(_) => 'I',
        Literal::Bool(_) => 'B',
        Literal::Float(_) => 'F',
        Literal::Char(_) => 'C',
    });
    assert(b[0] == match m {
        Literal::String(_) => 'S',
        Literal::Int(_) => 'I',
        Literal::Bool(_) => 'B',
        Literal::Float(_) => 'F',
        Literal::Char(_) => 'C',
    });
}

} // verus!
