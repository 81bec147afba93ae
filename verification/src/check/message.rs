use vstd::prelude::*;

use crate::check::err::CheckError;
use crate::ty::{tys_view, Ty, TyModel};
use crate::util::{push_char, push_str, strings_view};

verus! {

broadcast use vstd::std_specs::vec::group_vec_axioms;

/// The character of a decimal digit.
pub open spec fn digit_char(d: nat) -> char {
    if d == 0 {
        '0'
    } else if d == 1 {
        '1'
    } else if d == 2 {
        '2'
    } else if d == 3 {
        '3'
    } else if d == 4 {
        '4'
    } else if d == 5 {
        '5'
    } else if d == 6 {
        '6'
    } else if d == 7 {
        '7'
    } else if d == 8 {
        '8'
    } else {
        '9'
    }
}

/// The decimal digits of a number.
pub open spec fn nat_text(n: nat) -> Seq<char>
    decreases n,
{
    if n < 10 {
        seq![digit_char(n)]
    } else {
        nat_text(n / 10).push(digit_char(n % 10))
    }
}

/// The parts joined with `sep` between each two.
pub open spec fn join_with(parts: Seq<Seq<char>>, sep: Seq<char>) -> Seq<char>
    decreases parts.len(),
{
    if parts.len() == 0 {
        Seq::empty()
    } else if parts.len() == 1 {
        parts[0]
    } else {
        join_with(parts.drop_last(), sep) + sep + parts.last()
    }
}

/// The names of types joined with `sep`.
pub open spec fn tys_text(ts: Seq<TyModel>, sep: Seq<char>) -> Seq<char>
    decreases ts, 0int,
{
    if ts.len() == 0 {
        Seq::empty()
    } else if ts.len() == 1 {
        ty_text(ts[0])
    } else {
        tys_text(ts.drop_last(), sep) + sep + ty_text(ts.last())
    }
}

/// The type arguments of a named type in brackets, where it has any.
pub open spec fn args_text(args: Seq<TyModel>) -> Seq<char>
    decreases args, 1int,
{
    if args.len() > 0 {
        "["@ + tys_text(args, ", "@) + "]"@
    } else {
        Seq::empty()
    }
}

/// The receiver of a method type followed by a dot, where it has one.
pub open spec fn receiver_text(rec: Option<Box<TyModel>>) -> Seq<char>
    decreases rec, 1int,
{
    match rec {
        Some(r) => ty_text(*r) + "."@,
        None => Seq::empty(),
    }
}

/// The name a type is written with in messages.
pub open spec fn ty_text(t: TyModel) -> Seq<char>
    decreases t, 0int,
{
    match t {
        TyModel::Any => "Any"@,
        TyModel::Unknown => "Unknown"@,
        TyModel::Nothing => "Nothing"@,
        TyModel::Named(name, args) => join_with(name, "::"@) + args_text(args),
        TyModel::Generic(g) => g.name,
        TyModel::TypeVar(id) => "{unknown #"@ + nat_text(id as nat) + "}"@,
        TyModel::Function(rec, args, ret) => receiver_text(rec) + "("@ + tys_text(args, ", "@) + ") -> "@ + ty_text(*ret),
        TyModel::Tuple(ts) => "("@ + tys_text(ts, ", "@) + ")"@,
        TyModel::Sum(ts) => tys_text(ts, " | "@),
        TyModel::Meta(inner) => "Type["@ + ty_text(*inner) + "]"@,
    }
}

/// The character of a decimal digit.
fn digit(d: u64) -> (c: char)
    requires
        d < 10,
    ensures
        c == digit_char(d as nat),
{
    if d == 0 {
        '0'
    } else if d == 1 {
        '1'
    } else if d == 2 {
        '2'
    } else if d == 3 {
        '3'
    } else if d == 4 {
        '4'
    } else if d == 5 {
        '5'
    } else if d == 6 {
        '6'
    } else if d == 7 {
        '7'
    } else if d == 8 {
        '8'
    } else {
        '9'
    }
}

/// Appends the decimal digits of `n`.
pub fn push_nat(s: &mut String, n: u64)
    ensures
        final(s)@ == old(s)@ + nat_text(n as nat),
    decreases n,
{
    if n < 10 {
        push_char(s, digit(n));
        proof {
            assert(old(s)@ + nat_text(n as nat) =~= old(s)@.push(digit_char(n as nat)));
        }
    } else {
        push_nat(s, n / 10);
        push_char(s, digit(n % 10));
        proof {
            assert(old(s)@ + nat_text(n as nat) =~= old(s)@ + nat_text((n / 10) as nat) + seq![digit_char((n % 10) as nat)]);
        }
    }
}

/// The decimal text of a signed number.
pub open spec fn int_text(i: i64) -> Seq<char> {
    if i < 0 {
        "-"@ + nat_text((-i) as nat)
    } else {
        nat_text(i as nat)
    }
}

/// Appends the decimal text of a signed number.
pub fn push_int(s: &mut String, i: i64)
    ensures
        final(s)@ == old(s)@ + int_text(i),
{
    proof {
        reveal_strlit("-");
    }
    if i < 0 {
        push_str(s, "-");
        let m = (0i128 - (i as i128)) as u64;
        push_nat(s, m);
        proof {
            assert(final(s)@ =~= old(s)@ + int_text(i));
        }
    } else {
        push_nat(s, i as u64);
    }
}

/// Appends the segments of a path joined with `::`.
pub(crate) fn push_path(s: &mut String, name: &Vec<String>)
    ensures
        final(s)@ == old(s)@ + join_with(strings_view(name@), "::"@),
{
    let ghost segs = strings_view(name@);
    let mut i: usize = 0;
    proof {
        assert(segs.take(0) =~= Seq::<Seq<char>>::empty());
        assert(old(s)@ + join_with(segs.take(0), "::"@) =~= old(s)@);
    }
    while i < name.len()
        invariant
            i <= name@.len(),
            segs == strings_view(name@),
            s@ == old(s)@ + join_with(segs.take(i as int), "::"@),
        decreases name@.len() - i,
    {
        proof {
            assert(segs.take(i + 1).drop_last() =~= segs.take(i as int));
            assert(segs.take(i + 1).last() == name@[i as int]@);
            reveal_strlit("::");
        }
        let ghost before = s@;
        if i > 0 {
            push_str(s, "::");
        }
        push_str(s, name[i].as_str());
        proof {
            if i == 0 {
                assert(segs.take(1) =~= seq![name@[0]@]);
            }
            assert(s@ =~= old(s)@ + join_with(segs.take(i + 1), "::"@));
        }
        i = i + 1;
    }
    proof {
        assert(segs.take(i as int) =~= segs);
    }
}

/// Appends the names of `tys` joined with `sep`.
fn push_tys(s: &mut String, tys: &Vec<Ty>, sep: &str)
    ensures
        final(s)@ == old(s)@ + tys_text(tys_view(tys@), sep@),
    decreases tys@, 0int,
{
    let ghost ms = tys_view(tys@);
    let mut i: usize = 0;
    proof {
        assert(ms.take(0) =~= Seq::<TyModel>::empty());
        assert(old(s)@ + tys_text(ms.take(0), sep@) =~= old(s)@);
    }
    while i < tys.len()
        invariant
            i <= tys@.len(),
            ms == tys_view(tys@),
            ms.len() == tys@.len(),
            s@ == old(s)@ + tys_text(ms.take(i as int), sep@),
        decreases tys@.len() - i,
    {
        proof {
            assert(ms.take(i + 1).drop_last() =~= ms.take(i as int));
            assert(ms.take(i + 1).last() == tys@[i as int]@);
            assert(decreases_to!(tys@ => tys@[i as int]));
        }
        if i > 0 {
            push_str(s, sep);
        }
        tys[i].push_name(s);
        proof {
            if i == 0 {
                assert(ms.take(1) =~= seq![tys@[0]@]);
            }
            assert(s@ =~= old(s)@ + tys_text(ms.take(i + 1), sep@));
        }
        i = i + 1;
    }
    proof {
        assert(ms.take(i as int) =~= ms);
    }
}

impl Ty {
    /// Appends the name this type is written with in messages.
    pub fn push_name(&self, s: &mut String)
        ensures
            final(s)@ == old(s)@ + ty_text(self@),
        decreases self, 1int,
    {
        proof {
            crate::ty::lemma_view_parts(*self);
            reveal_strlit("Any");
            reveal_strlit("Unknown");
            reveal_strlit("Nothing");
            reveal_strlit("[");
            reveal_strlit("]");
            reveal_strlit(", ");
            reveal_strlit("{unknown #");
            reveal_strlit("}");
            reveal_strlit(".");
            reveal_strlit("(");
            reveal_strlit(") -> ");
            reveal_strlit(")");
            reveal_strlit(" | ");
            reveal_strlit("Type[");
        }
        match self {
            Ty::Any => push_str(s, "Any"),
            Ty::Unknown => push_str(s, "Unknown"),
            Ty::Nothing => push_str(s, "Nothing"),
            Ty::Named(n) => {
                proof {
                    assert(self@ == TyModel::Named(n.name@, tys_view(n.args@)));
                    assert(tys_view(n.args@).len() == n.args@.len());
                }
                let ghost s0 = s@;
                push_path(s, &n.name.name);
                let ghost s1 = s@;
                if n.args.len() > 0 {
                    push_str(s, "[");
                    proof {
                        assert(decreases_to!(*self => n.args@));
                    }
                    push_tys(s, &n.args, ", ");
                    push_str(s, "]");
                }
                proof {
                    assert(s1 == s0 + join_with(n.name@, "::"@));
                    assert(s@ =~= s1 + args_text(tys_view(n.args@)));
                    assert(s@ =~= old(s)@ + ty_text(self@));
                }
            },
            Ty::Generic(g) => push_str(s, g.name.0.as_str()),
            Ty::TypeVar { id } => {
                push_str(s, "{unknown #");
                push_nat(s, *id as u64);
                push_str(s, "}");
                proof {
                    assert(s@ =~= old(s)@ + ty_text(self@));
                }
            },
            Ty::Function(f) => {
                let ghost rec = self@->Function_0;
                proof {
                    assert(self@ == TyModel::Function(rec, tys_view(f.args@), Box::new(f.ret@)));
                    assert(f.receiver matches Some(r) ==> rec == Some(Box::new(r@)));
                    assert(f.receiver is None ==> rec is None);
                }
                let ghost s0 = s@;
                match &f.receiver {
                    Some(r) => {
                        r.push_name(s);
                        push_str(s, ".");
                    },
                    None => {},
                }
                proof {
                    assert(s@ =~= s0 + receiver_text(rec));
                }
                push_str(s, "(");
                proof {
                    assert(decreases_to!(*self => f.args@));
                }
                push_tys(s, &f.args, ", ");
                push_str(s, ") -> ");
                f.ret.push_name(s);
                proof {
                    assert(s@ =~= old(s)@ + ty_text(self@));
                }
            },
            Ty::Tuple(ts) => {
                push_str(s, "(");
                proof {
                    assert(decreases_to!(*self => ts@));
                }
                push_tys(s, ts, ", ");
                push_str(s, ")");
                proof {
                    assert(s@ =~= old(s)@ + ty_text(self@));
                }
            },
            Ty::Sum(ts) => {
                proof {
                    assert(decreases_to!(*self => ts@));
                }
                push_tys(s, ts, " | ");
            },
            Ty::Meta(inner) => {
                push_str(s, "Type[");
                inner.push_name(s);
                push_str(s, "]");
                proof {
                    assert(s@ =~= old(s)@ + ty_text(self@));
                }
            },
        }
    }

    /// The name this type is written with in messages.
    pub fn name(&self) -> (r: String)
        ensures
            r@ == ty_text(self@),
    {
        let mut s = String::new();
        self.push_name(&mut s);
        proof {
            assert(s@ =~= ty_text(self@));
        }
        s
    }
}

/// The last segment of a path, or nothing.
pub open spec fn last_segment(p: Seq<Seq<char>>) -> Seq<char> {
    if p.len() > 0 {
        p.last()
    } else {
        Seq::empty()
    }
}

/// The message a diagnostic of the checker is shown with.
pub open spec fn message_text(e: CheckError) -> Seq<char> {
    match e {
        CheckError::Unresolved { name } => "Unresolved name '"@ + name.0@ + "'"@,
        CheckError::MissingReceiver { expected, .. } => "Missing receiver: expected a value of type '"@ + ty_text(expected@)
            + "' as self"@,
        CheckError::UnexpectedArgs { expected, found, func, .. } => "Expected "@ + nat_text(expected as nat)
            + " arguments but found "@ + nat_text(found as nat) + " calling '"@ + ty_text(func@) + "'"@,
        CheckError::ExpectedFunction { found, .. } => "Expected a function but found '"@ + ty_text(found@) + "'"@,
        CheckError::NoField { field, struct_name, .. } => "No field "@ + field@ + " found on struct "@ + join_with(
            struct_name@,
            "::"@,
        ),
        CheckError::IndexOutOfBounds { index, len, .. } => "Index out of bounds: "@ + nat_text(index as nat) + " >= "@
            + nat_text(len as nat),
        CheckError::ExpectedIntegerIndex { .. } => "Expected integer index"@,
        CheckError::UnitStructNoFields { .. } => "A unit struct has no fields"@,
        CheckError::ExpectedStructDecl { found, .. } => "Expected struct but found "@ + join_with(found@, "::"@),
        CheckError::AmbiguousFunction { .. } => "Ambiguous function"@,
        CheckError::FieldNotFound { field, .. } => "Field '"@ + field@ + "' not found"@,
        CheckError::StructPatternMismatch { .. } => "Struct pattern doesn't match expected"@,
        CheckError::ExpectedStructType { found, .. } => "Expected a struct but found type "@ + ty_text(found@),
        CheckError::ExpectedStruct { .. } => "Expected a struct"@,
        CheckError::StructMismatch { expected, found, .. } => "Expected struct '"@ + last_segment(expected@)
            + "' but found '"@ + last_segment(found@) + "'"@,
        CheckError::UnexpectedArgument { .. } => "Unexpected argument"@,
        CheckError::ExpectedIdentOrField { .. } => "Expected a ident or field"@,
        CheckError::TypeMismatch { expected, found, .. } => "Expected value to be of type '"@ + ty_text(expected@)
            + "' but found '"@ + ty_text(found@) + "'"@,
    }
}

/// Appends the last segment of a path, if it has one.
fn push_last(s: &mut String, p: &Vec<String>)
    ensures
        final(s)@ == old(s)@ + last_segment(strings_view(p@)),
{
    if p.len() > 0 {
        push_str(s, p[p.len() - 1].as_str());
    } else {
        proof {
            assert(old(s)@ + Seq::<char>::empty() =~= old(s)@);
        }
    }
}

impl CheckError {
    /// The message the diagnostic is shown with.
    pub fn message(&self) -> (r: String)
        ensures
            r@ == message_text(*self),
    {
        let mut s = String::new();
        proof {
            reveal_strlit("Unresolved name '");
            reveal_strlit("'");
            reveal_strlit("Missing receiver: expected a value of type '");
            reveal_strlit("' as self");
            reveal_strlit("Expected ");
            reveal_strlit(" arguments but found ");
            reveal_strlit(" calling '");
            reveal_strlit("Expected a function but found '");
            reveal_strlit("No field ");
            reveal_strlit(" found on struct ");
            reveal_strlit("Index out of bounds: ");
            reveal_strlit(" >= ");
            reveal_strlit("Expected integer index");
            reveal_strlit("A unit struct has no fields");
            reveal_strlit("Expected struct but found ");
            reveal_strlit("Ambiguous function");
            reveal_strlit("Field '");
            reveal_strlit("' not found");
            reveal_strlit("Struct pattern doesn't match expected");
            reveal_strlit("Expected a struct but found type ");
            reveal_strlit("Expected a struct");
            reveal_strlit("Expected struct '");
            reveal_strlit("' but found '");
            reveal_strlit("Unexpected argument");
            reveal_strlit("Expected a ident or field");
            reveal_strlit("Expected value to be of type '");
        }
        match self {
            CheckError::Unresolved { name } => {
                push_str(&mut s, "Unresolved name '");
                push_str(&mut s, name.0.as_str());
                push_str(&mut s, "'");
            },
            CheckError::MissingReceiver { expected, .. } => {
                push_str(&mut s, "Missing receiver: expected a value of type '");
                expected.push_name(&mut s);
                push_str(&mut s, "' as self");
            },
            CheckError::UnexpectedArgs { expected, found, func, .. } => {
                push_str(&mut s, "Expected ");
                push_nat(&mut s, *expected as u64);
                push_str(&mut s, " arguments but found ");
                push_nat(&mut s, *found as u64);
                push_str(&mut s, " calling '");
                func.push_name(&mut s);
                push_str(&mut s, "'");
            },
            CheckError::ExpectedFunction { found, .. } => {
                push_str(&mut s, "Expected a function but found '");
                found.push_name(&mut s);
                push_str(&mut s, "'");
            },
            CheckError::NoField { field, struct_name, .. } => {
                push_str(&mut s, "No field ");
                push_str(&mut s, field.as_str());
                push_str(&mut s, " found on struct ");
                push_path(&mut s, &struct_name.name);
            },
            CheckError::IndexOutOfBounds { index, len, .. } => {
                push_str(&mut s, "Index out of bounds: ");
                push_nat(&mut s, *index as u64);
                push_str(&mut s, " >= ");
                push_nat(&mut s, *len as u64);
            },
            CheckError::ExpectedIntegerIndex { .. } => push_str(&mut s, "Expected integer index"),
            CheckError::UnitStructNoFields { .. } => push_str(&mut s, "A unit struct has no fields"),
            CheckError::ExpectedStructDecl { found, .. } => {
                push_str(&mut s, "Expected struct but found ");
                push_path(&mut s, &found.name);
            },
            CheckError::AmbiguousFunction { .. } => push_str(&mut s, "Ambiguous function"),
            CheckError::FieldNotFound { field, .. } => {
                push_str(&mut s, "Field '");
                push_str(&mut s, field.as_str());
                push_str(&mut s, "' not found");
            },
            CheckError::StructPatternMismatch { .. } => push_str(&mut s, "Struct pattern doesn't match expected"),
            CheckError::ExpectedStructType { found, .. } => {
                push_str(&mut s, "Expected a struct but found type ");
                found.push_name(&mut s);
            },
            CheckError::ExpectedStruct { .. } => push_str(&mut s, "Expected a struct"),
            CheckError::StructMismatch { expected, found, .. } => {
                push_str(&mut s, "Expected struct '");
                push_last(&mut s, &expected.name);
                push_str(&mut s, "' but found '");
                push_last(&mut s, &found.name);
                push_str(&mut s, "'");
            },
            CheckError::UnexpectedArgument { .. } => push_str(&mut s, "Unexpected argument"),
            CheckError::ExpectedIdentOrField { .. } => push_str(&mut s, "Expected a ident or field"),
            CheckError::TypeMismatch { expected, found, .. } => {
                push_str(&mut s, "Expected value to be of type '");
                expected.push_name(&mut s);
                push_str(&mut s, "' but found '");
                found.push_name(&mut s);
                push_str(&mut s, "'");
            },
        }
        proof {
            assert(s@ =~= message_text(*self));
        }
        s
    }
}

} // verus!
