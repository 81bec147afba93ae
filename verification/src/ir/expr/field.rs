use vstd::prelude::*;

use crate::check::err::CheckError;
use crate::check::instance::subst_spec;
use crate::check::members::{fields_view, find_field, find_field_index, zip_generics, zip_pairs};
use crate::check::state::CheckState;
use crate::db::decl::struct_::StructDecl;
use crate::db::decl::{spec_get_path, DeclKind, Project};
use crate::ir::expr::rel::{checks_to, expects_to, field_looked_up};
use crate::ir::expr::{
    expect_ty, expr_wf, lemma_frame_refl, lemma_frame_trans, reports_mismatch, scope_frame, ExprIR,
    ExprIRData, FieldIR,
};
use crate::parser::ast::{clone_name, Expr, Field};
use crate::ty::{lemma_view_parts, Ty, TyModel};
use crate::util::Span;

verus! {

/// The value of a string of decimal digits.
pub open spec fn digits_value(s: Seq<char>) -> int
    decreases s.len(),
{
    if s.len() == 0 {
        0
    } else {
        digits_value(s.drop_last()) * 10 + (s.last() as int - '0' as int)
    }
}

pub open spec fn is_digit(c: char) -> bool {
    '0' <= c <= '9'
}

pub open spec fn all_digits(d: Seq<char>) -> bool {
    forall|i: int| 0 <= i < d.len() ==> is_digit(#[trigger] d[i])
}

/// The text after an optional leading `+`.
pub open spec fn unsigned_part(s: Seq<char>) -> Seq<char> {
    if s.len() > 0 && s[0] == '+' {
        s.skip(1)
    } else {
        s
    }
}

/// The index a field name such as `0` denotes: decimal digits, optionally after a `+`, whose value
/// fits a `usize`.
pub open spec fn index_of_name(s: Seq<char>) -> Option<int> {
    let d = unsigned_part(s);
    if d.len() > 0 && all_digits(d) && digits_value(d) <= usize::MAX {
        Some(digits_value(d))
    } else {
        None
    }
}

proof fn lemma_digits_grow(s: Seq<char>, k: int)
    requires
        0 <= k <= s.len(),
        forall|i: int| 0 <= i < s.len() ==> is_digit(#[trigger] s[i]),
    ensures
        digits_value(s.take(k)) <= digits_value(s),
        0 <= digits_value(s.take(k)),
    decreases s.len() - k,
{
    if k < s.len() {
        assert(s.take(k + 1).drop_last() =~= s.take(k));
        assert(s.take(k + 1).last() == s[k]);
        lemma_digits_nonneg(s.take(k));
        lemma_digits_grow(s, k + 1);
    } else {
        assert(s.take(k) =~= s);
        lemma_digits_nonneg(s);
    }
}

proof fn lemma_digits_nonneg(s: Seq<char>)
    requires
        forall|i: int| 0 <= i < s.len() ==> is_digit(#[trigger] s[i]),
    ensures
        0 <= digits_value(s),
    decreases s.len(),
{
    if s.len() > 0 {
        assert(is_digit(s[s.len() - 1]));
        lemma_digits_nonneg(s.drop_last());
    }
}

/// Reads a field name as a tuple index.
pub fn parse_index(s: &str) -> (r: Option<usize>)
    ensures
        match r {
            Some(i) => index_of_name(s@) == Some(i as int),
            None => index_of_name(s@) is None,
        },
{
    let n = s.unicode_len();
    let ghost t = s@;
    let start: usize = if n > 0 && s.get_char(0) == '+' {
        1
    } else {
        0
    };
    let ghost d = t.skip(start as int);
    proof {
        assert(d =~= unsigned_part(t));
    }
    if start >= n {
        return None;
    }
    let mut value: usize = 0;
    let mut i: usize = start;
    while i < n
        invariant
            start <= i <= n,
            n == t.len(),
            t == s@,
            d == t.skip(start as int),
            d == unsigned_part(t),
            start < n,
            forall|k: int| 0 <= k < i - start ==> is_digit(#[trigger] d[k]),
            value == digits_value(d.take(i - start)),
        decreases n - i,
    {
        let c = s.get_char(i);
        if !('0' <= c && c <= '9') {
            proof {
                assert(!is_digit(d[i - start]));
                assert(!all_digits(d));
            }
            return None;
        }
        proof {
            assert(d.take(i - start + 1).drop_last() =~= d.take(i - start));
            assert(d.take(i - start + 1).last() == c);
        }
        let digit = (c as u32 - '0' as u32) as usize;
        let next = match value.checked_mul(10) {
            Some(v) => v.checked_add(digit),
            None => None,
        };
        match next {
            Some(v) => {
                value = v;
            },
            None => {
                proof {
                    assert(digits_value(d.take(i - start + 1)) > usize::MAX);
                    if all_digits(d) {
                        lemma_digits_grow(d, i - start + 1);
                    }
                }
                return None;
            },
        }
        i = i + 1;
    }
    proof {
        assert(d.take(n - start) =~= d);
    }
    Some(value)
}

/// The type of the field `name` of a value of type `t`: a named field of a struct, or a tuple
/// field given by its index, with the struct's generics replaced by the type's arguments; unknown
/// where there is no such field.
pub open spec fn field_model(project: Project, t: TyModel, name: Seq<char>) -> TyModel {
    if name.len() == 0 {
        TyModel::Unknown
    } else {
        match t {
            TyModel::Named(path, args) => match spec_get_path(project.decls, path) {
                Some(d) => match d.kind {
                    DeclKind::Struct { generics, body } => {
                        let m = zip_pairs(generics@, args);
                        match body {
                            StructDecl::Fields(fs) => match find_field(fields_view(fs@), name) {
                                Some(ft) => subst_spec(ft, m),
                                None => TyModel::Unknown,
                            },
                            StructDecl::Tuple(tys) => match index_of_name(name) {
                                Some(i) => if i < tys@.len() {
                                    subst_spec(tys@[i]@, m)
                                } else {
                                    TyModel::Unknown
                                },
                                None => TyModel::Unknown,
                            },
                            StructDecl::Unit => TyModel::Unknown,
                        }
                    },
                    _ => TyModel::Unknown,
                },
                None => TyModel::Unknown,
            },
            _ => TyModel::Unknown,
        }
    }
}

/// What looking up the field `name` of a value of type `t` reports, from the errors `old` to
/// the errors `new`: nothing where the field exists or the type names no declaration; else one
/// diagnostic: a declaration that is not a struct, a missing named field, a tuple index that is
/// not a number or is past the end, or a unit struct.
pub open spec fn field_reported(
    project: Project,
    t: TyModel,
    name: Seq<char>,
    struct_span: Span,
    name_span: Span,
    old: Seq<CheckError>,
    new: Seq<CheckError>,
) -> bool {
    let one = new.len() == old.len() + 1 && new.drop_last() == old;
    let e = new.last();
    if name.len() == 0 {
        new == old
    } else {
        match t {
            TyModel::Named(path, _) => match spec_get_path(project.decls, path) {
                Some(d) => match d.kind {
                    DeclKind::Struct { body, .. } => match body {
                        StructDecl::Fields(fs) => if find_field(fields_view(fs@), name) is Some {
                            new == old
                        } else {
                            one && (e matches CheckError::NoField { field, struct_name, span } && field@ == name
                                && struct_name@ == path && span == name_span)
                        },
                        StructDecl::Tuple(tys) => match index_of_name(name) {
                            Some(i) => if i < tys@.len() {
                                new == old
                            } else {
                                one && (e matches CheckError::IndexOutOfBounds { index, len, span } && index == i
                                    && len == tys@.len() && span == name_span)
                            },
                            None => one && e == CheckError::ExpectedIntegerIndex { span: name_span },
                        },
                        StructDecl::Unit => one && e == CheckError::UnitStructNoFields { span: name_span },
                    },
                    _ => one && (e matches CheckError::ExpectedStructDecl { found, span } && found@ == d.path@
                        && span == struct_span),
                },
                None => new == old,
            },
            _ => new == old,
        }
    }
}

impl Field {
    /// Checks a field access: the struct expression is checked, and the field is looked up in the
    /// struct its type names; a missing field, a bad tuple index, a unit struct or a declaration
    /// that is not a struct is reported.
    pub fn check<'db>(&self, state: &mut CheckState<'db>) -> (r: ExprIR<'db>)
        requires
            old(state).wf(),
            expr_wf(Expr::Field(*self)),
        ensures
            scope_frame(*old(state), *final(state)),
            r.data matches ExprIRData::Field(fi) && fi.name.0@ == self.name.0@ && fi.name.1 == self.name.1
                && fi.struct_.1 == self.struct_.1 && r.ty@ == field_model(*old(state).project, fi.struct_.0.ty@, self.name.0@),
            r.data matches ExprIRData::Field(fi) && exists|pre: Seq<CheckError>|
                #![trigger field_reported(*old(state).project, fi.struct_.0.ty@, self.name.0@, self.struct_.1, self.name.1, pre, final(state).errors@)]
                old(state).errors@.is_prefix_of(pre) && field_reported(
                    *old(state).project,
                    fi.struct_.0.ty@,
                    self.name.0@,
                    self.struct_.1,
                    self.name.1,
                    pre,
                    final(state).errors@,
                ),
            checks_to(Expr::Field(*self), r, *old(state), *final(state)),
        decreases Expr::Field(*self), 5int,
    {
        let ghost st = *state;
        let struct_ir = self.struct_.0.check(state);
        let ghost mid = *state;
        let ty = self.field_ty(&struct_ir.ty, state);
        proof {
            lemma_frame_trans(st, mid, *state);
        }
        let r = ExprIR {
            data: ExprIRData::Field(FieldIR { name: clone_name(&self.name), struct_: Box::new((struct_ir, self.struct_.1)) }),
            ty,
        };
        proof {
            assert(checks_to(self.struct_.0, r.data->Field_0.struct_.0, st, mid));
            assert(field_looked_up(self.name, self.struct_.1, r.data->Field_0.struct_.0.ty@, r.ty@, mid, *state));
        }
        r
    }

    /// The type of this field of a value of type `struct_ty`; where there is none, the reason is
    /// reported.
    fn field_ty(&self, struct_ty: &Ty, state: &mut CheckState) -> (r: Ty)
        requires
            old(state).wf(),
        ensures
            scope_frame(*old(state), *final(state)),
            final(state).variables == old(state).variables,
            final(state).type_state.next_id() == old(state).type_state.next_id(),
            r@ == field_model(*old(state).project, struct_ty@, self.name.0@),
            field_reported(
                *old(state).project,
                struct_ty@,
                self.name.0@,
                self.struct_.1,
                self.name.1,
                old(state).errors@,
                final(state).errors@,
            ),
    {
        let ghost st = *state;
        proof {
            lemma_frame_refl(st);
            lemma_view_parts(*struct_ty);
        }
        if self.name.0.as_str().unicode_len() == 0 {
            return Ty::Unknown;
        }
        let (name, args) = match struct_ty {
            Ty::Named(n) => (&n.name, &n.args),
            _ => {
                return Ty::Unknown;
            },
        };
        let decl = match state.try_get_decl_path(name) {
            Some(d) => d,
            None => {
                return Ty::Unknown;
            },
        };
        let (generics, body) = match &decl.kind {
            DeclKind::Struct { generics, body } => (generics, body),
            _ => {
                state.error(CheckError::ExpectedStructDecl { found: decl.path.copy(), span: self.struct_.1 });
                proof {
                    assert(st.errors@.is_prefix_of(state.errors@));
                    assert(st.variables@.last()@.is_prefix_of(state.variables@.last()@));
                }
                return Ty::Unknown;
            },
        };
        let params = zip_generics(generics, args);
        match body {
            StructDecl::Fields(fields) => {
                match find_field_index(fields, self.name.0.as_str()) {
                    Some(i) => {
                        return fields[i].1.subst(&params);
                    },
                    None => {},
                }
                state.error(
                    CheckError::NoField { field: self.name.0.clone(), struct_name: name.copy(), span: self.name.1 },
                );
            },
            StructDecl::Tuple(tys) => {
                match parse_index(self.name.0.as_str()) {
                    Some(index) => {
                        if index >= tys.len() {
                            state.error(CheckError::IndexOutOfBounds { index, len: tys.len(), span: self.name.1 });
                            proof {
                                assert(st.errors@.is_prefix_of(state.errors@));
                                assert(st.variables@.last()@.is_prefix_of(state.variables@.last()@));
                            }
                            return Ty::Unknown;
                        }
                        return tys[index].subst(&params);
                    },
                    None => {},
                }
                state.error(CheckError::ExpectedIntegerIndex { span: self.name.1 });
            },
            StructDecl::Unit => {
                state.error(CheckError::UnitStructNoFields { span: self.name.1 });
            },
        }
        proof {
            assert(st.errors@.is_prefix_of(state.errors@));
            assert(st.variables@.last()@.is_prefix_of(state.variables@.last()@));
        }
        Ty::Unknown
    }

    /// Checks a field access where a value of type `expected` is expected.
    pub fn expect<'db>(&self, state: &mut CheckState<'db>, expected: &Ty, span: Span) -> (r: ExprIR<'db>)
        requires
            old(state).wf(),
            expr_wf(Expr::Field(*self)),
        ensures
            scope_frame(*old(state), *final(state)),
            r.data matches ExprIRData::Field(fi) && fi.name.0@ == self.name.0@ && fi.name.1 == self.name.1
                && fi.struct_.1 == self.struct_.1 && r.ty@ == field_model(*old(state).project, fi.struct_.0.ty@, self.name.0@),
            reports_mismatch(*final(state), r.ty@, expected@, span),
            expects_to(Expr::Field(*self), r, *old(state), *final(state), expected@, span),
        decreases Expr::Field(*self), 6int,
    {
        let ghost st = *state;
        let ir = self.check(state);
        let ghost mid = *state;
        expect_ty(&ir.ty, expected, state, span);
        proof {
            lemma_frame_trans(st, mid, *state);
            assert(checks_to(Expr::Field(*self), ir, st, mid));
            assert(crate::ir::expr::rel::ty_expected(mid, *state, ir.ty@, expected@, span));
        }
        ir
    }
}

} // verus!
