use vstd::prelude::*;

use crate::check::err::CheckError;
use crate::check::members::{fields_view, zip_generics, zip_pairs};
use crate::check::state::CheckState;
use crate::check::TokenKind;
use crate::db::decl::struct_::StructDecl;
use crate::check::members::inst_pairs;
use crate::check::instance::subst_spec;
use crate::db::decl::{
    decl_generics, has_generics, inst_generics_model, named_model, named_ty_defined, spec_get_path, Decl, DeclKind,
};
use crate::fs::project::{lookup, lookup_generic, pairs_view, GenericMap};
use crate::ir::expr::ident::{prefix_def, IdentDef, SpannedQualifiedNameIR};
use crate::ir::expr::{lemma_frame_refl, lemma_frame_trans, scope_frame};
use crate::parser::ast::{clone_name, segments, Pattern, SpannedQualifiedName, StructFieldPattern};
use crate::ty::{generics_view, lemma_view_parts, tys_view, Generic, Ty, TyModel};
use crate::util::Spanned;

verus! {

broadcast use vstd::std_specs::vec::group_vec_axioms;

/// A checked pattern; `Error` stands for one that could not be checked.
pub enum PatternIR<'db> {
    Name(Spanned<String>),
    Struct { name: SpannedQualifiedNameIR<'db>, fields: Vec<Spanned<StructFieldPatternIR<'db>>> },
    UnitStruct(SpannedQualifiedNameIR<'db>),
    TupleStruct { name: SpannedQualifiedNameIR<'db>, fields: Vec<Spanned<PatternIR<'db>>> },
    Error,
}

pub enum StructFieldPatternIR<'db> {
    Implied { name: Spanned<String> },
    Explicit { field: Spanned<String>, pattern: Spanned<PatternIR<'db>> },
}

impl<'db> StructFieldPatternIR<'db> {
    /// The name of the field the pattern binds.
    pub fn name(&self) -> (r: &str)
        ensures
            r@ == match *self {
                StructFieldPatternIR::Implied { name } => name.0@,
                StructFieldPatternIR::Explicit { field, .. } => field.0@,
            },
    {
        match self {
            StructFieldPatternIR::Implied { name } => name.0.as_str(),
            StructFieldPatternIR::Explicit { field, .. } => field.0.as_str(),
        }
    }
}

/// Whether a declaration is a struct or an enum member without fields.
pub open spec fn is_unit_decl(d: Decl) -> bool {
    match d.kind {
        DeclKind::Struct { body, .. } => body is Unit,
        DeclKind::Member { body } => body is Unit,
        _ => false,
    }
}

/// Whether the single name `name` resolves in `st` to a struct or member without fields.
pub open spec fn names_unit(st: CheckState, name: Seq<char>) -> bool {
    st.resolve(seq![name]) matches Ok(d) && is_unit_decl(d)
}

/// The path a non-name pattern is written with.
pub open spec fn pattern_path(p: Pattern) -> Seq<Spanned<String>> {
    match p {
        Pattern::Name(n) => seq![n],
        Pattern::Struct { name, .. } => name@,
        Pattern::UnitStruct(name) => name@,
        Pattern::TupleStruct { name, .. } => name@,
    }
}

/// Whether every path written in the pattern has a segment.
pub open spec fn pattern_wf(p: Pattern) -> bool
    decreases p,
{
    match p {
        Pattern::Name(_) => true,
        Pattern::Struct { name, fields } => name@.len() >= 1 && forall|i: int|
            0 <= i < fields@.len() ==> field_pattern_wf(#[trigger] fields@[i].0),
        Pattern::UnitStruct(name) => name@.len() >= 1,
        Pattern::TupleStruct { name, fields } => name@.len() >= 1 && forall|i: int|
            0 <= i < fields@.len() ==> pattern_wf(#[trigger] fields@[i].0),
    }
}

pub open spec fn field_pattern_wf(f: StructFieldPattern) -> bool
    decreases f,
{
    match f {
        StructFieldPattern::Implied(_) => true,
        StructFieldPattern::Explicit { pattern, .. } => pattern_wf(pattern.0),
    }
}

/// Whether `st2` is `st1` with one variable declared in the innermost scope.
pub open spec fn declared(st1: CheckState, st2: CheckState, name: Seq<char>, ty: TyModel, span: crate::util::Span) -> bool {
    &&& st2.variables@.last()@.len() == st1.variables@.last()@.len() + 1
    &&& st2.variables@.last()@.drop_last() == st1.variables@.last()@
    &&& st2.variables@.last()@.last().name@ == name
    &&& st2.variables@.last()@.last().ty@ == ty
    &&& st2.variables@.last()@.last().kind == TokenKind::Var
    &&& st2.variables@.last()@.last().span == span
    &&& st2.errors == st1.errors
}

/// Whether a checked pattern has the shape of the written one, or is the error pattern.
pub open spec fn same_shape(p: Pattern, ir: PatternIR) -> bool {
    match p {
        Pattern::Name(n) => ir is UnitStruct || (ir matches PatternIR::Name(m) && m.0@ == n.0@ && m.1 == n.1),
        Pattern::Struct { fields, .. } => ir is Error || (ir matches PatternIR::Struct { fields: f, .. } && f@.len()
            == fields@.len()),
        Pattern::UnitStruct(_) => ir is Error || ir is UnitStruct,
        Pattern::TupleStruct { .. } => ir is Error || ir is TupleStruct,
    }
}

/// The type a struct pattern is matched against: a type variable is first replaced by the
/// declaration's named type over fresh type variables, and `Self` stands for its bound.
pub open spec fn struct_pattern_ty(st: CheckState, ty: TyModel, decl: Decl) -> TyModel {
    let t = if ty is TypeVar && named_ty_defined(decl, *st.project, decl.path@) {
        subst_spec(
            named_model(decl, *st.project, decl.path@),
            inst_pairs(inst_generics_model(decl, *st.project), st.type_state.next_id() as int).0,
        )
    } else {
        ty
    };
    match t {
        TyModel::Generic(g) => if g.name == "Self"@ {
            *g.super_
        } else {
            t
        },
        _ => t,
    }
}

/// The path of the type whose values a struct pattern's declaration describes: the enum of a
/// member, or the struct itself.
pub open spec fn pattern_owner(decl: Decl) -> Seq<Seq<char>> {
    if decl.kind is Member {
        decl.path@.drop_last()
    } else {
        decl.path@
    }
}

/// Whether the last error reported since `old` is `e`.
pub open spec fn last_error_is(old: CheckState, new: CheckState, e: CheckError) -> bool {
    new.errors@.len() > old.errors@.len() && new.errors@.last() == e
}

/// What expecting a pattern to match values of type `ty` gives and reports: a single name is a
/// unit struct or member it names, or else a new variable of that type; any other pattern names
/// a struct or member, whose outcome `struct_pattern_outcome` gives, and an error otherwise.
pub open spec fn expect_pattern_rule(p: Pattern, old: CheckState, new: CheckState, ty: TyModel, r: PatternIR) -> bool
    decreases p, 3int, 0int,
{
    &&& same_shape(p, r)
    &&& p is Name ==> if names_unit(old, p->Name_0.0@) {
        r is UnitStruct && new == old
    } else {
        &&& r matches PatternIR::Name(m) && m.0@ == p->Name_0.0@ && m.1 == p->Name_0.1
        &&& declared(old, new, p->Name_0.0@, ty, p->Name_0.1)
    }
    &&& !(p is Name) ==> match old.resolve(segments(pattern_path(p))) {
        Err(i) => {
            &&& r is Error
            &&& new.errors@ == old.errors@.push(new.errors@.last())
            &&& new.errors@.last() matches CheckError::Unresolved { name } && name.0@ == pattern_path(p)[i].0@
                && name.1 == pattern_path(p)[i].1
        },
        Ok(d) => if d.kind is Struct || d.kind is Member {
            struct_pattern_outcome(p, old, new, ty, d, struct_body_of(d), r)
        } else {
            &&& r is Error
            &&& new.errors@ == old.errors@.push(CheckError::ExpectedStruct { span: pattern_path(p).last().1 })
        },
    }
}

/// The body of a struct or member declaration.
pub open spec fn struct_body_of(d: Decl) -> StructDecl {
    match d.kind {
        DeclKind::Struct { body, .. } => body,
        DeclKind::Member { body } => body,
        _ => StructDecl::Unit,
    }
}

/// The generic arguments of the named type `t` bound to the generics of the declaration it names,
/// where that declaration has generics.
pub open spec fn pattern_generic_map(st: CheckState, t: TyModel) -> Seq<(Seq<char>, TyModel)> {
    match spec_get_path(st.project.decls, t->Named_0) {
        Some(p) => if has_generics(p) {
            zip_pairs(decl_generics(p), t->Named_1)
        } else {
            Seq::empty()
        },
        None => Seq::empty(),
    }
}

/// The fields of a struct declaration, each with its type with the generics replaced by `m`.
pub open spec fn subst_fields(fs: Seq<(Seq<char>, TyModel)>, m: Seq<(Seq<char>, TyModel)>) -> Seq<(Seq<char>, TyModel)> {
    Seq::new(fs.len(), |j: int| (fs[j].0, subst_spec(fs[j].1, m)))
}

/// How a field pattern is expected against the fields `fields` of a struct, each with its type: an
/// implied field becomes a variable of the field's type; an explicit one has its pattern expected
/// against that type; a field the struct lacks is reported.
pub open spec fn field_pattern_expected(
    fp: StructFieldPattern,
    old: CheckState,
    new: CheckState,
    fields: Seq<(Seq<char>, TyModel)>,
    r: StructFieldPatternIR,
) -> bool
    decreases fp, 0int, 0int,
{
    match fp {
        StructFieldPattern::Implied(n) => {
            &&& r matches StructFieldPatternIR::Implied { name } && name.0@ == n.0@ && name.1 == n.1
            &&& match lookup(fields, n.0@) {
                Some(t) => declared(old, new, n.0@, t, n.1),
                None => {
                    &&& new.errors@ == old.errors@.push(new.errors@.last())
                    &&& new.errors@.last() matches CheckError::FieldNotFound { field, span } && field@ == n.0@
                        && span == n.1
                },
            }
        },
        StructFieldPattern::Explicit { field, pattern } => {
            &&& r matches StructFieldPatternIR::Explicit { field: f, pattern: p } && f.0@ == field.0@ && f.1 == field.1
                && p.1 == pattern.1
            &&& lookup(fields, field.0@) matches Some(t) ==> expect_pattern_rule(pattern.0, old, new, t, r->pattern.0)
            &&& lookup(fields, field.0@) is None ==> {
                &&& r->pattern.0 is Error
                &&& new.errors@ == old.errors@.push(new.errors@.last())
                &&& new.errors@.last() matches CheckError::FieldNotFound { field: f, span } && f@ == field.0@ && span
                    == field.1
            }
        },
    }
}

/// The first `n` field patterns of a struct pattern expected in order from `old` to `new`.
pub open spec fn field_patterns_chain(
    fields: Seq<Spanned<StructFieldPattern>>,
    m: Seq<(Seq<char>, TyModel)>,
    f: Seq<Spanned<StructFieldPatternIR>>,
    n: int,
    old: CheckState,
    new: CheckState,
) -> bool
    decreases fields, 1int, n,
{
    if n <= 0 || n > fields.len() {
        f.len() == 0 && new == old
    } else {
        &&& f.len() == n
        &&& exists|mid: CheckState|
            #![trigger scope_frame(old, mid)]
            scope_frame(old, mid) && field_patterns_chain(fields, m, f.drop_last(), n - 1, old, mid)
                && field_pattern_expected(fields[n - 1].0, mid, new, m, f.last().0)
    }
}

/// The first `n` patterns of a tuple struct pattern expected in order from `old` to `new`, each
/// against the type at its place with the generics replaced by `m`.
pub open spec fn tuple_patterns_chain(
    fields: Seq<Spanned<Pattern>>,
    tys: Seq<TyModel>,
    m: Seq<(Seq<char>, TyModel)>,
    f: Seq<Spanned<PatternIR>>,
    n: int,
    old: CheckState,
    new: CheckState,
) -> bool
    decreases fields, 1int, n,
{
    if n <= 0 || n > fields.len() {
        f.len() == 0 && new == old
    } else {
        &&& f.len() == n
        &&& exists|mid: CheckState|
            #![trigger scope_frame(old, mid)]
            scope_frame(old, mid) && tuple_patterns_chain(fields, tys, m, f.drop_last(), n - 1, old, mid)
                && expect_pattern_rule(fields[n - 1].0, mid, new, subst_spec(tys[n - 1], m), f.last().0)
    }
}

/// What checking a pattern without an expected type gives: the shape of the written one; a name is
/// a unit struct or member it names, or else a new variable of the unknown type.
pub open spec fn pattern_checked(p: Pattern, old: CheckState, new: CheckState, r: PatternIR) -> bool {
    &&& same_shape(p, r)
    &&& !(r is Error)
    &&& p is Name ==> if names_unit(old, p->Name_0.0@) {
        r is UnitStruct
    } else {
        &&& r matches PatternIR::Name(m) && m.0@ == p->Name_0.0@ && m.1 == p->Name_0.1
        &&& declared(old, new, p->Name_0.0@, TyModel::Unknown, p->Name_0.1)
    }
    &&& p matches Pattern::Struct { fields, .. } ==> (r matches PatternIR::Struct { fields: f, .. } && forall|i: int|
        0 <= i < f@.len() ==> #[trigger] f@[i].1 == fields@[i].1)
    &&& p matches Pattern::TupleStruct { fields, .. } ==> (r matches PatternIR::TupleStruct { fields: f, .. } && f@.len()
        == fields@.len() && forall|i: int| 0 <= i < f@.len() ==> #[trigger] f@[i].1 == fields@[i].1)
    &&& p is UnitStruct ==> r is UnitStruct
}

/// What matching a struct pattern against `ty`, its name resolved to `decl` with body `body`,
/// reports and gives: the kind of result, and the error that stops it.
pub open spec fn struct_pattern_outcome(
    p: Pattern,
    old: CheckState,
    new: CheckState,
    ty: TyModel,
    decl: Decl,
    body: StructDecl,
    r: PatternIR,
) -> bool
    decreases p, 2int, 0int,
{
    let t = struct_pattern_ty(old, ty, decl);
    let span = pattern_path(p).last().1;
    if !(t is Named) {
        &&& r is Error
        &&& new.errors@.len() > old.errors@.len()
        &&& new.errors@.last() matches CheckError::ExpectedStructType { found, span: s } && found@ == t && s == span
    } else if decl.kind is Member && decl.path@.len() < 1 {
        r is Error && last_error_is(old, new, CheckError::StructPatternMismatch { span })
    } else if t->Named_0 != pattern_owner(decl) {
        exists|mid: CheckState|
            #![trigger scope_frame(old, mid)]
            {
                &&& scope_frame(old, mid)
                &&& mid.errors@.len() > old.errors@.len()
                &&& mid.errors@.last() matches CheckError::StructMismatch { expected, found, span: s } && expected@
                    == t->Named_0 && found@ == pattern_owner(decl) && s == span
                &&& pattern_checked(p, mid, new, r)
            }
    } else if spec_get_path(old.project.decls, t->Named_0) is None {
        r is Error
    } else {
        let m = pattern_generic_map(old, t);
        match (p, body) {
            (Pattern::Struct { fields, .. }, StructDecl::Fields(fs)) => {
                &&& r matches PatternIR::Struct { fields: f, .. } && f@.len() == fields@.len() && forall|i: int|
                    0 <= i < f@.len() ==> #[trigger] f@[i].1 == fields@[i].1
                &&& exists|s0: CheckState|
                    #![trigger scope_frame(old, s0)]
                    scope_frame(old, s0) && field_patterns_chain(
                        fields@,
                        subst_fields(fields_view(fs@), m),
                        r->Struct_fields@,
                        fields@.len() as int,
                        s0,
                        new,
                    )
            },
            (Pattern::UnitStruct(_), StructDecl::Unit) => r is UnitStruct,
            (Pattern::TupleStruct { fields, .. }, StructDecl::Tuple(tys)) => {
                &&& r matches PatternIR::TupleStruct { fields: f, .. } && f@.len() == (if fields@.len() < tys@.len() {
                    fields@.len()
                } else {
                    tys@.len()
                }) && forall|i: int| 0 <= i < f@.len() ==> #[trigger] f@[i].1 == fields@[i].1
                &&& exists|s0: CheckState|
                    #![trigger scope_frame(old, s0)]
                    scope_frame(old, s0) && tuple_patterns_chain(
                        fields@,
                        tys_view(tys@),
                        m,
                        r->TupleStruct_fields@,
                        r->TupleStruct_fields@.len() as int,
                        s0,
                        new,
                    )
            },
            _ => r is Error && last_error_is(old, new, CheckError::StructPatternMismatch { span }),
        }
    }
}

impl<'db> CheckState<'db> {
    /// Checks a single name used as a pattern: a unit struct or member it names, or else a new
    /// variable of type `ty`.
    fn name_pattern(&mut self, name: &Spanned<String>, ty: &Ty) -> (r: PatternIR<'db>)
        requires
            old(self).wf(),
        ensures
            scope_frame(*old(self), *final(self)),
            if names_unit(*old(self), name.0@) {
                r is UnitStruct && *final(self) == *old(self)
            } else {
                &&& r matches PatternIR::Name(m) && m.0@ == name.0@ && m.1 == name.1
                &&& declared(*old(self), *final(self), name.0@, ty@, name.1)
            },
    {
        let mut single: SpannedQualifiedName = Vec::new();
        single.push(clone_name(name));
        let def = self.get_ident_ir(&single);
        proof {
            assert(single@.take(1) =~= single@);
            assert(segments(single@) =~= seq![name.0@]);
            assert(def@[0].1 == single@[0].1);
            assert(prefix_def(*self, single@, 1, def@[0].0));
        }
        let unit = match &def[0].0 {
            IdentDef::Decl(d) => match &d.kind {
                DeclKind::Struct { body: StructDecl::Unit, .. } | DeclKind::Member { body: StructDecl::Unit } => true,
                _ => false,
            },
            _ => false,
        };
        if unit {
            proof {
                lemma_frame_refl(*self);
            }
            return PatternIR::UnitStruct(def);
        }
        let ghost before = *self;
        proof {
            assert(!names_unit(before, name.0@));
        }
        let t = ty.deep_clone();
        self.insert_variable(name.0.clone(), t, TokenKind::Var, name.1);
        proof {
            assert(self.variables@.last()@.drop_last() =~= before.variables@.last()@);
            assert(self.variables@.last()@.last().ty@ == ty@);
            assert(before.variables@.last()@.is_prefix_of(self.variables@.last()@));
            assert(before.errors@.is_prefix_of(self.errors@));
        }
        PatternIR::Name(clone_name(name))
    }
}

impl Pattern {
    /// The path of a pattern other than a single name.
    pub fn name(&self) -> (r: &SpannedQualifiedName)
        requires
            !(*self is Name),
        ensures
            r@ == pattern_path(*self),
    {
        match self {
            Pattern::Struct { name, .. } => name,
            Pattern::UnitStruct(name) => name,
            Pattern::TupleStruct { name, .. } => name,
            Pattern::Name(_) => unreached(),
        }
    }

    /// Checks the pattern without an expected type: names become variables of unknown type.
    pub fn check<'db>(&self, state: &mut CheckState<'db>) -> (r: PatternIR<'db>)
        requires
            old(state).wf(),
            pattern_wf(*self),
        ensures
            scope_frame(*old(state), *final(state)),
            same_shape(*self, r),
            !(r is Error),
            self is Name ==> if names_unit(*old(state), self->Name_0.0@) {
                r is UnitStruct
            } else {
                &&& r matches PatternIR::Name(m) && m.0@ == self->Name_0.0@ && m.1 == self->Name_0.1
                &&& declared(*old(state), *final(state), self->Name_0.0@, TyModel::Unknown, self->Name_0.1)
            },
            self matches Pattern::Struct { fields, .. } ==> (r matches PatternIR::Struct { fields: f, .. }
                && forall|i: int| 0 <= i < f@.len() ==> #[trigger] f@[i].1 == fields@[i].1),
            self matches Pattern::TupleStruct { fields, .. } ==> (r matches PatternIR::TupleStruct { fields: f, .. }
                && f@.len() == fields@.len() && forall|i: int| 0 <= i < f@.len() ==> #[trigger] f@[i].1 == fields@[i].1),
            self is UnitStruct ==> r is UnitStruct,
            pattern_checked(*self, *old(state), *final(state), r),
        decreases self, 1int,
    {
        match self {
            Pattern::Name(name) => state.name_pattern(name, &Ty::Unknown),
            Pattern::Struct { name, fields } => {
                let ghost st = *state;
                let mut out: Vec<Spanned<StructFieldPatternIR<'db>>> = Vec::new();
                let mut i: usize = 0;
                proof {
                    lemma_frame_refl(st);
                }
                while i < fields.len()
                    invariant
                        i <= fields@.len(),
                        forall|k: int| 0 <= k < fields@.len() ==> field_pattern_wf(#[trigger] fields@[k].0),
                        scope_frame(st, *state),
                        decreases_to!(*self => *fields),
                        out@.len() == i,
                        forall|k: int| 0 <= k < i ==> #[trigger] out@[k].1 == fields@[k].1,
                    decreases fields@.len() - i,
                {
                    proof {
                        assert(field_pattern_wf(fields@[i as int].0));
                        assert(decreases_to!(*fields => fields@[i as int]));
                        assert(decreases_to!(fields@[i as int] => fields@[i as int].0));
                    }
                    let ghost before = *state;
                    let f = fields[i].0.check(state);
                    proof {
                        lemma_frame_trans(st, before, *state);
                    }
                    out.push((f, fields[i].1));
                    i = i + 1;
                }
                PatternIR::Struct { name: state.get_ident_ir(name), fields: out }
            },
            Pattern::UnitStruct(name) => {
                proof {
                    lemma_frame_refl(*state);
                }
                PatternIR::UnitStruct(state.get_ident_ir(name))
            },
            Pattern::TupleStruct { name, fields } => {
                let ghost st = *state;
                let mut out: Vec<Spanned<PatternIR<'db>>> = Vec::new();
                let mut i: usize = 0;
                proof {
                    lemma_frame_refl(st);
                }
                while i < fields.len()
                    invariant
                        i <= fields@.len(),
                        forall|k: int| 0 <= k < fields@.len() ==> pattern_wf(#[trigger] fields@[k].0),
                        scope_frame(st, *state),
                        decreases_to!(*self => *fields),
                        out@.len() == i,
                        forall|k: int| 0 <= k < i ==> #[trigger] out@[k].1 == fields@[k].1,
                    decreases fields@.len() - i,
                {
                    proof {
                        assert(pattern_wf(fields@[i as int].0));
                        assert(decreases_to!(*fields => fields@[i as int]));
                        assert(decreases_to!(fields@[i as int] => fields@[i as int].0));
                    }
                    let ghost before = *state;
                    let f = fields[i].0.check(state);
                    proof {
                        lemma_frame_trans(st, before, *state);
                    }
                    out.push((f, fields[i].1));
                    i = i + 1;
                }
                PatternIR::TupleStruct { name: state.get_ident_ir(name), fields: out }
            },
        }
    }

    /// Checks the pattern against the type `ty` of the value it matches: a name becomes a
    /// variable of that type; a struct pattern must name a struct or member of that type, and its
    /// fields are checked against the struct's fields with the type's arguments substituted.
    pub fn expect<'db>(&self, state: &mut CheckState<'db>, ty: &Ty) -> (r: PatternIR<'db>)
        requires
            old(state).wf(),
            pattern_wf(*self),
        ensures
            scope_frame(*old(state), *final(state)),
            expect_pattern_rule(*self, *old(state), *final(state), ty@, r),
        decreases self, 3int,
    {
        if let Pattern::Name(name) = self {
            return state.name_pattern(name, ty);
        }
        let ghost st = *state;
        let path = self.name();
        let last_span = path[path.len() - 1].1;
        match state.get_decl_with_error(path.as_slice()) {
            Err(e) => {
                state.error(CheckError::Unresolved { name: e });
                proof {
                    assert(st.errors@.is_prefix_of(state.errors@));
                    assert(st.variables@.last()@.is_prefix_of(state.variables@.last()@));
                }
                PatternIR::Error
            },
            Ok(decl) => {
                let body = match &decl.kind {
                    DeclKind::Member { body } => body,
                    DeclKind::Struct { body, .. } => body,
                    _ => {
                        state.error(CheckError::ExpectedStruct { span: last_span });
                        proof {
                            assert(st.errors@.is_prefix_of(state.errors@));
                            assert(st.variables@.last()@.is_prefix_of(state.variables@.last()@));
                        }
                        return PatternIR::Error;
                    },
                };
                self.expect_struct(state, ty, decl, body)
            },
        }
    }

    /// Checks a struct pattern whose path names `decl`, a struct or member with body `body`,
    /// against the type `ty`.
    fn expect_struct<'db>(&self, state: &mut CheckState<'db>, ty: &Ty, decl: &'db Decl, body: &'db StructDecl) -> (r:
        PatternIR<'db>)
        requires
            old(state).wf(),
            pattern_wf(*self),
            !(*self is Name),
            decl.kind is Struct || decl.kind is Member,
            decl.kind matches DeclKind::Struct { body: b, .. } ==> b == *body,
            decl.kind matches DeclKind::Member { body: b } ==> b == *body,
        ensures
            scope_frame(*old(state), *final(state)),
            same_shape(*self, r),
            struct_pattern_outcome(*self, *old(state), *final(state), ty@, *decl, *body, r),
        decreases self, 2int,
    {
        let ghost st = *state;
        let path = self.name();
        let last_span = path[path.len() - 1].1;
        let mut ty_now = if let Ty::TypeVar { .. } = ty {
            if decl.named_defined(state.project, &decl.path) {
                let named = decl.get_named_ty(state.project, &decl.path);
                let gs = decl.inst_generics(state.project);
                let new = state.inst(&named, &gs);
                let ghost mid = *state;
                ty.expect_is_instance_of(&new, state, last_span);
                proof {
                    assert(st.errors@.is_prefix_of(state.errors@)) by {
                        assert(mid.errors == st.errors);
                    }
                    assert(st.variables@.last()@.is_prefix_of(state.variables@.last()@));
                    assert(scope_frame(st, *state));
                }
                new
            } else {
                proof {
                    lemma_frame_refl(st);
                }
                ty.deep_clone()
            }
        } else {
            proof {
                lemma_frame_refl(st);
            }
            ty.deep_clone()
        };
        let self_super = match &ty_now {
            Ty::Generic(g) => if crate::db::decl::str_eq(g.name.0.as_str(), "Self") {
                Some((&*g.super_).deep_clone())
            } else {
                None
            },
            _ => None,
        };
        if let Some(s) = self_super {
            ty_now = s;
        }
        proof {
            reveal_strlit("Self");
            lemma_view_parts(ty_now);
        }
        assert(ty_now@ == struct_pattern_ty(st, ty@, *decl));
        let (expected_name, args) = match &ty_now {
            Ty::Named(n) => (&n.name, &n.args),
            _ => {
                let ghost before = *state;
                state.error(CheckError::ExpectedStructType { found: ty_now.deep_clone(), span: last_span });
                proof {
                    assert(before.errors@.is_prefix_of(state.errors@));
                    assert(before.variables@.last()@.is_prefix_of(state.variables@.last()@));
                    lemma_frame_trans(st, before, *state);
                }
                return PatternIR::Error;
            },
        };
        let is_member = match &decl.kind {
            DeclKind::Member { .. } => true,
            _ => false,
        };
        let ty_decl_id = if is_member {
            if decl.path.name.len() < 1 {
                let ghost before = *state;
                state.error(CheckError::StructPatternMismatch { span: last_span });
                proof {
                    assert(before.errors@.is_prefix_of(state.errors@));
                    assert(before.variables@.last()@.is_prefix_of(state.variables@.last()@));
                    lemma_frame_trans(st, before, *state);
                }
                return PatternIR::Error;
            }
            decl.path.get_parent()
        } else {
            decl.path.copy()
        };
        if !expected_name.same(&ty_decl_id) {
            let ghost before = *state;
            state.error(
                CheckError::StructMismatch { expected: expected_name.copy(), found: ty_decl_id, span: last_span },
            );
            proof {
                assert(before.errors@.is_prefix_of(state.errors@));
                assert(before.variables@.last()@.is_prefix_of(state.variables@.last()@));
                lemma_frame_trans(st, before, *state);
            }
            let ghost mid = *state;
            let r = self.check(state);
            proof {
                lemma_frame_trans(st, mid, *state);
                assert(scope_frame(st, mid));
            }
            return r;
        }
        let parent = match state.try_get_decl_path(expected_name) {
            Some(p) => p,
            None => {
                return PatternIR::Error;
            },
        };
        let generics: GenericMap = if parent.kind_has_generics() {
            let gs = parent.generics();
            let g = zip_generics(&gs, args);
            proof {
                let dg = decl_generics(*parent);
                assert(generics_view(gs@).len() == generics_view(dg).len());
                assert(gs@.len() == dg.len());
                assert forall|k: int| 0 <= k < gs@.len() implies #[trigger] gs@[k].name.0@ == dg[k].name.0@ by {
                    assert(generics_view(gs@)[k] == generics_view(dg)[k]);
                    assert(generics_view(gs@)[k] == gs@[k]@);
                    assert(generics_view(dg)[k] == dg[k]@);
                }
                assert(zip_pairs(gs@, tys_view(args@)) =~= zip_pairs(dg, tys_view(args@)));
            }
            g
        } else {
            Vec::new()
        };
        proof {
            assert(pairs_view(generics@) =~= pattern_generic_map(st, ty_now@));
        }
        match (self, body) {
            (Pattern::Struct { name, fields }, StructDecl::Fields(expected)) => {
                let ghost m = subst_fields(fields_view(expected@), pairs_view(generics@));
                let mut expected_tys: GenericMap = Vec::new();
                let mut j: usize = 0;
                while j < expected.len()
                    invariant
                        j <= expected@.len(),
                        expected_tys@.len() == j,
                        m == subst_fields(fields_view(expected@), pairs_view(generics@)),
                        pairs_view(expected_tys@) =~= m.take(j as int),
                    decreases expected@.len() - j,
                {
                    expected_tys.push((expected[j].0.clone(), expected[j].1.subst(&generics)));
                    proof {
                        assert(pairs_view(expected_tys@) =~= m.take(j + 1));
                    }
                    j = j + 1;
                }
                proof {
                    assert(m.take(expected@.len() as int) =~= m);
                }
                let ghost s0 = *state;
                let mut out: Vec<Spanned<StructFieldPatternIR<'db>>> = Vec::new();
                let mut i: usize = 0;
                proof {
                    lemma_frame_refl(s0);
                }
                while i < fields.len()
                    invariant
                        i <= fields@.len(),
                        forall|k: int| 0 <= k < fields@.len() ==> field_pattern_wf(#[trigger] fields@[k].0),
                        scope_frame(s0, *state),
                        decreases_to!(*self => *fields),
                        out@.len() == i,
                        forall|k: int| 0 <= k < i ==> #[trigger] out@[k].1 == fields@[k].1,
                        pairs_view(expected_tys@) == m,
                        field_patterns_chain(fields@, m, out@, i as int, s0, *state),
                    decreases fields@.len() - i,
                {
                    proof {
                        assert(field_pattern_wf(fields@[i as int].0));
                        assert(decreases_to!(*fields => fields@[i as int]));
                        assert(decreases_to!(fields@[i as int] => fields@[i as int].0));
                    }
                    let ghost before = *state;
                    let f = fields[i].0.expect(state, &expected_tys);
                    let ghost out0 = out@;
                    proof {
                        lemma_frame_trans(s0, before, *state);
                    }
                    out.push((f, fields[i].1));
                    proof {
                        assert(out@.drop_last() =~= out0);
                        assert(scope_frame(s0, before));
                        assert(field_patterns_chain(fields@, m, out@, i + 1, s0, *state));
                    }
                    i = i + 1;
                }
                proof {
                    lemma_frame_trans(st, s0, *state);
                }
                let ghost s9 = *state;
                let r = PatternIR::Struct { name: state.get_ident_ir(name), fields: out };
                proof {
                    assert(*state == s9);
                    assert(scope_frame(st, s0));
                }
                r
            },
            (Pattern::UnitStruct(name), StructDecl::Unit) => PatternIR::UnitStruct(state.get_ident_ir(name)),
            (Pattern::TupleStruct { name, fields }, StructDecl::Tuple(tys)) => {
                let n = if fields.len() < tys.len() {
                    fields.len()
                } else {
                    tys.len()
                };
                let ghost s0 = *state;
                let ghost m = pairs_view(generics@);
                let mut out: Vec<Spanned<PatternIR<'db>>> = Vec::new();
                let mut i: usize = 0;
                proof {
                    lemma_frame_refl(s0);
                }
                while i < n
                    invariant
                        i <= n,
                        n <= fields@.len(),
                        n <= tys@.len(),
                        forall|k: int| 0 <= k < fields@.len() ==> pattern_wf(#[trigger] fields@[k].0),
                        scope_frame(s0, *state),
                        decreases_to!(*self => *fields),
                        out@.len() == i,
                        forall|k: int| 0 <= k < i ==> #[trigger] out@[k].1 == fields@[k].1,
                        m == pairs_view(generics@),
                        tuple_patterns_chain(fields@, tys_view(tys@), m, out@, i as int, s0, *state),
                    decreases n - i,
                {
                    proof {
                        assert(pattern_wf(fields@[i as int].0));
                        assert(decreases_to!(*fields => fields@[i as int]));
                        assert(decreases_to!(fields@[i as int] => fields@[i as int].0));
                    }
                    let ghost before = *state;
                    let field_ty = tys[i].subst(&generics);
                    let f = fields[i].0.expect(state, &field_ty);
                    let ghost out0 = out@;
                    proof {
                        lemma_frame_trans(s0, before, *state);
                        assert(tys_view(tys@)[i as int] == tys@[i as int]@);
                    }
                    out.push((f, fields[i].1));
                    proof {
                        assert(out@.drop_last() =~= out0);
                        assert(scope_frame(s0, before));
                        assert(tuple_patterns_chain(fields@, tys_view(tys@), m, out@, i + 1, s0, *state));
                    }
                    i = i + 1;
                }
                proof {
                    lemma_frame_trans(st, s0, *state);
                }
                let ghost s9 = *state;
                let r = PatternIR::TupleStruct { name: state.get_ident_ir(name), fields: out };
                proof {
                    assert(*state == s9);
                    assert(scope_frame(st, s0));
                }
                r
            },
            _ => {
                let ghost before = *state;
                state.error(CheckError::StructPatternMismatch { span: last_span });
                proof {
                    assert(before.errors@.is_prefix_of(state.errors@));
                    assert(before.variables@.last()@.is_prefix_of(state.variables@.last()@));
                    lemma_frame_trans(st, before, *state);
                }
                PatternIR::Error
            },
        }
    }
}

impl StructFieldPattern {
    /// Checks a field pattern without an expected type.
    pub fn check<'db>(&self, state: &mut CheckState<'db>) -> (r: StructFieldPatternIR<'db>)
        requires
            old(state).wf(),
            field_pattern_wf(*self),
        ensures
            scope_frame(*old(state), *final(state)),
            match *self {
                StructFieldPattern::Implied(n) => r matches StructFieldPatternIR::Implied { name } && name.0@ == n.0@
                    && name.1 == n.1 && *final(state) == *old(state),
                StructFieldPattern::Explicit { field, pattern } => r matches StructFieldPatternIR::Explicit {
                    field: f,
                    pattern: p,
                } && f.0@ == field.0@ && f.1 == field.1 && p.1 == pattern.1,
            },
        decreases self, 0int,
    {
        match self {
            StructFieldPattern::Implied(name) => {
                proof {
                    lemma_frame_refl(*state);
                }
                StructFieldPatternIR::Implied { name: clone_name(name) }
            },
            StructFieldPattern::Explicit { field, pattern } => {
                let ghost st = *state;
                let p = pattern.0.expect(state, &Ty::Unknown);
                StructFieldPatternIR::Explicit { field: clone_name(field), pattern: (p, pattern.1) }
            },
        }
    }

    /// Checks a field pattern against the fields `fields` of the struct, each with its type: an
    /// implied field becomes a variable of the field's type; a field the struct lacks is reported.
    pub fn expect<'db>(&self, state: &mut CheckState<'db>, fields: &GenericMap) -> (r: StructFieldPatternIR<'db>)
        requires
            old(state).wf(),
            field_pattern_wf(*self),
        ensures
            scope_frame(*old(state), *final(state)),
            match *self {
                StructFieldPattern::Implied(n) => {
                    &&& r matches StructFieldPatternIR::Implied { name } && name.0@ == n.0@ && name.1 == n.1
                    &&& match lookup(pairs_view(fields@), n.0@) {
                        Some(t) => declared(*old(state), *final(state), n.0@, t, n.1),
                        None => {
                            &&& final(state).errors@ == old(state).errors@.push(final(state).errors@.last())
                            &&& final(state).errors@.last() matches CheckError::FieldNotFound { field, span }
                                && field@ == n.0@ && span == n.1
                        },
                    }
                },
                StructFieldPattern::Explicit { field, pattern } => {
                    &&& r matches StructFieldPatternIR::Explicit { field: f, pattern: p } && f.0@ == field.0@ && f.1
                        == field.1 && p.1 == pattern.1
                    &&& lookup(pairs_view(fields@), field.0@) matches Some(t) ==> expect_pattern_rule(
                        pattern.0,
                        *old(state),
                        *final(state),
                        t,
                        r->pattern.0,
                    )
                    &&& lookup(pairs_view(fields@), field.0@) is None ==> {
                        &&& r->pattern.0 is Error
                        &&& final(state).errors@ == old(state).errors@.push(final(state).errors@.last())
                        &&& final(state).errors@.last() matches CheckError::FieldNotFound { field: f, span }
                            && f@ == field.0@ && span == field.1
                    }
                },
            },
            field_pattern_expected(*self, *old(state), *final(state), pairs_view(fields@), r),
        decreases self, 0int,
    {
        let ghost st = *state;
        match self {
            StructFieldPattern::Implied(name) => {
                match lookup_generic(fields, &name.0) {
                    Some(ty) => {
                        state.insert_variable(name.0.clone(), ty.deep_clone(), TokenKind::Var, name.1);
                        proof {
                            assert(st.variables@.last()@.is_prefix_of(state.variables@.last()@));
                            assert(st.errors@.is_prefix_of(state.errors@));
                        }
                    },
                    None => {
                        state.error(CheckError::FieldNotFound { field: name.0.clone(), span: name.1 });
                        proof {
                            assert(st.variables@.last()@.is_prefix_of(state.variables@.last()@));
                            assert(st.errors@.is_prefix_of(state.errors@));
                        }
                    },
                }
                StructFieldPatternIR::Implied { name: clone_name(name) }
            },
            StructFieldPattern::Explicit { field, pattern } => {
                let p = match lookup_generic(fields, &field.0) {
                    Some(ty) => pattern.0.expect(state, ty),
                    None => {
                        state.error(CheckError::FieldNotFound { field: field.0.clone(), span: field.1 });
                        proof {
                            assert(st.variables@.last()@.is_prefix_of(state.variables@.last()@));
                            assert(st.errors@.is_prefix_of(state.errors@));
                        }
                        PatternIR::Error
                    },
                };
                StructFieldPatternIR::Explicit { field: clone_name(field), pattern: (p, pattern.1) }
            },
        }
    }
}

} // verus!
