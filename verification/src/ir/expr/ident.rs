use vstd::prelude::*;

use crate::check::err::CheckError;
use crate::check::instance::{is_instance, subst_spec};
use crate::check::members::{fields_model, find_field, find_field_index, impl_funcs, inst_pairs, lemma_funcs_named};
use crate::check::state::{spec_generic, spec_var, CheckState, VarDecl};
use crate::db::decl::{decl_ty_defined, decl_ty_model, inst_generics_model, spec_get, Decl, DeclKind, Project};
use crate::ir::expr::{expect_ty, lemma_frame_refl, lemma_frame_trans, scope_frame, ExprIR, ExprIRData};
use crate::ir::expr::rel::{checks_to, expects_to};
use crate::parser::ast::{clone_name, segments, Expr, SpannedQualifiedName};
use crate::ty::{lemma_view_parts, Generic, Ty, TyModel};
use crate::util::{Span, Spanned};

verus! {

broadcast use vstd::std_specs::vec::group_vec_axioms;

/// What a name refers to.
pub enum IdentDef<'db> {
    Variable(VarDecl),
    Decl(&'db Decl),
    Generic(Generic),
    Unresolved,
}

/// A path with what each of its segments refers to.
pub type SpannedQualifiedNameIR<'db> = Vec<Spanned<IdentDef<'db>>>;

/// Whether `def` is what the first `n` segments of `name` resolve to in `st`: the declaration
/// found, or nothing where resolution fails.
pub open spec fn prefix_def(st: CheckState, name: Seq<Spanned<String>>, n: int, def: IdentDef) -> bool {
    match st.resolve(segments(name.take(n))) {
        Ok(d) => def matches IdentDef::Decl(x) && *x == d,
        Err(_) => def is Unresolved,
    }
}

/// Whether `ir` records, for each segment of `name`, its span and what the path up to it
/// resolves to in `st`.
pub open spec fn ident_ir_of(st: CheckState, name: Seq<Spanned<String>>, ir: Seq<Spanned<IdentDef>>) -> bool {
    &&& ir.len() == name.len()
    &&& forall|i: int| 0 <= i < name.len() ==> #[trigger] ir[i].1 == name[i].1 && prefix_def(st, name, i + 1, ir[i].0)
}

impl<'db> CheckState<'db> {
    /// Resolves each prefix of `name`: what every segment of the path refers to.
    pub fn get_ident_ir(&self, name: &SpannedQualifiedName) -> (r: SpannedQualifiedNameIR<'db>)
        ensures
            ident_ir_of(*self, name@, r@),
    {
        let mut out: SpannedQualifiedNameIR<'db> = Vec::new();
        let mut i: usize = 0;
        while i < name.len()
            invariant
                i <= name@.len(),
                out@.len() == i,
                forall|k: int| 0 <= k < i ==> #[trigger] out@[k].1 == name@[k].1 && prefix_def(*self, name@, k + 1, out@[k].0),
            decreases name@.len() - i,
        {
            let prefix = vstd::slice::slice_subrange(name.as_slice(), 0, i + 1);
            proof {
                assert(prefix@ == name@.take(i + 1));
            }
            let def = match self.get_decl_with_error(prefix) {
                Ok(d) => IdentDef::Decl(d),
                Err(_) => IdentDef::Unresolved,
            };
            out.push((def, name[i].1));
            i = i + 1;
        }
        out
    }
}

/// The type of an expression naming the declaration `d`, its generics instantiated with fresh
/// type variables from id `next` on, and the next free id.
pub open spec fn decl_inst_model(d: Decl, project: Project, next: int) -> (TyModel, int) {
    if decl_ty_defined(d, project) {
        let p = inst_pairs(inst_generics_model(d, project), next);
        (subst_spec(decl_ty_model(d, project), p.0), p.1)
    } else {
        (TyModel::Unknown, next)
    }
}

/// The type of the field `name` of `self`, where `self` is in scope and has such a field.
pub open spec fn self_field(st: CheckState, name: Seq<char>) -> Option<TyModel> {
    match spec_var(st.variables@, "self"@) {
        Some(sv) => find_field(fields_model(*st.project, sv.ty@), name),
        None => None,
    }
}

/// The first method named `name` that the impls of the named type of `self` provide.
pub open spec fn self_method(st: CheckState, name: Seq<char>) -> Option<Decl> {
    match spec_var(st.variables@, "self"@) {
        Some(sv) => match sv.ty@ {
            TyModel::Named(path, _) => {
                let fs = impl_funcs(*st.project, path, name, true);
                if fs.len() > 0 {
                    Some(fs[0])
                } else {
                    None
                }
            },
            _ => None,
        },
        None => None,
    }
}

/// How a path used as an expression is typed in `st`, with type variables from `next` on: the
/// type, the next free id, and whether a diagnostic is reported.
///
/// A single name is, in order: a field of `self`, a method of `self`, a variable, a generic (whose
/// value is its meta type), or a declaration. A longer path names an item of the declaration its
/// parent path resolves to, or else a static function of a type, which must be the only one of
/// that name.
pub open spec fn ident_model(st: CheckState, ident: Seq<Spanned<String>>, next: int) -> (TyModel, int, bool) {
    let name = ident.last().0@;
    let project = *st.project;
    if ident.len() == 1 {
        if self_field(st, name) is Some {
            (self_field(st, name)->0, next, false)
        } else if self_method(st, name) is Some {
            (decl_ty_model(self_method(st, name)->0, project), next, false)
        } else if spec_var(st.variables@, name) is Some {
            (spec_var(st.variables@, name)->0.ty@, next, false)
        } else if spec_generic(st.generics@, name) is Some {
            (TyModel::Meta(Box::new(TyModel::Generic(spec_generic(st.generics@, name)->0@))), next, false)
        } else {
            match st.resolve(segments(ident)) {
                Ok(d) => {
                    let m = decl_inst_model(d, project, next);
                    (m.0, m.1, false)
                },
                Err(_) => (TyModel::Unknown, next, true),
            }
        }
    } else {
        match st.resolve(segments(ident.drop_last())) {
            Ok(pd) => match spec_get(pd, name) {
                Some(e) => {
                    let m = decl_inst_model(e, project, next);
                    (m.0, m.1, false)
                },
                None => if pd.kind is Trait || pd.kind is Enum || pd.kind is Struct {
                    let fs = impl_funcs(project, pd.path@, name, false);
                    if fs.len() == 1 {
                        (decl_ty_model(fs[0], project), next, false)
                    } else {
                        (TyModel::Unknown, next, true)
                    }
                } else {
                    (TyModel::Unknown, next, true)
                },
            },
            Err(_) => (TyModel::Unknown, next, false),
        }
    }
}

/// Whether `v` records the variable `w`: its name, type, kind and span.
pub open spec fn same_var(v: VarDecl, w: VarDecl) -> bool {
    v.name@ == w.name@ && v.ty@ == w.ty@ && v.kind == w.kind && v.span == w.span
}

/// What a path used as an expression is recorded to refer to, segment by segment, following the
/// order of `ident_model`: `self` for a field of it, the method, the variable, the generic or the
/// declaration a single name names; for a longer path the parent declaration and the item in it,
/// or the one static function of that name; and `Unresolved` where nothing is found.
pub open spec fn ident_defs_rule(st: CheckState, ident: Seq<Spanned<String>>, defs: Seq<Spanned<IdentDef>>) -> bool {
    let name = ident.last();
    let n = name.0@;
    let project = *st.project;
    if ident.len() == 1 {
        &&& defs.len() == 1
        &&& defs[0].1 == name.1
        &&& if self_field(st, n) is Some {
            defs[0].0 matches IdentDef::Variable(v) && same_var(v, spec_var(st.variables@, "self"@)->0)
        } else if self_method(st, n) is Some {
            defs[0].0 matches IdentDef::Decl(d) && *d == self_method(st, n)->0
        } else if spec_var(st.variables@, n) is Some {
            defs[0].0 matches IdentDef::Variable(v) && same_var(v, spec_var(st.variables@, n)->0)
        } else if spec_generic(st.generics@, n) is Some {
            defs[0].0 matches IdentDef::Generic(g) && g@ == spec_generic(st.generics@, n)->0@
        } else {
            match st.resolve(segments(ident)) {
                Ok(d) => defs[0].0 matches IdentDef::Decl(x) && *x == d,
                Err(_) => defs[0].0 is Unresolved,
            }
        }
    } else {
        match st.resolve(segments(ident.drop_last())) {
            Ok(pd) => match spec_get(pd, n) {
                Some(e) => {
                    &&& defs.len() == 2
                    &&& defs[0].0 matches IdentDef::Decl(x) && *x == pd
                    &&& defs[0].1 == ident[ident.len() - 2].1
                    &&& defs[1].0 matches IdentDef::Decl(y) && *y == e
                    &&& defs[1].1 == name.1
                },
                None => {
                    &&& defs.len() == 1
                    &&& defs[0].1 == name.1
                    &&& if (pd.kind is Trait || pd.kind is Enum || pd.kind is Struct) && impl_funcs(
                        project,
                        pd.path@,
                        n,
                        false,
                    ).len() == 1 {
                        defs[0].0 matches IdentDef::Decl(x) && *x == impl_funcs(project, pd.path@, n, false)[0]
                    } else {
                        defs[0].0 is Unresolved
                    }
                },
            },
            Err(_) => defs.len() == 1 && defs[0].1 == name.1 && defs[0].0 is Unresolved,
        }
    }
}

/// The diagnostic reported for a path used as an expression, where `ident_model` says one is:
/// more than one static function of the name, or a name that resolves to nothing.
pub open spec fn ident_error_is(st: CheckState, ident: Seq<Spanned<String>>, e: CheckError) -> bool {
    let name = ident.last();
    if ident.len() > 1 && (st.resolve(segments(ident.drop_last())) matches Ok(pd) && (pd.kind is Trait || pd.kind
        is Enum || pd.kind is Struct) && impl_funcs(*st.project, pd.path@, name.0@, false).len() > 1) {
        e == CheckError::AmbiguousFunction { span: name.1 }
    } else {
        e matches CheckError::Unresolved { name: m } && m.0@ == name.0@ && m.1 == name.1
    }
}

/// The type of an expression that names the declaration `d`, with its generics instantiated.
fn decl_inst<'db>(d: &'db Decl, state: &mut CheckState<'db>) -> (r: Ty)
    requires
        old(state).wf(),
    ensures
        scope_frame(*old(state), *final(state)),
        final(state).errors == old(state).errors,
        final(state).variables == old(state).variables,
        r@ == decl_inst_model(*d, *old(state).project, old(state).type_state.next_id() as int).0,
        final(state).type_state.next_id() == decl_inst_model(*d, *old(state).project, old(state).type_state.next_id() as int).1,
{
    let ghost st = *state;
    if d.ty_defined(state.project) {
        let t = d.get_ty(state.project);
        let gs = d.inst_generics(state.project);
        let r = state.inst(&t, &gs);
        proof {
            assert(st.variables@.last()@.is_prefix_of(state.variables@.last()@));
            assert(st.errors@.is_prefix_of(state.errors@));
        }
        r
    } else {
        proof {
            lemma_frame_refl(st);
        }
        Ty::Unknown
    }
}

/// Types a path used as an expression, as `ident_model` says; a name that resolves to nothing is
/// reported.
pub fn check_ident<'db>(ident: &SpannedQualifiedName, state: &mut CheckState<'db>) -> (r: ExprIR<'db>)
    requires
        old(state).wf(),
        ident@.len() >= 1,
    ensures
        scope_frame(*old(state), *final(state)),
        final(state).variables == old(state).variables,
        r.data is Ident,
        r.ty@ == ident_model(*old(state), ident@, old(state).type_state.next_id() as int).0,
        final(state).type_state.next_id() == ident_model(*old(state), ident@, old(state).type_state.next_id() as int).1,
        r.data matches ExprIRData::Ident(defs) && ident_defs_rule(*old(state), ident@, defs@),
        if ident_model(*old(state), ident@, old(state).type_state.next_id() as int).2 {
            &&& final(state).errors@.len() == old(state).errors@.len() + 1
            &&& final(state).errors@.drop_last() == old(state).errors@
            &&& ident_error_is(*old(state), ident@, final(state).errors@.last())
        } else {
            final(state).errors == old(state).errors
        },
{
    let ghost st = *state;
    let n = ident.len();
    let name = &ident[n - 1];
    let project: &'db Project = state.project;
    proof {
        reveal_strlit("self");
        lemma_frame_refl(st);
    }
    if n == 1 {
        let self_param = match state.get_variable("self") {
            Some(v) => Some(v.copy()),
            None => None,
        };
        if let Some(sv) = self_param {
            let fields = sv.ty.fields(project);
            match find_field_index(&fields, name.0.as_str()) {
                Some(i) => {
                    let mut v: Vec<Spanned<IdentDef<'db>>> = Vec::new();
                    v.push((IdentDef::Variable(sv.copy()), name.1));
                    return ExprIR { data: ExprIRData::Ident(v), ty: fields[i].1.deep_clone() };
                },
                None => {},
            }
            proof {
                lemma_view_parts(sv.ty);
            }
            if let Ty::Named(named) = &sv.ty {
                let methods = project.impl_funcs(&named.name, name.0.as_str(), true);
                if methods.len() > 0 {
                    let d: &'db Decl = methods[0];
                    proof {
                        lemma_funcs_named(
                            crate::check::members::impl_decls(crate::db::decl::impls_of(project.impl_map@, named.name@)->0),
                            name.0@,
                            true,
                        );
                        assert(*d == crate::check::members::derefs(methods@)[0]);
                    }
                    let ty = d.get_ty(project);
                    let mut v: Vec<Spanned<IdentDef<'db>>> = Vec::new();
                    v.push((IdentDef::Decl(d), name.1));
                    return ExprIR { data: ExprIRData::Ident(v), ty };
                }
            }
        }
        match state.get_variable(name.0.as_str()) {
            Some(var) => {
                let var = var.copy();
                let ty = var.ty.deep_clone();
                let mut v: Vec<Spanned<IdentDef<'db>>> = Vec::new();
                v.push((IdentDef::Variable(var), name.1));
                return ExprIR { data: ExprIRData::Ident(v), ty };
            },
            None => {},
        }
        match state.get_generic(name.0.as_str()) {
            Some(g) => {
                let g = g.deep_clone();
                let g2 = g.deep_clone();
                proof {
                    Ty::lemma_generic_view(g2);
                }
                let ty = Ty::Meta(Box::new(Ty::Generic(g2)));
                let mut v: Vec<Spanned<IdentDef<'db>>> = Vec::new();
                v.push((IdentDef::Generic(g), name.1));
                return ExprIR { data: ExprIRData::Ident(v), ty };
            },
            None => {},
        }
        match state.get_decl_with_error(ident.as_slice()) {
            Ok(found) => {
                let ty = decl_inst(found, state);
                let mut v: Vec<Spanned<IdentDef<'db>>> = Vec::new();
                v.push((IdentDef::Decl(found), name.1));
                return ExprIR { data: ExprIRData::Ident(v), ty };
            },
            Err(e) => {
                state.error(CheckError::Unresolved { name: e });
                proof {
                    assert(st.errors@.is_prefix_of(state.errors@));
                    assert(state.errors@.drop_last() =~= st.errors@);
                }
            },
        }
        let mut v: Vec<Spanned<IdentDef<'db>>> = Vec::new();
        v.push((IdentDef::Unresolved, name.1));
        return ExprIR { data: ExprIRData::Ident(v), ty: Ty::Unknown };
    }
    let parent = vstd::slice::slice_subrange(ident.as_slice(), 0, n - 1);
    proof {
        assert(parent@ == ident@.drop_last());
    }
    if let Ok(parent_decl) = state.get_decl_with_error(parent) {
        match parent_decl.get(name.0.as_str()) {
            Some(export) => {
                let ty = decl_inst(export, state);
                let mut v: Vec<Spanned<IdentDef<'db>>> = Vec::new();
                v.push((IdentDef::Decl(parent_decl), parent[n - 2].1));
                v.push((IdentDef::Decl(export), name.1));
                return ExprIR { data: ExprIRData::Ident(v), ty };
            },
            None => {},
        }
        let is_type = match &parent_decl.kind {
            DeclKind::Trait { .. } | DeclKind::Enum { .. } | DeclKind::Struct { .. } => true,
            _ => false,
        };
        if is_type {
            let funcs = project.impl_funcs(&parent_decl.path, name.0.as_str(), false);
            if funcs.len() == 1 {
                let d: &'db Decl = funcs[0];
                proof {
                    lemma_funcs_named(
                        crate::check::members::impl_decls(crate::db::decl::impls_of(project.impl_map@, parent_decl.path@)->0),
                        name.0@,
                        false,
                    );
                    assert(*d == crate::check::members::derefs(funcs@)[0]);
                }
                let ty = d.get_ty(project);
                let mut v: Vec<Spanned<IdentDef<'db>>> = Vec::new();
                v.push((IdentDef::Decl(d), name.1));
                return ExprIR { data: ExprIRData::Ident(v), ty };
            } else if funcs.len() > 1 {
                state.error(CheckError::AmbiguousFunction { span: name.1 });
                proof {
                    assert(st.errors@.is_prefix_of(state.errors@));
                    assert(state.errors@.drop_last() =~= st.errors@);
                }
                let mut v: Vec<Spanned<IdentDef<'db>>> = Vec::new();
                v.push((IdentDef::Unresolved, name.1));
                return ExprIR { data: ExprIRData::Ident(v), ty: Ty::Unknown };
            }
        }
        state.error(CheckError::Unresolved { name: clone_name(name) });
        proof {
            assert(st.errors@.is_prefix_of(state.errors@));
            assert(state.errors@.drop_last() =~= st.errors@);
        }
    }
    let mut v: Vec<Spanned<IdentDef<'db>>> = Vec::new();
    v.push((IdentDef::Unresolved, name.1));
    ExprIR { data: ExprIRData::Ident(v), ty: Ty::Unknown }
}

/// Types a path used as an expression and checks that its type fits `expected`.
pub fn expect_ident<'db>(ident: &SpannedQualifiedName, state: &mut CheckState<'db>, expected: &Ty, span: Span) -> (r:
    ExprIR<'db>)
    requires
        old(state).wf(),
        ident@.len() >= 1,
    ensures
        scope_frame(*old(state), *final(state)),
        r.data is Ident,
        r.ty@ == ident_model(*old(state), ident@, old(state).type_state.next_id() as int).0,
        final(state).type_state.next_id() == ident_model(*old(state), ident@, old(state).type_state.next_id() as int).1,
        is_instance(r.ty@, expected@) ==> final(state).errors@.len() <= old(state).errors@.len() + 1,
        !is_instance(r.ty@, expected@) ==> (final(state).errors@.last() matches CheckError::TypeMismatch {
            expected: e,
            found,
            span: s,
        } && e@ == expected@ && found@ == r.ty@ && s == span),
        expects_to(Expr::Ident(*ident), r, *old(state), *final(state), expected@, span),
{
    let ghost st = *state;
    let actual = check_ident(ident, state);
    let ghost mid = *state;
    expect_ty(&actual.ty, expected, state, span);
    proof {
        lemma_frame_trans(st, mid, *state);
        assert(checks_to(Expr::Ident(*ident), actual, st, mid));
            assert(crate::ir::expr::rel::ty_expected(mid, *state, actual.ty@, expected@, span));
    }
    actual
}

/// A single name that is a variable in scope, and neither a field nor a method of `self`, has
/// the variable's type and reports nothing.
pub proof fn law_variable_ident(st: CheckState, ident: Seq<Spanned<String>>, next: int)
    requires
        ident.len() == 1,
        spec_var(st.variables@, ident[0].0@) is Some,
        self_field(st, ident[0].0@) is None,
        self_method(st, ident[0].0@) is None,
    ensures
        ident_model(st, ident, next) == (spec_var(st.variables@, ident[0].0@)->0.ty@, next, false),
{
}

/// A single name that resolves to nothing in scope is reported and has the unknown type.
pub proof fn law_unresolved_ident(st: CheckState, ident: Seq<Spanned<String>>, next: int)
    requires
        ident.len() == 1,
        self_field(st, ident[0].0@) is None,
        self_method(st, ident[0].0@) is None,
        spec_var(st.variables@, ident[0].0@) is None,
        spec_generic(st.generics@, ident[0].0@) is None,
        st.resolve(segments(ident)) is Err,
    ensures
        ident_model(st, ident, next) == (TyModel::Unknown, next, true),
{
}

} // verus!
