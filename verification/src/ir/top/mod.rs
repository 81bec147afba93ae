use vstd::prelude::*;

use crate::check::err::CheckError;
use crate::check::state::{walk, walk_decl, CheckState};
use crate::check::TokenKind;
use crate::db::decl::{spec_get_path, Decl, Project};
use crate::ir::common::generic_args::{generic_args_wf, generic_frame, GenericArgsIR};
use crate::ir::expr::ident::{ident_ir_of, SpannedQualifiedNameIR};
use crate::ir::expr::rel::{block_checked, block_expected_to};
use crate::ir::expr::{
    block_wf, check_block, expect_block, same_spans, scope_frame, CodeBlockIR, ExprIRData,
};
use crate::ir::ty::{type_check_frame, type_wf, TypeIR};
use crate::parser::ast::{
    clone_name, segments, Enum, EnumMember, Func, FunctionArg, Impl, SpannedQualifiedName, Struct, StructBody,
    StructField, Top, Trait,
};
use crate::ty::{lemma_view_parts, spec_unit, Named, Ty};
use crate::util::{opt_ref, strings_view, Spanned};

verus! {

broadcast use vstd::std_specs::vec::group_vec_axioms;

pub enum TopIR<'db> {
    Func(FuncIR<'db>),
    Struct(StructIR<'db>),
    Enum(EnumIR<'db>),
    Trait(TraitIR<'db>),
    Impl(ImplIR<'db>),
    Use(SpannedQualifiedNameIR<'db>),
}

/// A checked function with the declaration it was checked as, where there is one.
pub struct FuncIR<'db> {
    pub receiver: Option<Spanned<TypeIR<'db>>>,
    pub name: Spanned<String>,
    pub args: Vec<Spanned<FunctionArgIR<'db>>>,
    pub generics: Spanned<GenericArgsIR<'db>>,
    pub ret: Option<Spanned<TypeIR<'db>>>,
    pub body: CodeBlockIR<'db>,
    pub decl: Option<&'db Decl>,
}

pub struct FunctionArgIR<'db> {
    pub name: Spanned<String>,
    pub ty: Spanned<TypeIR<'db>>,
}

pub struct StructIR<'db> {
    pub name: Spanned<String>,
    pub generics: Spanned<GenericArgsIR<'db>>,
    pub body: Spanned<StructBodyIR<'db>>,
}

pub enum StructBodyIR<'db> {
    Unit,
    Tuple(Vec<Spanned<TypeIR<'db>>>),
    Fields(Vec<Spanned<StructFieldIR<'db>>>),
}

pub struct StructFieldIR<'db> {
    pub name: Spanned<String>,
    pub ty: Spanned<TypeIR<'db>>,
}

pub struct EnumIR<'db> {
    pub name: Spanned<String>,
    pub generics: Spanned<GenericArgsIR<'db>>,
    pub members: Vec<Spanned<EnumMemberIR<'db>>>,
}

pub struct EnumMemberIR<'db> {
    pub name: Spanned<String>,
    pub body: Spanned<StructBodyIR<'db>>,
}

pub struct TraitIR<'db> {
    pub name: Spanned<String>,
    pub generics: Spanned<GenericArgsIR<'db>>,
    pub body: Vec<Spanned<FuncIR<'db>>>,
}

pub struct ImplIR<'db> {
    pub generics: Spanned<GenericArgsIR<'db>>,
    pub trait_: Option<Spanned<TypeIR<'db>>>,
    pub for_: Spanned<TypeIR<'db>>,
    pub body: Vec<Spanned<FuncIR<'db>>>,
}

/// What checking a declaration inside its own scope leaves unchanged: the outer scopes, the
/// context of the file and the errors found before; type variables are only added.
pub open spec fn decl_frame(old: CheckState, new: CheckState) -> bool {
    &&& new.wf()
    &&& new.depth() == old.depth()
    &&& new.variables@.drop_last() == old.variables@.drop_last()
    &&& new.generics@.drop_last() == old.generics@.drop_last()
    &&& new.project == old.project
    &&& new.module == old.module
    &&& new.path@ == old.path@
    &&& new.imports == old.imports
    &&& old.errors@.is_prefix_of(new.errors@)
    &&& new.type_state.next_id() >= old.type_state.next_id()
}

pub proof fn lemma_decl_refl(a: CheckState)
    requires
        a.wf(),
    ensures
        decl_frame(a, a),
{
    assert(a.errors@.is_prefix_of(a.errors@));
}

pub proof fn lemma_decl_trans(a: CheckState, b: CheckState, c: CheckState)
    requires
        decl_frame(a, b),
        decl_frame(b, c),
    ensures
        decl_frame(a, c),
{
    let ea = a.errors@;
    let eb = b.errors@;
    let ec = c.errors@;
    assert(ea =~= ec.subrange(0, ea.len() as int)) by {
        assert forall|i: int| 0 <= i < ea.len() implies ea[i] == ec[i] by {
            assert(ea[i] == eb[i]);
            assert(eb[i] == ec[i]);
        }
    }
}

/// Each narrower frame is a declaration frame.
pub proof fn lemma_decl_of(a: CheckState, b: CheckState)
    requires
        scope_frame(a, b) || generic_frame(a, b) || (type_check_frame(a, b) && a.wf()),
    ensures
        decl_frame(a, b),
{
}

/// Whether every type, pattern and path written in the function is well formed.
pub open spec fn func_wf(f: Func) -> bool {
    &&& generic_args_wf(f.generics.0)
    &&& (f.receiver matches Some(r) ==> type_wf(r.0))
    &&& forall|i: int| 0 <= i < f.args@.len() ==> type_wf(#[trigger] f.args@[i].0.ty.0)
    &&& (f.ret matches Some(r) ==> type_wf(r.0))
    &&& (f.body matches Some(b) ==> block_wf(b@))
}

pub open spec fn body_wf(b: StructBody) -> bool {
    match b {
        StructBody::Unit => true,
        StructBody::Tuple(ts) => forall|i: int| 0 <= i < ts@.len() ==> type_wf(#[trigger] ts@[i].0),
        StructBody::Fields(fs) => forall|i: int| 0 <= i < fs@.len() ==> type_wf(#[trigger] fs@[i].0.ty.0),
    }
}

/// Whether every type, pattern and path written in the declaration is well formed.
pub open spec fn top_wf(t: Top) -> bool {
    match t {
        Top::Func(f) => func_wf(f),
        Top::Struct(s) => generic_args_wf(s.generics.0) && body_wf(s.body.0),
        Top::Enum(e) => generic_args_wf(e.generics.0) && forall|i: int|
            0 <= i < e.members@.len() ==> body_wf(#[trigger] e.members@[i].0.body.0),
        Top::Trait(t) => generic_args_wf(t.generics.0) && forall|i: int| 0 <= i < t.body@.len() ==> func_wf(#[trigger] t.body@[i].0),
        Top::Impl(i) => {
            &&& generic_args_wf(i.generics.0)
            &&& (i.trait_ matches Some(t) ==> type_wf(t.0))
            &&& type_wf(i.for_.0)
            &&& forall|k: int| 0 <= k < i.body@.len() ==> func_wf(#[trigger] i.body@[k].0)
        },
        Top::Use(u) => u@.len() >= 1,
    }
}

/// The declaration a function named `name` is checked as: the one at its path in the module.
pub open spec fn func_decl(st: CheckState, name: Seq<char>) -> Option<Decl> {
    spec_get_path(st.project.decls, st.module@ + strings_view(st.path@) + seq![name])
}

impl FunctionArg {
    /// Checks the argument's type and declares it as a parameter.
    pub fn check<'db>(&self, state: &mut CheckState<'db>) -> (r: FunctionArgIR<'db>)
        requires
            old(state).wf(),
            type_wf(self.ty.0),
        ensures
            decl_frame(*old(state), *final(state)),
            r.name.0@ == self.name.0@ && r.name.1 == self.name.1 && r.ty.1 == self.ty.1,
            final(state).variables@.last()@.last().name@ == self.name.0@,
            final(state).variables@.last()@.last().ty@ == r.ty.0.ty@,
            final(state).variables@.last()@.last().kind == TokenKind::Param,
    {
        let ghost st = *state;
        let ty = self.ty.0.check_ir(state);
        let ghost mid = *state;
        state.insert_variable(self.name.0.clone(), ty.ty.deep_clone(), TokenKind::Param, self.name.1);
        proof {
            lemma_decl_of(st, mid);
            assert(mid.errors@.is_prefix_of(state.errors@));
            lemma_decl_trans(st, mid, *state);
        }
        FunctionArgIR { name: clone_name(&self.name), ty: (ty, self.ty.1) }
    }
}

impl Func {
    /// Checks a function in the current scope: its generics, its receiver as `self`, its
    /// parameters, its result type, and its body against the result type (or the unit type). A
    /// function without a body, where that is allowed, has an empty body checked as it is.
    pub fn check<'db>(&self, state: &mut CheckState<'db>, allow_empty: bool) -> (r: FuncIR<'db>)
        requires
            old(state).wf(),
            func_wf(*self),
        ensures
            decl_frame(*old(state), *final(state)),
            r.name.0@ == self.name.0@ && r.name.1 == self.name.1,
            r.generics.1 == self.generics.1,
            same_spans(r.args@, self.args@),
            r.receiver is Some <==> self.receiver is Some,
            r.ret is Some <==> self.ret is Some,
            opt_ref(r.decl) == func_decl(*old(state), self.name.0@),
            match self.body {
                Some(b) => same_spans(r.body.stmts@, b@),
                None => r.body.stmts@.len() == 0,
            },
            (self.body is Some || !allow_empty) ==> exists|s: CheckState|
                #![trigger decl_frame(*old(state), s)]
                decl_frame(*old(state), s) && block_expected_to(
                    match self.body {
                        Some(b) => b@,
                        None => Seq::empty(),
                    },
                    r.body,
                    s,
                    *final(state),
                    match r.ret {
                        Some(t) => t.0.ty@,
                        None => spec_unit(),
                    },
                    self.name.1,
                ),
            !(self.body is Some || !allow_empty) ==> exists|s: CheckState|
                #![trigger decl_frame(*old(state), s)]
                decl_frame(*old(state), s) && block_checked(Seq::empty(), r.body, s, *final(state)),
    {
        let ghost st = *state;
        let project: &'db Project = state.project;
        let id = state.local_id(self.name.0.clone());
        let decl = project.get_decl(&id);
        let generics = self.generics.0.check(state);
        let ghost s1 = *state;
        proof {
            lemma_decl_of(st, s1);
        }
        let receiver = match &self.receiver {
            Some(rec) => {
                let ir = rec.0.check_ir(state);
                let ghost m = *state;
                state.add_self_param(ir.ty.deep_clone(), rec.1);
                proof {
                    lemma_decl_of(s1, m);
                    assert(m.errors@.is_prefix_of(state.errors@));
                    lemma_decl_trans(s1, m, *state);
                }
                Some((ir, rec.1))
            },
            None => {
                proof {
                    lemma_decl_refl(s1);
                }
                None
            },
        };
        proof {
            lemma_decl_trans(st, s1, *state);
        }
        let ghost s2 = *state;
        let mut args: Vec<Spanned<FunctionArgIR<'db>>> = Vec::new();
        let mut i: usize = 0;
        proof {
            lemma_decl_refl(s2);
        }
        while i < self.args.len()
            invariant
                i <= self.args@.len(),
                func_wf(*self),
                decl_frame(s2, *state),
                args@.len() == i,
                forall|k: int| 0 <= k < i ==> #[trigger] args@[k].1 == self.args@[k].1,
            decreases self.args@.len() - i,
        {
            proof {
                assert(type_wf(self.args@[i as int].0.ty.0));
            }
            let ghost before = *state;
            let a = self.args[i].0.check(state);
            proof {
                lemma_decl_trans(s2, before, *state);
            }
            args.push((a, self.args[i].1));
            i = i + 1;
        }
        proof {
            lemma_decl_trans(st, s2, *state);
        }
        let ghost s3 = *state;
        let ret = match &self.ret {
            Some(t) => {
                let ir = t.0.check_ir(state);
                proof {
                    lemma_decl_of(s3, *state);
                }
                Some((ir, t.1))
            },
            None => {
                proof {
                    lemma_decl_refl(s3);
                }
                None
            },
        };
        proof {
            lemma_decl_trans(st, s3, *state);
        }
        let expected = match &ret {
            Some(t) => t.0.ty.deep_clone(),
            None => Ty::unit(),
        };
        let empty: Vec<Spanned<crate::parser::ast::Stmt>> = Vec::new();
        let stmts = match &self.body {
            Some(b) => b,
            None => &empty,
        };
        proof {
            assert(block_wf(stmts@));
        }
        let ghost s4 = *state;
        let block = if !allow_empty || self.body.is_some() {
            expect_block(stmts, state, &expected, self.name.1)
        } else {
            check_block(stmts, state)
        };
        proof {
            lemma_decl_of(s4, *state);
            lemma_decl_trans(st, s4, *state);
            assert(id@ == st.module@ + strings_view(st.path@) + seq![self.name.0@]);
            assert(decl_frame(st, s4));
            if allow_empty && self.body.is_none() {
                assert(stmts@ =~= Seq::<Spanned<crate::parser::ast::Stmt>>::empty());
            }
        }
        let body = match block.data {
            ExprIRData::CodeBlock(b) => b,
            _ => unreached(),
        };
        FuncIR { receiver, name: clone_name(&self.name), args, generics: (generics, self.generics.1), ret, body, decl }
    }
}

impl StructBody {
    /// Checks the types of a struct body.
    pub fn check<'db>(&self, state: &mut CheckState<'db>) -> (r: StructBodyIR<'db>)
        requires
            old(state).wf(),
            body_wf(*self),
        ensures
            decl_frame(*old(state), *final(state)),
            final(state).variables == old(state).variables,
            match *self {
                StructBody::Unit => r is Unit,
                StructBody::Tuple(ts) => r matches StructBodyIR::Tuple(x) && same_spans(x@, ts@),
                StructBody::Fields(fs) => r matches StructBodyIR::Fields(x) && same_spans(x@, fs@),
            },
    {
        let ghost st = *state;
        proof {
            lemma_decl_refl(st);
        }
        match self {
            StructBody::Unit => StructBodyIR::Unit,
            StructBody::Tuple(ts) => {
                let mut out: Vec<Spanned<TypeIR<'db>>> = Vec::new();
                let mut i: usize = 0;
                while i < ts.len()
                    invariant
                        i <= ts@.len(),
                        forall|k: int| 0 <= k < ts@.len() ==> type_wf(#[trigger] ts@[k].0),
                        decl_frame(st, *state),
                        state.variables == st.variables,
                        out@.len() == i,
                        forall|k: int| 0 <= k < i ==> #[trigger] out@[k].1 == ts@[k].1,
                    decreases ts@.len() - i,
                {
                    let ghost before = *state;
                    let t = ts[i].0.check_ir(state);
                    proof {
                        lemma_decl_of(before, *state);
                        lemma_decl_trans(st, before, *state);
                    }
                    out.push((t, ts[i].1));
                    i = i + 1;
                }
                StructBodyIR::Tuple(out)
            },
            StructBody::Fields(fs) => {
                let mut out: Vec<Spanned<StructFieldIR<'db>>> = Vec::new();
                let mut i: usize = 0;
                while i < fs.len()
                    invariant
                        i <= fs@.len(),
                        forall|k: int| 0 <= k < fs@.len() ==> type_wf(#[trigger] fs@[k].0.ty.0),
                        decl_frame(st, *state),
                        state.variables == st.variables,
                        out@.len() == i,
                        forall|k: int| 0 <= k < i ==> #[trigger] out@[k].1 == fs@[k].1,
                    decreases fs@.len() - i,
                {
                    let ghost before = *state;
                    let f = fs[i].0.check(state);
                    proof {
                        lemma_decl_trans(st, before, *state);
                    }
                    out.push((f, fs[i].1));
                    i = i + 1;
                }
                StructBodyIR::Fields(out)
            },
        }
    }
}

impl StructField {
    /// Checks the field's type.
    pub fn check<'db>(&self, state: &mut CheckState<'db>) -> (r: StructFieldIR<'db>)
        requires
            old(state).wf(),
            type_wf(self.ty.0),
        ensures
            decl_frame(*old(state), *final(state)),
            final(state).variables == old(state).variables,
            r.name.0@ == self.name.0@ && r.name.1 == self.name.1 && r.ty.1 == self.ty.1,
    {
        let ghost st = *state;
        let ty = self.ty.0.check_ir(state);
        proof {
            lemma_decl_of(st, *state);
        }
        StructFieldIR { name: clone_name(&self.name), ty: (ty, self.ty.1) }
    }
}

impl Struct {
    /// Checks a struct: its generics, then its body.
    pub fn check<'db>(&self, state: &mut CheckState<'db>) -> (r: StructIR<'db>)
        requires
            old(state).wf(),
            top_wf(Top::Struct(*self)),
        ensures
            decl_frame(*old(state), *final(state)),
            r.name.0@ == self.name.0@ && r.name.1 == self.name.1,
            r.body.1 == self.body.1,
    {
        let ghost st = *state;
        let generics = self.generics.0.check(state);
        let ghost mid = *state;
        let body = self.body.0.check(state);
        proof {
            lemma_decl_of(st, mid);
            lemma_decl_trans(st, mid, *state);
        }
        StructIR { name: clone_name(&self.name), generics: (generics, self.generics.1), body: (body, self.body.1) }
    }
}

impl EnumMember {
    /// Checks a member's body.
    pub fn check<'db>(&self, state: &mut CheckState<'db>) -> (r: EnumMemberIR<'db>)
        requires
            old(state).wf(),
            body_wf(self.body.0),
        ensures
            decl_frame(*old(state), *final(state)),
            r.name.0@ == self.name.0@ && r.name.1 == self.name.1,
    {
        let body = self.body.0.check(state);
        EnumMemberIR { name: clone_name(&self.name), body: (body, self.body.1) }
    }
}

impl Enum {
    /// Checks an enum: its generics, then its members, with the enum's name added to the current
    /// path meanwhile.
    pub fn check<'db>(&self, state: &mut CheckState<'db>) -> (r: EnumIR<'db>)
        requires
            old(state).wf(),
            top_wf(Top::Enum(*self)),
        ensures
            decl_frame(*old(state), *final(state)),
            r.name.0@ == self.name.0@ && r.name.1 == self.name.1,
            same_spans(r.members@, self.members@),
    {
        let ghost st = *state;
        state.path.push(self.name.0.clone());
        let ghost pushed = *state;
        let generics = self.generics.0.check(state);
        proof {
            lemma_decl_of(pushed, *state);
        }
        let mut members: Vec<Spanned<EnumMemberIR<'db>>> = Vec::new();
        let mut i: usize = 0;
        while i < self.members.len()
            invariant
                i <= self.members@.len(),
                forall|k: int| 0 <= k < self.members@.len() ==> body_wf(#[trigger] self.members@[k].0.body.0),
                decl_frame(pushed, *state),
                members@.len() == i,
                forall|k: int| 0 <= k < i ==> #[trigger] members@[k].1 == self.members@[k].1,
            decreases self.members@.len() - i,
        {
            let ghost before = *state;
            let m = self.members[i].0.check(state);
            proof {
                lemma_decl_trans(pushed, before, *state);
            }
            members.push((m, self.members[i].1));
            i = i + 1;
        }
        let _ = state.path.pop();
        proof {
            assert(state.path@ =~= st.path@);
            assert(st.errors@.is_prefix_of(state.errors@));
        }
        EnumIR { name: clone_name(&self.name), generics: (generics, self.generics.1), members }
    }
}

/// Checks the functions of a trait or impl, each in a scope of its own.
fn check_funcs<'db>(funcs: &Vec<Spanned<Func>>, state: &mut CheckState<'db>, allow_empty: bool) -> (r: Vec<
    Spanned<FuncIR<'db>>,
>)
    requires
        old(state).wf(),
        forall|k: int| 0 <= k < funcs@.len() ==> func_wf(#[trigger] funcs@[k].0),
    ensures
        decl_frame(*old(state), *final(state)),
        final(state).variables@ == old(state).variables@,
        final(state).generics@ == old(state).generics@,
        same_spans(r@, funcs@),
{
    let ghost st = *state;
    let mut out: Vec<Spanned<FuncIR<'db>>> = Vec::new();
    let mut i: usize = 0;
    proof {
        lemma_decl_refl(st);
    }
    while i < funcs.len()
        invariant
            i <= funcs@.len(),
            forall|k: int| 0 <= k < funcs@.len() ==> func_wf(#[trigger] funcs@[k].0),
            decl_frame(st, *state),
            state.variables@ == st.variables@,
            state.generics@ == st.generics@,
            out@.len() == i,
            forall|k: int| 0 <= k < i ==> #[trigger] out@[k].1 == funcs@[k].1,
        decreases funcs@.len() - i,
    {
        let ghost before = *state;
        state.enter_scope();
        let ghost inner = *state;
        let f = funcs[i].0.check(state, allow_empty);
        let _ = state.exit_scope();
        proof {
            assert(state.variables@ =~= before.variables@);
            assert(state.generics@ =~= before.generics@);
            assert(before.errors@.is_prefix_of(state.errors@)) by {
                assert(inner.errors == before.errors);
            }
            lemma_decl_trans(st, before, *state);
        }
        out.push((f, funcs[i].1));
        i = i + 1;
    }
    out
}

impl Trait {
    /// Checks a trait: its generics, then `Self` as the trait applied to them, then each function,
    /// which may lack a body.
    pub fn check<'db>(&self, state: &mut CheckState<'db>) -> (r: TraitIR<'db>)
        requires
            old(state).wf(),
            top_wf(Top::Trait(*self)),
        ensures
            decl_frame(*old(state), *final(state)),
            r.name.0@ == self.name.0@ && r.name.1 == self.name.1,
            same_spans(r.body@, self.body@),
    {
        let ghost st = *state;
        let generics = self.generics.0.check(state);
        let id = state.local_id(self.name.0.clone());
        let mut args: Vec<Ty> = Vec::new();
        let mut i: usize = 0;
        while i < generics.0.len()
            invariant
                i <= generics.0@.len(),
                args@.len() == i,
            decreases generics.0@.len() - i,
        {
            args.push(Ty::Generic(generics.0[i].0.generic.deep_clone()));
            i = i + 1;
        }
        let ghost s1 = *state;
        state.add_self_ty(&Ty::Named(Named { name: id, args }), self.name.1);
        proof {
            lemma_decl_of(st, s1);
            assert(s1.errors@.is_prefix_of(state.errors@));
            lemma_decl_trans(st, s1, *state);
        }
        let ghost s2 = *state;
        let body = check_funcs(&self.body, state, true);
        proof {
            lemma_decl_trans(st, s2, *state);
        }
        TraitIR { name: clone_name(&self.name), generics: (generics, self.generics.1), body }
    }
}

impl Impl {
    /// Checks an impl: its generics, the type it is for, the trait, then `Self` as that type, then
    /// each function.
    pub fn check<'db>(&self, state: &mut CheckState<'db>) -> (r: ImplIR<'db>)
        requires
            old(state).wf(),
            top_wf(Top::Impl(*self)),
        ensures
            decl_frame(*old(state), *final(state)),
            r.for_.1 == self.for_.1,
            r.trait_ is Some <==> self.trait_ is Some,
            same_spans(r.body@, self.body@),
    {
        let ghost st = *state;
        let generics = self.generics.0.check(state);
        let ghost s1 = *state;
        let for_ = self.for_.0.check_ir(state);
        let ghost s2 = *state;
        let trait_ = match &self.trait_ {
            Some(t) => Some((t.0.check_ir(state), t.1)),
            None => None,
        };
        let ghost s3 = *state;
        state.add_self_ty(&for_.ty, self.for_.1);
        proof {
            lemma_decl_of(st, s1);
            lemma_decl_of(s1, s2);
            lemma_decl_trans(st, s1, s2);
            if self.trait_ is Some {
                lemma_decl_of(s2, s3);
            } else {
                lemma_decl_refl(s2);
            }
            lemma_decl_trans(st, s2, s3);
            assert(s3.errors@.is_prefix_of(state.errors@));
            lemma_decl_trans(st, s3, *state);
        }
        let ghost s4 = *state;
        let body = check_funcs(&self.body, state, false);
        proof {
            lemma_decl_trans(st, s4, *state);
        }
        ImplIR { generics: (generics, self.generics.1), trait_, for_: (for_, self.for_.1), body }
    }
}

/// What checking a top-level item leaves unchanged: the scopes, the context of the file but for
/// imports added, and the errors found before; type variables are only added.
pub open spec fn top_frame(old: CheckState, new: CheckState) -> bool {
    &&& new.wf()
    &&& new.depth() == old.depth()
    &&& new.variables@ == old.variables@
    &&& new.generics@ == old.generics@
    &&& new.project == old.project
    &&& new.module == old.module
    &&& new.path@ == old.path@
    &&& old.imports@.is_prefix_of(new.imports@)
    &&& old.errors@.is_prefix_of(new.errors@)
    &&& new.type_state.next_id() >= old.type_state.next_id()
}

impl<'db> CheckState<'db> {
    /// Brings the item at `path`, found from the root of the project, into scope under its last
    /// name; a segment that names nothing is returned.
    pub fn import(&mut self, path: &SpannedQualifiedName) -> (r: Result<(), Spanned<String>>)
        requires
            path@.len() >= 1,
        ensures
            match walk(old(self).project.decls, segments(path@), 0) {
                Ok(d) => r is Ok && final(self).imports@ == old(self).imports@.push(final(self).imports@.last())
                    && final(self).imports@.last().0@ == path@.last().0@ && final(self).imports@.last().1@ == d.path@,
                Err(i) => r matches Err(seg) && seg.0@ == path@[i].0@ && seg.1 == path@[i].1 && final(self).imports
                    == old(self).imports,
            },
            final(self).variables == old(self).variables,
            final(self).generics == old(self).generics,
            final(self).type_state == old(self).type_state,
            final(self).errors == old(self).errors,
            final(self).project == old(self).project,
            final(self).module == old(self).module,
            final(self).path == old(self).path,
    {
        let project: &'db Project = self.project;
        match walk_decl(&project.decls, path.as_slice(), 0) {
            Ok(d) => {
                let last = path[path.len() - 1].0.clone();
                self.imports.push((last, d.path.copy()));
                Ok(())
            },
            Err(e) => Err(e),
        }
    }
}

impl Top {
    /// Checks a top-level item in a scope of its own; an import that names nothing is reported.
    pub fn check<'db>(&self, state: &mut CheckState<'db>) -> (r: TopIR<'db>)
        requires
            old(state).wf(),
            top_wf(*self),
        ensures
            top_frame(*old(state), *final(state)),
            match *self {
                Top::Func(_) => r is Func,
                Top::Struct(_) => r is Struct,
                Top::Enum(_) => r is Enum,
                Top::Trait(_) => r is Trait,
                Top::Impl(_) => r is Impl,
                Top::Use(u) => r matches TopIR::Use(ir) && ident_ir_of(*old(state), u@, ir@),
            },
            self matches Top::Use(u) ==> match walk(old(state).project.decls, segments(u@), 0) {
                Ok(d) => {
                    &&& final(state).errors == old(state).errors
                    &&& final(state).imports@ == old(state).imports@.push(final(state).imports@.last())
                    &&& final(state).imports@.last().0@ == u@.last().0@ && final(state).imports@.last().1@ == d.path@
                },
                Err(i) => {
                    &&& final(state).imports == old(state).imports
                    &&& final(state).errors@ == old(state).errors@.push(final(state).errors@.last())
                    &&& final(state).errors@.last() matches CheckError::Unresolved { name } && name.0@ == u@[i].0@
                        && name.1 == u@[i].1
                },
            },
    {
        let ghost st = *state;
        state.enter_scope();
        let ghost inner = *state;
        let ir = match self {
            Top::Use(u) => {
                let name = state.get_ident_ir(u);
                proof {
                    assert forall|i: int| 0 <= i < u@.len() implies #[trigger] name@[i].1 == u@[i].1
                        && crate::ir::expr::ident::prefix_def(st, u@, i + 1, name@[i].0) by {
                        assert(name@[i].1 == u@[i].1);
                        assert(crate::ir::expr::ident::prefix_def(inner, u@, i + 1, name@[i].0));
                        assert(inner.resolve(segments(u@.take(i + 1))) == st.resolve(segments(u@.take(i + 1))));
                    }
                }
                let ghost before = *state;
                match state.import(u) {
                    Ok(()) => {},
                    Err(e) => {
                        state.error(CheckError::Unresolved { name: e });
                    },
                }
                proof {
                    assert(before.errors@.is_prefix_of(state.errors@));
                    assert(before.imports@.is_prefix_of(state.imports@));
                    assert(before.project == st.project);
                    assert(before.errors == st.errors);
                    assert(before.imports == st.imports);
                }
                TopIR::Use(name)
            },
            Top::Enum(e) => TopIR::Enum(e.check(state)),
            Top::Trait(t) => TopIR::Trait(t.check(state)),
            Top::Struct(s) => TopIR::Struct(s.check(state)),
            Top::Func(f) => TopIR::Func(f.check(state, false)),
            Top::Impl(i) => TopIR::Impl(i.check(state)),
        };
        let _ = state.exit_scope();
        proof {
            assert(state.variables@ =~= st.variables@);
            assert(state.generics@ =~= st.generics@);
            assert(st.errors@.is_prefix_of(state.errors@)) by {
                assert(inner.errors == st.errors);
            }
            assert(st.imports@.is_prefix_of(state.imports@));
        }
        ir
    }
}

} // verus!
