use vstd::prelude::*;

use crate::check::instance::subst_spec;
use crate::check::state::CheckState;
use crate::db::decl::impl_::ImplForDecl;
use crate::db::decl::struct_::StructDecl;
use crate::db::decl::{impls_of, spec_get_path, Decl, DeclKind, Project};
use crate::db::path::ModulePath;
use crate::fs::project::{pairs_view, GenericMap};
use crate::ir::ty::fresh_model;
use crate::ty::{generics_view, lemma_view_parts, tys_view, FuncTy, Generic, GenericModel, Named, Ty, TyModel};

verus! {

broadcast use vstd::std_specs::vec::group_vec_axioms;

/// Each generic's name bound to the argument at the same place, as far as both go.
pub open spec fn zip_pairs(generics: Seq<Generic>, args: Seq<TyModel>) -> Seq<(Seq<char>, TyModel)> {
    let n = if generics.len() < args.len() { generics.len() } else { args.len() };
    Seq::new(n, |i: int| (generics[i].name.0@, args[i]))
}

/// Binds each generic's name to the argument at the same place.
pub fn zip_generics(generics: &Vec<Generic>, args: &Vec<Ty>) -> (r: GenericMap)
    ensures
        pairs_view(r@) == zip_pairs(generics@, tys_view(args@)),
{
    let n = if generics.len() < args.len() { generics.len() } else { args.len() };
    let mut out: GenericMap = Vec::new();
    let mut i: usize = 0;
    while i < n
        invariant
            i <= n,
            n <= generics@.len(),
            n <= args@.len(),
            out@.len() == i,
            forall|k: int| 0 <= k < i ==> #[trigger] out@[k].0@ == generics@[k].name.0@ && out@[k].1@ == args@[k]@,
        decreases n - i,
    {
        out.push((generics[i].name.0.clone(), args[i].deep_clone()));
        i = i + 1;
    }
    proof {
        assert(pairs_view(out@) =~= zip_pairs(generics@, tys_view(args@)));
    }
    out
}

/// The named fields of a struct body with their types, generics substituted by `m`.
pub open spec fn subst_fields(fs: Seq<(String, Ty)>, m: Seq<(Seq<char>, TyModel)>) -> Seq<(Seq<char>, TyModel)> {
    Seq::new(fs.len(), |i: int| (fs[i].0@, subst_spec(fs[i].1@, m)))
}

/// The fields of a value of type `t`: for a struct with named fields, its fields with the
/// struct's generics replaced by the type's arguments; for anything else, none.
pub open spec fn fields_model(project: Project, t: TyModel) -> Seq<(Seq<char>, TyModel)> {
    match t {
        TyModel::Named(path, args) => match spec_get_path(project.decls, path) {
            Some(d) => match d.kind {
                DeclKind::Struct { generics, body: StructDecl::Fields(fs) } => subst_fields(
                    fs@,
                    zip_pairs(generics@, args),
                ),
                _ => Seq::empty(),
            },
            None => Seq::empty(),
        },
        _ => Seq::empty(),
    }
}

/// The mathematical value of a list of fields.
pub open spec fn fields_view(fs: Seq<(String, Ty)>) -> Seq<(Seq<char>, TyModel)> {
    Seq::new(fs.len(), |i: int| (fs[i].0@, fs[i].1@))
}

/// The type of the first field named `name`.
pub open spec fn find_field(fs: Seq<(Seq<char>, TyModel)>, name: Seq<char>) -> Option<TyModel>
    decreases fs.len(),
{
    if fs.len() == 0 {
        None
    } else if fs[0].0 == name {
        Some(fs[0].1)
    } else {
        find_field(fs.skip(1), name)
    }
}

/// Substitutes `m` in the types of named fields.
fn subst_field_list(fs: &Vec<(String, Ty)>, m: &GenericMap) -> (r: Vec<(String, Ty)>)
    ensures
        fields_view(r@) == subst_fields(fs@, pairs_view(m@)),
{
    let mut out: Vec<(String, Ty)> = Vec::new();
    let mut i: usize = 0;
    while i < fs.len()
        invariant
            i <= fs@.len(),
            out@.len() == i,
            forall|k: int| 0 <= k < i ==> #[trigger] out@[k].0@ == fs@[k].0@ && out@[k].1@ == subst_spec(fs@[k].1@, pairs_view(m@)),
        decreases fs@.len() - i,
    {
        out.push((fs[i].0.clone(), fs[i].1.subst(m)));
        i = i + 1;
    }
    proof {
        assert(fields_view(out@) =~= subst_fields(fs@, pairs_view(m@)));
    }
    out
}

impl Ty {
    /// The fields of a value of this type, with the struct's generics replaced by the type's
    /// arguments.
    pub fn fields(&self, project: &Project) -> (r: Vec<(String, Ty)>)
        ensures
            fields_view(r@) == fields_model(*project, self@),
    {
        proof {
            lemma_view_parts(*self);
        }
        let e: Vec<(String, Ty)> = Vec::new();
        proof {
            assert(fields_view(e@) =~= Seq::empty());
        }
        match self {
            Ty::Named(n) => match project.get_decl(&n.name) {
                Some(d) => match &d.kind {
                    DeclKind::Struct { generics, body: StructDecl::Fields(fs) } => {
                        let m = zip_generics(generics, &n.args);
                        subst_field_list(fs, &m)
                    },
                    _ => e,
                },
                None => e,
            },
            _ => e,
        }
    }
}

/// The index of the first field named `name`.
pub fn find_field_index(fs: &Vec<(String, Ty)>, name: &str) -> (r: Option<usize>)
    ensures
        match r {
            Some(i) => i < fs@.len() && find_field(fields_view(fs@), name@) == Some(fs@[i as int].1@),
            None => find_field(fields_view(fs@), name@) is None,
        },
{
    let ghost all = fields_view(fs@);
    let mut i: usize = 0;
    proof {
        assert(all.skip(0) =~= all);
    }
    while i < fs.len()
        invariant
            i <= fs@.len(),
            all == fields_view(fs@),
            find_field(all, name@) == find_field(all.skip(i as int), name@),
        decreases fs@.len() - i,
    {
        proof {
            assert(all.skip(i as int).skip(1) =~= all.skip(i + 1));
            assert(all.skip(i as int)[0] == all[i as int]);
        }
        if crate::db::decl::str_eq(fs[i].0.as_str(), name) {
            return Some(i);
        }
        i = i + 1;
    }
    proof {
        assert(all.skip(i as int) =~= Seq::<(Seq<char>, TyModel)>::empty());
    }
    None
}

/// Whether `d` is a function named `name` that takes a receiver exactly when `receiver` is set.
pub open spec fn is_func_named(d: Decl, name: Seq<char>, receiver: bool) -> bool {
    &&& d.name@ == name
    &&& d.kind matches DeclKind::Function(f) && (f.receiver is Some) == receiver
}

/// The functions of a list of declarations that are named `name` and take a receiver exactly
/// when `receiver` is set, in order.
pub open spec fn funcs_named(ds: Seq<Decl>, name: Seq<char>, receiver: bool) -> Seq<Decl>
    decreases ds.len(),
{
    if ds.len() == 0 {
        Seq::empty()
    } else {
        let front = funcs_named(ds.drop_last(), name, receiver);
        if is_func_named(ds.last(), name, receiver) {
            front.push(ds.last())
        } else {
            front
        }
    }
}

/// Every function that `funcs_named` keeps has the name and receiver asked for.
pub proof fn lemma_funcs_named(ds: Seq<Decl>, name: Seq<char>, receiver: bool)
    ensures
        forall|i: int| 0 <= i < funcs_named(ds, name, receiver).len() ==> is_func_named(
            #[trigger] funcs_named(ds, name, receiver)[i],
            name,
            receiver,
        ),
    decreases ds.len(),
{
    if ds.len() > 0 {
        lemma_funcs_named(ds.drop_last(), name, receiver);
        let front = funcs_named(ds.drop_last(), name, receiver);
        let all = funcs_named(ds, name, receiver);
        assert forall|i: int| 0 <= i < all.len() implies is_func_named(#[trigger] all[i], name, receiver) by {
            if i < front.len() {
                assert(all[i] == front[i]);
            }
        }
    }
}

/// The functions of a list of impls, in order.
pub open spec fn impl_decls(impls: Seq<ImplForDecl>) -> Seq<Decl>
    decreases impls.len(),
{
    if impls.len() == 0 {
        Seq::empty()
    } else {
        impl_decls(impls.drop_last()) + impls.last().functions@
    }
}

/// The functions named `name` that the impls of the type at `path` provide, those with a
/// receiver or those without.
pub open spec fn impl_funcs(project: Project, path: Seq<Seq<char>>, name: Seq<char>, receiver: bool) -> Seq<Decl> {
    match impls_of(project.impl_map@, path) {
        Some(impls) => funcs_named(impl_decls(impls), name, receiver),
        None => Seq::empty(),
    }
}

/// The declarations behind a list of references.
pub open spec fn derefs(ds: Seq<&Decl>) -> Seq<Decl> {
    Seq::new(ds.len(), |i: int| *ds[i])
}

impl Project {
    /// The functions named `name` of the impls of the type at `path`: methods when `receiver` is
    /// set, static functions otherwise.
    pub fn impl_funcs<'db>(&'db self, path: &ModulePath, name: &str, receiver: bool) -> (r: Vec<&'db Decl>)
        ensures
            derefs(r@) == impl_funcs(*self, path@, name@, receiver),
    {
        let impls = self.get_impls(path);
        let ghost all: Seq<ImplForDecl> = impls@;
        let mut out: Vec<&'db Decl> = Vec::new();
        let mut i: usize = 0;
        proof {
            assert(all.take(0) =~= Seq::<ImplForDecl>::empty());
            assert(derefs(out@) =~= Seq::<Decl>::empty());
        }
        while i < impls.len()
            invariant
                i <= all.len(),
                all == impls@,
                derefs(out@) == funcs_named(impl_decls(all.take(i as int)), name@, receiver),
            decreases all.len() - i,
        {
            let fs = &impls[i].functions;
            let mut j: usize = 0;
            proof {
                assert(impl_decls(all.take(i as int)) + fs@.take(0) =~= impl_decls(all.take(i as int)));
            }
            while j < fs.len()
                invariant
                    i < all.len(),
                    all == impls@,
                    *fs == all[i as int].functions,
                    j <= fs@.len(),
                    derefs(out@) == funcs_named(impl_decls(all.take(i as int)) + fs@.take(j as int), name@, receiver),
                decreases fs@.len() - j,
            {
                let ghost pre = impl_decls(all.take(i as int)) + fs@.take(j as int);
                let ghost prev = out@;
                proof {
                    assert((impl_decls(all.take(i as int)) + fs@.take(j + 1)).drop_last() =~= pre);
                    assert((impl_decls(all.take(i as int)) + fs@.take(j + 1)).last() == fs@[j as int]);
                }
                let d = &fs[j];
                let hit = match &d.kind {
                    DeclKind::Function(f) => crate::db::decl::str_eq(d.name.as_str(), name) && (f.receiver.is_some()
                        == receiver),
                    _ => false,
                };
                if hit {
                    out.push(d);
                    proof {
                        assert(derefs(out@) =~= derefs(prev).push(*d));
                    }
                }
                j = j + 1;
            }
            proof {
                assert(all.take(i + 1).drop_last() =~= all.take(i as int));
                assert(fs@.take(fs@.len() as int) =~= fs@);
            }
            i = i + 1;
        }
        proof {
            assert(all.take(all.len() as int) =~= all);
        }
        out
    }
}

/// The generics bound to fresh type variables, in order, while ids remain.
pub open spec fn inst_pairs(gs: Seq<GenericModel>, next: int) -> (Seq<(Seq<char>, TyModel)>, int)
    decreases gs.len(),
{
    if gs.len() == 0 {
        (Seq::empty(), next)
    } else {
        let front = inst_pairs(gs.drop_last(), next);
        let f = fresh_model(front.1);
        (front.0.push((gs.last().name, f.0)), f.1)
    }
}

impl<'db> CheckState<'db> {
    /// A fresh type variable bounded by `g`; once ids are used up, the unknown type.
    pub fn fresh_bounded(&mut self, g: Generic) -> (r: Ty)
        requires
            old(self).wf(),
        ensures
            final(self).wf(),
            final(self).variables == old(self).variables,
            final(self).generics == old(self).generics,
            final(self).project == old(self).project,
            final(self).module == old(self).module,
            final(self).path == old(self).path,
            final(self).imports == old(self).imports,
            final(self).errors == old(self).errors,
            r@ == fresh_model(old(self).type_state.next_id() as int).0,
            final(self).type_state.next_id() == fresh_model(old(self).type_state.next_id() as int).1,
    {
        if self.type_state.len() < u32::MAX {
            let id = self.type_state.new_type_var_with_bound(g);
            Ty::TypeVar { id }
        } else {
            Ty::Unknown
        }
    }

    /// Instantiates the generics `gs` in `ty`: each is replaced by a fresh type variable bounded by
    /// it, where substitution is defined.
    pub fn inst(&mut self, ty: &Ty, gs: &Vec<Generic>) -> (r: Ty)
        requires
            old(self).wf(),
        ensures
            final(self).wf(),
            final(self).variables == old(self).variables,
            final(self).generics == old(self).generics,
            final(self).project == old(self).project,
            final(self).module == old(self).module,
            final(self).path == old(self).path,
            final(self).imports == old(self).imports,
            final(self).errors == old(self).errors,
            r@ == subst_spec(ty@, inst_pairs(generics_view(gs@), old(self).type_state.next_id() as int).0),
            final(self).type_state.next_id() == inst_pairs(generics_view(gs@), old(self).type_state.next_id() as int).1,
            final(self).type_state.next_id() >= old(self).type_state.next_id(),
    {
        let ghost st = *self;
        let ghost next = self.type_state.next_id() as int;
        let mut m: GenericMap = Vec::new();
        let mut i: usize = 0;
        proof {
            assert(generics_view(gs@).take(0) =~= Seq::<GenericModel>::empty());
            assert(pairs_view(m@) =~= Seq::empty());
        }
        while i < gs.len()
            invariant
                i <= gs@.len(),
                self.wf(),
                self.variables == st.variables,
                self.generics == st.generics,
                self.project == st.project,
                self.module == st.module,
                self.path == st.path,
                self.imports == st.imports,
                self.errors == st.errors,
                pairs_view(m@) == inst_pairs(generics_view(gs@).take(i as int), next).0,
                self.type_state.next_id() == inst_pairs(generics_view(gs@).take(i as int), next).1,
                self.type_state.next_id() >= next,
            decreases gs@.len() - i,
        {
            proof {
                assert(generics_view(gs@).take(i + 1).drop_last() =~= generics_view(gs@).take(i as int));
                assert(generics_view(gs@).take(i + 1).last() == gs@[i as int]@);
            }
            let v = self.fresh_bounded(gs[i].deep_clone());
            let ghost prev = m@;
            m.push((gs[i].name.0.clone(), v));
            proof {
                assert(pairs_view(m@) =~= pairs_view(prev).push((gs@[i as int].name.0@, v@)));
            }
            i = i + 1;
        }
        proof {
            assert(generics_view(gs@).take(gs@.len() as int) =~= generics_view(gs@));
        }
        ty.subst(&m)
    }
}

/// A function type, or the constructor a struct's meta type stands for: the calls a value of
/// type `t` admits.
pub open spec fn func_ty_model(project: Project, t: TyModel) -> Option<TyModel> {
    match t {
        TyModel::Function(_, _, _) => Some(t),
        TyModel::Meta(inner) => match *inner {
            TyModel::Named(path, args) => match spec_get_path(project.decls, path) {
                Some(d) => match d.kind {
                    DeclKind::Struct { body, .. } => if body is Unit {
                        None
                    } else {
                        Some(
                            TyModel::Function(
                                None,
                                crate::db::decl::struct_::constructor_args(body),
                                Box::new(*inner),
                            ),
                        )
                    },
                    _ => None,
                },
                None => None,
            },
            _ => None,
        },
        _ => None,
    }
}

impl Ty {
    /// The function type that calling a value of this type has: a function's own type, or the
    /// constructor of a struct named by its meta type.
    pub fn try_get_func_ty(&self, project: &Project) -> (r: Option<FuncTy>)
        ensures
            match r {
                Some(f) => func_ty_model(*project, self@) == Some(crate::ty::func_view(f)),
                None => func_ty_model(*project, self@) is None,
            },
    {
        proof {
            lemma_view_parts(*self);
        }
        match self {
            Ty::Function(f) => {
                let g = f.deep_clone();
                proof {
                    lemma_view_parts(Ty::Function(g));
                    lemma_view_parts(Ty::Function(*f));
                }
                Some(g)
            },
            Ty::Meta(inner) => {
                let inner: &Ty = &**inner;
                proof {
                    lemma_view_parts(*inner);
                }
                match inner {
                    Ty::Named(n) => match project.get_decl(&n.name) {
                        Some(d) => match &d.kind {
                            DeclKind::Struct { body, .. } => body.get_constructor_ty(inner.deep_clone()),
                            _ => None,
                        },
                        None => None,
                    },
                    _ => None,
                }
            },
            _ => None,
        }
    }
}

} // verus!
