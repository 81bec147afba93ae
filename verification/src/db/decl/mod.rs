use vstd::prelude::*;

use crate::check::TokenKind;
use crate::db::decl::func::Function;
use crate::db::decl::impl_::ImplForDecl;
use crate::db::decl::struct_::StructDecl;
use crate::db::input::SourceFile;
use crate::db::path::ModulePath;
use crate::ty::{
    clone_generics, generics_view, lemma_view_parts, tys_view, FuncTy, Generic, GenericModel,
    Named, Ty, TyModel,
};
use crate::check::err::CheckError;
use crate::check::message::{join_with, push_path};
use crate::util::{opt_ref, strings_view, Span, Spanned};

pub mod func;
pub mod impl_;
pub mod struct_;

verus! {

broadcast use vstd::std_specs::vec::group_vec_axioms;

/// The declarations of a project and the impls that apply to each declared type.
pub struct Project {
    pub decls: Decl,
    pub impl_map: Vec<(ModulePath, Vec<ImplForDecl>)>,
}

/// A declaration: a module, a type, an enum member or a function.
pub struct Decl {
    pub id: u32,
    pub name: String,
    pub span: Span,
    pub kind: DeclKind,
    pub maybe_file: Option<SourceFile>,
    pub path: ModulePath,
}

#[allow(inconsistent_fields)]
pub enum DeclKind {
    Struct { generics: Vec<Generic>, body: StructDecl },
    Trait { generics: Vec<Generic>, body: Vec<Decl> },
    Enum { generics: Vec<Generic>, variants: Vec<Decl> },
    Member { body: StructDecl },
    Function(Function),
    Module(Vec<Decl>),
}

/// The declarations nested in `d`: the items of a module, the variants of an enum, the functions
/// of a trait.
pub open spec fn children(d: Decl) -> Option<Seq<Decl>> {
    match d.kind {
        DeclKind::Module(m) => Some(m@),
        DeclKind::Enum { variants, .. } => Some(variants@),
        DeclKind::Trait { body, .. } => Some(body@),
        _ => None,
    }
}

/// The first declaration of `s` named `name`.
pub open spec fn find_named(s: Seq<Decl>, name: Seq<char>) -> Option<Decl>
    decreases s.len(),
{
    if s.len() == 0 {
        None
    } else if s[0].name@ == name {
        Some(s[0])
    } else {
        find_named(s.skip(1), name)
    }
}

/// The declaration named `name` directly inside `d`.
pub open spec fn spec_get(d: Decl, name: Seq<char>) -> Option<Decl> {
    match children(d) {
        Some(c) => find_named(c, name),
        None => None,
    }
}

/// Following a path one segment longer is following the path, then taking the item of that name.
pub proof fn law_get_path_push(d: Decl, path: Seq<Seq<char>>, name: Seq<char>)
    ensures
        spec_get_path(d, path.push(name)) == match spec_get_path(d, path) {
            Some(x) => spec_get(x, name),
            None => None,
        },
    decreases path.len(),
{
    if path.len() == 0 {
        assert(path.push(name).skip(1) =~= Seq::<Seq<char>>::empty());
        assert(path.push(name)[0] == name);
        if let Some(c) = spec_get(d, name) {
            assert(spec_get_path(c, path.push(name).skip(1)) == Some(c));
        }
    } else {
        assert(path.push(name)[0] == path[0]);
        assert(path.push(name).skip(1) =~= path.skip(1).push(name));
        if let Some(c) = spec_get(d, path[0]) {
            law_get_path_push(c, path.skip(1), name);
        }
    }
}

/// The names of a spanned path.
pub open spec fn spanned_names(path: Seq<Spanned<String>>) -> Seq<Seq<char>> {
    Seq::new(path.len(), |i: int| path[i].0@)
}

/// The names of a spanned path, copied.
fn names_of(path: &[Spanned<String>]) -> (r: Vec<String>)
    ensures
        strings_view(r@) == spanned_names(path@),
{
    let mut out: Vec<String> = Vec::new();
    let mut i: usize = 0;
    while i < path.len()
        invariant
            i <= path@.len(),
            out@.len() == i,
            forall|j: int| 0 <= j < i ==> (#[trigger] out@[j])@ == path@[j].0@,
        decreases path@.len() - i,
    {
        out.push(path[i].0.clone());
        i = i + 1;
    }
    assert(strings_view(out@) =~= spanned_names(path@));
    out
}

/// The declaration reached from `d` by following `path` one name at a time.
pub open spec fn spec_get_path(d: Decl, path: Seq<Seq<char>>) -> Option<Decl>
    decreases path.len(),
{
    if path.len() == 0 {
        Some(d)
    } else {
        match spec_get(d, path[0]) {
            Some(c) => spec_get_path(c, path.skip(1)),
            None => None,
        }
    }
}

/// Whether the declaration has generics; members and modules have none.
pub open spec fn has_generics(d: Decl) -> bool {
    !(d.kind is Member || d.kind is Module)
}

/// The generics of a declaration that has them.
pub open spec fn decl_generics(d: Decl) -> Seq<Generic> {
    match d.kind {
        DeclKind::Struct { generics, .. } => generics@,
        DeclKind::Trait { generics, .. } => generics@,
        DeclKind::Enum { generics, .. } => generics@,
        DeclKind::Function(f) => f.generics@,
        _ => Seq::empty(),
    }
}

/// The named type `name` applied to the declaration's own generics.
pub open spec fn default_named_model(d: Decl, name: Seq<Seq<char>>) -> TyModel {
    TyModel::Named(
        name,
        Seq::new(decl_generics(d).len(), |i: int| TyModel::Generic(decl_generics(d)[i]@)),
    )
}

/// The type a declaration names: for a member, that of its enum, found one level up.
pub open spec fn named_model(d: Decl, project: Project, id: Seq<Seq<char>>) -> TyModel {
    if d.kind is Member {
        match spec_get_path(project.decls, id.drop_last()) {
            Some(parent) => default_named_model(parent, id.drop_last()),
            None => TyModel::Unknown,
        }
    } else {
        default_named_model(d, id)
    }
}

/// Whether the type of a declaration is defined: the enum of a member has generics.
pub open spec fn named_ty_defined(d: Decl, project: Project, id: Seq<Seq<char>>) -> bool {
    if d.kind is Member {
        &&& id.len() >= 1
        &&& spec_get_path(project.decls, id.drop_last()) matches Some(parent) ==> has_generics(parent)
    } else {
        has_generics(d)
    }
}

/// The type of an expression that names the declaration.
pub open spec fn decl_ty_model(d: Decl, project: Project) -> TyModel {
    match d.kind {
        DeclKind::Struct { body: StructDecl::Unit, .. } => named_model(d, project, d.path@),
        DeclKind::Struct { .. } => TyModel::Meta(Box::new(default_named_model(d, d.path@))),
        DeclKind::Trait { .. } => TyModel::Meta(Box::new(default_named_model(d, d.path@))),
        DeclKind::Enum { .. } => TyModel::Meta(Box::new(default_named_model(d, d.path@))),
        DeclKind::Member { body } => match body {
            StructDecl::Unit => named_model(d, project, d.path@),
            _ => TyModel::Function(
                None,
                crate::db::decl::struct_::constructor_args(body),
                Box::new(named_model(d, project, d.path@)),
            ),
        },
        DeclKind::Function(f) => TyModel::Function(
            match f.receiver {
                Some(r) => Some(Box::new(r@)),
                None => None,
            },
            crate::db::decl::struct_::field_tys(f.args@),
            Box::new(f.ret@),
        ),
        DeclKind::Module(_) => crate::ty::spec_unit(),
    }
}

/// Whether the type of the declaration is defined.
pub open spec fn decl_ty_defined(d: Decl, project: Project) -> bool {
    match d.kind {
        DeclKind::Struct { body: StructDecl::Unit, .. } => named_ty_defined(d, project, d.path@),
        DeclKind::Member { .. } => named_ty_defined(d, project, d.path@),
        _ => true,
    }
}

impl Project {
    /// The declaration at `path` from the root.
    pub fn get_decl(&self, path: &ModulePath) -> (r: Option<&Decl>)
        ensures
            opt_ref(r) == spec_get_path(self.decls, path@),
    {
        self.decls.get_path(path)
    }

    /// The impls recorded for the type at `path`; none where there is no entry.
    pub fn get_impls(&self, path: &ModulePath) -> (r: &[ImplForDecl])
        ensures
            match impls_of(self.impl_map@, path@) {
                Some(v) => r@ == v,
                None => r@ == Seq::<ImplForDecl>::empty(),
            },
    {
        let mut i: usize = 0;
        proof {
            assert(self.impl_map@.skip(0) =~= self.impl_map@);
        }
        while i < self.impl_map.len()
            invariant
                i <= self.impl_map@.len(),
                impls_of(self.impl_map@, path@) == impls_of(self.impl_map@.skip(i as int), path@),
            decreases self.impl_map@.len() - i,
        {
            proof {
                assert(self.impl_map@.skip(i as int).skip(1) =~= self.impl_map@.skip(i + 1));
            }
            if self.impl_map[i].0.same(path) {
                return self.impl_map[i].1.as_slice();
            }
            i = i + 1;
        }
        &[]
    }
}

/// The impls of the first entry for `path`.
pub open spec fn impls_of(m: Seq<(ModulePath, Vec<ImplForDecl>)>, path: Seq<Seq<char>>) -> Option<Seq<ImplForDecl>>
    decreases m.len(),
{
    if m.len() == 0 {
        None
    } else if m[0].0@ == path {
        Some(m[0].1@)
    } else {
        impls_of(m.skip(1), path)
    }
}

/// The generics an expression naming the declaration instantiates: a member's are those of its
/// enum, found one level up.
pub open spec fn inst_generics_model(d: Decl, project: Project) -> Seq<GenericModel> {
    if d.kind is Member {
        if d.path@.len() >= 1 {
            match spec_get_path(project.decls, d.path@.drop_last()) {
                Some(parent) if has_generics(parent) => generics_view(decl_generics(parent)),
                _ => Seq::empty(),
            }
        } else {
            Seq::empty()
        }
    } else if has_generics(d) {
        generics_view(decl_generics(d))
    } else {
        Seq::empty()
    }
}

impl Decl {
    /// Whether the type this declaration names is defined.
    pub fn named_defined(&self, project: &Project, id: &ModulePath) -> (r: bool)
        ensures
            r == named_ty_defined(*self, *project, id@),
    {
        if let DeclKind::Member { .. } = &self.kind {
            if id.name.len() < 1 {
                return false;
            }
            let parent = id.get_parent();
            match project.get_decl(&parent) {
                Some(p) => p.kind_has_generics(),
                None => true,
            }
        } else {
            self.kind_has_generics()
        }
    }

    /// Whether the type of an expression naming this declaration is defined.
    pub fn ty_defined(&self, project: &Project) -> (r: bool)
        ensures
            r == decl_ty_defined(*self, *project),
    {
        match &self.kind {
            DeclKind::Struct { body: StructDecl::Unit, .. } | DeclKind::Member { .. } => self.named_defined(
                project,
                &self.path,
            ),
            _ => true,
        }
    }

    /// The generics an expression naming this declaration instantiates.
    pub fn inst_generics(&self, project: &Project) -> (r: Vec<Generic>)
        ensures
            generics_view(r@) == inst_generics_model(*self, *project),
    {
        let e: Vec<Generic> = Vec::new();
        proof {
            assert(generics_view(e@) =~= Seq::empty());
        }
        if let DeclKind::Member { .. } = &self.kind {
            if self.path.name.len() < 1 {
                return e;
            }
            let parent = self.path.get_parent();
            match project.get_decl(&parent) {
                Some(p) => if p.kind_has_generics() {
                    p.generics()
                } else {
                    e
                },
                None => e,
            }
        } else if self.kind_has_generics() {
            self.generics()
        } else {
            e
        }
    }

    /// Whether the declaration is of a kind that has generics.
    pub fn kind_has_generics(&self) -> (r: bool)
        ensures
            r == has_generics(*self),
    {
        match &self.kind {
            DeclKind::Member { .. } | DeclKind::Module(_) => false,
            _ => true,
        }
    }

    /// The generics of the declaration.
    #[must_use]
    pub fn generics(&self) -> (r: Vec<Generic>)
        requires
            has_generics(*self),
        ensures
            generics_view(r@) == generics_view(decl_generics(*self)),
    {
        match &self.kind {
            DeclKind::Struct { generics, .. }
            | DeclKind::Trait { generics, .. }
            | DeclKind::Enum { generics, .. } => clone_generics(generics),
            DeclKind::Function(f) => clone_generics(&f.generics),
            DeclKind::Member { .. } | DeclKind::Module(_) => unreached(),
        }
    }

    /// The declaration named `name` directly inside this one.
    pub fn get(&self, name: &str) -> (r: Option<&Decl>)
        ensures
            opt_ref(r) == spec_get(*self, name@),
    {
        match &self.kind {
            DeclKind::Module(items) => find_decl(items, name),
            DeclKind::Enum { variants, .. } => find_decl(variants, name),
            DeclKind::Trait { body, .. } => find_decl(body, name),
            _ => None,
        }
    }

    /// The declaration reached by following `path` from this one.
    pub fn get_path(&self, path: &ModulePath) -> (r: Option<&Decl>)
        ensures
            opt_ref(r) == spec_get_path(*self, path@),
    {
        let mut current = self;
        let mut i: usize = 0;
        proof {
            assert(path@.skip(0) =~= path@);
        }
        while i < path.name.len()
            invariant
                i <= path.name@.len(),
                spec_get_path(*self, path@) == spec_get_path(*current, path@.skip(i as int)),
            decreases path.name@.len() - i,
        {
            let ghost rest = path@.skip(i as int);
            proof {
                assert(rest.skip(1) =~= path@.skip(i + 1));
                assert(rest[0] == path.name@[i as int]@);
            }
            match current.get(path.name[i].as_str()) {
                Some(next) => {
                    current = next;
                },
                None => {
                    return None;
                },
            }
            i = i + 1;
        }
        proof {
            assert(path@.skip(path.name@.len() as int) =~= Seq::<Seq<char>>::empty());
        }
        Some(current)
    }

    /// The declaration reached by following the names of `path`, their spans aside.
    pub fn get_path_without_error(&self, path: &[Spanned<String>]) -> (r: Option<&Decl>)
        ensures
            opt_ref(r) == spec_get_path(*self, spanned_names(path@)),
    {
        let segs = names_of(path);
        self.get_path(&ModulePath::new(segs))
    }

    /// The declaration reached by following the names of `path`; where it leads nowhere, the
    /// error names the whole path, its segments joined by `::`, over the span from the start of
    /// its first segment to the end of its last.
    pub fn get_path_with_error(&self, path: &[Spanned<String>]) -> (r: Result<&Decl, CheckError>)
        ensures
            path@.len() == 0 ==> r == Ok::<&Decl, CheckError>(self),
            path@.len() > 0 ==> match r {
                Ok(d) => spec_get_path(*self, spanned_names(path@)) == Some(*d),
                Err(e) => spec_get_path(*self, spanned_names(path@)) is None && e is Unresolved
                    && e->Unresolved_name.0@ == join_with(spanned_names(path@), "::"@)
                    && e->Unresolved_name.1 == Span { start: path@[0].1.start, end: path@.last().1.end },
            },
    {
        if path.len() == 0 {
            return Ok(self);
        }
        let segs = names_of(path);
        let mpath = ModulePath::new(segs);
        match self.get_path(&mpath) {
            Some(d) => Ok(d),
            None => {
                let mut name = String::new();
                push_path(&mut name, &mpath.name);
                let span = Span::new(path[0].1.start, path[path.len() - 1].1.end);
                Err(CheckError::Unresolved { name: (name, span) })
            },
        }
    }

    /// The named type `name` applied to the declaration's generics.
    fn default_named_ty(&self, name: ModulePath) -> (r: Ty)
        requires
            has_generics(*self),
        ensures
            r@ == default_named_model(*self, name@),
    {
        let generics = self.generics();
        let mut args: Vec<Ty> = Vec::new();
        let mut i: usize = 0;
        while i < generics.len()
            invariant
                i <= generics@.len(),
                args@.len() == i,
                forall|j: int| 0 <= j < i ==> args@[j]@ == TyModel::Generic(generics@[j]@),
            decreases generics@.len() - i,
        {
            let g = generics[i].deep_clone();
            proof {
                Ty::lemma_generic_view(g);
            }
            args.push(Ty::Generic(g));
            i = i + 1;
        }
        let r = Ty::Named(Named { name, args });
        proof {
            lemma_view_parts(r);
            assert(generics_view(generics@) == generics_view(decl_generics(*self)));
            assert(generics_view(generics@).len() == generics@.len());
            assert(generics_view(decl_generics(*self)).len() == decl_generics(*self).len());
            assert forall|j: int| 0 <= j < args@.len() implies generics@[j]@ == decl_generics(*self)[j]@ by {
                assert(generics_view(generics@)[j] == generics@[j]@);
                assert(generics_view(decl_generics(*self))[j] == decl_generics(*self)[j]@);
            }
            assert(r@->Named_1 =~= default_named_model(*self, name@)->Named_1);
        }
        r
    }

    /// The type this declaration names; a member names the type of its enum.
    pub fn get_named_ty(&self, project: &Project, id: &ModulePath) -> (r: Ty)
        requires
            named_ty_defined(*self, *project, id@),
        ensures
            r@ == named_model(*self, *project, id@),
    {
        if let DeclKind::Member { .. } = &self.kind {
            let parent = id.get_parent();
            let parent_decl = project.get_decl(&parent);
            match parent_decl {
                None => Ty::Unknown,
                Some(p) => p.default_named_ty(parent),
            }
        } else {
            self.default_named_ty(id.copy())
        }
    }

    /// The type of an expression that names the declaration: a unit struct or member is a value of
    /// its type, other members are constructors, types are meta types, functions have their
    /// function type and modules the unit type.
    pub fn get_ty(&self, project: &Project) -> (r: Ty)
        requires
            decl_ty_defined(*self, *project),
        ensures
            r@ == decl_ty_model(*self, *project),
    {
        let id = &self.path;
        match &self.kind {
            DeclKind::Struct { body: StructDecl::Unit, .. } => self.get_named_ty(project, id),
            DeclKind::Trait { .. } | DeclKind::Enum { .. } | DeclKind::Struct { .. } => {
                Ty::Meta(Box::new(self.default_named_ty(id.copy())))
            },
            DeclKind::Member { body, .. } => {
                let self_ty = self.get_named_ty(project, id);
                if let StructDecl::Unit = body {
                    return self_ty;
                }
                match body.get_constructor_ty(self_ty) {
                    Some(f) => Ty::Function(f),
                    None => Ty::Unknown,
                }
            },
            DeclKind::Function(f) => {
                let mut args: Vec<Ty> = Vec::new();
                let mut i: usize = 0;
                while i < f.args.len()
                    invariant
                        i <= f.args@.len(),
                        args@.len() == i,
                        forall|j: int| 0 <= j < i ==> args@[j]@ == f.args@[j].1@,
                    decreases f.args@.len() - i,
                {
                    args.push(f.args[i].1.deep_clone());
                    i = i + 1;
                }
                let receiver = match &f.receiver {
                    Some(r) => Some(Box::new(r.deep_clone())),
                    None => None,
                };
                let r = Ty::Function(FuncTy { receiver, args, ret: Box::new(f.ret.deep_clone()) });
                proof {
                    lemma_view_parts(r);
                    assert(r@->Function_1 =~= crate::db::decl::struct_::field_tys(f.args@));
                }
                r
            },
            DeclKind::Module(_) => Ty::unit(),
        }
    }

    /// The function a function declaration declares.
    pub fn into_func(&self) -> (r: &Function)
        requires
            self.kind is Function,
        ensures
            *r == self.kind->Function_0,
    {
        match &self.kind {
            DeclKind::Function(f) => f,
            _ => unreached(),
        }
    }

    /// The file the declaration stands in; modules have none.
    pub fn file(&self) -> (r: &SourceFile)
        requires
            self.maybe_file is Some,
        ensures
            *r == self.maybe_file->0,
    {
        match &self.maybe_file {
            Some(f) => f,
            None => unreached(),
        }
    }

    /// The kind of semantic token that names the declaration.
    pub fn get_kind(&self) -> (r: TokenKind)
        ensures
            r == decl_token_kind(*self),
    {
        match &self.kind {
            DeclKind::Trait { .. } => TokenKind::Trait,
            DeclKind::Enum { .. } => TokenKind::Enum,
            DeclKind::Function(_) => TokenKind::Func,
            DeclKind::Member { .. } => TokenKind::Member,
            DeclKind::Struct { .. } => TokenKind::Struct,
            DeclKind::Module(_) => TokenKind::Module,
        }
    }
}

pub open spec fn decl_token_kind(d: Decl) -> TokenKind {
    match d.kind {
        DeclKind::Trait { .. } => TokenKind::Trait,
        DeclKind::Enum { .. } => TokenKind::Enum,
        DeclKind::Function(_) => TokenKind::Func,
        DeclKind::Member { .. } => TokenKind::Member,
        DeclKind::Struct { .. } => TokenKind::Struct,
        DeclKind::Module(_) => TokenKind::Module,
    }
}

/// The first declaration of `items` named `name`.
fn find_decl<'a>(items: &'a Vec<Decl>, name: &str) -> (r: Option<&'a Decl>)
    ensures
        opt_ref(r) == find_named(items@, name@),
{
    let mut i: usize = 0;
    proof {
        assert(items@.skip(0) =~= items@);
    }
    while i < items.len()
        invariant
            i <= items@.len(),
            find_named(items@, name@) == find_named(items@.skip(i as int), name@),
        decreases items@.len() - i,
    {
        proof {
            assert(items@.skip(i as int).skip(1) =~= items@.skip(i + 1));
        }
        if str_eq(items[i].name.as_str(), name) {
            return Some(&items[i]);
        }
        i = i + 1;
    }
    proof {
        assert(items@.skip(i as int) =~= Seq::<Decl>::empty());
    }
    None
}

/// Character-wise equality of two strings.
pub fn str_eq(a: &str, b: &str) -> (r: bool)
    ensures
        r == (a@ == b@),
{
    let n = a.unicode_len();
    let m = b.unicode_len();
    if n != m {
        return false;
    }
    let mut i: usize = 0;
    while i < n
        invariant
            n == a@.len(),
            m == b@.len(),
            n == m,
            i <= n,
            forall|j: int| 0 <= j < i ==> a@[j] == b@[j],
        decreases n - i,
    {
        if a.get_char(i) != b.get_char(i) {
            return false;
        }
        i = i + 1;
    }
    proof {
        assert(a@ =~= b@);
    }
    true
}

} // verus!
