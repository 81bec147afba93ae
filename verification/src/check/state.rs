use vstd::prelude::*;

use crate::check::err::CheckError;
use crate::check::type_state::TypeState;
use crate::check::TokenKind;
use crate::db::decl::{spec_get, Decl, Project};
use crate::db::path::ModulePath;
use crate::parser::ast::{clone_name, segments, SpannedQualifiedName};
use crate::ty::{Generic, Ty, TyModel};
use crate::util::{opt_ref, Span, Spanned};

verus! {

broadcast use vstd::std_specs::vec::group_vec_axioms;

/// A variable in scope: a local, a parameter or `self`.
pub struct VarDecl {
    pub name: String,
    pub ty: Ty,
    pub kind: TokenKind,
    pub span: Span,
}

impl VarDecl {
    pub fn copy(&self) -> (r: VarDecl)
        ensures
            r.name@ == self.name@,
            r.ty@ == self.ty@,
            r.kind == self.kind,
            r.span == self.span,
    {
        VarDecl { name: self.name.clone(), ty: self.ty.deep_clone(), kind: self.kind, span: self.span }
    }
}

/// The state of the check of one file: the project it belongs to, where in it the check is, the
/// names in scope, the type variables and the diagnostics found so far.
pub struct CheckState<'db> {
    pub project: &'db Project,
    /// The module path of the file.
    pub module: ModulePath,
    /// The path of the declaration being checked, within the file's module.
    pub path: Vec<String>,
    /// Names brought in by `use`, each with the path of what it names.
    pub imports: Vec<(String, ModulePath)>,
    /// Scopes of variables, innermost last.
    pub variables: Vec<Vec<VarDecl>>,
    /// Scopes of generics, innermost last.
    pub generics: Vec<Vec<Generic>>,
    pub type_state: TypeState,
    pub errors: Vec<CheckError>,
}

/// The variable of a scope named `name`: the last one inserted.
pub open spec fn scope_var(s: Seq<VarDecl>, name: Seq<char>) -> Option<VarDecl>
    decreases s.len(),
{
    if s.len() == 0 {
        None
    } else if s.last().name@ == name {
        Some(s.last())
    } else {
        scope_var(s.drop_last(), name)
    }
}

/// The variable named `name` in the innermost scope that has one.
pub open spec fn spec_var(scopes: Seq<Vec<VarDecl>>, name: Seq<char>) -> Option<VarDecl>
    decreases scopes.len(),
{
    if scopes.len() == 0 {
        None
    } else {
        match scope_var(scopes.last()@, name) {
            Some(v) => Some(v),
            None => spec_var(scopes.drop_last(), name),
        }
    }
}

/// The generic of a scope named `name`: the last one inserted.
pub open spec fn scope_generic(s: Seq<Generic>, name: Seq<char>) -> Option<Generic>
    decreases s.len(),
{
    if s.len() == 0 {
        None
    } else if s.last().name.0@ == name {
        Some(s.last())
    } else {
        scope_generic(s.drop_last(), name)
    }
}

/// The generic named `name` in the innermost scope that has one.
pub open spec fn spec_generic(scopes: Seq<Vec<Generic>>, name: Seq<char>) -> Option<Generic>
    decreases scopes.len(),
{
    if scopes.len() == 0 {
        None
    } else {
        match scope_generic(scopes.last()@, name) {
            Some(v) => Some(v),
            None => spec_generic(scopes.drop_last(), name),
        }
    }
}

/// The path of the first import named `name`.
pub open spec fn spec_import(imports: Seq<(String, ModulePath)>, name: Seq<char>) -> Option<Seq<Seq<char>>>
    decreases imports.len(),
{
    if imports.len() == 0 {
        None
    } else if imports[0].0@ == name {
        Some(imports[0].1@)
    } else {
        spec_import(imports.skip(1), name)
    }
}

/// Follows the segments of `path` from index `from` on, starting at `d`; an error gives the index
/// of the first segment that names nothing.
pub open spec fn walk(d: Decl, path: Seq<Seq<char>>, from: int) -> Result<Decl, int>
    decreases path.len() - from,
{
    if from >= path.len() {
        Ok(d)
    } else {
        match spec_get(d, path[from]) {
            Some(c) => walk(c, path, from + 1),
            None => Err(from),
        }
    }
}

/// How a path resolves: its first segment is looked up among the imports, then in the file's
/// module, then at the root of the project.
pub open spec fn spec_resolve(
    project: Project,
    module: Seq<Seq<char>>,
    imports: Seq<(String, ModulePath)>,
    path: Seq<Seq<char>>,
) -> Result<Decl, int> {
    match spec_import(imports, path[0]) {
        Some(p) => match crate::db::decl::spec_get_path(project.decls, p) {
            Some(d) => walk(d, path, 1),
            None => Err(0),
        },
        None => match crate::db::decl::spec_get_path(project.decls, module) {
            Some(m) if spec_get(m, path[0]) is Some => walk(m, path, 0),
            _ => walk(project.decls, path, 0),
        },
    }
}

impl<'db> CheckState<'db> {
    pub open spec fn wf(self) -> bool {
        &&& self.type_state.wf()
        &&& self.variables@.len() == self.generics@.len()
        &&& self.variables@.len() >= 1
    }

    pub open spec fn depth(self) -> nat {
        self.variables@.len()
    }

    /// How `path` resolves in this state.
    pub open spec fn resolve(self, path: Seq<Seq<char>>) -> Result<Decl, int> {
        spec_resolve(*self.project, self.module@, self.imports@, path)
    }

    /// The state of a check of the file of module `module`, with one empty scope.
    pub fn new(project: &'db Project, module: ModulePath) -> (s: CheckState<'db>)
        ensures
            s.wf(),
            s.depth() == 1,
            s.project == project,
            s.module@ == module@,
            s.path@.len() == 0,
            s.imports@.len() == 0,
            s.errors@.len() == 0,
            s.type_state.next_id() == 0,
    {
        let mut variables = Vec::new();
        variables.push(Vec::new());
        let mut generics = Vec::new();
        generics.push(Vec::new());
        CheckState {
            project,
            module,
            path: Vec::new(),
            imports: Vec::new(),
            variables,
            generics,
            type_state: TypeState::new(),
            errors: Vec::new(),
        }
    }

    /// Opens a new innermost scope.
    pub fn enter_scope(&mut self)
        requires
            old(self).wf(),
        ensures
            final(self).wf(),
            final(self).depth() == old(self).depth() + 1,
            final(self).variables@.last()@ == Seq::<VarDecl>::empty(),
            final(self).generics@.last()@ == Seq::<Generic>::empty(),
            final(self).generics@.drop_last() == old(self).generics@,
            final(self).variables@.drop_last() == old(self).variables@,
            final(self).type_state == old(self).type_state,
            final(self).errors == old(self).errors,
            final(self).project == old(self).project,
            final(self).module == old(self).module,
            final(self).path == old(self).path,
            final(self).imports == old(self).imports,
    {
        self.variables.push(Vec::new());
        self.generics.push(Vec::new());
        proof {
            assert(self.variables@.drop_last() =~= old(self).variables@);
            assert(self.generics@.drop_last() =~= old(self).generics@);
        }
    }

    /// Closes the innermost scope and returns its variables and generics.
    pub fn exit_scope(&mut self) -> (r: (Vec<VarDecl>, Vec<Generic>))
        requires
            old(self).wf(),
            old(self).depth() >= 2,
        ensures
            final(self).wf(),
            final(self).depth() == old(self).depth() - 1,
            r.0 == old(self).variables@.last(),
            r.1 == old(self).generics@.last(),
            final(self).variables@ == old(self).variables@.drop_last(),
            final(self).generics@ == old(self).generics@.drop_last(),
            final(self).type_state == old(self).type_state,
            final(self).errors == old(self).errors,
            final(self).project == old(self).project,
            final(self).module == old(self).module,
            final(self).path == old(self).path,
            final(self).imports == old(self).imports,
    {
        let vars = self.variables.pop().unwrap();
        let generics = self.generics.pop().unwrap();
        (vars, generics)
    }

    /// Records a diagnostic.
    pub fn error(&mut self, err: CheckError)
        ensures
            final(self).errors@ == old(self).errors@.push(err),
            final(self).variables == old(self).variables,
            final(self).generics == old(self).generics,
            final(self).type_state == old(self).type_state,
            final(self).project == old(self).project,
            final(self).module == old(self).module,
            final(self).path == old(self).path,
            final(self).imports == old(self).imports,
    {
        self.errors.push(err);
    }

    /// Declares a variable in the innermost scope; a later one of the same name shadows it.
    pub fn insert_variable(&mut self, name: String, ty: Ty, kind: TokenKind, span: Span)
        requires
            old(self).wf(),
        ensures
            final(self).wf(),
            final(self).depth() == old(self).depth(),
            final(self).variables@.drop_last() == old(self).variables@.drop_last(),
            final(self).variables@.last()@ == old(self).variables@.last()@.push(
                VarDecl { name, ty, kind, span },
            ),
            final(self).generics == old(self).generics,
            final(self).type_state == old(self).type_state,
            final(self).errors == old(self).errors,
            final(self).project == old(self).project,
            final(self).module == old(self).module,
            final(self).path == old(self).path,
            final(self).imports == old(self).imports,
    {
        let n = self.variables.len();
        let mut scope = self.variables.pop().unwrap();
        scope.push(VarDecl { name, ty, kind, span });
        self.variables.push(scope);
        proof {
            assert(self.variables@.drop_last() =~= old(self).variables@.drop_last());
        }
    }

    /// Declares a generic in the innermost scope.
    pub fn insert_generic(&mut self, generic: Generic)
        requires
            old(self).wf(),
        ensures
            final(self).wf(),
            final(self).depth() == old(self).depth(),
            final(self).generics@.drop_last() == old(self).generics@.drop_last(),
            final(self).generics@.last()@ == old(self).generics@.last()@.push(generic),
            final(self).variables == old(self).variables,
            final(self).type_state == old(self).type_state,
            final(self).errors == old(self).errors,
            final(self).project == old(self).project,
            final(self).module == old(self).module,
            final(self).path == old(self).path,
            final(self).imports == old(self).imports,
    {
        let mut scope = self.generics.pop().unwrap();
        scope.push(generic);
        self.generics.push(scope);
        proof {
            assert(self.generics@.drop_last() =~= old(self).generics@.drop_last());
        }
    }

    /// Declares `self` as a parameter of type `ty`.
    pub fn add_self_param(&mut self, ty: Ty, span: Span)
        requires
            old(self).wf(),
        ensures
            final(self).wf(),
            final(self).depth() == old(self).depth(),
            final(self).variables@.drop_last() == old(self).variables@.drop_last(),
            final(self).variables@.last()@.len() == old(self).variables@.last()@.len() + 1,
            final(self).variables@.last()@.drop_last() == old(self).variables@.last()@,
            final(self).variables@.last()@.last().name@ == "self"@,
            final(self).variables@.last()@.last().ty == ty,
            final(self).variables@.last()@.last().kind == TokenKind::Param,
            final(self).variables@.last()@.last().span == span,
            final(self).generics == old(self).generics,
            final(self).type_state == old(self).type_state,
            final(self).errors == old(self).errors,
            final(self).project == old(self).project,
            final(self).module == old(self).module,
            final(self).path == old(self).path,
            final(self).imports == old(self).imports,
    {
        let name = String::from_str("self");
        proof {
            reveal_strlit("self");
        }
        self.insert_variable(name, ty, TokenKind::Param, span);
    }

    /// Declares the generic `Self`, bounded by `ty`.
    pub fn add_self_ty(&mut self, ty: &Ty, span: Span)
        requires
            old(self).wf(),
        ensures
            final(self).wf(),
            final(self).depth() == old(self).depth(),
            final(self).generics@.drop_last() == old(self).generics@.drop_last(),
            final(self).generics@.last()@.len() == old(self).generics@.last()@.len() + 1,
            final(self).generics@.last()@.drop_last() == old(self).generics@.last()@,
            final(self).generics@.last()@.last().name.0@ == "Self"@,
            final(self).generics@.last()@.last().name.1 == span,
            final(self).generics@.last()@.last().super_@ == ty@,
            final(self).variables == old(self).variables,
            final(self).type_state == old(self).type_state,
            final(self).errors == old(self).errors,
            final(self).project == old(self).project,
            final(self).module == old(self).module,
            final(self).path == old(self).path,
            final(self).imports == old(self).imports,
    {
        let name = String::from_str("Self");
        proof {
            reveal_strlit("Self");
        }
        self.insert_generic(Generic { name: (name, span), super_: Box::new(ty.deep_clone()) });
    }

    /// The variable named `name` in the innermost scope that has one.
    pub fn get_variable(&self, name: &str) -> (r: Option<&VarDecl>)
        ensures
            opt_ref(r) == spec_var(self.variables@, name@),
    {
        let mut i = self.variables.len();
        proof {
            assert(self.variables@.take(i as int) =~= self.variables@);
        }
        while i > 0
            invariant
                i <= self.variables@.len(),
                spec_var(self.variables@, name@) == spec_var(self.variables@.take(i as int), name@),
            decreases i,
        {
            let ghost pre = self.variables@.take(i as int);
            proof {
                assert(pre.drop_last() =~= self.variables@.take(i - 1));
            }
            let scope = &self.variables[i - 1];
            let mut j = scope.len();
            proof {
                assert(scope@.take(j as int) =~= scope@);
            }
            while j > 0
                invariant
                    j <= scope@.len(),
                    scope_var(scope@, name@) == scope_var(scope@.take(j as int), name@),
                    0 < i <= self.variables@.len(),
                    *scope == self.variables@[i - 1],
                    spec_var(self.variables@, name@) == spec_var(self.variables@.take(i as int), name@),
                decreases j,
            {
                proof {
                    assert(scope@.take(j as int).drop_last() =~= scope@.take(j - 1));
                }
                if crate::db::decl::str_eq(scope[j - 1].name.as_str(), name) {
                    return Some(&scope[j - 1]);
                }
                j = j - 1;
            }
            i = i - 1;
        }
        None
    }

    /// The generic named `name` in the innermost scope that has one.
    pub fn get_generic(&self, name: &str) -> (r: Option<&Generic>)
        ensures
            opt_ref(r) == spec_generic(self.generics@, name@),
    {
        let mut i = self.generics.len();
        proof {
            assert(self.generics@.take(i as int) =~= self.generics@);
        }
        while i > 0
            invariant
                i <= self.generics@.len(),
                spec_generic(self.generics@, name@) == spec_generic(self.generics@.take(i as int), name@),
            decreases i,
        {
            let ghost pre = self.generics@.take(i as int);
            proof {
                assert(pre.drop_last() =~= self.generics@.take(i - 1));
            }
            let scope = &self.generics[i - 1];
            let mut j = scope.len();
            proof {
                assert(scope@.take(j as int) =~= scope@);
            }
            while j > 0
                invariant
                    j <= scope@.len(),
                    scope_generic(scope@, name@) == scope_generic(scope@.take(j as int), name@),
                    0 < i <= self.generics@.len(),
                    *scope == self.generics@[i - 1],
                    spec_generic(self.generics@, name@) == spec_generic(self.generics@.take(i as int), name@),
                decreases j,
            {
                proof {
                    assert(scope@.take(j as int).drop_last() =~= scope@.take(j - 1));
                }
                if crate::db::decl::str_eq(scope[j - 1].name.0.as_str(), name) {
                    return Some(&scope[j - 1]);
                }
                j = j - 1;
            }
            i = i - 1;
        }
        None
    }

    /// The declaration at the absolute path `path`.
    pub fn try_get_decl_path(&self, path: &ModulePath) -> (r: Option<&'db Decl>)
        ensures
            opt_ref(r) == crate::db::decl::spec_get_path(self.project.decls, path@),
    {
        self.project.get_decl(path)
    }

    /// The absolute path of the item `name` declared in the current declaration.
    pub fn local_id(&self, name: String) -> (r: ModulePath)
        ensures
            r@ == self.module@ + crate::util::strings_view(self.path@) + seq![name@],
    {
        let mut segs = crate::util::clone_strings(&self.module.name);
        let mut rest = crate::util::clone_strings(&self.path);
        let ghost a = segs@;
        let ghost b = rest@;
        segs.append(&mut rest);
        segs.push(name);
        proof {
            assert(crate::util::strings_view(segs@) =~= crate::util::strings_view(a) + crate::util::strings_view(b) + seq![name@]);
        }
        ModulePath::new(segs)
    }

    /// The path of the first import named `name`.
    fn find_import(&self, name: &str) -> (r: Option<&ModulePath>)
        ensures
            match r {
                Some(p) => spec_import(self.imports@, name@) == Some(p@),
                None => spec_import(self.imports@, name@) is None,
            },
    {
        let mut i: usize = 0;
        proof {
            assert(self.imports@.skip(0) =~= self.imports@);
        }
        while i < self.imports.len()
            invariant
                i <= self.imports@.len(),
                spec_import(self.imports@, name@) == spec_import(self.imports@.skip(i as int), name@),
            decreases self.imports@.len() - i,
        {
            proof {
                assert(self.imports@.skip(i as int).skip(1) =~= self.imports@.skip(i + 1));
            }
            if crate::db::decl::str_eq(self.imports[i].0.as_str(), name) {
                return Some(&self.imports[i].1);
            }
            i = i + 1;
        }
        None
    }

    /// Resolves `path` as the state does; an error is the first segment that names nothing.
    pub fn get_decl_with_error(&self, path: &[Spanned<String>]) -> (r: Result<&'db Decl, Spanned<String>>)
        requires
            path@.len() >= 1,
        ensures
            match r {
                Ok(d) => self.resolve(segments(path@)) == Ok::<Decl, int>(*d),
                Err(seg) => self.resolve(segments(path@)) matches Err(i) && 0 <= i < path@.len() && seg.0@
                    == path@[i].0@ && seg.1 == path@[i].1,
            },
    {
        let project: &'db Project = self.project;
        match self.find_import(path[0].0.as_str()) {
            Some(p) => match project.get_decl(p) {
                Some(d) => walk_decl(d, path, 1),
                None => Err(clone_name(&path[0])),
            },
            None => {
                match project.get_decl(&self.module) {
                    Some(m) => {
                        if m.get(path[0].0.as_str()).is_some() {
                            return walk_decl(m, path, 0);
                        }
                    },
                    None => {},
                }
                walk_decl(&project.decls, path, 0)
            },
        }
    }
}

impl Decl {
    /// Follows `path` from this declaration; where a segment names nothing, that segment is reported
    /// if `should_error` is set.
    pub fn get_path_with_state<'a>(
        &'a self,
        state: &mut CheckState,
        path: &[Spanned<String>],
        should_error: bool,
    ) -> (r: Option<&'a Decl>)
        ensures
            match walk(*self, segments(path@), 0) {
                Ok(d) => r == Some(&d) && final(state).errors == old(state).errors,
                Err(i) => r is None && if should_error {
                    &&& final(state).errors@.len() == old(state).errors@.len() + 1
                    &&& final(state).errors@.drop_last() == old(state).errors@
                    &&& final(state).errors@.last() matches CheckError::Unresolved { name }
                        && name.0@ == path@[i].0@ && name.1 == path@[i].1
                } else {
                    final(state).errors == old(state).errors
                },
            },
            final(state).variables == old(state).variables,
            final(state).generics == old(state).generics,
            final(state).type_state == old(state).type_state,
            final(state).project == old(state).project,
            final(state).module == old(state).module,
            final(state).path == old(state).path,
            final(state).imports == old(state).imports,
    {
        let mut current: Vec<String> = Vec::new();
        self.get_path_with_state_inner(state, path, 0, &mut current, should_error)
    }

    /// Follows `path` from index `from` on, recording the names passed in `current`.
    fn get_path_with_state_inner<'a>(
        &'a self,
        state: &mut CheckState,
        path: &[Spanned<String>],
        from: usize,
        current: &mut Vec<String>,
        should_error: bool,
    ) -> (r: Option<&'a Decl>)
        requires
            from <= path@.len(),
        ensures
            match walk(*self, segments(path@), from as int) {
                Ok(d) => r == Some(&d) && final(state).errors == old(state).errors,
                Err(i) => r is None && if should_error {
                    &&& final(state).errors@.len() == old(state).errors@.len() + 1
                    &&& final(state).errors@.drop_last() == old(state).errors@
                    &&& final(state).errors@.last() matches CheckError::Unresolved { name }
                        && name.0@ == path@[i].0@ && name.1 == path@[i].1
                } else {
                    final(state).errors == old(state).errors
                },
            },
            final(state).variables == old(state).variables,
            final(state).generics == old(state).generics,
            final(state).type_state == old(state).type_state,
            final(state).project == old(state).project,
            final(state).module == old(state).module,
            final(state).path == old(state).path,
            final(state).imports == old(state).imports,
        decreases path@.len() - from,
    {
        if from >= path.len() {
            Some(self)
        } else if let Some(found) = self.get(path[from].0.as_str()) {
            current.push(path[from].0.clone());
            found.get_path_with_state_inner(state, path, from + 1, current, should_error)
        } else {
            if should_error {
                state.error(CheckError::Unresolved { name: clone_name(&path[from]) });
                proof {
                    assert(state.errors@.drop_last() =~= old(state).errors@);
                }
            }
            None
        }
    }
}

/// Follows the segments of `path` from index `from` on, starting at `d`.
pub fn walk_decl<'a>(d: &'a Decl, path: &[Spanned<String>], from: usize) -> (r: Result<&'a Decl, Spanned<String>>)
    requires
        from <= path@.len(),
    ensures
        match r {
            Ok(found) => walk(*d, segments(path@), from as int) == Ok::<Decl, int>(*found),
            Err(seg) => walk(*d, segments(path@), from as int) matches Err(i) && 0 <= i < path@.len() && seg.0@
                == path@[i].0@ && seg.1 == path@[i].1,
        },
{
    let mut current = d;
    let mut i = from;
    while i < path.len()
        invariant
            from <= i <= path@.len(),
            walk(*d, segments(path@), from as int) == walk(*current, segments(path@), i as int),
        decreases path@.len() - i,
    {
        match current.get(path[i].0.as_str()) {
            Some(next) => {
                current = next;
            },
            None => {
                return Err(clone_name(&path[i]));
            },
        }
        i = i + 1;
    }
    Ok(current)
}

/// A variable declared in the innermost scope is what its name then finds: declaring `v` in the
/// innermost scope of `old` (as `insert_variable` does) gives `new`, where `v.name` names `v`.
pub proof fn law_declared_variable_found(old: CheckState, new: CheckState, v: VarDecl)
    requires
        old.variables@.len() >= 1,
        new.variables@.len() == old.variables@.len(),
        new.variables@.drop_last() == old.variables@.drop_last(),
        new.variables@.last()@ == old.variables@.last()@.push(v),
    ensures
        spec_var(new.variables@, v.name@) == Some(v),
{
    assert(new.variables@.last()@.last() == v);
}

/// A generic declared in the innermost scope is what its name then finds.
pub proof fn law_declared_generic_found(old: CheckState, new: CheckState, g: Generic)
    requires
        old.generics@.len() >= 1,
        new.generics@.len() == old.generics@.len(),
        new.generics@.drop_last() == old.generics@.drop_last(),
        new.generics@.last()@ == old.generics@.last()@.push(g),
    ensures
        spec_generic(new.generics@, g.name.0@) == Some(g),
{
    assert(new.generics@.last()@.last() == g);
}

/// Leaving a scope just entered gives back the scopes of before: entering (as `enter_scope` does)
/// takes `a` to `b`, leaving (as `exit_scope` does) takes `b` to `c`.
pub proof fn law_scope_round_trip(a: CheckState, b: CheckState, c: CheckState)
    requires
        b.variables@.drop_last() == a.variables@,
        b.generics@.drop_last() == a.generics@,
        c.variables@ == b.variables@.drop_last(),
        c.generics@ == b.generics@.drop_last(),
    ensures
        c.variables@ == a.variables@,
        c.generics@ == a.generics@,
{
}

} // verus!
