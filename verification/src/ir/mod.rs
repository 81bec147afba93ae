use vstd::prelude::*;

use crate::build::expr::{def_model, func_id, func_model, id_pos, insert_func, unplaced, FuncModel};
use crate::build::{BuildError, BuildState, FuncDef};
use crate::check::err::CheckError;
use crate::check::state::{CheckState, VarDecl};
use crate::db::decl::{Decl, Project};
use crate::db::path::ModulePath;
use crate::ir::top::{top_frame, top_wf, TopIR};
use crate::parser::ast::{File, Top};
use crate::ty::{Generic, Ty};
use crate::util::{opt_ref, Spanned};

pub mod common;
pub mod expr;
pub mod stmt;
pub mod offset;
pub mod tokens;
pub mod top;
pub mod ty;

verus! {

broadcast use vstd::std_specs::vec::group_vec_axioms;

/// A checked file: its items, the imports it made, and the type each type variable settled on.
pub struct FileIR<'db> {
    pub tops: Vec<Spanned<TopIR<'db>>>,
    pub imports: Vec<(String, ModulePath)>,
    pub type_vars: Vec<(u32, Ty)>,
}

/// Whether every item of the file is well formed.
pub open spec fn file_wf(f: Seq<Spanned<Top>>) -> bool {
    forall|i: int| 0 <= i < f.len() ==> top_wf(#[trigger] f[i].0)
}

/// Checks the items of a file of module `module` in order, then settles the type variables; the
/// diagnostics found come with the result.
pub fn check_file<'db>(project: &'db Project, module: ModulePath, file: &File) -> (r: (FileIR<'db>, Vec<CheckError>))
    requires
        file_wf(file@),
    ensures
        r.0.tops@.len() == file@.len(),
        forall|i: int| 0 <= i < file@.len() ==> #[trigger] r.0.tops@[i].1 == file@[i].1,
        forall|k: int| 0 <= k < r.0.type_vars@.len() ==> (#[trigger] r.0.type_vars@[k]).0 == k,
{
    let mut state = CheckState::new(project, module);
    let mut tops: Vec<Spanned<TopIR<'db>>> = Vec::new();
    let mut i: usize = 0;
    while i < file.len()
        invariant
            i <= file@.len(),
            file_wf(file@),
            state.wf(),
            tops@.len() == i,
            forall|k: int| 0 <= k < i ==> #[trigger] tops@[k].1 == file@[k].1,
        decreases file@.len() - i,
    {
        let t = file[i].0.check(&mut state);
        tops.push((t, file[i].1));
        i = i + 1;
    }
    let n = state.type_state.len();
    let mut type_vars: Vec<(u32, Ty)> = Vec::new();
    let mut id: u32 = 0;
    while id < n
        invariant
            id <= n,
            n == state.type_state.next_id(),
            state.wf(),
            type_vars@.len() == id,
            forall|k: int| 0 <= k < id ==> (#[trigger] type_vars@[k]).0 == k,
            tops@.len() == file@.len(),
            forall|k: int| 0 <= k < file@.len() ==> #[trigger] tops@[k].1 == file@[k].1,
        decreases n - id,
    {
        type_vars.push((id, state.type_state.resolved_ty(id)));
        id = id + 1;
    }
    let imports = state.imports;
    (FileIR { tops, imports, type_vars }, state.errors)
}

impl<'db> FileIR<'db> {
    /// Compiles the functions of the file; a later function with the id of an earlier one
    /// replaces it. Only a function can fail to compile.
    pub fn build(&self, state: &mut BuildState<'db>) -> (r: Result<Vec<(u32, FuncDef)>, BuildError>)
        ensures
            final(state).project == old(state).project,
            r is Err ==> exists|i: int| 0 <= i < self.tops@.len() && (#[trigger] self.tops@[i]).0 is Func,
            match file_model(self.tops@, self.tops@.len() as int, *old(state).project) {
                Ok(ms) => r matches Ok(funcs) && defs_model(funcs@) == ms && forall|j: int|
                    0 <= j < funcs@.len() ==> unplaced(#[trigger] funcs@[j].1),
                Err(e) => r == Err::<Vec<(u32, FuncDef)>, BuildError>(e),
            },
            r matches Ok(funcs) ==> {
                &&& unique_ids(funcs@)
                &&& forall|i: int| 0 <= i < self.tops@.len() && (#[trigger] self.tops@[i]).0 is Func ==> has_id(
                    funcs@,
                    func_id(self.tops@[i].0->Func_0),
                )
                &&& forall|j: int| 0 <= j < funcs@.len() ==> is_func_id(self.tops@, self.tops@.len() as int, (#[trigger] funcs@[j]).0)
            },
    {
        let mut funcs: Vec<(u32, FuncDef)> = Vec::new();
        let mut i: usize = 0;
        proof {
            reveal(unique_ids);
            reveal(covers);
            reveal(from_funcs);
            assert(defs_model(funcs@) =~= Seq::<FuncModel>::empty());
        }
        while i < self.tops.len()
            invariant
                i <= self.tops@.len(),
                state.project == old(state).project,
                unique_ids(funcs@),
                covers(self.tops@, i as int, funcs@),
                from_funcs(self.tops@, i as int, funcs@),
                file_model(self.tops@, i as int, *old(state).project) == Ok::<Seq<FuncModel>, BuildError>(
                    defs_model(funcs@),
                ),
                forall|j: int| 0 <= j < funcs@.len() ==> unplaced(#[trigger] funcs@[j].1),
            decreases self.tops@.len() - i,
        {
            let ghost before = funcs@;
            match self.tops[i].0.build(state) {
                Some(Ok(f)) => {
                    insert_func(&mut funcs, f);
                    proof {
                        lemma_build_step(self.tops@, i as int, before, funcs@, f);
                        lemma_id_pos_model(before, f.0);
                        let g = self.tops@[i as int].0->Func_0;
                        assert(func_model(g, *old(state).project) == Ok::<FuncModel, BuildError>(def_model(f)));
                        assert(unplaced(f.1));
                        lemma_id_pos(before, f.0);
                        let pos = id_pos(before, f.0);
                        if let Some(p) = pos {
                            assert(funcs@ == before.update(p, f));
                            assert(defs_model(funcs@) =~= defs_model(before).update(p, def_model(f)));
                        } else {
                            assert(funcs@ == before.push(f));
                            assert(defs_model(funcs@) =~= defs_model(before).push(def_model(f)));
                        }
                        assert(defs_model(funcs@) == insert_model(defs_model(before), def_model(f)));
                        assert forall|j: int| 0 <= j < funcs@.len() implies unplaced(#[trigger] funcs@[j].1) by {
                            if j < before.len() && funcs@[j] == before[j] {
                                assert(unplaced(before[j].1));
                            } else {
                                assert(funcs@[j] == f);
                            }
                        }
                    }
                },
                Some(Err(e)) => {
                    proof {
                        lemma_file_model_stuck(self.tops@, i + 1, self.tops@.len() as int, *old(state).project);
                    }
                    return Err(e);
                },
                None => {
                    proof {
                        lemma_skip_step(self.tops@, i as int, funcs@);
                    }
                },
            }
            i = i + 1;
        }
        proof {
            reveal(covers);
            reveal(from_funcs);
        }
        Ok(funcs)
    }
}

/// The position of the first compiled function with id `id`, by value.
pub open spec fn model_pos(ms: Seq<FuncModel>, id: u32) -> Option<int>
    decreases ms.len(),
{
    if ms.len() == 0 {
        None
    } else if ms[0].0 == id {
        Some(0)
    } else {
        match model_pos(ms.skip(1), id) {
            Some(i) => Some(i + 1),
            None => None,
        }
    }
}

/// Adds a compiled function by value, replacing the first one with the same id.
pub open spec fn insert_model(ms: Seq<FuncModel>, m: FuncModel) -> Seq<FuncModel> {
    match model_pos(ms, m.0) {
        Some(i) => ms.update(i, m),
        None => ms.push(m),
    }
}

/// The compiled functions by value.
pub open spec fn defs_model(fs: Seq<(u32, FuncDef)>) -> Seq<FuncModel> {
    fs.map_values(|f: (u32, FuncDef)| def_model(f))
}

/// What compiling the first `n` items of a file gives: each function is compiled in turn and
/// replaces an earlier one with its id; the first function that fails stops it with its error.
pub open spec fn file_model(tops: Seq<Spanned<TopIR>>, n: int, project: Project) -> Result<Seq<FuncModel>, BuildError>
    decreases n,
{
    if n <= 0 {
        Ok(Seq::empty())
    } else {
        match file_model(tops, n - 1, project) {
            Err(e) => Err(e),
            Ok(ms) => match tops[n - 1].0 {
                TopIR::Func(g) => match func_model(g, project) {
                    Err(e) => Err(e),
                    Ok(m) => Ok(insert_model(ms, m)),
                },
                _ => Ok(ms),
            },
        }
    }
}

/// Once an item fails to compile, so does the file with any more items.
proof fn lemma_file_model_stuck(tops: Seq<Spanned<TopIR>>, n: int, m: int, project: Project)
    requires
        1 <= n <= m,
        file_model(tops, n, project) is Err,
    ensures
        file_model(tops, m, project) == file_model(tops, n, project),
    decreases m - n,
{
    if m > n {
        lemma_file_model_stuck(tops, n, m - 1, project);
    }
}

/// Finding an id among compiled functions is finding it among their values.
proof fn lemma_id_pos_model(fs: Seq<(u32, FuncDef)>, id: u32)
    ensures
        id_pos(fs, id) == model_pos(defs_model(fs), id),
    decreases fs.len(),
{
    if fs.len() > 0 {
        assert(defs_model(fs).skip(1) =~= defs_model(fs.skip(1)));
        lemma_id_pos_model(fs.skip(1), id);
    }
}

/// No two compiled functions share an id.
#[verifier::opaque]
pub open spec fn unique_ids(funcs: Seq<(u32, FuncDef)>) -> bool {
    forall|a: int, b: int| 0 <= a < b < funcs.len() ==> (#[trigger] funcs[a]).0 != (#[trigger] funcs[b]).0
}

/// Some compiled function has the id `id`.
pub open spec fn has_id(funcs: Seq<(u32, FuncDef)>, id: u32) -> bool {
    exists|j: int| 0 <= j < funcs.len() && (#[trigger] funcs[j]).0 == id
}

/// One of the first `n` items is a function compiled under the id `id`.
pub open spec fn is_func_id(tops: Seq<Spanned<TopIR>>, n: int, id: u32) -> bool {
    exists|k: int| 0 <= k < n && (#[trigger] tops[k]).0 is Func && func_id(tops[k].0->Func_0) == id
}

/// Every function among the first `n` items has been compiled.
#[verifier::opaque]
spec fn covers(tops: Seq<Spanned<TopIR>>, n: int, funcs: Seq<(u32, FuncDef)>) -> bool {
    forall|k: int| 0 <= k < n && (#[trigger] tops[k]).0 is Func ==> has_id(funcs, func_id(tops[k].0->Func_0))
}

/// Every compiled function comes from one of the first `n` items.
#[verifier::opaque]
spec fn from_funcs(tops: Seq<Spanned<TopIR>>, n: int, funcs: Seq<(u32, FuncDef)>) -> bool {
    forall|j: int| 0 <= j < funcs.len() ==> is_func_id(tops, n, (#[trigger] funcs[j]).0)
}

proof fn lemma_build_step(tops: Seq<Spanned<TopIR>>, i: int, before: Seq<(u32, FuncDef)>, after: Seq<(u32, FuncDef)>, f: (u32, FuncDef))
    requires
        0 <= i < tops.len(),
        tops[i].0 matches TopIR::Func(g) && f.0 == func_id(g),
        unique_ids(before),
        covers(tops, i, before),
        from_funcs(tops, i, before),
        after == match id_pos(before, f.0) {
            Some(p) => before.update(p, f),
            None => before.push(f),
        },
    ensures
        unique_ids(after),
        covers(tops, i + 1, after),
        from_funcs(tops, i + 1, after),
{
    reveal(unique_ids);
    reveal(covers);
    reveal(from_funcs);
    lemma_id_pos(before, f.0);
    assert forall|j: int| 0 <= j < after.len() implies #[trigger] after[j].0 == before[j].0 || after[j].0 == f.0 by {}
    assert forall|a: int, b: int| 0 <= a < b < after.len() implies (#[trigger] after[a]).0 != (#[trigger] after[b]).0 by {
        if b == before.len() {
            assert(after[a].0 == before[a].0);
        }
    }
    assert forall|k: int| 0 <= k < i + 1 && (#[trigger] tops[k]).0 is Func implies has_id(after, func_id(tops[k].0->Func_0)) by {
        if k < i {
            let id = func_id(tops[k].0->Func_0);
            let j0 = choose|j: int| 0 <= j < before.len() && (#[trigger] before[j]).0 == id;
            if id == f.0 {
                match id_pos(before, f.0) {
                    Some(p) => assert(after[p].0 == f.0),
                    None => assert(after[before.len() as int].0 == f.0),
                }
            } else {
                assert(after[j0].0 == before[j0].0);
            }
        } else {
            match id_pos(before, f.0) {
                Some(p) => assert(after[p].0 == f.0),
                None => assert(after[before.len() as int].0 == f.0),
            }
        }
    }
    assert forall|j: int| 0 <= j < after.len() implies is_func_id(tops, i + 1, (#[trigger] after[j]).0) by {
        if j < before.len() && after[j].0 == before[j].0 {
            assert(is_func_id(tops, i, before[j].0));
            let k0 = choose|k: int| 0 <= k < i && (#[trigger] tops[k]).0 is Func && func_id(tops[k].0->Func_0) == before[j].0;
            assert(tops[k0].0 is Func);
        } else {
            assert(tops[i].0 is Func);
        }
    }
}

proof fn lemma_skip_step(tops: Seq<Spanned<TopIR>>, i: int, funcs: Seq<(u32, FuncDef)>)
    requires
        0 <= i < tops.len(),
        !(tops[i].0 is Func),
        covers(tops, i, funcs),
        from_funcs(tops, i, funcs),
    ensures
        covers(tops, i + 1, funcs),
        from_funcs(tops, i + 1, funcs),
{
    reveal(covers);
    reveal(from_funcs);
    assert forall|j: int| 0 <= j < funcs.len() implies is_func_id(tops, i + 1, (#[trigger] funcs[j]).0) by {
        assert(is_func_id(tops, i, funcs[j].0));
        let k0 = choose|k: int| 0 <= k < i && (#[trigger] tops[k]).0 is Func && func_id(tops[k].0->Func_0) == funcs[j].0;
        assert(tops[k0].0 is Func);
    }
}

/// The first position of an id is a position of that id, and no earlier entry has it.
proof fn lemma_id_pos(funcs: Seq<(u32, FuncDef)>, id: u32)
    ensures
        match id_pos(funcs, id) {
            Some(p) => 0 <= p < funcs.len() && funcs[p].0 == id,
            None => forall|j: int| 0 <= j < funcs.len() ==> (#[trigger] funcs[j]).0 != id,
        },
    decreases funcs.len(),
{
    if funcs.len() > 0 {
        lemma_id_pos(funcs.skip(1), id);
        if funcs[0].0 != id {
            if id_pos(funcs.skip(1), id) is None {
                assert forall|j: int| 0 <= j < funcs.len() implies (#[trigger] funcs[j]).0 != id by {
                    if j > 0 {
                        assert(funcs[j] == funcs.skip(1)[j - 1]);
                    }
                }
            }
        }
    }
}

/// The scopes a walk over a checked file has entered, for hover and highlighting.
pub struct IrState<'db> {
    pub generics: Vec<Vec<Generic>>,
    pub variables: Vec<Vec<VarDecl>>,
    pub project: &'db Project,
    pub type_vars: Vec<(u32, Ty)>,
}

impl<'db> IrState<'db> {
    /// A state without scopes.
    pub fn new(project: &'db Project, type_vars: Vec<(u32, Ty)>) -> (s: IrState<'db>)
        ensures
            s.project == project,
            s.type_vars == type_vars,
            s.generics@.len() == 0,
            s.variables@.len() == 0,
    {
        IrState { generics: Vec::new(), variables: Vec::new(), project, type_vars }
    }

    /// Enters the scope of a block with the variables and generics it declared.
    pub fn enter_scope(&mut self, vars: Vec<VarDecl>, generics: Vec<Generic>)
        ensures
            final(self).variables@ == old(self).variables@.push(vars),
            final(self).generics@ == old(self).generics@.push(generics),
            final(self).project == old(self).project,
            final(self).type_vars == old(self).type_vars,
    {
        self.variables.push(vars);
        self.generics.push(generics);
    }

    /// The declaration at the absolute path `name`.
    pub fn try_get_decl_path(&self, name: &ModulePath) -> (r: Option<&'db Decl>)
        ensures
            opt_ref(r) == crate::db::decl::spec_get_path(self.project.decls, name@),
    {
        let project: &'db Project = self.project;
        project.get_decl(name)
    }
}

} // verus!
