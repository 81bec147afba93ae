use vstd::prelude::*;

use crate::db::path::ModulePath;
use crate::fs::export::{export_walk, Export};
use crate::fs::tree_node::{export_path, find_module, lemma_find_module, lemma_find_top, node_at, tree_open, FileState, FileTreeNode};
use crate::parser::ast::{segments, File};
use crate::ty::{lemma_view_parts, tys_view, FuncTy, Named, Ty, TyModel};
use crate::util::{strings_view, Spanned};

verus! {

broadcast use vstd::std_specs::vec::group_vec_axioms;

/// The parsed files of a project, by module path.
pub struct Project {
    pub file_tree: FileTreeNode,
}

impl Default for Project {
    /// A project without files.
    fn default() -> (r: Project)
        ensures
            r.file_tree matches FileTreeNode::Module(m) && m@.len() == 0,
    {
        Project { file_tree: FileTreeNode::Module(Vec::new()) }
    }
}

/// The file that `path` names below `t`, if it names one.
pub open spec fn file_at_path(t: &FileTreeNode, path: Seq<Seq<char>>) -> Option<FileState> {
    match export_path(Export::Module(t), path) {
        Some(Export::Module(n)) => match *n {
            FileTreeNode::File(f) => Some(f),
            _ => None,
        },
        _ => None,
    }
}

/// The file a node is, if it is one.
pub open spec fn node_file(n: Option<FileTreeNode>) -> Option<FileState> {
    match n {
        Some(FileTreeNode::File(f)) => Some(f),
        _ => None,
    }
}

/// The file a path names is the node reached through modules, where that node is a file.
proof fn lemma_node_file(t: &FileTreeNode, path: Seq<Seq<char>>)
    ensures
        file_at_path(t, path) == node_file(node_at(*t, path)),
    decreases path.len(),
{
    if path.len() > 0 {
        match *t {
            FileTreeNode::Module(m) => {
                lemma_find_module(m@, path[0]);
                if let Some(i) = find_module(m@, path[0]) {
                    lemma_node_file(&m@[i].1, path.skip(1));
                }
            },
            FileTreeNode::File(f) => {
                lemma_find_top(f.ast@, path[0]);
                if let Some(i) = crate::fs::tree_node::find_top(f.ast@, path[0]) {
                    let e = crate::fs::export::top_export(&f.ast@[i].0);
                    assert(!(e is Module));
                    if path.skip(1).len() > 0 {
                        assert(export_path(e, path.skip(1)) is None);
                    }
                }
            },
        }
    }
}

/// On a path open for insertion, the nodes on the way are modules or missing.
proof fn lemma_open_prefix(t: FileTreeNode, path: Seq<Seq<char>>, q: Seq<Seq<char>>)
    requires
        tree_open(t, path),
        q.is_prefix_of(path),
        q.len() < path.len(),
    ensures
        node_file(node_at(t, q)) is None,
    decreases q.len(),
{
    if q.len() > 0 {
        assert(q[0] == path.subrange(0, q.len() as int)[0]);
        if let FileTreeNode::Module(m) = t {
            if let Some(i) = find_module(m@, path[0]) {
                assert(q.skip(1) =~= path.skip(1).subrange(0, q.len() - 1));
                lemma_open_prefix(m@[i].1, path.skip(1), q.skip(1));
            }
        }
    }
}

impl Project {
    /// Puts a parsed file at `path`, the last segment naming the file within its module; the
    /// modules on the way are created. A file already there is replaced.
    pub fn insert(&mut self, filename: &str, txt: &str, ast: File, path: &[String])
        requires
            path@.len() >= 1,
            tree_open(old(self).file_tree, strings_view(path@)),
        ensures
            file_at_path(&final(self).file_tree, strings_view(path@)) matches Some(f) && f.text@ == txt@
                && f.filename@ == filename@ && f.ast == ast,
            forall|q: Seq<Seq<char>>|
                !strings_view(path@).is_prefix_of(q) ==> #[trigger] file_at_path(&final(self).file_tree, q)
                    == file_at_path(&old(self).file_tree, q),
    {
        let state = FileState { text: String::from_str(txt), ast, filename: String::from_str(filename) };
        let _ = self.file_tree.insert_path(path, FileTreeNode::File(state));
        proof {
            let segs = strings_view(path@);
            lemma_node_file(&self.file_tree, segs);
            assert forall|q: Seq<Seq<char>>| !segs.is_prefix_of(q) implies #[trigger] file_at_path(
                &self.file_tree,
                q,
            ) == file_at_path(&old(self).file_tree, q) by {
                lemma_node_file(&self.file_tree, q);
                lemma_node_file(&old(self).file_tree, q);
                if q.is_prefix_of(segs) {
                    if q.len() == segs.len() {
                        assert(segs =~= q.subrange(0, segs.len() as int));
                    }
                    lemma_open_prefix(old(self).file_tree, segs, q);
                }
            }
        }
    }

    /// What `path` names in the project; an error is the first segment that names nothing.
    pub fn get_path_with_error<'m>(&'m self, path: &[Spanned<String>]) -> (r: Result<Export<'m>, Spanned<String>>)
        ensures
            match export_walk(Export::Module(&self.file_tree), segments(path@)) {
                Ok(e) => r == Ok::<Export<'m>, Spanned<String>>(e),
                Err(i) => r matches Err(seg) && 0 <= i < path@.len() && seg.0@ == path@[i].0@ && seg.1 == path@[i].1,
            },
    {
        self.file_tree.get_path_with_error(path)
    }

    /// The file at `path`.
    pub fn get_file<'m>(&'m self, path: &[String]) -> (r: &'m FileState)
        requires
            file_at_path(&self.file_tree, strings_view(path@)) is Some,
        ensures
            file_at_path(&self.file_tree, strings_view(path@)) == Some(*r),
    {
        match self.file_tree.get_path(path) {
            Some(Export::Module(FileTreeNode::File(data))) => data,
            _ => unreached(),
        }
    }
}

/// Generic arguments bound to types, as `(name, type)` pairs; a later pair overrides an
/// earlier one with the same name.
pub type GenericMap = Vec<(String, Ty)>;

/// The mathematical value of a [`GenericMap`].
pub open spec fn pairs_view(m: Seq<(String, Ty)>) -> Seq<(Seq<char>, TyModel)> {
    m.map_values(|p: (String, Ty)| (p.0@, p.1@))
}

/// The type bound to `name`: that of the last pair with this name.
pub open spec fn lookup(m: Seq<(Seq<char>, TyModel)>, name: Seq<char>) -> Option<TyModel>
    decreases m.len(),
{
    if m.len() == 0 {
        None
    } else if m.last().0 == name {
        Some(m.last().1)
    } else {
        lookup(m.drop_last(), name)
    }
}

/// Whether substitution reaches no meta type, on which it is not defined.
pub open spec fn param_defined(t: TyModel) -> bool
    decreases t,
{
    match t {
        TyModel::Named(_, args) => forall|i: int| 0 <= i < args.len() ==> param_defined(#[trigger] args[i]),
        TyModel::Function(rec, args, ret) => {
            &&& (rec matches Some(r) ==> param_defined(*r))
            &&& forall|i: int| 0 <= i < args.len() ==> param_defined(#[trigger] args[i])
            &&& param_defined(*ret)
        },
        TyModel::Tuple(tys) => forall|i: int| 0 <= i < tys.len() ==> param_defined(#[trigger] tys[i]),
        TyModel::Sum(tys) => forall|i: int| 0 <= i < tys.len() ==> param_defined(#[trigger] tys[i]),
        TyModel::Meta(_) => false,
        _ => true,
    }
}

/// `t` with each generic that `m` binds replaced by its binding.
pub open spec fn param_spec(t: TyModel, m: Seq<(Seq<char>, TyModel)>) -> TyModel
    decreases t,
{
    match t {
        TyModel::Named(name, args) => TyModel::Named(
            name,
            Seq::new(
                args.len(),
                |i: int|
                    if 0 <= i < args.len() {
                        param_spec(args[i], m)
                    } else {
                        TyModel::Unknown
                    },
            ),
        ),
        TyModel::Generic(g) => match lookup(m, g.name) {
            Some(b) => b,
            None => t,
        },
        TyModel::Function(rec, args, ret) => TyModel::Function(
            match rec {
                Some(r) => Some(Box::new(param_spec(*r, m))),
                None => None,
            },
            Seq::new(
                args.len(),
                |i: int|
                    if 0 <= i < args.len() {
                        param_spec(args[i], m)
                    } else {
                        TyModel::Unknown
                    },
            ),
            Box::new(param_spec(*ret, m)),
        ),
        TyModel::Tuple(tys) => TyModel::Tuple(
            Seq::new(
                tys.len(),
                |i: int|
                    if 0 <= i < tys.len() {
                        param_spec(tys[i], m)
                    } else {
                        TyModel::Unknown
                    },
            ),
        ),
        TyModel::Sum(tys) => TyModel::Sum(
            Seq::new(
                tys.len(),
                |i: int|
                    if 0 <= i < tys.len() {
                        param_spec(tys[i], m)
                    } else {
                        TyModel::Unknown
                    },
            ),
        ),
        _ => t,
    }
}

/// The bindings that make `pattern` the type `t`, if the two match: a generic matches anything;
/// named types match when their names and argument counts agree and their arguments match one by
/// one; any other pattern matches only an equal type.
pub open spec fn imply_spec(pattern: TyModel, t: TyModel) -> Option<Seq<(Seq<char>, TyModel)>>
    decreases pattern,
{
    match pattern {
        TyModel::Generic(g) => Some(seq![(g.name, t)]),
        TyModel::Named(name, args) => match t {
            TyModel::Named(other_name, other_args) => if name == other_name && args.len()
                == other_args.len() {
                imply_seq(args, other_args)
            } else {
                None
            },
            _ => if pattern == t {
                Some(Seq::empty())
            } else {
                None
            },
        },
        _ => if pattern == t {
            Some(Seq::empty())
        } else {
            None
        },
    }
}

/// The bindings of the patterns `a` matched pairwise against `b`, in order.
pub open spec fn imply_seq(a: Seq<TyModel>, b: Seq<TyModel>) -> Option<Seq<(Seq<char>, TyModel)>>
    decreases a,
{
    if a.len() == 0 {
        Some(Seq::empty())
    } else {
        match imply_seq(a.drop_last(), b.drop_last()) {
            None => None,
            Some(front) => match imply_spec(a.last(), b[a.len() - 1]) {
                None => None,
                Some(back) => Some(front + back),
            },
        }
    }
}

/// Substitution acts on each part of a compound type.
pub proof fn lemma_param_parts(t: TyModel, m: Seq<(Seq<char>, TyModel)>)
    ensures
        t matches TyModel::Named(nm, args) ==> {
            &&& param_spec(t, m) is Named
            &&& param_spec(t, m)->Named_0 == nm
            &&& param_spec(t, m)->Named_1.len() == args.len()
            &&& forall|i: int| 0 <= i < args.len() ==> #[trigger] param_spec(t, m)->Named_1[i] == param_spec(args[i], m)
        },
        t matches TyModel::Tuple(args) ==> {
            &&& param_spec(t, m) is Tuple
            &&& param_spec(t, m)->Tuple_0.len() == args.len()
            &&& forall|i: int| 0 <= i < args.len() ==> #[trigger] param_spec(t, m)->Tuple_0[i] == param_spec(args[i], m)
        },
        t matches TyModel::Sum(args) ==> {
            &&& param_spec(t, m) is Sum
            &&& param_spec(t, m)->Sum_0.len() == args.len()
            &&& forall|i: int| 0 <= i < args.len() ==> #[trigger] param_spec(t, m)->Sum_0[i] == param_spec(args[i], m)
        },
        t matches TyModel::Function(rec, args, ret) ==> {
            &&& param_spec(t, m) is Function
            &&& param_spec(t, m)->Function_1.len() == args.len()
            &&& forall|i: int| 0 <= i < args.len() ==> #[trigger] param_spec(t, m)->Function_1[i] == param_spec(args[i], m)
        },
{
}

/// Looks up the type bound to `name`, the last binding winning.
pub fn lookup_generic<'a>(m: &'a GenericMap, name: &String) -> (r: Option<&'a Ty>)
    ensures
        match r {
            Some(t) => lookup(pairs_view(m@), name@) == Some(t@),
            None => lookup(pairs_view(m@), name@) is None,
        },
{
    let mut i = m.len();
    proof {
        assert(m@.take(i as int) =~= m@);
    }
    while i > 0
        invariant
            i <= m@.len(),
            lookup(pairs_view(m@), name@) == lookup(pairs_view(m@.take(i as int)), name@),
        decreases i,
    {
        let ghost pre = pairs_view(m@.take(i as int));
        proof {
            assert(pre.drop_last() =~= pairs_view(m@.take(i - 1)));
        }
        if m[i - 1].0 == *name {
            return Some(&m[i - 1].1);
        }
        i = i - 1;
    }
    None
}

impl Ty {
    /// Replaces the generics that `generics` binds by their bindings.
    pub fn parameterize(&self, generics: &GenericMap) -> (r: Ty)
        requires
            param_defined(self@),
        ensures
            r@ == param_spec(self@, pairs_view(generics@)),
        decreases self,
    {
        let ghost m = pairs_view(generics@);
        proof {
            lemma_view_parts(*self);
            lemma_param_parts(self@, m);
        }
        match self {
            Ty::Any => Ty::Any,
            Ty::Unknown => Ty::Unknown,
            Ty::Nothing => Ty::Nothing,
            Ty::TypeVar { id } => Ty::TypeVar { id: *id },
            Ty::Named(n) => {
                proof {
                    assert forall|i: int| 0 <= i < n.args@.len() implies param_defined(#[trigger] n.args@[i]@) by {
                        assert(self@->Named_1[i] == n.args@[i]@);
                    }
                }
                let args = parameterize_tys(&n.args, generics);
                let r = Ty::Named(Named { name: n.name.copy(), args });
                proof {
                    lemma_view_parts(r);
                    assert(r@->Named_1 =~= param_spec(self@, m)->Named_1);
                }
                r
            },
            Ty::Generic(g) => {
                match lookup_generic(generics, &g.name.0) {
                    Some(t) => t.deep_clone(),
                    None => self.deep_clone(),
                }
            },
            Ty::Tuple(tys) => {
                proof {
                    assert forall|i: int| 0 <= i < tys@.len() implies param_defined(#[trigger] tys@[i]@) by {
                        assert(self@->Tuple_0[i] == tys@[i]@);
                    }
                }
                let v = parameterize_tys(tys, generics);
                let r = Ty::Tuple(v);
                proof {
                    lemma_view_parts(r);
                    assert(r@->Tuple_0 =~= param_spec(self@, m)->Tuple_0);
                }
                r
            },
            Ty::Sum(tys) => {
                proof {
                    assert forall|i: int| 0 <= i < tys@.len() implies param_defined(#[trigger] tys@[i]@) by {
                        assert(self@->Sum_0[i] == tys@[i]@);
                    }
                }
                let v = parameterize_tys(tys, generics);
                let r = Ty::Sum(v);
                proof {
                    lemma_view_parts(r);
                    assert(r@->Sum_0 =~= param_spec(self@, m)->Sum_0);
                }
                r
            },
            Ty::Function(f) => {
                let receiver = match &f.receiver {
                    Some(rec) => Some(Box::new((&**rec).parameterize(generics))),
                    None => None,
                };
                proof {
                    assert forall|i: int| 0 <= i < f.args@.len() implies param_defined(#[trigger] f.args@[i]@) by {
                        assert(self@->Function_1[i] == f.args@[i]@);
                    }
                }
                let args = parameterize_tys(&f.args, generics);
                let ret = Box::new((&*f.ret).parameterize(generics));
                let r = Ty::Function(FuncTy { receiver, args, ret });
                proof {
                    lemma_view_parts(r);
                    assert(r@->Function_1 =~= param_spec(self@, m)->Function_1);
                }
                r
            },
            Ty::Meta(_) => {
                proof {
                    assert(!param_defined(self@));
                }
                Ty::Unknown
            },
        }
    }

    /// The generics that make `self`, read as a pattern, the type `other`; `None` where the two
    /// do not match.
    pub fn imply_generics(&self, other: &Ty) -> (r: Option<GenericMap>)
        ensures
            match r {
                Some(m) => imply_spec(self@, other@) == Some(pairs_view(m@)),
                None => imply_spec(self@, other@) is None,
            },
        decreases self,
    {
        proof {
            lemma_view_parts(*self);
            lemma_view_parts(*other);
        }
        match (self, other) {
            (Ty::Generic(g), _) => {
                let mut res: GenericMap = Vec::new();
                res.push((g.name.0.clone(), other.deep_clone()));
                proof {
                    assert(pairs_view(res@) =~= seq![(g.name.0@, other@)]);
                }
                return Some(res);
            },
            (Ty::Named(n), Ty::Named(o)) => {
                if n.name.same(&o.name) && n.args.len() == o.args.len() {
                    let mut res: GenericMap = Vec::new();
                    let mut i: usize = 0;
                    while i < n.args.len()
                        invariant
                            i <= n.args@.len(),
                            n.args@.len() == o.args@.len(),
                            imply_seq(tys_view(n.args@).take(i as int), tys_view(o.args@).take(i as int))
                                == Some(pairs_view(res@)),
                            *self == Ty::Named(*n),
                            *other == Ty::Named(*o),
                            self@ == TyModel::Named(n.name@, tys_view(n.args@)),
                            other@ == TyModel::Named(o.name@, tys_view(o.args@)),
                            n.name@ == o.name@,
                        decreases n.args@.len() - i,
                    {
                        let implied = n.args[i].imply_generics(&o.args[i]);
                        let ghost a = tys_view(n.args@).take(i + 1);
                        let ghost b = tys_view(o.args@).take(i + 1);
                        proof {
                            assert(a.drop_last() =~= tys_view(n.args@).take(i as int));
                            assert(b.drop_last() =~= tys_view(o.args@).take(i as int));
                        }
                        match implied {
                            None => {
                                proof {
                                    lemma_imply_seq_none(tys_view(n.args@), tys_view(o.args@), i + 1);
                                    assert(tys_view(n.args@).take(n.args@.len() as int) =~= tys_view(n.args@));
                                    assert(tys_view(o.args@).take(n.args@.len() as int) =~= tys_view(o.args@));
                                }
                                return None;
                            },
                            Some(more) => {
                                let ghost before = res@;
                                let mut more = more;
                                let ghost added = more@;
                                res.append(&mut more);
                                proof {
                                    assert(pairs_view(res@) =~= pairs_view(before) + pairs_view(added));
                                }
                            },
                        }
                        i = i + 1;
                    }
                    proof {
                        assert(tys_view(n.args@).take(n.args@.len() as int) =~= tys_view(n.args@));
                        assert(tys_view(o.args@).take(n.args@.len() as int) =~= tys_view(o.args@));
                    }
                    return Some(res);
                } else {
                    return None;
                }
            },
            _ => {},
        }
        if self.equals(other) {
            let empty: GenericMap = Vec::new();
            proof {
                assert(pairs_view(empty@) =~= Seq::empty());
            }
            Some(empty)
        } else {
            None
        }
    }
}

/// Substitutes the bindings of `generics` into each type of `v`.
pub fn parameterize_tys(v: &Vec<Ty>, generics: &GenericMap) -> (r: Vec<Ty>)
    requires
        forall|i: int| 0 <= i < v@.len() ==> param_defined(#[trigger] v@[i]@),
    ensures
        r@.len() == v@.len(),
        forall|i: int| 0 <= i < v@.len() ==> #[trigger] r@[i]@ == param_spec(v@[i]@, pairs_view(generics@)),
    decreases v,
{
    let mut r: Vec<Ty> = Vec::new();
    let mut i: usize = 0;
    while i < v.len()
        invariant
            i <= v@.len(),
            r@.len() == i,
            forall|j: int| 0 <= j < v@.len() ==> param_defined(#[trigger] v@[j]@),
            forall|j: int| 0 <= j < i ==> #[trigger] r@[j]@ == param_spec(v@[j]@, pairs_view(generics@)),
        decreases v@.len() - i,
    {
        proof {
            assert(decreases_to!(v => v@[i as int]));
        }
        r.push(v[i].parameterize(generics));
        i = i + 1;
    }
    r
}

/// Once a prefix of the patterns fails to match, every longer prefix fails too.
proof fn lemma_imply_seq_none(a: Seq<TyModel>, b: Seq<TyModel>, n: int)
    requires
        0 <= n <= a.len(),
        a.len() == b.len(),
        imply_seq(a.take(n), b.take(n)) is None,
    ensures
        imply_seq(a, b) is None,
    decreases a.len() - n,
{
    if n < a.len() {
        assert(a.take(n + 1).drop_last() =~= a.take(n));
        assert(b.take(n + 1).drop_last() =~= b.take(n));
        lemma_imply_seq_none(a, b, n + 1);
    } else {
        assert(a.take(n) =~= a);
        assert(b.take(n) =~= b);
    }
}

} // verus!

verus! {

/// The names of the generics that occur in a type, in the order substitution visits them.
pub open spec fn gen_names(t: TyModel) -> Seq<Seq<char>>
    decreases t,
{
    match t {
        TyModel::Generic(g) => seq![g.name],
        TyModel::Named(_, args) => names_seq(args),
        TyModel::Tuple(ts) => names_seq(ts),
        TyModel::Sum(ts) => names_seq(ts),
        TyModel::Function(rec, args, ret) => match rec {
            Some(r) => gen_names(*r) + names_seq(args) + gen_names(*ret),
            None => names_seq(args) + gen_names(*ret),
        },
        _ => Seq::empty(),
    }
}

/// The generic names of a list of types, one after the other.
pub open spec fn names_seq(a: Seq<TyModel>) -> Seq<Seq<char>>
    decreases a,
{
    if a.len() == 0 {
        Seq::empty()
    } else {
        names_seq(a.drop_last()) + gen_names(a.last())
    }
}

/// Whether `m` binds `name`.
pub open spec fn binds(m: Seq<(Seq<char>, TyModel)>, name: Seq<char>) -> bool {
    exists|j: int| 0 <= j < m.len() && (#[trigger] m[j]).0 == name
}

proof fn lemma_lookup_binds(m: Seq<(Seq<char>, TyModel)>, x: Seq<char>)
    ensures
        (lookup(m, x) is None) == !binds(m, x),
    decreases m.len(),
{
    if m.len() > 0 {
        lemma_lookup_binds(m.drop_last(), x);
        if binds(m.drop_last(), x) {
            let j = choose|j: int| 0 <= j < m.drop_last().len() && (#[trigger] m.drop_last()[j]).0 == x;
            assert(m[j].0 == x);
        }
        if binds(m, x) && m.last().0 != x {
            let j = choose|j: int| 0 <= j < m.len() && (#[trigger] m[j]).0 == x;
            assert(m.drop_last()[j].0 == x);
        }
    }
}

proof fn lemma_lookup_concat(front: Seq<(Seq<char>, TyModel)>, back: Seq<(Seq<char>, TyModel)>, x: Seq<char>)
    ensures
        lookup(front + back, x) == if binds(back, x) {
            lookup(back, x)
        } else {
            lookup(front, x)
        },
    decreases back.len(),
{
    if back.len() == 0 {
        assert(front + back =~= front);
    } else {
        assert((front + back).drop_last() =~= front + back.drop_last());
        lemma_lookup_concat(front, back.drop_last(), x);
        if binds(back.drop_last(), x) {
            let j = choose|j: int| 0 <= j < back.drop_last().len() && (#[trigger] back.drop_last()[j]).0 == x;
            assert(back[j].0 == x);
        }
        if binds(back, x) && back.last().0 != x {
            let j = choose|j: int| 0 <= j < back.len() && (#[trigger] back[j]).0 == x;
            assert(back.drop_last()[j].0 == x);
        }
    }
}

proof fn lemma_names_seq_contains(a: Seq<TyModel>, i: int, x: Seq<char>)
    requires
        0 <= i < a.len(),
        gen_names(a[i]).contains(x),
    ensures
        names_seq(a).contains(x),
    decreases a.len(),
{
    if i == a.len() - 1 {
        let k = choose|k: int| 0 <= k < gen_names(a[i]).len() && gen_names(a[i])[k] == x;
        assert((names_seq(a.drop_last()) + gen_names(a.last()))[names_seq(a.drop_last()).len() + k] == x);
    } else {
        assert(a.drop_last()[i] == a[i]);
        lemma_names_seq_contains(a.drop_last(), i, x);
        let k = choose|k: int| 0 <= k < names_seq(a.drop_last()).len() && names_seq(a.drop_last())[k] == x;
        assert((names_seq(a.drop_last()) + gen_names(a.last()))[k] == x);
    }
}

/// Substitution only reads the bindings of the generics that occur in the type.
proof fn lemma_param_agree(t: TyModel, m1: Seq<(Seq<char>, TyModel)>, m2: Seq<(Seq<char>, TyModel)>)
    requires
        forall|x: Seq<char>| gen_names(t).contains(x) ==> lookup(m1, x) == lookup(m2, x),
    ensures
        param_spec(t, m1) == param_spec(t, m2),
    decreases t,
{
    lemma_param_parts(t, m1);
    lemma_param_parts(t, m2);
    match t {
        TyModel::Generic(g) => {
            assert(gen_names(t)[0] == g.name);
        },
        TyModel::Named(nm, args) => {
            assert forall|i: int| 0 <= i < args.len() implies param_spec(args[i], m1) == param_spec(args[i], m2) by {
                assert forall|x: Seq<char>| gen_names(args[i]).contains(x) implies lookup(m1, x) == lookup(m2, x) by {
                    lemma_names_seq_contains(args, i, x);
                }
                lemma_param_agree(args[i], m1, m2);
            }
            assert(param_spec(t, m1)->Named_1 =~= param_spec(t, m2)->Named_1);
        },
        TyModel::Tuple(args) => {
            assert forall|i: int| 0 <= i < args.len() implies param_spec(args[i], m1) == param_spec(args[i], m2) by {
                assert forall|x: Seq<char>| gen_names(args[i]).contains(x) implies lookup(m1, x) == lookup(m2, x) by {
                    lemma_names_seq_contains(args, i, x);
                }
                lemma_param_agree(args[i], m1, m2);
            }
            assert(param_spec(t, m1)->Tuple_0 =~= param_spec(t, m2)->Tuple_0);
        },
        TyModel::Sum(args) => {
            assert forall|i: int| 0 <= i < args.len() implies param_spec(args[i], m1) == param_spec(args[i], m2) by {
                assert forall|x: Seq<char>| gen_names(args[i]).contains(x) implies lookup(m1, x) == lookup(m2, x) by {
                    lemma_names_seq_contains(args, i, x);
                }
                lemma_param_agree(args[i], m1, m2);
            }
            assert(param_spec(t, m1)->Sum_0 =~= param_spec(t, m2)->Sum_0);
        },
        TyModel::Function(rec, args, ret) => {
            let pre = match rec {
                Some(r) => gen_names(*r),
                None => Seq::<Seq<char>>::empty(),
            };
            assert(gen_names(t) =~= pre + names_seq(args) + gen_names(*ret));
            assert forall|i: int| 0 <= i < args.len() implies param_spec(args[i], m1) == param_spec(args[i], m2) by {
                assert forall|x: Seq<char>| gen_names(args[i]).contains(x) implies lookup(m1, x) == lookup(m2, x) by {
                    lemma_names_seq_contains(args, i, x);
                    let k = choose|k: int| 0 <= k < names_seq(args).len() && names_seq(args)[k] == x;
                    assert(gen_names(t)[pre.len() + k] == x);
                }
                lemma_param_agree(args[i], m1, m2);
            }
            assert forall|x: Seq<char>| gen_names(*ret).contains(x) implies lookup(m1, x) == lookup(m2, x) by {
                let k = choose|k: int| 0 <= k < gen_names(*ret).len() && gen_names(*ret)[k] == x;
                assert(gen_names(t)[pre.len() + names_seq(args).len() + k] == x);
            }
            lemma_param_agree(*ret, m1, m2);
            if let Some(r) = rec {
                assert forall|x: Seq<char>| gen_names(*r).contains(x) implies lookup(m1, x) == lookup(m2, x) by {
                    let k = choose|k: int| 0 <= k < gen_names(*r).len() && gen_names(*r)[k] == x;
                    assert(gen_names(t)[k] == x);
                }
                lemma_param_agree(*r, m1, m2);
            }
            assert(param_spec(t, m1)->Function_1 =~= param_spec(t, m2)->Function_1);
        },
        _ => {},
    }
}

/// Substituting no bindings leaves a type as it is.
pub proof fn lemma_param_empty(t: TyModel)
    ensures
        param_spec(t, Seq::empty()) == t,
    decreases t,
{
    let e = Seq::<(Seq<char>, TyModel)>::empty();
    lemma_param_parts(t, e);
    match t {
        TyModel::Named(nm, args) => {
            assert forall|i: int| 0 <= i < args.len() implies param_spec(args[i], e) == args[i] by {
                lemma_param_empty(args[i]);
            }
            assert(param_spec(t, e)->Named_1 =~= args);
        },
        TyModel::Tuple(args) => {
            assert forall|i: int| 0 <= i < args.len() implies param_spec(args[i], e) == args[i] by {
                lemma_param_empty(args[i]);
            }
            assert(param_spec(t, e)->Tuple_0 =~= args);
        },
        TyModel::Sum(args) => {
            assert forall|i: int| 0 <= i < args.len() implies param_spec(args[i], e) == args[i] by {
                lemma_param_empty(args[i]);
            }
            assert(param_spec(t, e)->Sum_0 =~= args);
        },
        TyModel::Function(rec, args, ret) => {
            assert forall|i: int| 0 <= i < args.len() implies param_spec(args[i], e) == args[i] by {
                lemma_param_empty(args[i]);
            }
            assert(param_spec(t, e)->Function_1 =~= args);
            lemma_param_empty(*ret);
            if let Some(r) = rec {
                lemma_param_empty(*r);
            }
        },
        _ => {},
    }
}

proof fn lemma_imply_keys(p: TyModel, t: TyModel)
    ensures
        imply_spec(p, t) matches Some(m) ==> forall|j: int| 0 <= j < m.len() ==> gen_names(p).contains(#[trigger] m[j].0),
    decreases p,
{
    match p {
        TyModel::Generic(g) => {
            assert(gen_names(p)[0] == g.name);
        },
        TyModel::Named(nm, args) => {
            if let TyModel::Named(tn, targs) = t {
                if nm == tn && args.len() == targs.len() {
                    lemma_imply_seq_keys(args, targs);
                }
            }
        },
        _ => {},
    }
}

proof fn lemma_imply_seq_keys(a: Seq<TyModel>, b: Seq<TyModel>)
    ensures
        imply_seq(a, b) matches Some(m) ==> forall|j: int| 0 <= j < m.len() ==> names_seq(a).contains(#[trigger] m[j].0),
    decreases a,
{
    if a.len() > 0 {
        lemma_imply_seq_keys(a.drop_last(), b.drop_last());
        lemma_imply_keys(a.last(), b[a.len() - 1]);
        if let Some(m) = imply_seq(a, b) {
            let front = imply_seq(a.drop_last(), b.drop_last())->0;
            let back = imply_spec(a.last(), b[a.len() - 1])->0;
            assert(m == front + back);
            let s1 = names_seq(a.drop_last());
            let s2 = gen_names(a.last());
            assert forall|j: int| 0 <= j < m.len() implies names_seq(a).contains(#[trigger] m[j].0) by {
                if j < front.len() {
                    assert(m[j] == front[j]);
                    let k = choose|k: int| 0 <= k < s1.len() && s1[k] == front[j].0;
                    assert((s1 + s2)[k] == m[j].0);
                } else {
                    assert(m[j] == back[j - front.len()]);
                    let k = choose|k: int| 0 <= k < s2.len() && s2[k] == back[j - front.len()].0;
                    assert((s1 + s2)[s1.len() + k] == m[j].0);
                }
            }
        }
    }
}

/// Whether no generic name occurs twice in the type.
pub open spec fn linear(t: TyModel) -> bool {
    gen_names(t).no_duplicates()
}

proof fn lemma_no_dup_split(s1: Seq<Seq<char>>, s2: Seq<Seq<char>>)
    requires
        (s1 + s2).no_duplicates(),
    ensures
        s1.no_duplicates(),
        s2.no_duplicates(),
        forall|x: Seq<char>| s1.contains(x) ==> !s2.contains(x),
{
    let s = s1 + s2;
    assert forall|i: int, j: int| 0 <= i < s1.len() && 0 <= j < s1.len() && i != j implies s1[i] != s1[j] by {
        assert(s[i] == s1[i] && s[j] == s1[j]);
    }
    assert forall|i: int, j: int| 0 <= i < s2.len() && 0 <= j < s2.len() && i != j implies s2[i] != s2[j] by {
        assert(s[s1.len() + i] == s2[i] && s[s1.len() + j] == s2[j]);
    }
    assert forall|x: Seq<char>| s1.contains(x) implies !s2.contains(x) by {
        if s2.contains(x) {
            let i = choose|i: int| 0 <= i < s1.len() && s1[i] == x;
            let j = choose|j: int| 0 <= j < s2.len() && s2[j] == x;
            assert(s[i] == s[s1.len() + j]);
        }
    }
}

proof fn lemma_imply_param(p: TyModel, t: TyModel)
    requires
        linear(p),
        imply_spec(p, t) is Some,
    ensures
        param_spec(p, imply_spec(p, t)->0) == t,
    decreases p,
{
    let m = imply_spec(p, t)->0;
    match p {
        TyModel::Generic(g) => {
            assert(m.last() == (g.name, t));
        },
        TyModel::Named(nm, args) => {
            if let TyModel::Named(tn, targs) = t {
                if nm == tn && args.len() == targs.len() {
                    lemma_imply_seq_param(args, targs);
                    lemma_param_parts(p, m);
                    assert(param_spec(p, m)->Named_1 =~= targs);
                    return;
                }
            }
            lemma_param_empty(p);
        },
        _ => {
            lemma_param_empty(p);
        },
    }
}

proof fn lemma_imply_seq_param(a: Seq<TyModel>, b: Seq<TyModel>)
    requires
        names_seq(a).no_duplicates(),
        a.len() == b.len(),
        imply_seq(a, b) is Some,
    ensures
        forall|i: int| 0 <= i < a.len() ==> param_spec(#[trigger] a[i], imply_seq(a, b)->0) == b[i],
    decreases a,
{
    if a.len() > 0 {
        let m = imply_seq(a, b)->0;
        let front = imply_seq(a.drop_last(), b.drop_last())->0;
        let back = imply_spec(a.last(), b[a.len() - 1])->0;
        assert(m == front + back);
        lemma_no_dup_split(names_seq(a.drop_last()), gen_names(a.last()));
        lemma_imply_seq_keys(a.drop_last(), b.drop_last());
        lemma_imply_keys(a.last(), b[a.len() - 1]);
        lemma_imply_seq_param(a.drop_last(), b.drop_last());
        lemma_imply_param(a.last(), b[a.len() - 1]);
        assert forall|i: int| 0 <= i < a.len() implies param_spec(#[trigger] a[i], m) == b[i] by {
            if i == a.len() - 1 {
                assert forall|x: Seq<char>| gen_names(a[i]).contains(x) implies lookup(m, x) == lookup(back, x) by {
                    lemma_lookup_concat(front, back, x);
                    if !binds(back, x) {
                        lemma_lookup_binds(back, x);
                        lemma_lookup_binds(front, x);
                        if binds(front, x) {
                            let j = choose|j: int| 0 <= j < front.len() && (#[trigger] front[j]).0 == x;
                            assert(names_seq(a.drop_last()).contains(front[j].0));
                        }
                    }
                }
                lemma_param_agree(a[i], m, back);
            } else {
                assert(a.drop_last()[i] == a[i]);
                assert(b.drop_last()[i] == b[i]);
                assert forall|x: Seq<char>| gen_names(a[i]).contains(x) implies lookup(m, x) == lookup(front, x) by {
                    lemma_lookup_concat(front, back, x);
                    lemma_names_seq_contains(a.drop_last(), i, x);
                    if binds(back, x) {
                        let j = choose|j: int| 0 <= j < back.len() && (#[trigger] back[j]).0 == x;
                        assert(gen_names(a.last()).contains(back[j].0));
                    }
                }
                lemma_param_agree(a[i], m, front);
            }
        }
    }
}

/// Matching a pattern against a type and substituting the bindings found back into the pattern
/// gives the type, for a pattern in which no generic name occurs twice: what
/// [`Ty::imply_generics`] finds, [`Ty::parameterize`] puts back.
pub proof fn law_imply_then_parameterize(pattern: TyModel, t: TyModel)
    requires
        linear(pattern),
        imply_spec(pattern, t) is Some,
    ensures
        param_spec(pattern, imply_spec(pattern, t)->0) == t,
{
    lemma_imply_param(pattern, t);
}

} // verus!
