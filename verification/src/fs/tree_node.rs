use vstd::prelude::*;

use crate::fs::export::{export_of_top, export_walk, node_get, Export};
use crate::parser::ast::{File, Top};
use crate::util::{push_str, strings_view, Spanned};

verus! {

broadcast use vstd::std_specs::vec::group_vec_axioms;

/// A tree of parsed files: a file, or a module of named entries.
pub enum FileTreeNode {
    File(FileState),
    Module(Vec<(String, FileTreeNode)>),
}

/// A parsed file with its text and file name.
pub struct FileState {
    pub text: String,
    pub ast: File,
    pub filename: String,
}

/// The name a top-level item declares; impls and imports declare none.
pub open spec fn top_name(t: Top) -> Option<Seq<char>> {
    match t {
        Top::Func(f) => Some(f.name.0@),
        Top::Struct(s) => Some(s.name.0@),
        Top::Enum(e) => Some(e.name.0@),
        Top::Trait(t) => Some(t.name.0@),
        Top::Impl(_) => None,
        Top::Use(_) => None,
    }
}

/// The position of the first item of `file` named `name`.
pub open spec fn find_top(file: Seq<Spanned<Top>>, name: Seq<char>) -> Option<int>
    decreases file.len(),
{
    if file.len() == 0 {
        None
    } else if top_name(file[0].0) == Some(name) {
        Some(0)
    } else {
        match find_top(file.skip(1), name) {
            Some(i) => Some(i + 1),
            None => None,
        }
    }
}

/// The files of a tree, in order.
pub open spec fn tree_files(n: FileTreeNode) -> Seq<FileState>
    decreases n, 0int,
{
    match n {
        FileTreeNode::File(f) => seq![f],
        FileTreeNode::Module(m) => entries_files(m@),
    }
}

/// The files under the entries of a module, in order.
pub open spec fn entries_files(s: Seq<(String, FileTreeNode)>) -> Seq<FileState>
    decreases s, 1int,
{
    if s.len() == 0 {
        Seq::empty()
    } else {
        entries_files(s.drop_last()) + tree_files(s.last().1)
    }
}

/// The position of the first entry of a module named `name`.
pub open spec fn find_module(entries: Seq<(String, FileTreeNode)>, name: Seq<char>) -> Option<int>
    decreases entries.len(),
{
    if entries.len() == 0 {
        None
    } else if entries[0].0@ == name {
        Some(0)
    } else {
        match find_module(entries.skip(1), name) {
            Some(i) => Some(i + 1),
            None => None,
        }
    }
}

pub proof fn lemma_find_module(entries: Seq<(String, FileTreeNode)>, name: Seq<char>)
    ensures
        find_module(entries, name) matches Some(i) ==> 0 <= i < entries.len() && entries[i].0@ == name,
    decreases entries.len(),
{
    if entries.len() > 0 {
        lemma_find_module(entries.skip(1), name);
    }
}

pub(crate) proof fn lemma_find_top(file: Seq<Spanned<Top>>, name: Seq<char>)
    ensures
        find_top(file, name) matches Some(i) ==> 0 <= i < file.len() && top_name(file[i].0) == Some(name),
    decreases file.len(),
{
    if file.len() > 0 {
        lemma_find_top(file.skip(1), name);
    }
}

/// The name a top-level item declares.
fn get_name(t: &Top) -> (r: Option<&String>)
    ensures
        match r {
            Some(n) => top_name(*t) == Some(n@),
            None => top_name(*t) is None,
        },
{
    match t {
        Top::Func(f) => Some(&f.name.0),
        Top::Struct(s) => Some(&s.name.0),
        Top::Enum(e) => Some(&e.name.0),
        Top::Trait(t) => Some(&t.name.0),
        _ => None,
    }
}

/// The first item of `file` named `name`.
pub fn get_top<'m>(file: &'m File, name: &str) -> (r: Option<&'m Top>)
    ensures
        match find_top(file@, name@) {
            Some(i) => r == Some(&file@[i].0),
            None => r is None,
        },
{
    let mut i: usize = 0;
    proof {
        assert(file@.skip(0) =~= file@);
    }
    while i < file.len()
        invariant
            i <= file@.len(),
            find_top(file@, name@) == match find_top(file@.skip(i as int), name@) {
                Some(k) => Some(k + i),
                None => None,
            },
        decreases file@.len() - i,
    {
        proof {
            assert(file@.skip(i as int).skip(1) =~= file@.skip(i + 1));
        }
        match get_name(&file[i].0) {
            Some(n) => if crate::db::decl::str_eq(n.as_str(), name) {
                return Some(&file[i].0);
            },
            None => {},
        }
        i = i + 1;
    }
    None
}

/// The position of the first entry named `name`.
fn find_entry(entries: &Vec<(String, FileTreeNode)>, name: &str) -> (r: Option<usize>)
    ensures
        match r {
            Some(i) => find_module(entries@, name@) == Some(i as int),
            None => find_module(entries@, name@) is None,
        },
{
    let mut i: usize = 0;
    proof {
        assert(entries@.skip(0) =~= entries@);
    }
    while i < entries.len()
        invariant
            i <= entries@.len(),
            find_module(entries@, name@) == match find_module(entries@.skip(i as int), name@) {
                Some(k) => Some(k + i),
                None => None,
            },
        decreases entries@.len() - i,
    {
        proof {
            assert(entries@.skip(i as int).skip(1) =~= entries@.skip(i + 1));
        }
        if crate::db::decl::str_eq(entries[i].0.as_str(), name) {
            return Some(i);
        }
        i = i + 1;
    }
    None
}

/// Following `path` from `e`, one name at a time.
pub open spec fn export_path<'m>(e: Export<'m>, path: Seq<Seq<char>>) -> Option<Export<'m>>
    decreases path.len(),
{
    if path.len() == 0 {
        Some(e)
    } else {
        match e {
            Export::Module(n) => match node_get(n, path[0]) {
                Some(next) => export_path(next, path.skip(1)),
                None => None,
            },
            _ => None,
        }
    }
}

impl FileTreeNode {
    /// The item of a file, or the entry of a module, named `name`.
    pub fn get<'m>(&'m self, name: &str) -> (r: Option<Export<'m>>)
        ensures
            r == node_get(self, name@),
    {
        match self {
            FileTreeNode::File(file) => {
                proof {
                    lemma_find_top(file.ast@, name@);
                }
                match get_top(&file.ast, name) {
                    Some(top) => Some(export_of_top(top)),
                    None => None,
                }
            },
            FileTreeNode::Module(entries) => {
                proof {
                    lemma_find_module(entries@, name@);
                }
                match find_entry(entries, name) {
                    Some(i) => Some(Export::Module(&entries[i].1)),
                    None => None,
                }
            },
        }
    }

    /// Whether this is a module with an entry named `name`.
    pub fn has_key(&self, name: &str) -> (r: bool)
        ensures
            r == (self matches FileTreeNode::Module(m) && find_module(m@, name@) is Some),
    {
        match self {
            FileTreeNode::Module(entries) => find_entry(entries, name).is_some(),
            FileTreeNode::File(_) => false,
        }
    }

    /// What `path` names below this node.
    pub fn get_path<'m>(&'m self, path: &[String]) -> (r: Option<Export<'m>>)
        ensures
            r == export_path(Export::Module(self), strings_view(path@)),
    {
        let mut current = Export::Module(self);
        let mut i: usize = 0;
        proof {
            assert(strings_view(path@).skip(0) =~= strings_view(path@));
        }
        while i < path.len()
            invariant
                i <= path@.len(),
                export_path(Export::Module(self), strings_view(path@)) == export_path(
                    current,
                    strings_view(path@).skip(i as int),
                ),
            decreases path@.len() - i,
        {
            proof {
                assert(strings_view(path@).skip(i as int).skip(1) =~= strings_view(path@).skip(i + 1));
                assert(strings_view(path@).skip(i as int)[0] == path@[i as int]@);
            }
            match current.get(path[i].as_str()) {
                Some(next) => {
                    current = next;
                },
                None => {
                    return None;
                },
            }
            i = i + 1;
        }
        Some(current)
    }

    /// What `path` names below this node; an error is the first segment that names nothing.
    pub fn get_path_with_error<'m>(&'m self, path: &[Spanned<String>]) -> (r: Result<Export<'m>, Spanned<String>>)
        ensures
            match export_walk(Export::Module(self), crate::parser::ast::segments(path@)) {
                Ok(e) => r == Ok::<Export<'m>, Spanned<String>>(e),
                Err(i) => r matches Err(seg) && 0 <= i < path@.len() && seg.0@ == path@[i].0@ && seg.1 == path@[i].1,
            },
    {
        Export::Module(self).get_path_with_error(path)
    }

    /// The files of the tree, in order.
    pub fn files(&self) -> (r: Vec<&FileState>)
        ensures
            r@.len() == tree_files(*self).len(),
            forall|i: int| 0 <= i < r@.len() ==> *r@[i] == tree_files(*self)[i],
        decreases self,
    {
        match self {
            FileTreeNode::File(f) => {
                let mut out: Vec<&FileState> = Vec::new();
                out.push(f);
                out
            },
            FileTreeNode::Module(entries) => {
                let mut out: Vec<&FileState> = Vec::new();
                let mut i: usize = 0;
                while i < entries.len()
                    invariant
                        i <= entries@.len(),
                        decreases_to!(*self => *entries),
                        out@.len() == entries_files(entries@.take(i as int)).len(),
                        forall|k: int| 0 <= k < out@.len() ==> *out@[k] == entries_files(entries@.take(i as int))[k],
                    decreases entries@.len() - i,
                {
                    proof {
                        assert(decreases_to!(*entries => entries@[i as int]));
                        assert(decreases_to!(entries@[i as int] => entries@[i as int].1));
                        assert(entries@.take(i + 1).drop_last() =~= entries@.take(i as int));
                    }
                    let mut more = entries[i].1.files();
                    out.append(&mut more);
                    i = i + 1;
                }
                proof {
                    assert(entries@.take(i as int) =~= entries@);
                }
                out
            },
        }
    }

    /// Puts `node` at `path`, creating the modules on the way; a file on the way stops the
    /// insertion, which is reported by `false`. What was put can be found again at its path.
    pub fn insert_path(&mut self, path: &[String], node: FileTreeNode) -> (r: bool)
        ensures
            r == tree_open(*old(self), strings_view(path@)),
            r ==> node_at(*final(self), strings_view(path@)) == Some(node),
            r ==> inserted_frame(*old(self), *final(self), strings_view(path@)),
        decreases path@.len(),
    {
        if path.len() == 0 {
            *self = node;
            return true;
        }
        let ghost segs = strings_view(path@);
        let rest = vstd::slice::slice_subrange(path, 1, path.len());
        proof {
            assert(strings_view(rest@) =~= segs.skip(1));
        }
        match self {
            FileTreeNode::Module(entries) => {
                let ghost before = entries@;
                let pos = match find_entry(entries, path[0].as_str()) {
                    Some(i) => {
                        proof {
                            lemma_find_module(entries@, path@[0]@);
                        }
                        i
                    },
                    None => {
                        let empty: Vec<(String, FileTreeNode)> = Vec::new();
                        entries.push((path[0].clone(), FileTreeNode::Module(empty)));
                        proof {
                            lemma_find_module_push(before, entries@.last(), segs[0]);
                            assert(tree_open(entries@.last().1, segs.skip(1)));
                        }
                        entries.len() - 1
                    },
                };
                let ghost mid = entries@;
                let (name, mut child) = entries.remove(pos);
                let ghost child_old = child;
                let done = child.insert_path(rest, node);
                entries.insert(pos, (name, child));
                proof {
                    assert(entries@ =~= mid.update(pos as int, entries@[pos as int]));
                    lemma_find_module_update(mid, pos as int, entries@[pos as int], segs[0]);
                    if done {
                        lemma_insert_frame(*old(self), *self, mid, pos as int, segs, child);
                    }
                }
                done
            },
            FileTreeNode::File(_) => false,
        }
    }
}

/// What putting a node at `path` leaves of the tree: the nodes at paths that neither lead to
/// `path` nor lie below it stay as they were, and modules stand on the way to `path`.
pub open spec fn inserted_frame(old: FileTreeNode, new: FileTreeNode, path: Seq<Seq<char>>) -> bool {
    &&& forall|q: Seq<Seq<char>>|
        !q.is_prefix_of(path) && !path.is_prefix_of(q) ==> #[trigger] node_at(new, q) == node_at(old, q)
    &&& forall|q: Seq<Seq<char>>|
        q.is_prefix_of(path) && q.len() < path.len() ==> #[trigger] node_at(new, q) matches Some(FileTreeNode::Module(_))
}

/// Finding a name other than the one pushed is unaffected by the push.
proof fn lemma_find_module_push_other(entries: Seq<(String, FileTreeNode)>, new: (String, FileTreeNode), name: Seq<char>)
    requires
        new.0@ != name,
    ensures
        find_module(entries.push(new), name) == find_module(entries, name),
    decreases entries.len(),
{
    if entries.len() > 0 {
        assert(entries.push(new).skip(1) =~= entries.skip(1).push(new));
        lemma_find_module_push_other(entries.skip(1), new, name);
    } else {
        assert(entries.push(new).skip(1) =~= entries);
    }
}

/// An empty module has nothing below it.
proof fn lemma_empty_module(n: FileTreeNode, q: Seq<Seq<char>>)
    requires
        q.len() > 0,
        n matches FileTreeNode::Module(v) && v@.len() == 0,
    ensures
        node_at(n, q) is None,
{
}

/// One step of the frame of an insertion: the entry at `pos` was replaced by the child after
/// the insertion below it, the entry having been found or pushed as an empty module.
proof fn lemma_insert_frame(
    old_node: FileTreeNode,
    new_node: FileTreeNode,
    mid: Seq<(String, FileTreeNode)>,
    pos: int,
    segs: Seq<Seq<char>>,
    child_new: FileTreeNode,
)
    requires
        segs.len() >= 1,
        old_node is Module,
        new_node is Module,
        0 <= pos < mid.len(),
        mid[pos].0@ == segs[0],
        find_module(mid, segs[0]) == Some(pos),
        new_node->Module_0@ == mid.update(pos, (mid[pos].0, child_new)),
        find_module(old_node->Module_0@, segs[0]) == Some(pos) ==> mid == old_node->Module_0@,
        find_module(old_node->Module_0@, segs[0]) is None ==> (mid == old_node->Module_0@.push(mid[pos])
            && (mid[pos].1 matches FileTreeNode::Module(v) && v@.len() == 0)),
        find_module(old_node->Module_0@, segs[0]) is None || find_module(old_node->Module_0@, segs[0]) == Some(pos),
        inserted_frame(mid[pos].1, child_new, segs.skip(1)),
    ensures
        inserted_frame(old_node, new_node, segs),
{
    let before = old_node->Module_0@;
    let after = new_node->Module_0@;
    let found = find_module(before, segs[0]) == Some(pos);
    assert forall|q: Seq<Seq<char>>| !q.is_prefix_of(segs) && !segs.is_prefix_of(q) implies #[trigger] node_at(
        new_node,
        q,
    ) == node_at(old_node, q) by {
        if q.len() == 0 {
            assert(q =~= segs.subrange(0, 0));
        }
        lemma_find_module_update(mid, pos, (mid[pos].0, child_new), q[0]);
        lemma_find_module(after, q[0]);
        lemma_find_module(before, q[0]);
        if q[0] == segs[0] {
            let qs = q.skip(1);
            let ss = segs.skip(1);
            if qs.is_prefix_of(ss) {
                assert forall|k: int| 0 <= k < q.len() implies q[k] == segs[k] by {
                    if k > 0 {
                        assert(qs[k - 1] == ss.subrange(0, qs.len() as int)[k - 1]);
                    }
                }
                assert(q =~= segs.subrange(0, q.len() as int));
            }
            if ss.is_prefix_of(qs) {
                assert forall|k: int| 0 <= k < segs.len() implies segs[k] == q[k] by {
                    if k > 0 {
                        assert(ss[k - 1] == qs.subrange(0, ss.len() as int)[k - 1]);
                    }
                }
                assert(segs =~= q.subrange(0, segs.len() as int));
            }
            assert(node_at(child_new, qs) == node_at(mid[pos].1, qs));
            if !found {
                if qs.len() == 0 {
                    assert(q =~= segs.subrange(0, 1));
                }
                lemma_empty_module(mid[pos].1, qs);
            }
        } else {
            if !found {
                lemma_find_module_push_other(before, mid[pos], q[0]);
            }
        }
    }
    assert forall|q: Seq<Seq<char>>| q.is_prefix_of(segs) && q.len() < segs.len() implies #[trigger] node_at(
        new_node,
        q,
    ) matches Some(FileTreeNode::Module(_)) by {
        if q.len() > 0 {
            assert(q[0] == segs.subrange(0, q.len() as int)[0]);
            lemma_find_module_update(mid, pos, (mid[pos].0, child_new), q[0]);
            assert(find_module(after, q[0]) == Some(pos));
            assert(after[pos].1 == child_new);
            assert(q.skip(1) =~= segs.skip(1).subrange(0, q.len() - 1));
            assert(q.skip(1).is_prefix_of(segs.skip(1)));
            assert(node_at(child_new, q.skip(1)) matches Some(FileTreeNode::Module(_)));
            assert(node_at(new_node, q) == node_at(child_new, q.skip(1)));
        }
    }
}

/// Whether following `path` from `n` meets no file before the path's end; missing modules are
/// created on the way.
pub open spec fn tree_open(n: FileTreeNode, path: Seq<Seq<char>>) -> bool
    decreases path.len(),
{
    if path.len() == 0 {
        true
    } else {
        match n {
            FileTreeNode::Module(m) => match find_module(m@, path[0]) {
                Some(i) => tree_open(m@[i].1, path.skip(1)),
                None => true,
            },
            FileTreeNode::File(_) => false,
        }
    }
}

/// The node at `path` below `n`, following module entries.
pub open spec fn node_at(n: FileTreeNode, path: Seq<Seq<char>>) -> Option<FileTreeNode>
    decreases path.len(),
{
    if path.len() == 0 {
        Some(n)
    } else {
        match n {
            FileTreeNode::Module(m) => match find_module(m@, path[0]) {
                Some(i) => node_at(m@[i].1, path.skip(1)),
                None => None,
            },
            FileTreeNode::File(_) => None,
        }
    }
}

proof fn lemma_find_module_update(entries: Seq<(String, FileTreeNode)>, pos: int, new: (String, FileTreeNode), name: Seq<char>)
    requires
        0 <= pos < entries.len(),
        new.0@ == entries[pos].0@,
    ensures
        find_module(entries.update(pos, new), name) == find_module(entries, name),
    decreases entries.len(),
{
    if entries.len() > 0 && pos > 0 {
        assert(entries.update(pos, new).skip(1) =~= entries.skip(1).update(pos - 1, new));
        lemma_find_module_update(entries.skip(1), pos - 1, new, name);
    } else if entries.len() > 0 {
        assert(entries.update(pos, new).skip(1) =~= entries.skip(1));
    }
}

proof fn lemma_find_module_push(entries: Seq<(String, FileTreeNode)>, new: (String, FileTreeNode), name: Seq<char>)
    requires
        find_module(entries, name) is None,
        new.0@ == name,
    ensures
        find_module(entries.push(new), name) == Some(entries.len() as int),
    decreases entries.len(),
{
    if entries.len() > 0 {
        assert(entries.push(new).skip(1) =~= entries.skip(1).push(new));
        lemma_find_module_push(entries.skip(1), new, name);
    }
}

/// The segments of a path joined by `/`.
pub open spec fn join_slash(s: Seq<Seq<char>>) -> Seq<char>
    decreases s.len(),
{
    if s.len() == 0 {
        Seq::empty()
    } else if s.len() == 1 {
        s[0]
    } else {
        join_slash(s.drop_last()) + "/"@ + s.last()
    }
}

/// The file name of the module at `name`: its segments joined by `/`, with the `.gib` extension.
pub open spec fn file_name_spec(name: Seq<Seq<char>>) -> Seq<char> {
    join_slash(name) + ".gib"@
}

/// The file name of the module at `name`.
pub fn file_name_of(name: &Vec<String>) -> (r: String)
    ensures
        r@ == file_name_spec(strings_view(name@)),
{
    let ghost segs = strings_view(name@);
    let mut out = String::new();
    let mut i: usize = 0;
    proof {
        assert(segs.take(0) =~= Seq::<Seq<char>>::empty());
    }
    while i < name.len()
        invariant
            i <= name@.len(),
            segs == strings_view(name@),
            out@ == join_slash(segs.take(i as int)),
        decreases name@.len() - i,
    {
        proof {
            assert(segs.take(i + 1).drop_last() =~= segs.take(i as int));
            assert(segs.take(i + 1).last() == name@[i as int]@);
        }
        if i > 0 {
            push_str(&mut out, "/");
        } else {
            proof {
                assert(out@ =~= Seq::<char>::empty());
            }
        }
        push_str(&mut out, name[i].as_str());
        proof {
            if i == 0 {
                assert(out@ =~= segs.take(1)[0]);
            }
        }
        i = i + 1;
    }
    proof {
        assert(segs.take(i as int) =~= segs);
    }
    push_str(&mut out, ".gib");
    out
}

} // verus!
