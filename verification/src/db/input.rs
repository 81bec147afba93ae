use vstd::prelude::*;

use crate::db::path::ModulePath;
use crate::util::{clone_strings, push_char, strings_view};

verus! {

broadcast use vstd::std_specs::vec::group_vec_axioms;

/// A source file: its name, its path on disk, its text and the module path it declares.
pub struct SourceFile {
    pub name: String,
    pub path: String,
    pub text: String,
    pub module: Vec<String>,
}

/// The mathematical value of a source file.
pub struct SourceFileModel {
    pub name: Seq<char>,
    pub path: Seq<char>,
    pub text: Seq<char>,
    pub module: Seq<Seq<char>>,
}

impl View for SourceFile {
    type V = SourceFileModel;

    open spec fn view(&self) -> SourceFileModel {
        SourceFileModel {
            name: self.name@,
            path: self.path@,
            text: self.text@,
            module: strings_view(self.module@),
        }
    }
}

impl SourceFile {
    pub fn copy(&self) -> (r: SourceFile)
        ensures
            r@ == self@,
    {
        SourceFile {
            name: self.name.clone(),
            path: self.path.clone(),
            text: self.text.clone(),
            module: clone_strings(&self.module),
        }
    }

    /// The module path the file declares.
    pub fn module_id(&self) -> (r: ModulePath)
        ensures
            r@ == strings_view(self.module@),
    {
        ModulePath::new(clone_strings(&self.module))
    }
}

/// A tree of source files: a file, or a directory of named entries.
pub struct Vfs {
    pub name: String,
    pub inner: VfsInner,
}

pub enum VfsInner {
    File(SourceFile),
    Dir(Vec<Vfs>),
}

/// The first entry of `entries` named `name`, with its position.
pub open spec fn find_entry(entries: Seq<Vfs>, name: Seq<char>) -> Option<int>
    decreases entries.len(),
{
    if entries.len() == 0 {
        None
    } else if entries.last().name@ == name {
        match find_entry(entries.drop_last(), name) {
            Some(i) => Some(i),
            None => Some(entries.len() - 1),
        }
    } else {
        find_entry(entries.drop_last(), name)
    }
}

/// The file at `path` below `v`, if the path leads through directories to a file.
pub open spec fn vfs_file(v: Vfs, path: Seq<Seq<char>>) -> Option<SourceFileModel>
    decreases path.len(),
{
    if path.len() == 0 {
        match v.inner {
            VfsInner::File(f) => Some(f@),
            VfsInner::Dir(_) => None,
        }
    } else {
        match v.inner {
            VfsInner::Dir(entries) => match find_entry(entries@, path[0]) {
                Some(i) => vfs_file(entries@[i], path.skip(1)),
                None => None,
            },
            VfsInner::File(_) => None,
        }
    }
}

/// Whether following `path` from `v` through directories leads to a directory.
pub open spec fn vfs_dir(v: Vfs, path: Seq<Seq<char>>) -> bool
    decreases path.len(),
{
    match v.inner {
        VfsInner::Dir(entries) => if path.len() == 0 {
            true
        } else {
            match find_entry(entries@, path[0]) {
                Some(i) => vfs_dir(entries@[i], path.skip(1)),
                None => false,
            }
        },
        VfsInner::File(_) => false,
    }
}

/// Whether following `path` from `v` meets no file before the path's end: entries that are
/// missing will be created as directories.
pub open spec fn path_open(v: Vfs, path: Seq<Seq<char>>) -> bool
    decreases path.len(),
{
    if path.len() == 0 {
        true
    } else {
        match v.inner {
            VfsInner::Dir(entries) => match find_entry(entries@, path[0]) {
                Some(i) => path_open(entries@[i], path.skip(1)),
                None => true,
            },
            VfsInner::File(_) => false,
        }
    }
}

/// The paths of all files below `v`, in order.
pub open spec fn vfs_paths(v: Vfs) -> Seq<Seq<char>>
    decreases v,
{
    match v.inner {
        VfsInner::File(f) => seq![f.path@],
        VfsInner::Dir(entries) => entries_paths(entries@),
    }
}

pub open spec fn entries_paths(entries: Seq<Vfs>) -> Seq<Seq<char>>
    decreases entries,
{
    if entries.len() == 0 {
        Seq::empty()
    } else {
        entries_paths(entries.drop_last()) + vfs_paths(entries.last())
    }
}

impl Vfs {
    /// An empty directory named `name`.
    pub fn dir(name: String) -> (r: Vfs)
        ensures
            r.name == name,
            r.inner matches VfsInner::Dir(e) && e@.len() == 0,
    {
        Vfs { name, inner: VfsInner::Dir(Vec::new()) }
    }

    /// The paths of all files in the tree, in order.
    pub fn paths(&self) -> (r: Vec<String>)
        ensures
            strings_view(r@) == vfs_paths(*self),
        decreases *self,
    {
        match &self.inner {
            VfsInner::File(f) => {
                let mut out: Vec<String> = Vec::new();
                out.push(f.path.clone());
                proof {
                    assert(strings_view(out@) =~= seq![f.path@]);
                }
                out
            },
            VfsInner::Dir(entries) => {
                let mut out: Vec<String> = Vec::new();
                let mut i: usize = 0;
                proof {
                    assert(entries@.take(0) =~= Seq::<Vfs>::empty());
                    assert(strings_view(out@) =~= Seq::<Seq<char>>::empty());
                }
                while i < entries.len()
                    invariant
                        i <= entries@.len(),
                        strings_view(out@) == entries_paths(entries@.take(i as int)),
                        decreases_to!(*self => *entries),
                    decreases entries@.len() - i,
                {
                    proof {
                        assert(decreases_to!(*entries => entries@[i as int]));
                        assert(entries@.take(i + 1).drop_last() =~= entries@.take(i as int));
                    }
                    let mut more = entries[i].paths();
                    let ghost a = out@;
                    let ghost b = more@;
                    out.append(&mut more);
                    proof {
                        assert(strings_view(out@) =~= strings_view(a) + strings_view(b));
                    }
                    i = i + 1;
                }
                proof {
                    assert(entries@.take(entries@.len() as int) =~= entries@);
                }
                out
            },
        }
    }

    /// The position of the entry named `name` of this directory.
    pub fn get(&self, name: &str) -> (r: Option<usize>)
        requires
            self.inner is Dir,
        ensures
            match r {
                Some(i) => find_entry(self.inner->Dir_0@, name@) == Some(i as int),
                None => find_entry(self.inner->Dir_0@, name@) is None,
            },
    {
        match &self.inner {
            VfsInner::Dir(entries) => {
                let mut i = entries.len();
                let mut found: Option<usize> = None;
                proof {
                    assert(entries@.take(i as int) =~= entries@);
                }
                while i > 0
                    invariant
                        i <= entries@.len(),
                        find_entry(entries@, name@) == match find_entry(entries@.take(i as int), name@) {
                            Some(k) => Some(k),
                            None => match found {
                                Some(f) => Some(f as int),
                                None => None,
                            },
                        },
                    decreases i,
                {
                    proof {
                        assert(entries@.take(i as int).drop_last() =~= entries@.take(i - 1));
                    }
                    if crate::db::decl::str_eq(entries[i - 1].name.as_str(), name) {
                        found = Some(i - 1);
                    }
                    i = i - 1;
                }
                proof {
                    assert(entries@.take(0) =~= Seq::<Vfs>::empty());
                }
                found
            },
            VfsInner::File(_) => unreached(),
        }
    }

    /// Adds an entry to this directory.
    pub fn insert(&mut self, entry: Vfs)
        requires
            old(self).inner is Dir,
        ensures
            final(self).name == old(self).name,
            final(self).inner matches VfsInner::Dir(e) && e@ == old(self).inner->Dir_0@.push(entry),
    {
        match &mut self.inner {
            VfsInner::Dir(entries) => entries.push(entry),
            VfsInner::File(_) => {},
        }
    }

    /// Puts `src` at `path` below this tree, creating the directories on the way; the file can
    /// then be read back at that path.
    pub fn insert_path(&mut self, path: &[String], src: SourceFile)
        requires
            path_open(*old(self), strings_view(path@)),
        ensures
            vfs_file(*final(self), strings_view(path@)) == Some(src@),
            forall|p: Seq<Seq<char>>| #[trigger] vfs_file(*final(self), p) == vfs_write(*old(self), strings_view(path@), src@, p),
            final(self).name == old(self).name,
            path_open(*final(self), strings_view(path@)),
        decreases path@.len(),
    {
        if path.len() == 0 {
            self.inner = VfsInner::File(src);
            proof {
                assert forall|p: Seq<Seq<char>>| #[trigger] vfs_file(*self, p) == vfs_write(*old(self), strings_view(path@), src@, p) by {
                    if p.len() == 0 {
                        assert(p =~= strings_view(path@));
                    } else {
                        assert(strings_view(path@).is_prefix_of(p));
                    }
                }
            }
            return;
        }
        let ghost segs = strings_view(path@);
        let rest = vstd::slice::slice_subrange(path, 1, path.len());
        proof {
            assert(strings_view(rest@) =~= segs.skip(1));
        }
        proof {
            lemma_find_entry(old(self).inner->Dir_0@, segs[0]);
        }
        let pos = match self.get(path[0].as_str()) {
            Some(i) => i,
            None => {
                self.insert(Vfs::dir(path[0].clone()));
                proof {
                    let e = self.inner->Dir_0@;
                    assert(e.drop_last() =~= old(self).inner->Dir_0@);
                    assert(find_entry(e, segs[0]) == Some(e.len() - 1));
                }
                match &self.inner {
                    VfsInner::Dir(entries) => entries.len() - 1,
                    VfsInner::File(_) => unreached(),
                }
            },
        };
        let ghost src_view = src@;
        let ghost mid = *self;
        match &mut self.inner {
            VfsInner::Dir(entries) => {
                let ghost before = entries@;
                let mut child = entries.remove(pos);
                let ghost child_old = child;
                child.insert_path(rest, src);
                entries.insert(pos, child);
                proof {
                    assert(entries@ =~= before.update(pos as int, entries@[pos as int]));
                    lemma_find_entry_update(before, pos as int, entries@[pos as int], segs[0]);
                    lemma_write_step(*old(self), mid, *self, segs, src_view, pos as int, child_old);
                }
            },
            VfsInner::File(_) => {},
        }
    }

    /// The file at `path` below this tree; directories missing on the way are created empty.
    pub fn get_file(&mut self, path: &[String]) -> (r: Option<SourceFile>)
        requires
            path_open(*old(self), strings_view(path@)),
        ensures
            match r {
                Some(f) => vfs_file(*old(self), strings_view(path@)) == Some(f@),
                None => vfs_file(*old(self), strings_view(path@)) is None,
            },
            final(self).name == old(self).name,
            vfs_file(*final(self), strings_view(path@)) == vfs_file(*old(self), strings_view(path@)),
            path_open(*final(self), strings_view(path@)),
            forall|p: Seq<Seq<char>>| #[trigger] vfs_file(*final(self), p) == vfs_file(*old(self), p),
            forall|q: Seq<Seq<char>>|
                q.is_prefix_of(strings_view(path@)) && q.len() < path@.len() ==> #[trigger] vfs_dir(*final(self), q),
            opened_to(*old(self), *final(self), strings_view(path@)),
        decreases path@.len(),
    {
        if path.len() == 0 {
            return match &self.inner {
                VfsInner::File(f) => Some(f.copy()),
                VfsInner::Dir(_) => None,
            };
        }
        let ghost segs = strings_view(path@);
        let rest = vstd::slice::slice_subrange(path, 1, path.len());
        proof {
            assert(strings_view(rest@) =~= segs.skip(1));
        }
        proof {
            lemma_find_entry(self.inner->Dir_0@, segs[0]);
        }
        match self.get(path[0].as_str()) {
            Some(pos) => match &mut self.inner {
                VfsInner::Dir(entries) => {
                    let ghost before = entries@;
                    let mut child = entries.remove(pos);
                    let ghost child_old = child;
                    let r = child.get_file(rest);
                    entries.insert(pos, child);
                    proof {
                        assert(entries@ =~= before.update(pos as int, entries@[pos as int]));
                        lemma_find_entry_update(before, pos as int, entries@[pos as int], segs[0]);
                        assert forall|p: Seq<Seq<char>>| #[trigger] vfs_file(*self, p) == vfs_file(*old(self), p) by {
                            assert(old(self).inner->Dir_0@ == before);
                            if p.len() > 0 {
                                lemma_find_entry_update(before, pos as int, entries@[pos as int], p[0]);
                                lemma_find_entry(before, p[0]);
                                if find_entry(before, p[0]) == Some(pos as int) {
                                    assert(vfs_file(child, p.skip(1)) == vfs_file(child_old, p.skip(1)));
                                } else if let Some(i) = find_entry(before, p[0]) {
                                    assert(entries@[i] == before[i]);
                                }
                            }
                        }
                        assert forall|q: Seq<Seq<char>>| q.is_prefix_of(segs) && q.len() < segs.len() implies #[trigger] vfs_dir(
                            *self,
                            q,
                        ) by {
                            if q.len() > 0 {
                                assert(q[0] == segs.subrange(0, q.len() as int)[0]);
                                assert(q.skip(1) =~= segs.skip(1).subrange(0, q.len() - 1));
                                assert(vfs_dir(child, q.skip(1)));
                            }
                        }
                        assert(opened_to(child_old, child, segs.skip(1)));
                        assert(before[pos as int] == child_old);
                        assert(opened_to(*old(self), *self, segs));
                    }
                    r
                },
                VfsInner::File(_) => None,
            },
            None => {
                let mut dir = Vfs::dir(path[0].clone());
                proof {
                    lemma_empty_dir(dir, segs.skip(1));
                }
                let ghost dir_old = dir;
                let r = dir.get_file(rest);
                let ghost before = self.inner->Dir_0@;
                self.insert(dir);
                proof {
                    let e = self.inner->Dir_0@;
                    assert(e.drop_last() =~= before);
                    assert(find_entry(e, segs[0]) == Some(e.len() - 1));
                    assert forall|p: Seq<Seq<char>>| #[trigger] vfs_file(*self, p) == vfs_file(*old(self), p) by {
                        assert(old(self).inner->Dir_0@ == before);
                        if p.len() > 0 {
                            lemma_find_entry(before, p[0]);
                            if p[0] == segs[0] {
                                lemma_empty_dir(dir_old, p.skip(1));
                                assert(vfs_file(dir, p.skip(1)) == vfs_file(dir_old, p.skip(1)));
                                assert(e[e.len() - 1] == dir);
                            } else {
                                assert(find_entry(e, p[0]) == find_entry(before, p[0]));
                                if let Some(i) = find_entry(before, p[0]) {
                                    assert(e[i] == before[i]);
                                }
                            }
                        }
                    }
                    assert forall|q: Seq<Seq<char>>| q.is_prefix_of(segs) && q.len() < segs.len() implies #[trigger] vfs_dir(
                        *self,
                        q,
                    ) by {
                        if q.len() > 0 {
                            assert(q[0] == segs.subrange(0, q.len() as int)[0]);
                            assert(q.skip(1) =~= segs.skip(1).subrange(0, q.len() - 1));
                            assert(vfs_dir(dir, q.skip(1)));
                        }
                    }
                    assert(empty_dir_named(dir_old, segs[0]));
                    assert(opened_to(dir_old, dir, segs.skip(1)));
                    assert(opened_to(*old(self), *self, segs));
                }
                r
            },
        }
    }
}

/// A directory named `n` with no entries.
pub open spec fn empty_dir_named(u: Vfs, n: Seq<char>) -> bool {
    &&& u.name@ == n
    &&& u.inner matches VfsInner::Dir(es) && es@.len() == 0
}

/// How the tree `new` is the tree `old` once the directories along `path` are opened: the entry
/// on the way is changed as the rest of the path says and no other entry changes; a missing one is
/// created as an empty directory, appended after the others, and opened the same way.
pub open spec fn opened_to(old: Vfs, new: Vfs, path: Seq<Seq<char>>) -> bool
    decreases path.len(),
{
    if path.len() == 0 {
        new == old
    } else {
        match (old.inner, new.inner) {
            (VfsInner::Dir(es), VfsInner::Dir(ns)) => new.name == old.name && match find_entry(es@, path[0]) {
                Some(i) => {
                    &&& ns@.len() == es@.len()
                    &&& forall|j: int| 0 <= j < es@.len() && j != i ==> #[trigger] ns@[j] == es@[j]
                    &&& opened_to(es@[i], ns@[i], path.skip(1))
                },
                None => {
                    &&& ns@.len() == es@.len() + 1
                    &&& ns@.drop_last() == es@
                    &&& exists|u: Vfs|
                        #![trigger empty_dir_named(u, path[0])]
                        empty_dir_named(u, path[0]) && opened_to(u, ns@.last(), path.skip(1))
                },
            },
            _ => false,
        }
    }
}

/// What the file at `p` is once `src` has been written at `path`: the file itself at `path`,
/// nothing below it, and what was there before everywhere else.
pub open spec fn vfs_write(v: Vfs, path: Seq<Seq<char>>, src: SourceFileModel, p: Seq<Seq<char>>) -> Option<SourceFileModel> {
    if p == path {
        Some(src)
    } else if path.is_prefix_of(p) {
        None
    } else {
        vfs_file(v, p)
    }
}

/// One step of a write below a directory: the entry for the first segment is rewritten below.
proof fn lemma_write_step(old: Vfs, mid: Vfs, new: Vfs, segs: Seq<Seq<char>>, src: SourceFileModel, pos: int, child_old: Vfs)
    requires
        segs.len() > 0,
        old.inner is Dir,
        mid.inner is Dir,
        new.inner is Dir,
        0 <= pos < mid.inner->Dir_0@.len(),
        child_old == mid.inner->Dir_0@[pos],
        find_entry(mid.inner->Dir_0@, segs[0]) == Some(pos),
        new.inner->Dir_0@ == mid.inner->Dir_0@.update(pos, new.inner->Dir_0@[pos]),
        new.inner->Dir_0@[pos].name == child_old.name,
        forall|q: Seq<Seq<char>>| #[trigger] vfs_file(new.inner->Dir_0@[pos], q) == vfs_write(child_old, segs.skip(1), src, q),
        mid.inner->Dir_0@ == old.inner->Dir_0@ || (
            mid.inner->Dir_0@ == old.inner->Dir_0@.push(child_old)
            && (child_old.inner matches VfsInner::Dir(e) && e@.len() == 0)
            && child_old.name@ == segs[0]
            && find_entry(old.inner->Dir_0@, segs[0]) is None
        ),
    ensures
        forall|p: Seq<Seq<char>>| #[trigger] vfs_file(new, p) == vfs_write(old, segs, src, p),
{
    let oe = old.inner->Dir_0@;
    let me = mid.inner->Dir_0@;
    let ne = new.inner->Dir_0@;
    assert forall|p: Seq<Seq<char>>| #[trigger] vfs_file(new, p) == vfs_write(old, segs, src, p) by {
        if p.len() > 0 {
            lemma_find_entry_update(me, pos, ne[pos], p[0]);
            if me != oe {
                assert(me.drop_last() =~= oe);
            }
            if p[0] == segs[0] {
                let q = p.skip(1);
                assert(p == segs <==> q == segs.skip(1)) by {
                    if q =~= segs.skip(1) {
                        assert forall|i: int| 0 <= i < p.len() implies p[i] == segs[i] by {
                            if i > 0 {
                                assert(p[i] == q[i - 1]);
                            }
                        }
                        assert(p =~= segs);
                    }
                }
                assert(segs.is_prefix_of(p) <==> segs.skip(1).is_prefix_of(q)) by {
                    if segs.skip(1).is_prefix_of(q) {
                        assert forall|i: int| 0 <= i < segs.len() implies segs[i] == p[i] by {
                            if i > 0 {
                                assert(segs.skip(1)[i - 1] == q.subrange(0, segs.len() - 1)[i - 1]);
                            }
                        }
                        assert(segs =~= p.subrange(0, segs.len() as int));
                    }
                    if segs.is_prefix_of(p) {
                        assert(segs.skip(1) =~= q.subrange(0, segs.len() - 1));
                    }
                }
                if me != oe {
                    lemma_empty_dir(child_old, q);
                } else {
                    assert(vfs_file(old, p) == vfs_file(child_old, q));
                }
                assert(vfs_file(new, p) == vfs_file(ne[pos], q));
            } else {
                lemma_find_entry(me, p[0]);
                lemma_find_entry(me, segs[0]);
                if me != oe {
                    assert(find_entry(me, p[0]) == find_entry(oe, p[0]));
                }
                if segs.is_prefix_of(p) {
                    assert(segs[0] == p.subrange(0, segs.len() as int)[0]);
                }
                match find_entry(oe, p[0]) {
                    Some(k) => {
                        assert(ne[k] == oe[k]);
                        assert(vfs_file(new, p) == vfs_file(ne[k], p.skip(1)));
                    },
                    None => {},
                }
            }
        }
    }
}

/// The entry a name finds is an entry of that name.
proof fn lemma_find_entry(entries: Seq<Vfs>, name: Seq<char>)
    ensures
        find_entry(entries, name) matches Some(i) ==> 0 <= i < entries.len() && entries[i].name@ == name,
    decreases entries.len(),
{
    if entries.len() > 0 {
        lemma_find_entry(entries.drop_last(), name);
    }
}

/// Replacing an entry by one of the same name keeps which entry a name finds.
proof fn lemma_find_entry_update(entries: Seq<Vfs>, pos: int, new: Vfs, name: Seq<char>)
    requires
        0 <= pos < entries.len(),
        new.name == entries[pos].name,
    ensures
        find_entry(entries.update(pos, new), name) == find_entry(entries, name),
    decreases entries.len(),
{
    let u = entries.update(pos, new);
    if pos < entries.len() - 1 {
        assert(u.drop_last() =~= entries.drop_last().update(pos, new));
        lemma_find_entry_update(entries.drop_last(), pos, new, name);
    } else {
        assert(u.drop_last() =~= entries.drop_last());
    }
}

/// An empty directory has no file anywhere below it.
proof fn lemma_empty_dir(v: Vfs, path: Seq<Seq<char>>)
    requires
        v.inner matches VfsInner::Dir(e) && e@.len() == 0,
    ensures
        vfs_file(v, path) is None,
{
}

/// The text after the last `/`, ignoring `/` at the end.
pub open spec fn file_name(s: Seq<char>) -> Seq<char>
    decreases s.len(),
{
    if s.len() == 0 {
        s
    } else if s.last() == '/' {
        file_name(s.drop_last())
    } else {
        name_tail(s)
    }
}

/// The text after the last `/`.
pub open spec fn name_tail(s: Seq<char>) -> Seq<char>
    decreases s.len(),
{
    if s.len() == 0 {
        s
    } else if s.last() == '/' {
        Seq::empty()
    } else {
        name_tail(s.drop_last()).push(s.last())
    }
}

/// Whether the text ends with `.gib`.
pub open spec fn ends_gib(s: Seq<char>) -> bool {
    s.len() >= 4 && s.subrange(s.len() - 4, s.len() as int) == ".gib"@
}

/// The name of a source file: its file name without the `.gib` extension.
pub open spec fn path_name(s: Seq<char>) -> Seq<char> {
    file_name(s).take(file_name(s).len() - 4)
}

/// The name of the source file at `path`: its file name without the `.gib` extension.
pub fn get_path_name(path: &str) -> (r: String)
    requires
        ends_gib(file_name(path@)),
    ensures
        r@ == path_name(path@),
{
    let n = path.unicode_len();
    let mut end = n;
    proof {
        assert(path@.take(end as int) =~= path@);
    }
    while end > 0 && path.get_char(end - 1) == '/'
        invariant
            end <= n,
            n == path@.len(),
            file_name(path@) == file_name(path@.take(end as int)),
        decreases end,
    {
        proof {
            assert(path@.take(end as int).drop_last() =~= path@.take(end - 1));
        }
        end = end - 1;
    }
    let mut start = end;
    proof {
        assert(path@.take(end as int).subrange(start as int, end as int) =~= Seq::<char>::empty());
        if end > 0 {
            assert(path@.take(end as int).last() != '/');
        }
    }
    while start > 0 && path.get_char(start - 1) != '/'
        invariant
            start <= end <= n,
            n == path@.len(),
            end == 0 || path@[end - 1] != '/',
            file_name(path@) == file_name(path@.take(end as int)),
            name_tail(path@.take(end as int)) == name_tail(path@.take(start as int)) + path@.subrange(start as int, end as int),
        decreases start,
    {
        proof {
            assert(path@.take(start as int).drop_last() =~= path@.take(start - 1));
            assert(path@.subrange(start - 1, end as int) =~= seq![path@[start - 1]] + path@.subrange(start as int, end as int));
        }
        start = start - 1;
    }
    proof {
        if start > 0 {
            assert(name_tail(path@.take(start as int)) == Seq::<char>::empty());
        } else {
            assert(path@.take(0) =~= Seq::<char>::empty());
        }
        if end > 0 {
            assert(file_name(path@.take(end as int)) == name_tail(path@.take(end as int)));
        } else {
            assert(path@.take(0) =~= Seq::<char>::empty());
        }
    }
    let name = path.substring_char(start, end - 4);
    proof {
        assert(name@ =~= path_name(path@));
    }
    name.to_owned()
}

/// The parts of `s` between occurrences of `c`, as `str::split` gives them.
pub open spec fn split_on(s: Seq<char>, c: char) -> Seq<Seq<char>>
    decreases s.len(),
{
    if s.len() == 0 {
        seq![Seq::<char>::empty()]
    } else {
        let front = split_on(s.drop_last(), c);
        if s.last() == c {
            front.push(Seq::empty())
        } else {
            front.update(front.len() - 1, front.last().push(s.last()))
        }
    }
}

proof fn lemma_split_nonempty(s: Seq<char>, c: char)
    ensures
        split_on(s, c).len() >= 1,
    decreases s.len(),
{
    if s.len() > 0 {
        lemma_split_nonempty(s.drop_last(), c);
    }
}

/// Whether `path` lies below `root`: `root`, a `/`, then a name ending in `.gib`.
pub open spec fn under_root(root: Seq<char>, path: Seq<char>) -> bool {
    &&& path.len() >= root.len() + 5
    &&& path.take(root.len() as int) == root
    &&& path[root.len() as int] == '/'
    &&& ends_gib(path)
}

/// The module path of the file at `path` in a project rooted at `root`: the path below the root
/// without the extension, split at each `/`.
pub open spec fn module_path_of(root: Seq<char>, path: Seq<char>) -> Seq<Seq<char>> {
    split_on(path.subrange(root.len() + 1 as int, path.len() - 4), '/')
}

/// The module path of the file at `path` in the project rooted at `root`.
pub fn get_module_path(root: &str, path: &str) -> (r: Vec<String>)
    requires
        under_root(root@, path@),
    ensures
        strings_view(r@) == module_path_of(root@, path@),
{
    let n = path.unicode_len();
    let from = root.unicode_len() + 1;
    let to = n - 4;
    let ghost body = path@.subrange(from as int, to as int);
    let mut segs: Vec<String> = Vec::new();
    let mut current = String::new();
    let mut i = from;
    proof {
        assert(body.take(0) =~= Seq::<char>::empty());
        assert(strings_view(segs@).push(current@) =~= split_on(Seq::<char>::empty(), '/'));
    }
    while i < to
        invariant
            from <= i <= to,
            to == n - 4,
            n == path@.len(),
            body == path@.subrange(from as int, to as int),
            strings_view(segs@).push(current@) == split_on(body.take(i - from), '/'),
        decreases to - i,
    {
        let c = path.get_char(i);
        let ghost pre = body.take(i - from);
        proof {
            assert(body.take(i - from + 1).drop_last() =~= pre);
            assert(body.take(i - from + 1).last() == c);
            lemma_split_nonempty(pre, '/');
        }
        if c == '/' {
            let done = current;
            segs.push(done);
            current = String::new();
            proof {
                assert(strings_view(segs@).push(current@) =~= split_on(pre, '/').push(Seq::empty()));
            }
        } else {
            let ghost prev_segs = strings_view(segs@);
            push_char(&mut current, c);
            proof {
                assert(strings_view(segs@).push(current@) =~= split_on(pre, '/').update(
                    split_on(pre, '/').len() - 1,
                    split_on(pre, '/').last().push(c),
                ));
            }
        }
        i = i + 1;
    }
    segs.push(current);
    proof {
        assert(body.take(to - from) =~= body);
    }
    segs
}

/// The text of the standard module.
pub const STD_SOURCE: &'static str = "
                struct Int
                struct Float
                struct Bool
                struct String
                struct Any

                fn panic(message: String): Nothing
                fn print(text: String)
                fn println(text: String)

                struct Vec[T]

                impl[T] Vec[T] {
                    fn new(): Self {
                        Vec
                    }
                    fn Self.push(item: T)
                    fn Self.get(index: Int): Option[T]
                }

                enum Option[T] {
                    Some(T),
                    None
                }

                enum Result[R, E] {
                    Ok(R),
                    Err(E),
                }
                ";

/// The file of the standard module in a project rooted at `root`.
pub open spec fn std_model(root: Seq<char>) -> SourceFileModel {
    SourceFileModel { name: "std"@, path: root + "/std.gib"@, text: STD_SOURCE@, module: seq!["std"@] }
}

/// The file at `p` in the tree of a project rooted at `root` made of `files`: the standard module,
/// then each file in order written at its module path where that path meets no file before its
/// end, and left out where it does.
pub open spec fn model_file(root: Seq<char>, files: Seq<SourceFileModel>, p: Seq<Seq<char>>) -> Option<SourceFileModel>
    decreases files.len(), 0int,
{
    if files.len() == 0 {
        if p == seq!["std"@] {
            Some(std_model(root))
        } else {
            None
        }
    } else {
        let f = files.last();
        let prev = files.drop_last();
        if model_open(root, prev, f.module) {
            if p == f.module {
                Some(f)
            } else if f.module.is_prefix_of(p) {
                None
            } else {
                model_file(root, prev, p)
            }
        } else {
            model_file(root, prev, p)
        }
    }
}

/// Whether following `q` in the tree made of `files` meets no file before its end.
pub open spec fn model_open(root: Seq<char>, files: Seq<SourceFileModel>, q: Seq<Seq<char>>) -> bool
    decreases files.len(), q.len(),
{
    if q.len() == 0 {
        true
    } else {
        model_open(root, files, q.drop_last()) && model_file(root, files, q.drop_last()) is None
    }
}

/// A path is open in the modelled tree exactly when none of its proper prefixes leads to a file.
proof fn lemma_model_open(root: Seq<char>, files: Seq<SourceFileModel>, q: Seq<Seq<char>>)
    ensures
        model_open(root, files, q) <==> forall|j: int| 0 <= j < q.len() ==> (#[trigger] model_file(root, files, q.take(j))) is None,
    decreases q.len(),
{
    if q.len() > 0 {
        let d = q.drop_last();
        lemma_model_open(root, files, d);
        assert(q.take(q.len() - 1) =~= d);
        assert forall|j: int| 0 <= j < d.len() implies #[trigger] q.take(j) == d.take(j) by {
            assert(q.take(j) =~= d.take(j));
        }
        if model_open(root, files, q) {
            assert forall|j: int| 0 <= j < q.len() implies (#[trigger] model_file(root, files, q.take(j))) is None by {
                if j < d.len() {
                    assert(q.take(j) == d.take(j));
                }
            }
        } else if model_open(root, files, d) {
            assert(model_file(root, files, q.take(q.len() - 1)) is Some);
        } else {
            let k = choose|k: int| 0 <= k < d.len() && (#[trigger] model_file(root, files, d.take(k))) is Some;
            assert(q.take(k) == d.take(k));
        }
    }
}

/// Adding one file to the list: it is written at its module path if that path is open.
proof fn lemma_model_step(root: Seq<char>, files: Seq<SourceFileModel>, f: SourceFileModel, p: Seq<Seq<char>>)
    ensures
        model_file(root, files.push(f), p) == if model_open(root, files, f.module) {
            if p == f.module {
                Some(f)
            } else if f.module.is_prefix_of(p) {
                None
            } else {
                model_file(root, files, p)
            }
        } else {
            model_file(root, files, p)
        },
{
    let g = files.push(f);
    assert(g.drop_last() =~= files);
    assert(g.last() == f);
}

/// Where no module path is a prefix of another and none lies in the standard module, every
/// file is found at its module path.
pub open spec fn independent(files: Seq<SourceFileModel>) -> bool {
    &&& forall|j: int, k: int|
        0 <= j < files.len() && 0 <= k < files.len() && j != k ==> !(#[trigger] files[j].module).is_prefix_of(
            #[trigger] files[k].module,
        )
    &&& forall|j: int| 0 <= j < files.len() ==> (#[trigger] files[j].module).len() > 0 && files[j].module[0] != "std"@
}

/// The file at `p` when nothing is left out: the last file with that module path, or the
/// standard module.
pub open spec fn loaded_at(root: Seq<char>, files: Seq<SourceFileModel>, p: Seq<Seq<char>>) -> Option<SourceFileModel>
    decreases files.len(),
{
    if files.len() == 0 {
        if p == seq!["std"@] {
            Some(std_model(root))
        } else {
            None
        }
    } else if files.last().module == p {
        Some(files.last())
    } else {
        loaded_at(root, files.drop_last(), p)
    }
}

proof fn lemma_loaded_source(root: Seq<char>, files: Seq<SourceFileModel>, q: Seq<Seq<char>>)
    ensures
        loaded_at(root, files, q) is Some ==> q == seq!["std"@] || exists|k: int| 0 <= k < files.len() && (#[trigger] files[k].module) == q,
    decreases files.len(),
{
    if files.len() > 0 {
        let prev = files.drop_last();
        lemma_loaded_source(root, prev, q);
        if files.last().module != q && loaded_at(root, files, q) is Some && q != seq!["std"@] {
            let k = choose|k: int| 0 <= k < prev.len() && (#[trigger] prev[k].module) == q;
            assert(files[k].module == q);
        }
    }
}

proof fn lemma_independent_prefix(files: Seq<SourceFileModel>, n: int)
    requires
        independent(files),
        0 <= n <= files.len(),
    ensures
        independent(files.take(n)),
{
    let t = files.take(n);
    assert forall|j: int, k: int| 0 <= j < t.len() && 0 <= k < t.len() && j != k implies !(#[trigger] t[j].module).is_prefix_of(
        #[trigger] t[k].module,
    ) by {
        assert(t[j] == files[j] && t[k] == files[k]);
    }
    assert forall|j: int| 0 <= j < t.len() implies (#[trigger] t[j].module).len() > 0 && t[j].module[0] != "std"@ by {
        assert(t[j] == files[j]);
    }
}

proof fn lemma_independent_model(root: Seq<char>, files: Seq<SourceFileModel>)
    requires
        independent(files),
    ensures
        forall|p: Seq<Seq<char>>| #[trigger] model_file(root, files, p) == loaded_at(root, files, p),
    decreases files.len(),
{
    if files.len() > 0 {
        let n = files.len() - 1;
        let prev = files.drop_last();
        let f = files.last();
        assert(prev =~= files.take(n));
        lemma_independent_prefix(files, n);
        lemma_independent_model(root, prev);
        assert(prev.push(f) =~= files);
        assert(f == files[n]);
        lemma_model_open(root, prev, f.module);
        assert forall|j: int| 0 <= j < f.module.len() implies (#[trigger] model_file(root, prev, f.module.take(j))) is None by {
            let q = f.module.take(j);
            lemma_loaded_source(root, prev, q);
            if loaded_at(root, prev, q) is Some {
                if q == seq!["std"@] {
                    assert(seq!["std"@][0] == "std"@ && seq!["std"@].len() == 1);
                    assert(j == 1);
                    assert(q[0] == f.module[0]);
                    assert(files[n].module[0] != "std"@);
                } else {
                    let k = choose|k: int| 0 <= k < prev.len() && (#[trigger] prev[k].module) == q;
                    assert(files[k].module == q);
                    assert(q.is_prefix_of(f.module)) by {
                        assert(q =~= f.module.subrange(0, q.len() as int));
                    }
                }
            }
        }
        assert forall|p: Seq<Seq<char>>| #[trigger] model_file(root, files, p) == loaded_at(root, files, p) by {
            lemma_model_step(root, prev, f, p);
            if p != f.module && f.module.is_prefix_of(p) {
                lemma_loaded_source(root, prev, p);
                if loaded_at(root, prev, p) is Some {
                    if p == seq!["std"@] {
                        assert(seq!["std"@][0] == "std"@ && seq!["std"@].len() == 1);
                        assert(f.module[0] == p.subrange(0, f.module.len() as int)[0]);
                        assert(files[n].module[0] != "std"@);
                    } else {
                        let k = choose|k: int| 0 <= k < prev.len() && (#[trigger] prev[k].module) == p;
                        assert(files[k].module == p);
                    }
                }
            }
        }
    }
}

proof fn lemma_loaded_found(root: Seq<char>, files: Seq<SourceFileModel>, i: int)
    requires
        independent(files),
        0 <= i < files.len(),
    ensures
        loaded_at(root, files, files[i].module) == Some(files[i]),
    decreases files.len(),
{
    let n = files.len() - 1;
    if i < n {
        let prev = files.drop_last();
        assert(prev =~= files.take(n));
        lemma_independent_prefix(files, n);
        assert(files.last() == files[n]);
        if files[n].module == files[i].module {
            assert(files[n].module.is_prefix_of(files[i].module));
        }
        lemma_loaded_found(root, prev, i);
    }
}

/// Loading a project puts every file at its module path, where no module path is a prefix of
/// another and none lies in the standard module.
pub proof fn law_loaded_file_found(root: Seq<char>, files: Seq<SourceFileModel>, i: int)
    requires
        independent(files),
        0 <= i < files.len(),
    ensures
        model_file(root, files, files[i].module) == Some(files[i]),
{
    lemma_independent_model(root, files);
    lemma_loaded_found(root, files, i);
}

/// The views of a list of source files.
pub open spec fn file_models(files: Seq<SourceFile>) -> Seq<SourceFileModel> {
    files.map_values(|f: SourceFile| f@)
}

/// A path meets no file before its end exactly when none of its proper prefixes leads to a file.
proof fn lemma_open_prefixes(v: Vfs, q: Seq<Seq<char>>)
    ensures
        path_open(v, q) <==> forall|j: int| 0 <= j < q.len() ==> (#[trigger] vfs_file(v, q.take(j))) is None,
    decreases q.len(),
{
    if q.len() > 0 {
        assert(q.take(0) =~= Seq::<Seq<char>>::empty());
        match v.inner {
            VfsInner::Dir(entries) => {
                lemma_find_entry(entries@, q[0]);
                match find_entry(entries@, q[0]) {
                    Some(i) => {
                        let r = q.skip(1);
                        lemma_open_prefixes(entries@[i], r);
                        assert forall|j: int| 1 <= j < q.len() implies #[trigger] vfs_file(v, q.take(j)) == vfs_file(entries@[i], r.take(j - 1)) by {
                            assert(q.take(j).skip(1) =~= r.take(j - 1));
                        }
                        if path_open(v, q) {
                            assert forall|j: int| 0 <= j < q.len() implies (#[trigger] vfs_file(v, q.take(j))) is None by {
                                if j > 0 {
                                    assert(vfs_file(entries@[i], r.take(j - 1)) is None);
                                }
                            }
                        } else {
                            let k = choose|k: int| 0 <= k < r.len() && (#[trigger] vfs_file(entries@[i], r.take(k))) is Some;
                            assert(vfs_file(v, q.take(k + 1)) is Some);
                        }
                    },
                    None => {
                        assert forall|j: int| 0 <= j < q.len() implies (#[trigger] vfs_file(v, q.take(j))) is None by {
                            if j > 0 {
                                assert(q.take(j)[0] == q[0]);
                            }
                        }
                    },
                }
            },
            VfsInner::File(_) => {
                assert(vfs_file(v, q.take(0)) is Some);
            },
        }
    }
}

impl Vfs {
    /// The tree of a project rooted at `root`: the standard module, then each file at its module
    /// path, where that path meets no file before its end.
    pub fn from_files(root: &str, files: Vec<SourceFile>) -> (r: Vfs)
        ensures
            r.name@ == "root"@,
            forall|p: Seq<Seq<char>>| #[trigger] vfs_file(r, p) == model_file(root@, file_models(files@), p),
    {
        let mut std_module: Vec<String> = Vec::new();
        std_module.push(String::from_str("std"));
        let std_file = SourceFile {
            name: String::from_str("std"),
            path: std_path(root),
            text: String::from_str(STD_SOURCE),
            module: std_module,
        };
        let std = Vfs { name: String::from_str("std"), inner: VfsInner::File(std_file) };
        let mut entries: Vec<Vfs> = Vec::new();
        entries.push(std);
        let mut module = Vfs { name: String::from_str("root"), inner: VfsInner::Dir(entries) };
        proof {
            reveal_strlit("std");
            assert(std_file@.module =~= seq!["std"@]);
            assert(std_file@ == std_model(root@));
            assert forall|p: Seq<Seq<char>>| #[trigger] vfs_file(module, p) == model_file(root@, Seq::empty(), p) by {
                let e = module.inner->Dir_0@;
                assert(e.drop_last() =~= Seq::<Vfs>::empty());
                assert(e.last().name@ == "std"@);
                if p.len() > 0 {
                    if p[0] == "std"@ {
                        assert(find_entry(e.drop_last(), p[0]) is None);
                        assert(find_entry(e, p[0]) == Some(0int));
                        if p.len() == 1 {
                            assert(p =~= seq!["std"@]);
                            assert(vfs_file(module, p) == vfs_file(e[0], p.skip(1)));
                        } else {
                            assert(p != seq!["std"@]);
                        }
                    } else {
                        assert(p != seq!["std"@]);
                    }
                } else {
                    assert(p != seq!["std"@]);
                }
            }
        }
        let ghost all = file_models(files@);
        let ghost mut done: Seq<SourceFileModel> = Seq::empty();
        let mut files = files;
        proof {
            assert(all =~= done + file_models(files@));
        }
        while files.len() > 0
            invariant
                all == done + file_models(files@),
                module.name@ == "root"@,
                forall|p: Seq<Seq<char>>| #[trigger] vfs_file(module, p) == model_file(root@, done, p),
            decreases files@.len(),
        {
            let ghost rest_before = files@;
            let f = files.remove(0);
            let path = clone_strings(&f.module);
            let ghost segs = strings_view(path@);
            proof {
                assert(rest_before =~= seq![f] + files@);
                assert(file_models(rest_before) =~= seq![f@] + file_models(files@));
                assert(segs == f@.module);
                lemma_open_prefixes(module, segs);
                assert forall|j: int|
                    #![trigger vfs_file(module, segs.take(j))]
                    #![trigger model_file(root@, done, segs.take(j))]
                    0 <= j < segs.len() implies vfs_file(module, segs.take(j)) == model_file(root@, done, segs.take(j)) by {}
                lemma_model_open(root@, done, segs);
                assert(path_open(module, segs) <==> model_open(root@, done, segs));
            }
            let ghost prev = done;
            if module.path_open_exec(path.as_slice()) {
                let ghost before = module;
                module.insert_path(path.as_slice(), f);
                proof {
                    done = done.push(f@);
                    assert(done.drop_last() =~= prev);
                    assert(model_open(root@, prev, f@.module));
                    assert forall|p: Seq<Seq<char>>| #[trigger] vfs_file(module, p) == model_file(root@, done, p) by {
                        assert(vfs_file(module, p) == vfs_write(before, segs, f@, p));
                        lemma_model_step(root@, prev, f@, p);
                    }
                }
            } else {
                proof {
                    done = done.push(f@);
                    assert(done.drop_last() =~= prev);
                    assert(!model_open(root@, prev, f@.module));
                    assert forall|p: Seq<Seq<char>>| #[trigger] vfs_file(module, p) == model_file(root@, done, p) by {
                        lemma_model_step(root@, prev, f@, p);
                    }
                }
            }
            proof {
                assert(all =~= done + file_models(files@));
            }
        }
        proof {
            assert(done =~= all);
        }
        module
    }

    /// Whether following `path` meets no file before its end.
    pub fn path_open_exec(&self, path: &[String]) -> (r: bool)
        ensures
            r == path_open(*self, strings_view(path@)),
        decreases path@.len(),
    {
        if path.len() == 0 {
            return true;
        }
        let rest = vstd::slice::slice_subrange(path, 1, path.len());
        proof {
            assert(strings_view(rest@) =~= strings_view(path@).skip(1));
        }
        match &self.inner {
            VfsInner::Dir(entries) => match self.get(path[0].as_str()) {
                Some(i) => {
                    proof {
                        lemma_find_entry(entries@, path@[0]@);
                    }
                    entries[i].path_open_exec(rest)
                },
                None => true,
            },
            VfsInner::File(_) => false,
        }
    }
}

/// The path of the standard module's file below `root`.
fn std_path(root: &str) -> (r: String)
    ensures
        r@ == root@ + "/std.gib"@,
{
    let mut s = String::from_str(root);
    let tail = "/std.gib";
    proof {
        reveal_strlit("/std.gib");
    }
    let n = tail.unicode_len();
    let mut i: usize = 0;
    while i < n
        invariant
            i <= n,
            n == tail@.len(),
            tail@ == "/std.gib"@,
            s@ == root@ + tail@.take(i as int),
        decreases n - i,
    {
        proof {
            assert(tail@.take(i + 1) =~= tail@.take(i as int).push(tail@[i as int]));
        }
        push_char(&mut s, tail.get_char(i));
        i = i + 1;
    }
    proof {
        assert(tail@.take(n as int) =~= tail@);
    }
    s
}

/// A path that leads to a file meets no file before its end.
proof fn lemma_found_open(v: Vfs, path: Seq<Seq<char>>)
    requires
        vfs_file(v, path) is Some,
    ensures
        path_open(v, path),
    decreases path.len(),
{
    if path.len() > 0 {
        match v.inner {
            VfsInner::Dir(entries) => {
                lemma_find_entry(entries@, path[0]);
                let i = find_entry(entries@, path[0])->0;
                lemma_found_open(entries@[i], path.skip(1));
            },
            VfsInner::File(_) => {},
        }
    }
}

impl Vfs {
    /// The source file at `path` in the project rooted at `root`; where there is none yet, an
    /// empty one is made and put at its module path.
    pub fn input(&mut self, root: &str, path: &str) -> (r: SourceFile)
        requires
            under_root(root@, path@),
            ends_gib(file_name(path@)),
            path_open(*old(self), module_path_of(root@, path@)),
        ensures
            r@ == match vfs_file(*old(self), module_path_of(root@, path@)) {
                Some(f) => f,
                None => SourceFileModel {
                    name: path_name(path@),
                    path: path@,
                    text: Seq::empty(),
                    module: module_path_of(root@, path@),
                },
            },
            vfs_file(*final(self), module_path_of(root@, path@)) == Some(r@),
    {
        let module = get_module_path(root, path);
        match self.get_file(module.as_slice()) {
            Some(existing) => {
                proof {
                    lemma_found_open(*old(self), module_path_of(root@, path@));
                }
                existing
            },
            None => {
                let src = SourceFile {
                    name: get_path_name(path),
                    path: String::from_str(path),
                    text: String::new(),
                    module: clone_strings(&module),
                };
                let ghost made = src@;
                proof {
                    assert(made.text =~= Seq::<char>::empty());
                }
                self.insert_path(module.as_slice(), src);
                proof {
                    lemma_found_open(*self, module_path_of(root@, path@));
                }
                match self.get_file(module.as_slice()) {
                    Some(f) => f,
                    None => unreached(),
                }
            },
        }
    }
}

} // verus!
