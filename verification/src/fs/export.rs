use vstd::prelude::*;

use crate::fs::tree_node::{export_path, find_module, find_top, FileTreeNode};
use crate::parser::ast::{segments, Enum, EnumMember, Func, GenericArgs, Struct, Top, Trait};
use crate::util::Spanned;

verus! {

broadcast use vstd::std_specs::vec::group_vec_axioms;

/// What a name in the file tree refers to.
#[derive(Clone, Copy)]
pub enum Export<'m> {
    Func(&'m Func),
    Struct(&'m Struct),
    Trait(&'m Trait),
    Enum(&'m Enum),
    Member { parent: &'m Enum, member: &'m EnumMember },
    Module(&'m FileTreeNode),
}

/// The export of a top-level item that declares a name.
pub open spec fn top_export<'m>(t: &'m Top) -> Export<'m> {
    match *t {
        Top::Func(f) => Export::Func(&f),
        Top::Struct(s) => Export::Struct(&s),
        Top::Enum(e) => Export::Enum(&e),
        Top::Trait(t) => Export::Trait(&t),
        _ => Export::Module(arbitrary()),
    }
}

/// The item of a file, or the entry of a module, named `name`.
pub open spec fn node_get<'m>(n: &'m FileTreeNode, name: Seq<char>) -> Option<Export<'m>> {
    match *n {
        FileTreeNode::File(f) => match find_top(f.ast@, name) {
            Some(i) => Some(top_export(&f.ast@[i].0)),
            None => None,
        },
        FileTreeNode::Module(m) => match find_module(m@, name) {
            Some(i) => Some(Export::Module(&m@[i].1)),
            None => None,
        },
    }
}

/// The export of a top-level item; impls and imports declare no name and are never looked up.
pub fn export_of_top<'m>(t: &'m Top) -> (r: Export<'m>)
    requires
        !(*t is Impl || *t is Use),
    ensures
        r == top_export(t),
{
    match t {
        Top::Func(f) => Export::Func(f),
        Top::Struct(s) => Export::Struct(s),
        Top::Enum(e) => Export::Enum(e),
        Top::Trait(tr) => Export::Trait(tr),
        _ => unreached(),
    }
}

/// The position of the first member of an enum named `name`.
pub open spec fn find_member(members: Seq<Spanned<EnumMember>>, name: Seq<char>) -> Option<int>
    decreases members.len(),
{
    if members.len() == 0 {
        None
    } else if members[0].0.name.0@ == name {
        Some(0)
    } else {
        match find_member(members.skip(1), name) {
            Some(i) => Some(i + 1),
            None => None,
        }
    }
}

/// Following `path` from `e` where enums lead to their members: the export reached, or the
/// position of the first segment that names nothing.
pub open spec fn export_walk<'m>(e: Export<'m>, path: Seq<Seq<char>>) -> Result<Export<'m>, int>
    decreases path.len(),
{
    if path.len() == 0 {
        Ok(e)
    } else {
        match e {
            Export::Module(n) => match walk_node(n, path) {
                Ok(x) => Ok(x),
                Err(i) => Err(i),
            },
            Export::Enum(en) => match find_member(en.members@, path[0]) {
                Some(i) => match export_walk(Export::Member { parent: en, member: &en.members@[i].0 }, path.skip(1)) {
                    Ok(x) => Ok(x),
                    Err(k) => Err(k + 1),
                },
                None => Err(0),
            },
            _ => Err(0),
        }
    }
}

/// Following `path` from a node, one name at a time, where only modules lead further.
pub open spec fn walk_node<'m>(n: &'m FileTreeNode, path: Seq<Seq<char>>) -> Result<Export<'m>, int>
    decreases path.len(),
{
    if path.len() == 0 {
        Ok(Export::Module(n))
    } else {
        match node_get(n, path[0]) {
            Some(Export::Module(next)) => match walk_node(next, path.skip(1)) {
                Ok(x) => Ok(x),
                Err(i) => Err(i + 1),
            },
            Some(x) => if path.len() == 1 {
                Ok(x)
            } else {
                Err(1)
            },
            None => Err(0),
        }
    }
}

/// Following a path with errors finds what following it without them finds, and fails exactly
/// where that finds nothing.
pub proof fn law_walk_agrees_with_path<'m>(n: &'m FileTreeNode, path: Seq<Seq<char>>)
    ensures
        match walk_node(n, path) {
            Ok(x) => export_path(Export::Module(n), path) == Some(x),
            Err(_) => export_path(Export::Module(n), path) is None,
        },
    decreases path.len(),
{
    if path.len() > 0 {
        match node_get(n, path[0]) {
            Some(Export::Module(next)) => {
                law_walk_agrees_with_path(next, path.skip(1));
            },
            Some(x) => {
                if path.len() > 1 {
                    assert(export_path(x, path.skip(1)) is None);
                }
            },
            None => {},
        }
    }
}

/// Where following a path from a node fails at segment `i`, the path up to and including that
/// segment names nothing, while every shorter prefix names something: `i` is the first segment
/// that fails.
pub proof fn law_walk_fails_first<'m>(n: &'m FileTreeNode, path: Seq<Seq<char>>)
    ensures
        walk_node(n, path) matches Err(i) ==> {
            &&& 0 <= i < path.len()
            &&& export_path(Export::Module(n), path.take(i + 1)) is None
            &&& forall|j: int| 0 <= j <= i ==> (#[trigger] export_path(Export::Module(n), path.take(j))) is Some
        },
    decreases path.len(),
{
    if path.len() > 0 {
        let rest = path.skip(1);
        assert forall|j: int| 1 <= j <= path.len() implies (#[trigger] path.take(j))[0] == path[0] && path.take(j).skip(1)
            =~= rest.take(j - 1) by {}
        assert(path.take(0).len() == 0);
        match node_get(n, path[0]) {
            Some(Export::Module(next)) => {
                law_walk_fails_first(next, rest);
                if let Err(i) = walk_node(n, path) {
                    let k = i - 1;
                    assert(walk_node(next, rest) == Err::<Export<'m>, int>(k));
                    assert(path.take(i + 1).skip(1) =~= rest.take(k + 1));
                    assert forall|j: int| 0 <= j <= i implies (#[trigger] export_path(Export::Module(n), path.take(j))) is Some by {
                        if j > 0 {
                            assert(path.take(j).skip(1) =~= rest.take(j - 1));
                            assert(export_path(Export::Module(next), rest.take(j - 1)) is Some);
                        }
                    }
                }
            },
            Some(x) => {
                if path.len() > 1 {
                    assert(path.take(2).skip(1).len() == 1);
                    assert(export_path(x, path.take(2).skip(1)) is None);
                    assert(path.take(1).skip(1).len() == 0);
                    assert(path.take(1)[0] == path[0]);
                    assert(export_path(x, path.take(1).skip(1)) == Some(x));
                    assert(export_path(Export::Module(n), path.take(1)) is Some);
                }
            },
            None => {},
        }
    }
}

impl<'m> Export<'m> {
    /// The entry named `name` of a module; other exports have none.
    pub fn get(&self, name: &str) -> (r: Option<Export<'m>>)
        ensures
            r == match *self {
                Export::Module(n) => node_get(n, name@),
                _ => None,
            },
    {
        match self {
            Export::Module(m) => m.get(name),
            _ => None,
        }
    }

    /// Whether the export is a type: a trait, an enum or a struct.
    pub fn valid_type(&self) -> (r: bool)
        ensures
            r == (*self is Trait || *self is Enum || *self is Struct),
    {
        match self {
            Export::Trait(_) | Export::Enum(_) | Export::Struct(_) => true,
            _ => false,
        }
    }

    /// The name the export declares.
    pub fn name(&self) -> (r: &'m str)
        requires
            !(*self is Module),
        ensures
            r@ == match *self {
                Export::Struct(s) => s.name.0@,
                Export::Trait(t) => t.name.0@,
                Export::Enum(e) => e.name.0@,
                Export::Member { member, .. } => member.name.0@,
                Export::Func(f) => f.name.0@,
                Export::Module(_) => Seq::empty(),
            },
    {
        match self {
            Export::Struct(s) => s.name.0.as_str(),
            Export::Trait(t) => t.name.0.as_str(),
            Export::Enum(e) => e.name.0.as_str(),
            Export::Member { member, .. } => member.name.0.as_str(),
            Export::Func(f) => f.name.0.as_str(),
            Export::Module(_) => unreached(),
        }
    }

    /// The generics the export declares.
    pub fn generic_args(&self) -> (r: &'m GenericArgs)
        requires
            !(*self is Module || *self is Member),
        ensures
            *r == match *self {
                Export::Func(f) => f.generics.0,
                Export::Struct(s) => s.generics.0,
                Export::Enum(e) => e.generics.0,
                Export::Trait(t) => t.generics.0,
                _ => *r,
            },
    {
        match self {
            Export::Func(f) => &f.generics.0,
            Export::Struct(s) => &s.generics.0,
            Export::Enum(e) => &e.generics.0,
            Export::Trait(t) => &t.generics.0,
            _ => unreached(),
        }
    }

    /// What `path` names from this export: a module leads to its entries, an enum to its members;
    /// an error is the first segment that names nothing.
    pub fn get_path_with_error(&self, path: &[Spanned<String>]) -> (r: Result<Export<'m>, Spanned<String>>)
        ensures
            match export_walk(*self, segments(path@)) {
                Ok(e) => r == Ok::<Export<'m>, Spanned<String>>(e),
                Err(i) => r matches Err(seg) && 0 <= i < path@.len() && seg.0@ == path@[i].0@ && seg.1 == path@[i].1,
            },
        decreases path@.len(),
    {
        if path.len() == 0 {
            return Ok(*self);
        }
        let rest = vstd::slice::slice_subrange(path, 1, path.len());
        proof {
            assert(segments(rest@) =~= segments(path@).skip(1));
            assert(forall|k: int| 0 <= k < rest@.len() ==> #[trigger] rest@[k] == path@[k + 1]);
        }
        match self {
            Export::Module(m) => walk_module(m, path),
            Export::Enum(e) => {
                let mut i: usize = 0;
                proof {
                    assert(e.members@.skip(0) =~= e.members@);
                }
                while i < e.members.len()
                    invariant
                        i <= e.members@.len(),
                        path@.len() >= 1,
                        rest@.len() == path@.len() - 1,
                        segments(rest@) == segments(path@).skip(1),
                        forall|k: int| 0 <= k < rest@.len() ==> #[trigger] rest@[k] == path@[k + 1],
                        *self == Export::Enum(*e),
                        find_member(e.members@, path@[0].0@) == match find_member(e.members@.skip(i as int), path@[0].0@) {
                            Some(k) => Some(k + i),
                            None => None,
                        },
                    decreases e.members@.len() - i,
                {
                    proof {
                        assert(e.members@.skip(i as int).skip(1) =~= e.members@.skip(i + 1));
                    }
                    if crate::db::decl::str_eq(e.members[i].0.name.0.as_str(), path[0].0.as_str()) {
                        let member = Export::Member { parent: e, member: &e.members[i].0 };
                        return match member.get_path_with_error(rest) {
                            Ok(x) => Ok(x),
                            Err(seg) => Err(seg),
                        };
                    }
                    i = i + 1;
                }
                Err((path[0].0.clone(), path[0].1))
            },
            _ => Err((path[0].0.clone(), path[0].1)),
        }
    }
}

/// Follows `path` from the node `n`.
fn walk_module<'m>(n: &'m FileTreeNode, path: &[Spanned<String>]) -> (r: Result<Export<'m>, Spanned<String>>)
    ensures
        match walk_node(n, segments(path@)) {
            Ok(e) => r == Ok::<Export<'m>, Spanned<String>>(e),
            Err(i) => r matches Err(seg) && 0 <= i < path@.len() && seg.0@ == path@[i].0@ && seg.1 == path@[i].1,
        },
    decreases path@.len(),
{
    if path.len() == 0 {
        return Ok(Export::Module(n));
    }
    let rest = vstd::slice::slice_subrange(path, 1, path.len());
    proof {
        assert(segments(rest@) =~= segments(path@).skip(1));
    }
    match n.get(path[0].0.as_str()) {
        Some(Export::Module(next)) => walk_module(next, rest),
        Some(x) => if path.len() == 1 {
            Ok(x)
        } else {
            Err((path[1].0.clone(), path[1].1))
        },
        None => Err((path[0].0.clone(), path[0].1)),
    }
}

} // verus!
