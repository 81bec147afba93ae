use vstd::prelude::*;

use crate::check::TokenKind;
use crate::db::decl::struct_::StructDecl;
use crate::db::decl::{Decl, DeclKind, Project};
use crate::ir::expr::lit::unescape_newlines;
use crate::parser::ast::{lit_view, Literal, LiteralModel, OpKind};
use crate::util::Span;

pub mod expr;
pub mod model;
pub mod pattern;
pub mod text;

verus! {

broadcast use vstd::std_specs::vec::group_vec_axioms;

/// An instruction of the stack machine. Jumps are relative: they skip the given number of
/// instructions.
pub enum ByteCode {
    Push(Literal),
    Pop,
    Copy,
    Print,
    Panic,
    Return,
    GetLocal(u32),
    SetLocal(u32),
    NewLocal(u32),
    Param(u32),
    Index(u32),
    Construct { id: u32, len: u32 },
    Match(u32),
    Call(u32),
    Je(i32),
    Jne(i32),
    Jmp(i32),
    Op(OpKind),
}

/// Why a checked program cannot be turned into instructions.
#[derive(Clone, Copy, Debug, PartialEq, Eq, Structural)]
pub enum BuildError {
    /// A construct the instruction set has no form for.
    Unsupported,
    /// A name that no local or parameter in scope has.
    UnknownLocal,
    /// A jump offset or count that does not fit its integer type.
    TooLarge,
}

/// A compiled function: its number of parameters, its instructions, and where it stands in the
/// source (the file, the line and column of its start, and the source position of instructions).
pub struct FuncDef {
    pub args: u32,
    pub body: Vec<ByteCode>,
    pub offset: u32,
    pub file: u32,
    pub pos: (u32, u32),
    pub marks: Vec<(usize, (u32, u32))>,
}

/// The locals and parameters in scope while a function is compiled.
pub struct BuildState<'db> {
    pub project: &'db Project,
    /// Scopes of locals with their ids, innermost last.
    pub vars: Vec<Vec<(String, u32)>>,
    pub params: Vec<String>,
    pub counter: u32,
}

/// The id of the local named `name` in the innermost scope that has one: the last one declared.
pub open spec fn scope_local(s: Seq<(String, u32)>, name: Seq<char>) -> Option<u32>
    decreases s.len(),
{
    if s.len() == 0 {
        None
    } else if s.last().0@ == name {
        Some(s.last().1)
    } else {
        scope_local(s.drop_last(), name)
    }
}

pub open spec fn spec_local(scopes: Seq<Seq<(String, u32)>>, name: Seq<char>) -> Option<u32>
    decreases scopes.len(),
{
    if scopes.len() == 0 {
        None
    } else {
        match scope_local(scopes.last(), name) {
            Some(v) => Some(v),
            None => spec_local(scopes.drop_last(), name),
        }
    }
}

/// The scopes of locals by value.
pub open spec fn scopes_view(vars: Seq<Vec<(String, u32)>>) -> Seq<Seq<(String, u32)>> {
    vars.map_values(|v: Vec<(String, u32)>| v@)
}

/// The index of the first parameter named `name`.
pub open spec fn spec_param(params: Seq<String>, name: Seq<char>) -> Option<int>
    decreases params.len(),
{
    if params.len() == 0 {
        None
    } else if params[0]@ == name {
        Some(0)
    } else {
        match spec_param(params.skip(1), name) {
            Some(i) => Some(i + 1),
            None => None,
        }
    }
}

/// What compiling leaves unchanged: the number of scopes, the parameters and the project.
pub open spec fn build_frame(old: BuildState, new: BuildState) -> bool {
    &&& new.vars@.len() == old.vars@.len()
    &&& new.vars@.len() >= 1
    &&& new.params == old.params
    &&& new.project == old.project
}

impl<'db> BuildState<'db> {
    /// A state with one empty scope and no parameters.
    pub fn new(project: &'db Project) -> (s: BuildState<'db>)
        ensures
            s.project == project,
            s.vars@.len() == 1,
            s.vars@[0]@.len() == 0,
            s.params@.len() == 0,
            s.counter == 0,
    {
        let mut vars: Vec<Vec<(String, u32)>> = Vec::new();
        vars.push(Vec::new());
        BuildState { project, vars, params: Vec::new(), counter: 0 }
    }

    /// Forgets the locals and parameters of the previous function.
    pub fn clear(&mut self)
        ensures
            final(self).project == old(self).project,
            final(self).vars@.len() == 1,
            final(self).vars@[0]@.len() == 0,
            final(self).params@.len() == 0,
            final(self).counter == 0,
    {
        let mut vars: Vec<Vec<(String, u32)>> = Vec::new();
        vars.push(Vec::new());
        self.vars = vars;
        self.params = Vec::new();
        self.counter = 0;
    }

    /// Declares the next parameter.
    pub fn add_param(&mut self, name: String)
        ensures
            final(self).params@ == old(self).params@.push(name),
            final(self).vars == old(self).vars,
            final(self).counter == old(self).counter,
            final(self).project == old(self).project,
    {
        self.params.push(name);
    }

    /// Declares a local in the innermost scope and returns its fresh id.
    pub fn add_var(&mut self, name: String) -> (id: u32)
        requires
            old(self).vars@.len() >= 1,
        ensures
            id == old(self).counter,
            final(self).counter == (if old(self).counter == u32::MAX { 0 } else { old(self).counter + 1 }),
            final(self).vars@.len() == old(self).vars@.len(),
            final(self).vars@.drop_last() == old(self).vars@.drop_last(),
            final(self).vars@.last()@ == old(self).vars@.last()@.push((name, id)),
            final(self).params == old(self).params,
            final(self).project == old(self).project,
    {
        let id = self.counter;
        let mut scope = self.vars.pop().unwrap();
        scope.push((name, id));
        self.vars.push(scope);
        self.counter = self.counter.wrapping_add(1);
        proof {
            assert(self.vars@.drop_last() =~= old(self).vars@.drop_last());
        }
        id
    }

    pub fn enter_scope(&mut self)
        ensures
            final(self).vars@.len() == old(self).vars@.len() + 1,
            final(self).vars@.drop_last() == old(self).vars@,
            final(self).vars@.last()@.len() == 0,
            final(self).params == old(self).params,
            final(self).counter == old(self).counter,
            final(self).project == old(self).project,
    {
        self.vars.push(Vec::new());
        proof {
            assert(self.vars@.drop_last() =~= old(self).vars@);
        }
    }

    pub fn exit_scope(&mut self)
        requires
            old(self).vars@.len() >= 2,
        ensures
            final(self).vars@ == old(self).vars@.drop_last(),
            final(self).params == old(self).params,
            final(self).counter == old(self).counter,
            final(self).project == old(self).project,
    {
        let _ = self.vars.pop();
    }

    /// The id of the local named `name`.
    pub fn get_var(&self, name: &str) -> (r: Option<u32>)
        ensures
            r == spec_local(scopes_view(self.vars@), name@),
    {
        let mut i = self.vars.len();
        proof {
            assert(scopes_view(self.vars@).take(i as int) =~= scopes_view(self.vars@));
        }
        while i > 0
            invariant
                i <= self.vars@.len(),
                spec_local(scopes_view(self.vars@), name@) == spec_local(scopes_view(self.vars@).take(i as int), name@),
            decreases i,
        {
            proof {
                assert(scopes_view(self.vars@).take(i as int).drop_last() =~= scopes_view(self.vars@).take(i - 1));
            }
            let scope = &self.vars[i - 1];
            let mut j = scope.len();
            proof {
                assert(scope@.take(j as int) =~= scope@);
            }
            while j > 0
                invariant
                    j <= scope@.len(),
                    scope_local(scope@, name@) == scope_local(scope@.take(j as int), name@),
                    0 < i <= self.vars@.len(),
                    *scope == self.vars@[i - 1],
                    spec_local(scopes_view(self.vars@), name@) == spec_local(scopes_view(self.vars@).take(i as int), name@),
                decreases j,
            {
                proof {
                    assert(scope@.take(j as int).drop_last() =~= scope@.take(j - 1));
                }
                if crate::db::decl::str_eq(scope[j - 1].0.as_str(), name) {
                    return Some(scope[j - 1].1);
                }
                j = j - 1;
            }
            i = i - 1;
        }
        None
    }

    /// The index of the parameter named `name`.
    pub fn get_param(&self, name: &str) -> (r: Option<u32>)
        ensures
            match r {
                Some(i) => spec_param(self.params@, name@) == Some(i as int),
                None => spec_param(self.params@, name@) is None || spec_param(self.params@, name@).unwrap() > u32::MAX,
            },
    {
        let mut i: usize = 0;
        proof {
            assert(self.params@.skip(0) =~= self.params@);
        }
        while i < self.params.len()
            invariant
                i <= self.params@.len(),
                spec_param(self.params@, name@) == match spec_param(self.params@.skip(i as int), name@) {
                    Some(k) => Some(k + i),
                    None => None,
                },
            decreases self.params@.len() - i,
        {
            proof {
                assert(self.params@.skip(i as int).skip(1) =~= self.params@.skip(i + 1));
            }
            if crate::db::decl::str_eq(self.params[i].as_str(), name) {
                if i > u32::MAX as usize {
                    return None;
                }
                return Some(i as u32);
            }
            i = i + 1;
        }
        None
    }
}

/// A source position as stored, widened.
pub fn widen(p: (u32, u32)) -> (r: (usize, usize))
    ensures
        r == wide(p),
{
    (p.0 as usize, p.1 as usize)
}

/// The source position of a stored mark, widened.
pub open spec fn wide(p: (u32, u32)) -> (usize, usize) {
    (p.0 as usize, p.1 as usize)
}

/// A count as an integer.
pub open spec fn to_int(n: usize) -> int {
    n as int
}

/// An index as an integer.
pub open spec fn opt_index(o: Option<usize>) -> Option<int> {
    match o {
        Some(i) => Some(i as int),
        None => None,
    }
}

/// Appends `more` to `code`.
pub fn extend(code: &mut Vec<ByteCode>, more: Vec<ByteCode>)
    ensures
        final(code)@ == old(code)@ + more@,
{
    let mut more = more;
    code.append(&mut more);
}

/// A count as an `i32`, where it fits.
pub fn count_i32(n: usize) -> (r: Result<i32, BuildError>)
    ensures
        match r {
            Ok(v) => v == n,
            Err(e) => n > i32::MAX && e == BuildError::TooLarge,
        },
{
    if n <= i32::MAX as usize {
        Ok(n as i32)
    } else {
        Err(BuildError::TooLarge)
    }
}

/// A count as a `u32`, where it fits.
pub fn count_u32(n: usize) -> (r: Result<u32, BuildError>)
    ensures
        match r {
            Ok(v) => v == n,
            Err(e) => n > u32::MAX && e == BuildError::TooLarge,
        },
{
    if n <= u32::MAX as usize {
        Ok(n as u32)
    } else {
        Err(BuildError::TooLarge)
    }
}

/// A local just added is what its name then finds: adding `name` with id `id` to the innermost
/// scope of `old` (as `add_var` does) gives `new`.
pub proof fn law_added_local_found(old: BuildState, new: BuildState, name: String, id: u32)
    requires
        old.vars@.len() >= 1,
        new.vars@.len() == old.vars@.len(),
        new.vars@.drop_last() == old.vars@.drop_last(),
        new.vars@.last()@ == old.vars@.last()@.push((name, id)),
    ensures
        spec_local(scopes_view(new.vars@), name@) == Some(id),
{
    assert(new.vars@.last()@.last() == (name, id));
    assert(scopes_view(new.vars@).last() == new.vars@.last()@);
}

} // verus!
