use vstd::prelude::*;

use std::cmp::Ordering;

use crate::build::{opt_index, to_int, wide, widen, FuncDef};

verus! {

broadcast use vstd::std_specs::vec::group_vec_axioms;

/// A compiled program as the debugger loads it: its functions by id and the names of its files.
pub struct ByteCodeFile {
    pub funcs: Vec<(u32, FuncDef)>,
    pub file_names: Vec<(u32, String)>,
}

/// A place to stop: an instruction of a function.
#[derive(Clone, Copy, Debug, PartialEq, Eq, Hash, Structural)]
pub struct ByteCodeBreakpoint {
    pub func: u32,
    pub instr: usize,
}

/// The order of source positions: by line, then by column.
pub open spec fn pos_order(a: (usize, usize), b: (usize, usize)) -> Ordering {
    if a.0 < b.0 {
        Ordering::Less
    } else if a.0 > b.0 {
        Ordering::Greater
    } else if a.1 < b.1 {
        Ordering::Less
    } else if a.1 > b.1 {
        Ordering::Greater
    } else {
        Ordering::Equal
    }
}

/// Compares two source positions, line first.
pub fn cmp_pos(a: (usize, usize), b: (usize, usize)) -> (r: Ordering)
    ensures
        r == pos_order(a, b),
{
    if a.0 < b.0 {
        Ordering::Less
    } else if a.0 > b.0 {
        Ordering::Greater
    } else if a.1 < b.1 {
        Ordering::Less
    } else if a.1 > b.1 {
        Ordering::Greater
    } else {
        Ordering::Equal
    }
}

/// Two positions compare equal exactly when they are the same position.
pub proof fn law_pos_equal(a: (usize, usize), b: (usize, usize))
    ensures
        (pos_order(a, b) == Ordering::Equal) <==> a == b,
{
}

/// Swapping the positions reverses the order.
pub proof fn law_pos_antisymmetric(a: (usize, usize), b: (usize, usize))
    ensures
        pos_order(a, b) == Ordering::Less <==> pos_order(b, a) == Ordering::Greater,
{
}

/// The order of positions is transitive.
pub proof fn law_pos_transitive(a: (usize, usize), b: (usize, usize), c: (usize, usize))
    requires
        pos_order(a, b) == Ordering::Less,
        pos_order(b, c) == Ordering::Less,
    ensures
        pos_order(a, c) == Ordering::Less,
{
}

/// The offset of the last mark of `marks` that lies before `(line, col)`.
pub open spec fn index_before(marks: Seq<(usize, (u32, u32))>, line: usize, col: usize) -> Option<usize>
    decreases marks.len(),
{
    if marks.len() == 0 {
        None
    } else if pos_order(wide(marks.last().1), (line, col)) == Ordering::Less {
        Some(marks.last().0)
    } else {
        index_before(marks.drop_last(), line, col)
    }
}

impl FuncDef {
    /// The instruction of the last mark before `(line, col)`.
    pub fn get_index(&self, line: usize, col: usize) -> (r: Option<usize>)
        ensures
            r == index_before(self.marks@, line, col),
    {
        let mut k = self.marks.len();
        proof {
            assert(self.marks@.take(to_int(k)) =~= self.marks@);
        }
        while k > 0
            invariant
                k <= self.marks@.len(),
                index_before(self.marks@, line, col) == index_before(self.marks@.take(to_int(k)), line, col),
            decreases k,
        {
            proof {
                assert(self.marks@.take(to_int(k)).drop_last() =~= self.marks@.take(to_int(k) - 1));
            }
            let (offset, pos) = self.marks[k - 1];
            let p = widen(pos);
            match cmp_pos(p, (line, col)) {
                Ordering::Less => {
                    return Some(offset);
                },
                _ => {},
            }
            k = k - 1;
        }
        None
    }
}

/// Scanning the functions in order from `from`, the last function of `file` that starts before
/// `(line, col)` until one of them does not: its position in `funcs`.
pub open spec fn func_before(funcs: Seq<(u32, FuncDef)>, file: u32, line: usize, col: usize, from: int, found: Option<int>) -> Option<int>
    decreases funcs.len() - from,
{
    if from >= funcs.len() {
        found
    } else if funcs[from].1.file != file {
        func_before(funcs, file, line, col, from + 1, found)
    } else if pos_order(wide(funcs[from].1.pos), (line, col)) == Ordering::Less {
        func_before(funcs, file, line, col, from + 1, Some(from))
    } else if found is Some {
        found
    } else {
        func_before(funcs, file, line, col, from + 1, found)
    }
}

/// The id of the first file named `name`.
pub open spec fn file_id(names: Seq<(u32, String)>, name: Seq<char>) -> Option<u32>
    decreases names.len(),
{
    if names.len() == 0 {
        None
    } else if names[0].1@ == name {
        Some(names[0].0)
    } else {
        file_id(names.skip(1), name)
    }
}

impl ByteCodeFile {
    /// The function of `file` that the position `(line, col)` falls in: scanning in order, the
    /// last one starting before it.
    pub fn get_func(&self, file: u32, line: usize, col: usize) -> (r: Option<(u32, &FuncDef)>)
        ensures
            match func_before(self.funcs@, file, line, col, 0, None) {
                Some(i) => r matches Some(p) && p.0 == self.funcs@[i].0 && *p.1 == self.funcs@[i].1,
                None => r is None,
            },
    {
        let mut found: Option<usize> = None;
        let mut i: usize = 0;
        while i < self.funcs.len()
            invariant
                i <= self.funcs@.len(),
                found matches Some(f) ==> f < i,
                func_before(self.funcs@, file, line, col, 0, None) == func_before(
                    self.funcs@,
                    file,
                    line,
                    col,
                    to_int(i),
                    opt_index(found),
                ),
            decreases self.funcs@.len() - i,
        {
            let func = &self.funcs[i].1;
            if func.file == file {
                let p = widen(func.pos);
                match cmp_pos(p, (line, col)) {
                    Ordering::Less => {
                        found = Some(i);
                    },
                    _ => {
                        if let Some(f) = found {
                            return Some((self.funcs[f].0, &self.funcs[f].1));
                        }
                    },
                }
            }
            i = i + 1;
        }
        match found {
            Some(f) => Some((self.funcs[f].0, &self.funcs[f].1)),
            None => None,
        }
    }

    /// The id of the file named `name`.
    pub fn find_file(&self, name: &str) -> (r: Option<u32>)
        ensures
            r == file_id(self.file_names@, name@),
    {
        let mut i: usize = 0;
        proof {
            assert(self.file_names@.skip(0) =~= self.file_names@);
        }
        while i < self.file_names.len()
            invariant
                i <= self.file_names@.len(),
                file_id(self.file_names@, name@) == file_id(self.file_names@.skip(to_int(i)), name@),
            decreases self.file_names@.len() - i,
        {
            proof {
                assert(self.file_names@.skip(to_int(i)).skip(1) =~= self.file_names@.skip(i + 1));
            }
            if crate::db::decl::str_eq(self.file_names[i].1.as_str(), name) {
                return Some(self.file_names[i].0);
            }
            i = i + 1;
        }
        None
    }

    /// The breakpoint for the source position `(line, col)` of the file named `file_name`: the
    /// last mark before it in the function it falls in.
    pub fn get_breakpoint(&self, file_name: &str, line: usize, col: usize) -> (r: Option<ByteCodeBreakpoint>)
        requires
            file_id(self.file_names@, file_name@) is Some,
        ensures
            match func_before(self.funcs@, file_id(self.file_names@, file_name@)->0, line, col, 0, None) {
                Some(i) => match index_before(self.funcs@[i].1.marks@, line, col) {
                    Some(instr) => r == Some(ByteCodeBreakpoint { func: self.funcs@[i].0, instr }),
                    None => r is None,
                },
                None => r is None,
            },
    {
        let file = match self.find_file(file_name) {
            Some(f) => f,
            None => unreached(),
        };
        match self.get_func(file, line, col) {
            Some((id, func)) => match func.get_index(line, col) {
                Some(instr) => Some(ByteCodeBreakpoint { func: id, instr }),
                None => None,
            },
            None => None,
        }
    }
}

} // verus!
