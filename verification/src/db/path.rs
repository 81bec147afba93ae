use vstd::prelude::*;

use crate::util::{clone_strings, strings_eq, strings_view};

verus! {

/// The fully qualified path of a declaration, one segment per module level.
pub struct ModulePath {
    pub name: Vec<String>,
}

impl View for ModulePath {
    type V = Seq<Seq<char>>;

    open spec fn view(&self) -> Seq<Seq<char>> {
        strings_view(self.name@)
    }
}

impl ModulePath {
    pub fn new(name: Vec<String>) -> (p: ModulePath)
        ensures
            p@ == strings_view(name@),
    {
        ModulePath { name }
    }

    pub fn copy(&self) -> (p: ModulePath)
        ensures
            p@ == self@,
    {
        ModulePath { name: clone_strings(&self.name) }
    }

    pub fn same(&self, other: &ModulePath) -> (b: bool)
        ensures
            b == (self@ == other@),
    {
        strings_eq(&self.name, &other.name)
    }

    /// The path of the enclosing module: every segment but the last.
    #[must_use]
    pub fn get_parent(&self) -> (p: ModulePath)
        requires
            self@.len() >= 1,
        ensures
            p@ == self@.drop_last(),
    {
        let mut name: Vec<String> = Vec::new();
        let n = self.name.len() - 1;
        let mut i: usize = 0;
        while i < n
            invariant
                n == self.name@.len() - 1,
                i <= n,
                name@.len() == i,
                forall|j: int| 0 <= j < i ==> name@[j]@ == self.name@[j]@,
            decreases n - i,
        {
            name.push(self.name[i].clone());
            i = i + 1;
        }
        proof {
            assert(strings_view(name@) =~= strings_view(self.name@).drop_last());
        }
        ModulePath { name }
    }
}

} // verus!
