use std::collections::HashMap;

use vstd::prelude::*;

use crate::ty::{Generic, Ty, TyModel};
use crate::util::{Span, Spanned};

verus! {

broadcast use vstd::std_specs::hash::group_hash_axioms;

/// The type variables of one check: each id holds either its data or a pointer to the variable it
/// was merged into.
pub struct TypeState {
    pub vars: HashMap<u32, MaybeTypeVar>,
    counter: u32,
    rank: Ghost<Map<u32, nat>>,
    bound: Ghost<nat>,
}

pub enum MaybeTypeVar {
    Data(TypeVarData),
    Pointer(u32),
}

/// What is known of a type variable.
pub struct TypeVarData {
    pub bounds: Vec<Generic>,
    pub usages: Vec<TypeVarUsage>,
    pub explicit: Option<Spanned<Ty>>,
    pub resolved: Option<Ty>,
    pub span: Span,
}

/// A constraint met by a type variable; an expression is known by its span.
pub enum TypeVarUsage {
    VarIsExpr(Span),
    ExprIsVar(Span),
    VarIsTy(Spanned<Ty>),
    TyIsVar(Spanned<Ty>),
}

impl TypeState {
    /// The ids handed out so far are exactly `0..next_id`.
    pub closed spec fn next_id(self) -> u32 {
        self.counter
    }

    /// Pointers lead to existing variables and climb strictly in rank, so following them ends.
    pub closed spec fn wf(self) -> bool {
        &&& forall|k: u32| #[trigger] self.vars@.contains_key(k) <==> k < self.counter
        &&& forall|k: u32|
            #[trigger] self.vars@.contains_key(k) ==> self.rank@.contains_key(k) && self.rank@[k]
                <= self.bound@
        &&& forall|k: u32|
            #[trigger] self.vars@.contains_key(k) && self.vars@[k] is Pointer ==> {
                &&& self.vars@.contains_key(self.vars@[k]->Pointer_0)
                &&& self.rank@[k] < self.rank@[self.vars@[k]->Pointer_0]
            }
    }

    /// The map held in `vars`: each id handed out, with its data or its pointer.
    pub closed spec fn vars_view(self) -> Map<u32, MaybeTypeVar> {
        self.vars@
    }

    /// How far `id` may be from its root.
    pub closed spec fn depth(self, id: u32) -> int {
        self.bound@ - self.rank@[id]
    }

    /// The variable that holds the data of `id`, found by following pointers.
    pub closed spec fn root(self, id: u32) -> u32
        decreases self.depth(id),
        when self.wf() && self.valid(id)
    {
        match self.vars@[id] {
            MaybeTypeVar::Pointer(next) => {
                proof {
                    assert(self.vars@.contains_key(id));
                }
                self.root(next)
            },
            MaybeTypeVar::Data(_) => id,
        }
    }

    /// The data that `id` stands for.
    pub closed spec fn data(self, id: u32) -> TypeVarData {
        self.vars@[self.root(id)]->Data_0
    }

    pub open spec fn valid(self, id: u32) -> bool {
        id < self.next_id()
    }

    proof fn lemma_root(self, id: u32)
        requires
            self.wf(),
            self.vars@.contains_key(id),
        ensures
            self.vars@.contains_key(self.root(id)),
            self.vars@[self.root(id)] is Data,
            self.vars@[id] is Data ==> self.root(id) == id,
            self.vars@[id] is Pointer ==> self.root(id) == self.root(self.vars@[id]->Pointer_0),
        decreases self.bound@ - self.rank@[id],
    {
        if let MaybeTypeVar::Pointer(next) = self.vars@[id] {
            self.lemma_root(next);
        }
    }

    /// The number of variables handed out.
    pub fn len(&self) -> (r: u32)
        ensures
            r == self.next_id(),
    {
        self.counter
    }

    /// A state without type variables.
    pub fn new() -> (s: TypeState)
        ensures
            s.wf(),
            s.next_id() == 0,
    {
        TypeState { vars: HashMap::new(), counter: 0, rank: Ghost(Map::empty()), bound: Ghost(0) }
    }

    /// Adds a fresh variable with no constraints, declared at `span`, and returns its id.
    pub fn new_type_var(&mut self, span: Span) -> (id: u32)
        requires
            old(self).wf(),
            old(self).next_id() < u32::MAX,
        ensures
            final(self).wf(),
            id == old(self).next_id(),
            final(self).next_id() == old(self).next_id() + 1,
            final(self).root(id) == id,
            final(self).data(id).bounds@ == Seq::<Generic>::empty(),
            final(self).data(id).usages@ == Seq::<TypeVarUsage>::empty(),
            final(self).data(id).explicit is None,
            final(self).data(id).resolved is None,
            final(self).data(id).span == span,
            forall|k: u32|
                old(self).valid(k) ==> final(self).root(k) == old(self).root(k) && final(self).data(k)
                    == old(self).data(k),
            !old(self).vars_view().contains_key(id),
            final(self).vars_view()[id] is Data,
            final(self).vars_view() == old(self).vars_view().insert(id, final(self).vars_view()[id]),
    {
        let id = self.counter;
        let new = MaybeTypeVar::Data(TypeVarData::new(span));
        self.add_var(id, new);
        id
    }

    /// Adds a fresh variable bounded by `generic` and returns its id; the generic's name gives the
    /// span.
    pub fn new_type_var_with_bound(&mut self, generic: Generic) -> (id: u32)
        requires
            old(self).wf(),
            old(self).next_id() < u32::MAX,
        ensures
            final(self).wf(),
            id == old(self).next_id(),
            final(self).next_id() == old(self).next_id() + 1,
            final(self).root(id) == id,
            final(self).data(id).bounds@ == seq![generic],
            final(self).data(id).usages@ == Seq::<TypeVarUsage>::empty(),
            final(self).data(id).explicit is None,
            final(self).data(id).resolved is None,
            final(self).data(id).span == generic.name.1,
            forall|k: u32|
                old(self).valid(k) ==> final(self).root(k) == old(self).root(k) && final(self).data(k)
                    == old(self).data(k),
    {
        let id = self.counter;
        let span = generic.name.1;
        let mut bounds = Vec::new();
        bounds.push(generic);
        let new = MaybeTypeVar::Data(
            TypeVarData { span, bounds, usages: Vec::new(), explicit: None, resolved: None },
        );
        self.add_var(id, new);
        id
    }

    fn add_var(&mut self, id: u32, new: MaybeTypeVar)
        requires
            old(self).wf(),
            old(self).counter < u32::MAX,
            id == old(self).counter,
            new is Data,
        ensures
            final(self).wf(),
            final(self).counter == old(self).counter + 1,
            final(self).vars@ == old(self).vars@.insert(id, new),
            final(self).root(id) == id,
            forall|k: u32|
                old(self).valid(k) ==> final(self).root(k) == old(self).root(k) && final(self).data(k)
                    == old(self).data(k),
    {
        let ghost pre = *self;
        self.vars.insert(id, new);
        self.counter = self.counter + 1;
        proof {
            self.rank@ = self.rank@.insert(id, 0);
            assert forall|k: u32| #[trigger] self.vars@.contains_key(k) && self.vars@[k] is Pointer implies {
                &&& self.vars@.contains_key(self.vars@[k]->Pointer_0)
                &&& self.rank@[k] < self.rank@[self.vars@[k]->Pointer_0]
            } by {
                assert(k != id);
                assert(pre.vars@.contains_key(k));
                assert(self.vars@[k]->Pointer_0 != id);
            }
            assert(self.wf());
            self.lemma_root(id);
            assert forall|k: u32| pre.valid(k) implies self.root(k) == pre.root(k) && self.data(k)
                == pre.data(k) by {
                pre.lemma_same_links_root(*self, k);
            }
        }
    }

    /// Where `a` and `b` agree on every pointer and rank, and `b` only adds variables, following
    /// pointers from an old id ends at the same root.
    proof fn lemma_same_links_root(self, other: TypeState, k: u32)
        requires
            self.wf(),
            other.wf(),
            self.vars@.contains_key(k),
            forall|j: u32| #[trigger]
                self.vars@.contains_key(j) ==> other.vars@.contains_key(j) && (self.vars@[j] is Pointer
                    <==> other.vars@[j] is Pointer) && (self.vars@[j] is Pointer
                    ==> self.vars@[j]->Pointer_0 == other.vars@[j]->Pointer_0) && (self.vars@[j] is Data
                    ==> j != self.root(k) || other.vars@[j] == self.vars@[j]),
        ensures
            other.root(k) == self.root(k),
            other.vars@[other.root(k)] == self.vars@[self.root(k)] || other.vars@[self.root(k)]
                == self.vars@[self.root(k)],
        decreases self.bound@ - self.rank@[k],
    {
        self.lemma_root(k);
        other.lemma_root(k);
        if let MaybeTypeVar::Pointer(next) = self.vars@[k] {
            self.lemma_root(next);
            self.lemma_same_links_root(other, next);
        }
    }

    fn get_data_pointer(&self, id: u32) -> (r: u32)
        requires
            self.wf(),
            self.valid(id),
        ensures
            r == self.root(id),
    {
        let mut current = id;
        proof {
            self.lemma_root(id);
        }
        loop
            invariant
                self.wf(),
                self.vars@.contains_key(current),
                self.root(current) == self.root(id),
            decreases self.bound@ - self.rank@[current],
        {
            proof {
                self.lemma_root(current);
            }
            match self.vars.get(&current) {
                Some(MaybeTypeVar::Pointer(next)) => {
                    current = *next;
                },
                _ => {
                    return current;
                },
            }
        }
    }

    /// The data of the variable `id` stands for.
    pub fn get_type_var(&self, id: u32) -> (r: &TypeVarData)
        requires
            self.wf(),
            self.valid(id),
        ensures
            *r == self.data(id),
    {
        let data_pointer = self.get_data_pointer(id);
        proof {
            self.lemma_root(id);
        }
        match self.vars.get(&data_pointer) {
            Some(MaybeTypeVar::Data(data)) => data,
            _ => {
                proof {
                    assert(false);
                }
                unreached()
            },
        }
    }
}


/// `new` is `old` with the data that `id` stands for changed and nothing else.
pub open spec fn only_data_of(old: TypeState, new: TypeState, id: u32) -> bool {
    &&& new.wf()
    &&& new.next_id() == old.next_id()
    &&& forall|k: u32| #[trigger] old.valid(k) ==> new.root(k) == old.root(k)
    &&& forall|k: u32|
        #[trigger] old.valid(k) && old.root(k) != old.root(id) ==> new.data(k) == old.data(k)
}

/// `new` is `old` after the variables of `first` and `second` were merged: the root of `second`
/// points to the root of `first`, which gathers the usages and bounds of both, in this order, and
/// keeps the explicit type of either.
pub open spec fn merged(old: TypeState, new: TypeState, first: u32, second: u32) -> bool {
    let r1 = old.root(first);
    let r2 = old.root(second);
    &&& new.wf()
    &&& new.next_id() == old.next_id()
    &&& if r1 == r2 {
        forall|k: u32| #[trigger] old.valid(k) ==> new.root(k) == old.root(k) && new.data(k) == old.data(k)
    } else {
        &&& forall|k: u32| #[trigger] old.valid(k) ==> new.root(k) == if old.root(k) == r2 {
            r1
        } else {
            old.root(k)
        }
        &&& new.data(first).usages@ == old.data(first).usages@ + old.data(second).usages@
        &&& new.data(first).bounds@ == old.data(first).bounds@ + old.data(second).bounds@
        &&& new.data(first).explicit == if old.data(first).explicit is Some {
            old.data(first).explicit
        } else {
            old.data(second).explicit
        }
        &&& new.data(first).resolved == old.data(first).resolved
        &&& new.data(first).span == old.data(first).span
        &&& forall|k: u32|
            #[trigger] old.valid(k) && old.root(k) != r1 && old.root(k) != r2 ==> new.data(k) == old.data(k)
    }
}

/// Whether merging `first` and `second` is defined: not both may carry an explicit type.
pub open spec fn can_merge(s: TypeState, first: u32, second: u32) -> bool {
    s.root(first) != s.root(second) ==> !(s.data(first).explicit is Some && s.data(second).explicit is Some)
}

impl TypeState {
    /// Takes the data out of the root `r`, leaving the state broken until it is put back.
    fn take_data(&mut self, r: u32) -> (d: TypeVarData)
        requires
            old(self).wf(),
            old(self).valid(r),
            old(self).vars@[r] is Data,
        ensures
            d == old(self).vars@[r]->Data_0,
            final(self).vars@ == old(self).vars@.remove(r),
            final(self).counter == old(self).counter,
            final(self).rank == old(self).rank,
            final(self).bound == old(self).bound,
    {
        match self.vars.remove(&r) {
            Some(MaybeTypeVar::Data(d)) => d,
            _ => {
                proof {
                    assert(old(self).vars@.contains_key(r));
                }
                unreached()
            },
        }
    }

    /// Puts data back at the root `r` it was taken from.
    fn restore_data(&mut self, r: u32, d: TypeVarData, Ghost(pre): Ghost<TypeState>)
        requires
            pre.wf(),
            pre.valid(r),
            pre.vars@[r] is Data,
            old(self).vars@ == pre.vars@.remove(r),
            old(self).counter == pre.counter,
            old(self).rank == pre.rank,
            old(self).bound == pre.bound,
        ensures
            final(self).vars@ == pre.vars@.insert(r, MaybeTypeVar::Data(d)),
            final(self).wf(),
            final(self).next_id() == pre.next_id(),
            forall|k: u32| #[trigger] pre.valid(k) ==> final(self).root(k) == pre.root(k),
            forall|k: u32|
                #[trigger] pre.valid(k) ==> final(self).data(k) == if pre.root(k) == r {
                    d
                } else {
                    pre.data(k)
                },
    {
        self.vars.insert(r, MaybeTypeVar::Data(d));
        proof {
            assert(self.vars@ =~= pre.vars@.insert(r, MaybeTypeVar::Data(d)));
            assert forall|k: u32| #[trigger] self.vars@.contains_key(k) && self.vars@[k] is Pointer implies {
                &&& self.vars@.contains_key(self.vars@[k]->Pointer_0)
                &&& self.rank@[k] < self.rank@[self.vars@[k]->Pointer_0]
            } by {
                assert(pre.vars@.contains_key(k));
            }
            assert forall|k: u32| #[trigger] pre.valid(k) implies self.root(k) == pre.root(k)
                && self.data(k) == if pre.root(k) == r {
                d
            } else {
                pre.data(k)
            } by {
                pre.lemma_update_root(*self, k, r);
            }
        }
    }

    proof fn lemma_update_root(self, other: TypeState, k: u32, r: u32)
        requires
            self.wf(),
            other.wf(),
            self.valid(k),
            self.vars@.contains_key(r),
            self.vars@[r] is Data,
            other.vars@[r] is Data,
            other.rank == self.rank,
            other.bound == self.bound,
            forall|j: u32| #[trigger] self.vars@.contains_key(j) <==> other.vars@.contains_key(j),
            forall|j: u32| #[trigger] self.vars@.contains_key(j) && j != r ==> other.vars@[j] == self.vars@[j],
        ensures
            other.root(k) == self.root(k),
        decreases self.depth(k),
    {
        assert(self.vars@.contains_key(k));
        self.lemma_root(k);
        other.lemma_root(k);
        if let MaybeTypeVar::Pointer(next) = self.vars@[k] {
            assert(self.vars@.contains_key(k));
            self.lemma_update_root(other, next, r);
        }
    }

    /// Replaces the data of `id` by the result of `change`, the only change to the state.
    fn take_root(&mut self, id: u32) -> (res: (u32, TypeVarData, Ghost<TypeState>))
        requires
            old(self).wf(),
            old(self).valid(id),
        ensures
            res.0 == old(self).root(id),
            res.1 == old(self).data(id),
            res.2@ == *old(self),
            old(self).valid(res.0),
            old(self).vars@[res.0] is Data,
            final(self).vars@ == old(self).vars@.remove(res.0),
            final(self).counter == old(self).counter,
            final(self).rank == old(self).rank,
            final(self).bound == old(self).bound,
    {
        let ghost pre = *self;
        let r = self.get_data_pointer(id);
        proof {
            self.lemma_root(id);
            assert(self.vars@.contains_key(r));
        }
        let d = self.take_data(r);
        (r, d, Ghost(pre))
    }

    /// Records the explicitly written type of the variable `id`.
    pub fn add_explicit_type(&mut self, id: u32, ty: Spanned<Ty>)
        requires
            old(self).wf(),
            old(self).valid(id),
        ensures
            only_data_of(*old(self), *final(self), id),
            final(self).data(id) == (TypeVarData { explicit: Some(ty), ..old(self).data(id) }),
    {
        let (r, mut var, pre) = self.take_root(id);
        var.explicit = Some(ty);
        self.restore_data(r, var, pre);
    }

    /// Adds the bound `bound` to the variable `id`.
    pub fn add_bound(&mut self, id: u32, bound: Generic)
        requires
            old(self).wf(),
            old(self).valid(id),
        ensures
            only_data_of(*old(self), *final(self), id),
            final(self).data(id) == (TypeVarData { bounds: final(self).data(id).bounds, ..old(self).data(id) }),
            final(self).data(id).bounds@ == old(self).data(id).bounds@.push(bound),
    {
        let (r, mut var, pre) = self.take_root(id);
        var.bounds.push(bound);
        self.restore_data(r, var, pre);
    }

    /// Records that the variable `id` stands for an expression, known by its span.
    pub fn expect_var_is_expr(&mut self, id: u32, expr: Span)
        requires
            old(self).wf(),
            old(self).valid(id),
        ensures
            only_data_of(*old(self), *final(self), id),
            final(self).data(id) == (TypeVarData { usages: final(self).data(id).usages, ..old(self).data(id) }),
            final(self).data(id).usages@ == old(self).data(id).usages@.push(TypeVarUsage::VarIsExpr(expr)),
    {
        let (r, mut var, pre) = self.take_root(id);
        var.usages.push(TypeVarUsage::VarIsExpr(expr));
        self.restore_data(r, var, pre);
    }

    /// Records that an expression, known by its span, is expected to be of the variable `id`.
    pub fn expect_expr_is_var(&mut self, id: u32, expr: Span)
        requires
            old(self).wf(),
            old(self).valid(id),
        ensures
            only_data_of(*old(self), *final(self), id),
            final(self).data(id) == (TypeVarData { usages: final(self).data(id).usages, ..old(self).data(id) }),
            final(self).data(id).usages@ == old(self).data(id).usages@.push(TypeVarUsage::ExprIsVar(expr)),
    {
        let (r, mut var, pre) = self.take_root(id);
        var.usages.push(TypeVarUsage::ExprIsVar(expr));
        self.restore_data(r, var, pre);
    }
}

impl TypeState {
    proof fn lemma_merge_root(o: TypeState, n: TypeState, r1: u32, r2: u32, k: u32)
        requires
            o.wf(),
            n.wf(),
            r1 != r2,
            o.vars@.contains_key(r1),
            o.vars@.contains_key(r2),
            o.vars@[r1] is Data,
            o.vars@[r2] is Data,
            n.vars@ == o.vars@.insert(r2, MaybeTypeVar::Pointer(r1)),
            o.valid(k),
        ensures
            n.root(k) == if o.root(k) == r2 {
                r1
            } else {
                o.root(k)
            },
        decreases o.depth(k),
    {
        assert(o.vars@.contains_key(k));
        assert(n.vars@.contains_key(k));
        o.lemma_root(k);
        n.lemma_root(k);
        match o.vars@[k] {
            MaybeTypeVar::Pointer(t) => {
                assert(k != r2);
                Self::lemma_merge_root(o, n, r1, r2, t);
            },
            MaybeTypeVar::Data(_) => {
                if k == r2 {
                    assert(n.vars@.contains_key(r1));
                    n.lemma_root(r1);
                }
            },
        }
    }

    /// Merges the variables of `first` and `second`: afterwards both stand for the same data, which
    /// gathers what was known of each.
    pub fn merge(&mut self, first: u32, second: u32)
        requires
            old(self).wf(),
            old(self).valid(first),
            old(self).valid(second),
            can_merge(*old(self), first, second),
        ensures
            merged(*old(self), *final(self), first, second),
            old(self).root(first) == old(self).root(second) ==> *final(self) == *old(self),
            old(self).root(first) != old(self).root(second) ==> {
                &&& final(self).vars_view()[old(self).root(first)] is Data
                &&& final(self).vars_view() == old(self).vars_view().insert(
                    old(self).root(second),
                    MaybeTypeVar::Pointer(old(self).root(first)),
                ).insert(old(self).root(first), final(self).vars_view()[old(self).root(first)])
            },
    {
        let ghost o = *self;
        let r1 = self.get_data_pointer(first);
        let r2 = self.get_data_pointer(second);
        if r1 == r2 {
            return;
        }
        proof {
            o.lemma_root(first);
            o.lemma_root(second);
            assert(o.vars@.contains_key(r1));
            assert(o.vars@.contains_key(r2));
        }
        let replaced = self.vars.insert(r2, MaybeTypeVar::Pointer(r1));
        proof {
            let new_rank = if o.rank@[r1] > o.rank@[r2] + 1 {
                o.rank@[r1]
            } else {
                (o.rank@[r2] + 1) as nat
            };
            self.rank@ = o.rank@.insert(r1, new_rank);
            self.bound@ = if o.bound@ > new_rank {
                o.bound@
            } else {
                new_rank
            };
            assert forall|k: u32| #[trigger] self.vars@.contains_key(k) && self.vars@[k] is Pointer implies {
                &&& self.vars@.contains_key(self.vars@[k]->Pointer_0)
                &&& self.rank@[k] < self.rank@[self.vars@[k]->Pointer_0]
            } by {
                assert(o.vars@.contains_key(k));
                if k != r2 {
                    assert(o.vars@.contains_key(o.vars@[k]->Pointer_0));
                }
            }
            assert(self.wf());
            assert forall|k: u32| #[trigger] o.valid(k) implies self.root(k) == if o.root(k) == r2 {
                r1
            } else {
                o.root(k)
            } by {
                Self::lemma_merge_root(o, *self, r1, r2, k);
            }
            assert(self.vars@.contains_key(r1));
            self.lemma_root(r1);
        }
        let mut second_data = replaced.unwrap().unwrap();
        let ghost mid = *self;
        proof {
            assert(mid.vars@ == o.vars@.insert(r2, MaybeTypeVar::Pointer(r1)));
        }
        let (r, mut first_data, pre) = self.take_root(r1);
        let ghost d1 = first_data;
        let ghost d2 = second_data;
        first_data.usages.append(&mut second_data.usages);
        first_data.bounds.append(&mut second_data.bounds);
        let e1 = first_data.explicit.take();
        let e2 = second_data.explicit.take();
        let explicit = match (e1, e2) {
            (None, None) => None,
            (None, Some(ty)) | (Some(ty), None) => Some(ty),
            (Some(_), Some(_)) => {
                proof {
                    o.lemma_root(first);
                }
                unreached()
            },
        };
        first_data.explicit = explicit;
        self.restore_data(r, first_data, pre);
        proof {
            assert forall|k: u32| #[trigger] o.valid(k) implies self.root(k) == if o.root(k) == r2 {
                r1
            } else {
                o.root(k)
            } by {
                assert(mid.root(k) == if o.root(k) == r2 {
                    r1
                } else {
                    o.root(k)
                });
            }
            assert forall|k: u32| #[trigger]
                o.valid(k) && o.root(k) != r1 && o.root(k) != r2 implies self.data(k) == o.data(k) by {
                assert(mid.root(k) == o.root(k));
                o.lemma_root(k);
            }
        }
    }

    /// Records that the variable `id` is expected to be of type `ty`; a type variable is merged
    /// into `id` instead.
    pub fn expected_var_is_ty(&mut self, id: u32, ty: Ty, span: Span)
        requires
            old(self).wf(),
            old(self).valid(id),
            ty matches Ty::TypeVar { id: second } ==> old(self).valid(second) && can_merge(*old(self), id, second),
        ensures
            match ty {
                Ty::TypeVar { id: second } => merged(*old(self), *final(self), id, second),
                _ => {
                    &&& only_data_of(*old(self), *final(self), id)
                    &&& final(self).data(id) == (TypeVarData { usages: final(self).data(id).usages, ..old(self).data(id) })
                    &&& final(self).data(id).usages@ == old(self).data(id).usages@.push(TypeVarUsage::VarIsTy((ty, span)))
                },
            },
    {
        if let Ty::TypeVar { id: second } = ty {
            self.merge(id, second);
            return;
        }
        let (r, mut var, pre) = self.take_root(id);
        var.usages.push(TypeVarUsage::VarIsTy((ty, span)));
        self.restore_data(r, var, pre);
    }

    /// Records that type `ty` is expected to be of the variable `id`; a type variable is merged
    /// into `id` instead.
    pub fn expected_ty_is_var(&mut self, id: u32, ty: Ty, span: Span)
        requires
            old(self).wf(),
            old(self).valid(id),
            ty matches Ty::TypeVar { id: second } ==> old(self).valid(second) && can_merge(*old(self), id, second),
        ensures
            match ty {
                Ty::TypeVar { id: second } => merged(*old(self), *final(self), id, second),
                _ => {
                    &&& only_data_of(*old(self), *final(self), id)
                    &&& final(self).data(id) == (TypeVarData { usages: final(self).data(id).usages, ..old(self).data(id) })
                    &&& final(self).data(id).usages@ == old(self).data(id).usages@.push(TypeVarUsage::TyIsVar((ty, span)))
                },
            },
    {
        if let Ty::TypeVar { id: second } = ty {
            self.merge(id, second);
            return;
        }
        let (r, mut var, pre) = self.take_root(id);
        var.usages.push(TypeVarUsage::TyIsVar((ty, span)));
        self.restore_data(r, var, pre);
    }
}

impl MaybeTypeVar {
    fn unwrap(self) -> (r: TypeVarData)
        requires
            self is Data,
        ensures
            r == self->Data_0,
    {
        match self {
            MaybeTypeVar::Data(data) => data,
            MaybeTypeVar::Pointer(_) => {
                proof {
                    assert(false);
                }
                unreached()
            },
        }
    }
}

impl TypeState {
    /// The type the variable `id` settles on, from the first usage of its data.
    pub fn resolved_ty(&self, id: u32) -> (r: Ty)
        requires
            self.wf(),
            self.valid(id),
        ensures
            r@ == resolved_model(self.data(id)),
    {
        let d = self.get_type_var(id);
        if d.usages.len() == 0 {
            return Ty::Unknown;
        }
        match &d.usages[0] {
            TypeVarUsage::VarIsTy(t) | TypeVarUsage::TyIsVar(t) => t.0.deep_clone(),
            _ => Ty::Unknown,
        }
    }
}

/// The type that resolution settles on: that of the first usage, or the unknown type where there is
/// none.
pub open spec fn resolved_model(d: TypeVarData) -> TyModel {
    if d.usages@.len() == 0 {
        TyModel::Unknown
    } else {
        match d.usages@[0] {
            TypeVarUsage::VarIsTy(t) => t.0@,
            TypeVarUsage::TyIsVar(t) => t.0@,
            _ => TyModel::Unknown,
        }
    }
}

impl TypeVarData {
    /// Settles the type of the variable from its first usage; without usages it is unknown. A first
    /// usage that relates the variable to an expression is not handled.
    pub fn resolve(&mut self)
        requires
            old(self).usages@.len() > 0 ==> (old(self).usages@[0] is VarIsTy || old(self).usages@[0] is TyIsVar),
        ensures
            *final(self) == (TypeVarData { resolved: final(self).resolved, ..*old(self) }),
            final(self).resolved matches Some(t) && t@ == resolved_model(*old(self)),
    {
        if let Some(ty) = &self.explicit {
            self.resolved = Some(ty.0.deep_clone());
        }
        if self.usages.len() > 0 {
            let resolved = match &self.usages[0] {
                TypeVarUsage::VarIsTy(ty) | TypeVarUsage::TyIsVar(ty) => Some(ty.0.deep_clone()),
                _ => unreached(),
            };
            self.resolved = resolved;
        } else {
            self.resolved = Some(Ty::Unknown);
        }
    }

    /// The data of a fresh variable declared at `span`.
    fn new(span: Span) -> (r: TypeVarData)
        ensures
            r.bounds@ == Seq::<Generic>::empty(),
            r.usages@ == Seq::<TypeVarUsage>::empty(),
            r.explicit is None,
            r.resolved is None,
            r.span == span,
    {
        TypeVarData {
            bounds: Vec::new(),
            usages: Vec::new(),
            explicit: None,
            resolved: None,
            span,
        }
    }
}

} // verus!

verus! {

impl TypeState {
    /// The root of a variable is a variable of the state and its own root.
    pub proof fn lemma_root_valid(self, id: u32)
        requires
            self.wf(),
            self.valid(id),
        ensures
            self.valid(self.root(id)),
            self.root(self.root(id)) == self.root(id),
    {
        assert(self.vars@.contains_key(id));
        self.lemma_root(id);
        self.lemma_root(self.root(id));
    }
}

/// After a merge the two variables stand for the same data.
pub proof fn law_merge_joins(old: TypeState, new: TypeState, first: u32, second: u32)
    requires
        old.wf(),
        old.valid(first),
        old.valid(second),
        merged(old, new, first, second),
    ensures
        new.root(first) == new.root(second),
        new.data(first) == new.data(second),
{
    old.lemma_root_valid(first);
    old.lemma_root_valid(second);
}

/// A merge of two variables that already stand for the same data changes nothing.
pub proof fn law_merge_idempotent(old: TypeState, new: TypeState, first: u32, second: u32)
    requires
        old.wf(),
        old.valid(first),
        old.valid(second),
        old.root(first) == old.root(second),
        merged(old, new, first, second),
    ensures
        forall|k: u32| #[trigger] old.valid(k) ==> new.root(k) == old.root(k) && new.data(k) == old.data(k),
{
}

/// A new variable shares its data with no variable that existed before.
pub proof fn law_new_var_is_fresh(old: TypeState, new: TypeState, id: u32, k: u32)
    requires
        old.wf(),
        old.valid(k),
        id == old.next_id(),
        new.root(id) == id,
        forall|j: u32| #[trigger] old.valid(j) ==> new.root(j) == old.root(j),
    ensures
        new.root(k) != new.root(id),
{
    old.lemma_root_valid(k);
}

/// Merging never loses a usage: the merged variable has those of both.
pub proof fn law_merge_keeps_usages(old: TypeState, new: TypeState, first: u32, second: u32)
    requires
        old.wf(),
        old.valid(first),
        old.valid(second),
        old.root(first) != old.root(second),
        merged(old, new, first, second),
    ensures
        new.data(second).usages@.len() == old.data(first).usages@.len() + old.data(second).usages@.len(),
{
    law_merge_joins(old, new, first, second);
}

} // verus!
