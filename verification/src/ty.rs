use vstd::prelude::*;

use crate::db::path::ModulePath;
use crate::util::{Span, Spanned};

verus! {

broadcast use vstd::std_specs::vec::group_vec_axioms;

/// A generic parameter: its name and the type that bounds it from above.
pub struct Generic {
    pub name: Spanned<String>,
    pub super_: Box<Ty>,
}

/// A nominal type applied to its type arguments.
pub struct Named {
    pub name: ModulePath,
    pub args: Vec<Ty>,
}

/// The type of a function, with the receiver type of methods.
pub struct FuncTy {
    pub receiver: Option<Box<Ty>>,
    pub args: Vec<Ty>,
    pub ret: Box<Ty>,
}

/// Types as the checker computes them.
pub enum Ty {
    Any,
    Unknown,
    Nothing,
    Named(Named),
    Generic(Generic),
    TypeVar { id: u32 },
    Function(FuncTy),
    Tuple(Vec<Ty>),
    Sum(Vec<Ty>),
    Meta(Box<Ty>),
}

/// The mathematical value of a [`Generic`].
pub struct GenericModel {
    pub name: Seq<char>,
    pub span: Span,
    pub super_: Box<TyModel>,
}

/// The mathematical value of a [`Ty`]: strings as character sequences and lists as sequences.
pub enum TyModel {
    Any,
    Unknown,
    Nothing,
    Named(Seq<Seq<char>>, Seq<TyModel>),
    Generic(GenericModel),
    TypeVar(u32),
    Function(Option<Box<TyModel>>, Seq<TyModel>, Box<TyModel>),
    Tuple(Seq<TyModel>),
    Sum(Seq<TyModel>),
    Meta(Box<TyModel>),
}

pub open spec fn ty_view(t: Ty) -> TyModel
    decreases t,
{
    match t {
        Ty::Any => TyModel::Any,
        Ty::Unknown => TyModel::Unknown,
        Ty::Nothing => TyModel::Nothing,
        Ty::Named(n) => TyModel::Named(
            n.name@,
            Seq::new(
                n.args@.len(),
                |i: int|
                    if 0 <= i < n.args@.len() {
                        ty_view(n.args[i])
                    } else {
                        TyModel::Unknown
                    },
            ),
        ),
        Ty::Generic(g) => TyModel::Generic(
            GenericModel { name: g.name.0@, span: g.name.1, super_: Box::new(ty_view(*g.super_)) },
        ),
        Ty::TypeVar { id } => TyModel::TypeVar(id),
        Ty::Function(f) => TyModel::Function(
            match f.receiver {
                Some(r) => Some(Box::new(ty_view(*r))),
                None => None,
            },
            Seq::new(
                f.args@.len(),
                |i: int|
                    if 0 <= i < f.args@.len() {
                        ty_view(f.args[i])
                    } else {
                        TyModel::Unknown
                    },
            ),
            Box::new(ty_view(*f.ret)),
        ),
        Ty::Tuple(tys) => TyModel::Tuple(
            Seq::new(
                tys@.len(),
                |i: int|
                    if 0 <= i < tys@.len() {
                        ty_view(tys[i])
                    } else {
                        TyModel::Unknown
                    },
            ),
        ),
        Ty::Sum(tys) => TyModel::Sum(
            Seq::new(
                tys@.len(),
                |i: int|
                    if 0 <= i < tys@.len() {
                        ty_view(tys[i])
                    } else {
                        TyModel::Unknown
                    },
            ),
        ),
        Ty::Meta(b) => TyModel::Meta(Box::new(ty_view(*b))),
    }
}

/// The model of a type that holds a list of types holds their models.
pub proof fn lemma_view_parts(t: Ty)
    ensures
        t matches Ty::Named(n) ==> t@ == TyModel::Named(n.name@, tys_view(n.args@)),
        t matches Ty::Tuple(v) ==> t@ == TyModel::Tuple(tys_view(v@)),
        t matches Ty::Sum(v) ==> t@ == TyModel::Sum(tys_view(v@)),
        t matches Ty::Function(f) ==> t@->Function_1 == tys_view(f.args@),
{
    match t {
        Ty::Named(n) => {
            assert(t@->Named_1 =~= tys_view(n.args@));
        },
        Ty::Tuple(v) => {
            assert(t@->Tuple_0 =~= tys_view(v@));
        },
        Ty::Sum(v) => {
            assert(t@->Sum_0 =~= tys_view(v@));
        },
        Ty::Function(f) => {
            assert(t@->Function_1 =~= tys_view(f.args@));
        },
        _ => {},
    }
}

/// The models of a list of types.
pub open spec fn tys_view(s: Seq<Ty>) -> Seq<TyModel> {
    Seq::new(s.len(), |i: int| ty_view(s[i]))
}

impl View for Ty {
    type V = TyModel;

    #[verifier::inline]
    open spec fn view(&self) -> TyModel {
        ty_view(*self)
    }
}

impl View for Generic {
    type V = GenericModel;

    #[verifier::inline]
    open spec fn view(&self) -> GenericModel {
        GenericModel { name: self.name.0@, span: self.name.1, super_: Box::new(ty_view(*self.super_)) }
    }
}

/// The model of a function type.
pub open spec fn func_view(f: FuncTy) -> TyModel {
    ty_view(Ty::Function(f))
}

/// The qualified path of a type of the standard module.
pub open spec fn std_path(name: Seq<char>) -> Seq<Seq<char>> {
    seq!["std"@, name]
}

pub open spec fn spec_unit() -> TyModel {
    TyModel::Tuple(Seq::empty())
}

pub open spec fn spec_std_named(name: Seq<char>) -> TyModel {
    TyModel::Named(std_path(name), Seq::empty())
}

/// Makes a named type of the standard module without type arguments.
pub fn std_named(name: &str) -> (t: Ty)
    ensures
        t@ == spec_std_named(name@),
{
    let mut segs: Vec<String> = Vec::new();
    segs.push(String::from_str("std"));
    segs.push(String::from_str(name));
    let t = Ty::Named(Named { name: ModulePath::new(segs), args: Vec::new() });
    proof {
        reveal_strlit("std");
        assert(crate::util::strings_view(segs@) =~= std_path(name@));
        lemma_view_parts(t);
        assert(t@->Named_1 =~= Seq::<TyModel>::empty());
    }
    t
}

impl Ty {
    /// The empty tuple, the type of statements and of functions without result.
    pub fn unit() -> (t: Ty)
        ensures
            t@ == spec_unit(),
    {
        let t = Ty::Tuple(Vec::new());
        proof {
            assert(t@->Tuple_0 =~= Seq::<TyModel>::empty());
        }
        t
    }

    /// The type of booleans.
    pub fn bool() -> (t: Ty)
        ensures
            t@ == spec_std_named("Bool"@),
    {
        std_named("Bool")
    }

    /// A copy of the type.
    pub fn deep_clone(&self) -> (r: Ty)
        ensures
            r@ == self@,
        decreases self,
    {
        match self {
            Ty::Any => Ty::Any,
            Ty::Unknown => Ty::Unknown,
            Ty::Nothing => Ty::Nothing,
            Ty::Named(n) => {
                let args = clone_tys(&n.args);
                let r = Ty::Named(Named { name: n.name.copy(), args });
                proof {
                    lemma_view_parts(*self);
                    lemma_view_parts(r);
                }
                r
            },
            Ty::Generic(g) => Ty::Generic(g.deep_clone()),
            Ty::TypeVar { id } => Ty::TypeVar { id: *id },
            Ty::Function(f) => Ty::Function(f.deep_clone()),
            Ty::Tuple(tys) => {
                let c = clone_tys(tys);
                let r = Ty::Tuple(c);
                proof {
                    lemma_view_parts(*self);
                    lemma_view_parts(r);
                }
                r
            },
            Ty::Sum(tys) => {
                let c = clone_tys(tys);
                let r = Ty::Sum(c);
                proof {
                    lemma_view_parts(*self);
                    lemma_view_parts(r);
                }
                r
            },
            Ty::Meta(b) => Ty::Meta(Box::new((&**b).deep_clone())),
        }
    }

    /// Structural equality of types.
    pub fn equals(&self, other: &Ty) -> (b: bool)
        ensures
            b == (self@ == other@),
        decreases self,
    {
        proof {
            lemma_view_parts(*self);
            lemma_view_parts(*other);
        }
        match (self, other) {
            (Ty::Any, Ty::Any) => true,
            (Ty::Unknown, Ty::Unknown) => true,
            (Ty::Nothing, Ty::Nothing) => true,
            (Ty::Named(a), Ty::Named(b)) => {
                let same_name = a.name.same(&b.name);
                let same_args = tys_equal(&a.args, &b.args);
                same_name && same_args
            },
            (Ty::Generic(a), Ty::Generic(b)) => a.equals(b),
            (Ty::TypeVar { id: a }, Ty::TypeVar { id: b }) => *a == *b,
            (Ty::Function(a), Ty::Function(b)) => a.equals(b),
            (Ty::Tuple(a), Ty::Tuple(b)) => tys_equal(a, b),
            (Ty::Sum(a), Ty::Sum(b)) => tys_equal(a, b),
            (Ty::Meta(a), Ty::Meta(b)) => (&**a).equals((&**b)),
            _ => false,
        }
    }
}

impl Generic {
    pub fn deep_clone(&self) -> (r: Generic)
        ensures
            r@ == self@,
        decreases self,
    {
        Generic {
            name: (self.name.0.clone(), self.name.1),
            super_: Box::new((&*self.super_).deep_clone()),
        }
    }

    pub fn equals(&self, other: &Generic) -> (b: bool)
        ensures
            b == (ty_view(Ty::Generic(*self)) == ty_view(Ty::Generic(*other))),
        decreases self,
    {
        self.name.0 == other.name.0 && self.name.1 == other.name.1 && (&*self.super_).equals(
            (&*other.super_),
        )
    }
}

impl FuncTy {
    pub fn deep_clone(&self) -> (r: FuncTy)
        ensures
            func_view(r) == func_view(*self),
        decreases self,
    {
        let receiver = match &self.receiver {
            Some(r) => Some(Box::new((&**r).deep_clone())),
            None => None,
        };
        let args = clone_tys(&self.args);
        let r = FuncTy { receiver, args, ret: Box::new((&*self.ret).deep_clone()) };
        proof {
            lemma_view_parts(Ty::Function(*self));
            lemma_view_parts(Ty::Function(r));
        }
        r
    }

    pub fn equals(&self, other: &FuncTy) -> (b: bool)
        ensures
            b == (func_view(*self) == func_view(*other)),
        decreases self,
    {
        let same_receiver = match (&self.receiver, &other.receiver) {
            (Some(a), Some(b)) => (&**a).equals((&**b)),
            (None, None) => true,
            _ => false,
        };
        let same_args = tys_equal(&self.args, &other.args);
        let same_ret = (&*self.ret).equals((&*other.ret));
        proof {
            lemma_view_parts(Ty::Function(*self));
            lemma_view_parts(Ty::Function(*other));
        }
        same_receiver && same_args && same_ret
    }
}

/// Copies a list of types.
pub fn clone_tys(v: &Vec<Ty>) -> (r: Vec<Ty>)
    ensures
        tys_view(r@) == tys_view(v@),
    decreases v,
{
    let mut r: Vec<Ty> = Vec::new();
    let mut i: usize = 0;
    while i < v.len()
        invariant
            i <= v.len(),
            r@.len() == i,
            forall|j: int| 0 <= j < i ==> r@[j]@ == v@[j]@,
        decreases v.len() - i,
    {
        proof {
            assert(decreases_to!(v => v@[i as int]));
        }
        r.push(v[i].deep_clone());
        i = i + 1;
    }
    proof {
        assert(tys_view(r@) =~= tys_view(v@));
    }
    r
}

/// Element-wise equality of two lists of types.
pub fn tys_equal(a: &Vec<Ty>, b: &Vec<Ty>) -> (r: bool)
    ensures
        r == (tys_view(a@) == tys_view(b@)),
    decreases a,
{
    if a.len() != b.len() {
        proof {
            assert(tys_view(a@).len() != tys_view(b@).len());
        }
        return false;
    }
    let mut i: usize = 0;
    while i < a.len()
        invariant
            a.len() == b.len(),
            i <= a.len(),
            forall|j: int| 0 <= j < i ==> a@[j]@ == b@[j]@,
        decreases a.len() - i,
    {
        proof {
            assert(decreases_to!(a => a@[i as int]));
        }
        if !a[i].equals(&b[i]) {
            proof {
                assert(tys_view(a@)[i as int] != tys_view(b@)[i as int]);
            }
            return false;
        }
        i = i + 1;
    }
    proof {
        assert(tys_view(a@) =~= tys_view(b@));
    }
    true
}

} // verus!

verus! {

/// The models of a list of generics.
pub open spec fn generics_view(s: Seq<Generic>) -> Seq<GenericModel> {
    Seq::new(s.len(), |i: int| s[i]@)
}

/// Copies a list of generics.
pub fn clone_generics(v: &Vec<Generic>) -> (r: Vec<Generic>)
    ensures
        generics_view(r@) == generics_view(v@),
{
    let mut r: Vec<Generic> = Vec::new();
    let mut i: usize = 0;
    while i < v.len()
        invariant
            i <= v.len(),
            r@.len() == i,
            forall|j: int| 0 <= j < i ==> r@[j]@ == v@[j]@,
        decreases v.len() - i,
    {
        r.push(v[i].deep_clone());
        i = i + 1;
    }
    proof {
        assert(generics_view(r@) =~= generics_view(v@));
    }
    r
}

impl Ty {
    /// The model of `Ty::Generic(g)` is the generic's model.
    pub proof fn lemma_generic_view(g: Generic)
        ensures
            ty_view(Ty::Generic(g)) == TyModel::Generic(g@),
    {
    }
}

} // verus!
