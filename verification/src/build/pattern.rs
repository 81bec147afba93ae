use vstd::prelude::*;

use crate::build::{build_frame, count_u32, extend, BuildError, BuildState, ByteCode};
use crate::db::decl::struct_::StructDecl;
use crate::db::decl::{Decl, DeclKind};
use crate::ir::common::pattern::{PatternIR, StructFieldPatternIR};
use crate::ir::expr::ident::{IdentDef, SpannedQualifiedNameIR};
use crate::parser::ast::Literal;
use crate::ty::Ty;
use crate::util::Spanned;

verus! {

broadcast use vstd::std_specs::vec::group_vec_axioms;

/// The declaration the last segment of a pattern's path refers to.
fn last_decl<'db>(name: &SpannedQualifiedNameIR<'db>) -> (r: Result<&'db Decl, BuildError>)
    ensures
        match r {
            Ok(d) => name@.len() >= 1 && name@.last().0 == IdentDef::Decl(d) && last_decl_of(name@) == Some(d),
            Err(e) => e == BuildError::Unsupported && last_decl_of(name@) is None,
        },
{
    if name.len() == 0 {
        return Err(BuildError::Unsupported);
    }
    match &name[name.len() - 1].0 {
        IdentDef::Decl(d) => Ok(*d),
        _ => Err(BuildError::Unsupported),
    }
}

/// The named fields of a struct or member declaration.
fn decl_fields(d: &Decl) -> (r: Result<&Vec<(String, Ty)>, BuildError>)
    ensures
        match r {
            Ok(fs) => fields_of(*d) == Some(*fs),
            Err(e) => e == BuildError::Unsupported && fields_of(*d) is None,
        },
{
    match &d.kind {
        DeclKind::Struct { body: StructDecl::Fields(fs), .. } => Ok(fs),
        DeclKind::Member { body: StructDecl::Fields(fs) } => Ok(fs),
        _ => Err(BuildError::Unsupported),
    }
}

/// The position of the first field named `name`.
pub open spec fn field_pos(fields: Seq<(String, Ty)>, name: Seq<char>) -> Option<int>
    decreases fields.len(),
{
    if fields.len() == 0 {
        None
    } else if fields[0].0@ == name {
        Some(0)
    } else {
        match field_pos(fields.skip(1), name) {
            Some(i) => Some(i + 1),
            None => None,
        }
    }
}

/// The place of the field `name` on the stack: fields lie in reverse order, so the last field is
/// at index 0.
pub open spec fn slot_of(fields: Seq<(String, Ty)>, name: Seq<char>) -> Result<u32, BuildError> {
    match field_pos(fields, name) {
        Some(p) => if fields.len() - p - 1 <= u32::MAX {
            Ok((fields.len() - p - 1) as u32)
        } else {
            Err(BuildError::TooLarge)
        },
        None => Err(BuildError::Unsupported),
    }
}

/// The place of the field `name` on the stack.
pub(crate) fn field_slot(fields: &Vec<(String, Ty)>, name: &str) -> (r: Result<u32, BuildError>)
    ensures
        r == slot_of(fields@, name@),
{
    let mut p: usize = 0;
    proof {
        assert(fields@.skip(0) =~= fields@);
    }
    while p < fields.len()
        invariant
            p <= fields@.len(),
            field_pos(fields@, name@) == match field_pos(fields@.skip(p as int), name@) {
                Some(k) => Some(k + p),
                None => None::<int>,
            },
        decreases fields@.len() - p,
    {
        proof {
            assert(fields@.skip(p as int).skip(1) =~= fields@.skip(p + 1));
        }
        if crate::db::decl::str_eq(fields[p].0.as_str(), name) {
            return count_u32(fields.len() - p - 1);
        }
        p = p + 1;
    }
    Err(BuildError::Unsupported)
}

/// The id after `c`, wrapping at the end of the range.
pub open spec fn next_id(c: u32) -> u32 {
    if c == u32::MAX {
        0
    } else {
        (c + 1) as u32
    }
}

/// The declaration the last segment of a path refers to.
pub open spec fn last_decl_of<'db>(name: Seq<Spanned<IdentDef<'db>>>) -> Option<&'db Decl> {
    if name.len() >= 1 {
        match name.last().0 {
            IdentDef::Decl(d) => Some(d),
            _ => None,
        }
    } else {
        None
    }
}

/// The named fields of a struct or member declaration.
pub open spec fn fields_of(d: Decl) -> Option<Vec<(String, Ty)>> {
    match d.kind {
        DeclKind::Struct { body: StructDecl::Fields(fs), .. } => Some(fs),
        DeclKind::Member { body: StructDecl::Fields(fs) } => Some(fs),
        _ => None,
    }
}

/// What binding a pattern produces from the id counter `c`: the instructions or the error that
/// stopped it, the locals declared (also on failure, as far as it got) and the counter after.
pub struct Bound {
    pub code: Result<Seq<ByteCode>, BuildError>,
    pub binds: Seq<(String, u32)>,
    pub counter: u32,
}

/// Appends the binding of one more part after `a`, unless `a` failed.
pub open spec fn then_bind(a: Bound, pre: Seq<ByteCode>, b: Bound) -> Bound {
    match a.code {
        Ok(x) => Bound {
            code: match b.code {
                Ok(y) => Ok(x + pre + y),
                Err(e) => Err(e),
            },
            binds: a.binds + b.binds,
            counter: b.counter,
        },
        Err(_) => a,
    }
}

/// The binding of a pattern from the value on top of the stack.
pub open spec fn bind_model(p: PatternIR, c: u32) -> Bound
    decreases p,
{
    match p {
        PatternIR::Name(n) => Bound { code: Ok(seq![ByteCode::NewLocal(c)]), binds: seq![(n.0, c)], counter: next_id(c) },
        PatternIR::Struct { name, fields } => match last_decl_of(name@) {
            Some(d) => match fields_of(*d) {
                Some(dfs) => {
                    let m = field_binds_model(fields@, dfs@, c);
                    Bound {
                        code: match m.code {
                            Ok(x) => Ok(x.push(ByteCode::Pop)),
                            Err(e) => Err(e),
                        },
                        ..m
                    }
                },
                None => Bound { code: Err(BuildError::Unsupported), binds: Seq::empty(), counter: c },
            },
            None => Bound { code: Err(BuildError::Unsupported), binds: Seq::empty(), counter: c },
        },
        PatternIR::TupleStruct { fields, .. } => tuple_binds_model(fields@, fields@.len(), c),
        _ => Bound { code: Ok(Seq::empty()), binds: Seq::empty(), counter: c },
    }
}

/// The binding of the fields of a struct pattern, in order; `dfs` are the declared fields.
pub open spec fn field_binds_model(fs: Seq<Spanned<StructFieldPatternIR>>, dfs: Seq<(String, Ty)>, c: u32) -> Bound
    decreases fs,
{
    if fs.len() == 0 {
        Bound { code: Ok(Seq::empty()), binds: Seq::empty(), counter: c }
    } else {
        let a = field_binds_model(fs.drop_last(), dfs, c);
        match a.code {
            Ok(_) => match slot_of(dfs, field_name(fs.last().0)) {
                Ok(slot) => then_bind(a, Seq::empty(), field_bind_model(fs.last().0, slot, a.counter)),
                Err(e) => Bound { code: Err(e), ..a },
            },
            Err(_) => a,
        }
    }
}

/// The name of the field a field pattern binds.
pub open spec fn field_name(f: StructFieldPatternIR) -> Seq<char> {
    match f {
        StructFieldPatternIR::Implied { name } => name.0@,
        StructFieldPatternIR::Explicit { field, .. } => field.0@,
    }
}

/// The binding of one field at stack index `slot`.
pub open spec fn field_bind_model(f: StructFieldPatternIR, slot: u32, c: u32) -> Bound
    decreases f,
{
    match f {
        StructFieldPatternIR::Implied { name } => Bound {
            code: Ok(seq![ByteCode::Copy, ByteCode::Index(slot), ByteCode::NewLocal(c)]),
            binds: seq![(name.0, c)],
            counter: next_id(c),
        },
        StructFieldPatternIR::Explicit { pattern, .. } => then_bind(
            Bound { code: Ok(Seq::empty()), binds: Seq::empty(), counter: c },
            seq![ByteCode::Copy, ByteCode::Index(slot)],
            bind_model(pattern.0, c),
        ),
    }
}

/// The binding of the first `fs.len()` fields of a tuple pattern of `n` fields: each takes its
/// place, counted from the end, then binds through its pattern.
pub open spec fn tuple_binds_model(fs: Seq<Spanned<PatternIR>>, n: nat, c: u32) -> Bound
    decreases fs,
{
    if fs.len() == 0 {
        Bound { code: Ok(Seq::empty()), binds: Seq::empty(), counter: c }
    } else {
        let a = tuple_binds_model(fs.drop_last(), n, c);
        let i = fs.len() - 1;
        match a.code {
            Ok(_) => if n - i - 1 <= u32::MAX {
                then_bind(a, seq![ByteCode::Index((n - i - 1) as u32)], bind_model(fs.last().0, a.counter))
            } else {
                Bound { code: Err(BuildError::TooLarge), ..a }
            },
            Err(_) => a,
        }
    }
}

/// `new` is `old` after declaring the locals `binds` in its innermost scope, with the counter at
/// `counter`.
pub open spec fn declared_locals(old: BuildState, new: BuildState, binds: Seq<(String, u32)>, counter: u32) -> bool {
    &&& new.vars@.len() == old.vars@.len()
    &&& new.vars@.drop_last() == old.vars@.drop_last()
    &&& new.vars@.last()@ == old.vars@.last()@ + binds
    &&& new.counter == counter
    &&& new.params == old.params
    &&& new.project == old.project
}

/// Whether a compile result is what the model gives.
pub open spec fn result_is(r: Result<Vec<ByteCode>, BuildError>, m: Result<Seq<ByteCode>, BuildError>) -> bool {
    match r {
        Ok(code) => m == Ok::<Seq<ByteCode>, BuildError>(code@),
        Err(e) => m == Err::<Seq<ByteCode>, BuildError>(e),
    }
}

/// Adds `n` to the jump target being accumulated.
fn bump(end: &mut i32, n: i32) -> (r: Result<(), BuildError>)
    requires
        n >= 0,
    ensures
        match r {
            Ok(()) => *final(end) == *old(end) + n && bumped(*old(end), n as int) == Some(*final(end)),
            Err(e) => e == BuildError::TooLarge && *final(end) == *old(end) && bumped(*old(end), n as int) is None,
        },
{
    match end.checked_add(n) {
        Some(v) => {
            *end = v;
            Ok(())
        },
        None => Err(BuildError::TooLarge),
    }
}

/// What testing a pattern produces from the jump target `end`: the instructions or the error that
/// stopped it, and the target after (also on failure, as far as it got).
pub struct Tested {
    pub code: Result<Seq<ByteCode>, BuildError>,
    pub end: i32,
}

/// `end` moved on by `n`, where that fits.
pub open spec fn bumped(end: i32, n: int) -> Option<i32> {
    if end + n <= i32::MAX {
        Some((end + n) as i32)
    } else {
        None
    }
}

/// The places of the fields of a struct pattern that have a pattern of their own, in order: the
/// stack index of the declared field and the position of the field in the pattern.
pub open spec fn struct_slots(fs: Seq<Spanned<StructFieldPatternIR>>, dfs: Seq<(String, Ty)>) -> Result<Seq<(u32, usize)>, BuildError>
    decreases fs.len(),
{
    if fs.len() == 0 {
        Ok(Seq::empty())
    } else {
        match struct_slots(fs.drop_last(), dfs) {
            Ok(s) => match fs.last().0 {
                StructFieldPatternIR::Explicit { field, .. } => match slot_of(dfs, field.0@) {
                    Ok(x) => Ok(s.push((x, (fs.len() - 1) as usize))),
                    Err(e) => Err(e),
                },
                _ => Ok(s),
            },
            Err(e) => Err(e),
        }
    }
}

/// The places of the fields of a tuple pattern of `n` fields: each field at its own index.
pub open spec fn tuple_slots(n: nat) -> Result<Seq<(u32, usize)>, BuildError> {
    if n > u32::MAX + 1 {
        Err(BuildError::TooLarge)
    } else {
        Ok(Seq::new(n, |i: int| (i as u32, i as usize)))
    }
}

/// One test of a field whose own test `sub` was made: a copy of the field, its test, and unless
/// it is the first, a jump out on failure; `rest` are the tests of the later fields.
pub open spec fn field_test_step(index: u32, sub: Tested, first: bool, rest: Seq<ByteCode>) -> (Tested, Seq<ByteCode>) {
    match sub.code {
        Err(e) => (Tested { code: Err(e), end: sub.end }, rest),
        Ok(sc) => match bumped(sub.end, 2) {
            None => (Tested { code: Err(BuildError::TooLarge), end: sub.end }, rest),
            Some(e1) => if first {
                (Tested { code: Ok(Seq::empty()), end: e1 }, seq![ByteCode::Copy, ByteCode::Index(index)] + sc + rest)
            } else {
                match bumped(e1, 3) {
                    None => (Tested { code: Err(BuildError::TooLarge), end: e1 }, rest),
                    Some(e2) => (
                        Tested { code: Ok(Seq::empty()), end: e2 },
                        seq![ByteCode::Je(3), ByteCode::Push(Literal::Bool(false)), ByteCode::Jmp(e1)] + seq![
                            ByteCode::Copy,
                            ByteCode::Index(index),
                        ] + sc + rest,
                    ),
                }
            },
        },
    }
}

/// The tests of the first `k` slots of a struct pattern, made from the last to the first, after
/// the tests `code` of the later ones were made with the target at `end`.
pub open spec fn struct_tests(fs: Seq<Spanned<StructFieldPatternIR>>, slots: Seq<(u32, usize)>, k: nat, end: i32, code: Seq<ByteCode>) -> Tested
    decreases fs, k,
{
    if k == 0 || k > slots.len() {
        Tested { code: Ok(code), end }
    } else {
        let (index, pos) = slots[k - 1];
        if pos < fs.len() {
            match fs[pos as int].0 {
                StructFieldPatternIR::Explicit { pattern, .. } => {
                    let (t, c) = field_test_step(index, match_model(pattern.0, end), k == 1, code);
                    match t.code {
                        Ok(_) => struct_tests(fs, slots, (k - 1) as nat, t.end, c),
                        Err(_) => t,
                    }
                },
                _ => Tested { code: Err(BuildError::Unsupported), end },
            }
        } else {
            Tested { code: Err(BuildError::Unsupported), end }
        }
    }
}

/// The tests of the first `k` slots of a tuple pattern, as for a struct pattern.
pub open spec fn tuple_tests(fs: Seq<Spanned<PatternIR>>, slots: Seq<(u32, usize)>, k: nat, end: i32, code: Seq<ByteCode>) -> Tested
    decreases fs, k,
{
    if k == 0 || k > slots.len() {
        Tested { code: Ok(code), end }
    } else {
        let (index, pos) = slots[k - 1];
        if pos < fs.len() {
            let (t, c) = field_test_step(index, match_model(fs[pos as int].0, end), k == 1, code);
            match t.code {
                Ok(_) => tuple_tests(fs, slots, (k - 1) as nat, t.end, c),
                Err(_) => t,
            }
        } else {
            Tested { code: Err(BuildError::Unsupported), end }
        }
    }
}

/// The test of the constructor `id` in front of the tests of the fields.
pub open spec fn constructor_test(id: u32, t: Tested) -> Tested {
    match t.code {
        Err(_) => t,
        Ok(code) => if code.len() == 0 {
            match bumped(t.end, 1) {
                Some(e) => Tested { code: Ok(seq![ByteCode::Match(id)]), end: e },
                None => Tested { code: Err(BuildError::TooLarge), end: t.end },
            }
        } else {
            match bumped(t.end, 4) {
                Some(e) => Tested {
                    code: Ok(seq![ByteCode::Match(id), ByteCode::Je(3), ByteCode::Push(Literal::Bool(false)), ByteCode::Jmp(t.end)] + code),
                    end: e,
                },
                None => Tested { code: Err(BuildError::TooLarge), end: t.end },
            }
        },
    }
}

/// The test of whether the value on top of the stack matches a pattern, with the jump target at
/// `end`.
pub open spec fn match_model(p: PatternIR, end: i32) -> Tested
    decreases p, 0nat,
{
    match p {
        PatternIR::Name(_) => match bumped(end, 2) {
            Some(e) => Tested { code: Ok(seq![ByteCode::Pop, ByteCode::Push(Literal::Bool(true))]), end: e },
            None => Tested { code: Err(BuildError::TooLarge), end },
        },
        PatternIR::Error => Tested { code: Err(BuildError::Unsupported), end },
        PatternIR::UnitStruct(name) => match last_decl_of(name@) {
            Some(d) => constructor_test(d.id, Tested { code: Ok(Seq::empty()), end }),
            None => Tested { code: Err(BuildError::Unsupported), end },
        },
        PatternIR::Struct { name, fields } => match last_decl_of(name@) {
            Some(d) => match fields_of(*d) {
                Some(dfs) => match struct_slots(fields@, dfs@) {
                    Ok(slots) => constructor_test(d.id, struct_tests(fields@, slots, slots.len(), end, Seq::empty())),
                    Err(e) => Tested { code: Err(e), end },
                },
                None => Tested { code: Err(BuildError::Unsupported), end },
            },
            None => Tested { code: Err(BuildError::Unsupported), end },
        },
        PatternIR::TupleStruct { name, fields } => match last_decl_of(name@) {
            Some(d) => match tuple_slots(fields@.len()) {
                Ok(slots) => constructor_test(d.id, tuple_tests(fields@, slots, slots.len(), end, Seq::empty())),
                Err(e) => Tested { code: Err(e), end },
            },
            None => Tested { code: Err(BuildError::Unsupported), end },
        },
    }
}

/// Testing a pattern moves the jump target on by exactly the number of instructions it emits.
pub proof fn law_match_end_grows(p: PatternIR, end: i32)
    ensures
        match_model(p, end).code matches Ok(c) ==> match_model(p, end).end == end + c.len(),
    decreases p, 0nat,
{
    match p {
        PatternIR::Struct { name, fields } => {
            if let Some(d) = last_decl_of(name@) {
                if let Some(dfs) = fields_of(*d) {
                    if let Ok(slots) = struct_slots(fields@, dfs@) {
                        lemma_struct_tests_end(fields@, slots, slots.len(), end, Seq::empty());
                    }
                }
            }
        },
        PatternIR::TupleStruct { name, fields } => {
            if let Some(d) = last_decl_of(name@) {
                if let Ok(slots) = tuple_slots(fields@.len()) {
                    lemma_tuple_tests_end(fields@, slots, slots.len(), end, Seq::empty());
                }
            }
        },
        _ => {},
    }
}

proof fn lemma_struct_tests_end(fs: Seq<Spanned<StructFieldPatternIR>>, slots: Seq<(u32, usize)>, k: nat, end: i32, code: Seq<ByteCode>)
    ensures
        struct_tests(fs, slots, k, end, code).code matches Ok(c) ==> struct_tests(fs, slots, k, end, code).end == end + c.len()
            - code.len(),
    decreases fs, k,
{
    if k != 0 && k <= slots.len() {
        let (index, pos) = slots[k - 1];
        if pos < fs.len() {
            if let StructFieldPatternIR::Explicit { pattern, .. } = fs[pos as int].0 {
                assert(decreases_to!(fs => fs[pos as int]));
                law_match_end_grows(pattern.0, end);
                let (t, c) = field_test_step(index, match_model(pattern.0, end), k == 1, code);
                if t.code is Ok {
                    lemma_struct_tests_end(fs, slots, (k - 1) as nat, t.end, c);
                }
            }
        }
    }
}

proof fn lemma_tuple_tests_end(fs: Seq<Spanned<PatternIR>>, slots: Seq<(u32, usize)>, k: nat, end: i32, code: Seq<ByteCode>)
    ensures
        tuple_tests(fs, slots, k, end, code).code matches Ok(c) ==> tuple_tests(fs, slots, k, end, code).end == end + c.len()
            - code.len(),
    decreases fs, k,
{
    if k != 0 && k <= slots.len() {
        let (index, pos) = slots[k - 1];
        if pos < fs.len() {
            assert(decreases_to!(fs => fs[pos as int]));
            law_match_end_grows(fs[pos as int].0, end);
            let (t, c) = field_test_step(index, match_model(fs[pos as int].0, end), k == 1, code);
            if t.code is Ok {
                lemma_tuple_tests_end(fs, slots, (k - 1) as nat, t.end, c);
            }
        }
    }
}

/// Declaring two lists of locals one after the other declares both.
proof fn lemma_locals_trans(a: BuildState, b: BuildState, c: BuildState, x: Seq<(String, u32)>, cx: u32, y: Seq<(String, u32)>, cy: u32)
    requires
        a.vars@.len() >= 1,
        declared_locals(a, b, x, cx),
        declared_locals(b, c, y, cy),
    ensures
        declared_locals(a, c, x + y, cy),
{
    assert(a.vars@.last()@ + (x + y) =~= (a.vars@.last()@ + x) + y);
}

/// Once the binding of the first fields has failed, later fields change nothing.
proof fn lemma_field_binds_stuck(fs: Seq<Spanned<StructFieldPatternIR>>, dfs: Seq<(String, Ty)>, c: u32, k: int)
    requires
        0 <= k <= fs.len(),
        field_binds_model(fs.take(k), dfs, c).code is Err,
    ensures
        field_binds_model(fs, dfs, c) == field_binds_model(fs.take(k), dfs, c),
    decreases fs.len() - k,
{
    if k < fs.len() {
        assert(fs.take(k + 1).drop_last() =~= fs.take(k));
        lemma_field_binds_stuck(fs, dfs, c, k + 1);
    } else {
        assert(fs.take(k) =~= fs);
    }
}

/// Once the binding of the first fields of a tuple pattern has failed, later fields change nothing.
proof fn lemma_tuple_binds_stuck(fs: Seq<Spanned<PatternIR>>, n: nat, c: u32, k: int)
    requires
        0 <= k <= fs.len(),
        tuple_binds_model(fs.take(k), n, c).code is Err,
    ensures
        tuple_binds_model(fs, n, c) == tuple_binds_model(fs.take(k), n, c),
    decreases fs.len() - k,
{
    if k < fs.len() {
        assert(fs.take(k + 1).drop_last() =~= fs.take(k));
        lemma_tuple_binds_stuck(fs, n, c, k + 1);
    } else {
        assert(fs.take(k) =~= fs);
    }
}

impl<'db> StructFieldPatternIR<'db> {
    /// Binds the field at stack index `index` of the value on top: to a new local for an implied
    /// field, or through the field's pattern.
    pub fn build(&self, state: &mut BuildState<'db>, index: u32) -> (r: Result<Vec<ByteCode>, BuildError>)
        requires
            old(state).vars@.len() >= 1,
        ensures
            build_frame(*old(state), *final(state)),
            result_is(r, field_bind_model(*self, index, old(state).counter).code),
            declared_locals(
                *old(state),
                *final(state),
                field_bind_model(*self, index, old(state).counter).binds,
                field_bind_model(*self, index, old(state).counter).counter,
            ),
        decreases self,
    {
        match self {
            StructFieldPatternIR::Implied { name } => {
                let id = state.add_var(name.0.clone());
                let mut code: Vec<ByteCode> = Vec::new();
                code.push(ByteCode::Copy);
                code.push(ByteCode::Index(index));
                code.push(ByteCode::NewLocal(id));
                proof {
                    assert(code@ =~= seq![ByteCode::Copy, ByteCode::Index(index), ByteCode::NewLocal(id)]);
                    assert(old(state).vars@.last()@ + seq![(name.0, id)] =~= old(state).vars@.last()@.push((name.0, id)));
                }
                Ok(code)
            },
            StructFieldPatternIR::Explicit { pattern, .. } => {
                let mut code: Vec<ByteCode> = Vec::new();
                code.push(ByteCode::Copy);
                code.push(ByteCode::Index(index));
                let inner = pattern.0.build(state);
                proof {
                    assert(Seq::<(String, u32)>::empty() + bind_model(pattern.0, old(state).counter).binds =~= bind_model(
                        pattern.0,
                        old(state).counter,
                    ).binds);
                }
                let inner = inner?;
                let ghost pre = code@;
                extend(&mut code, inner);
                proof {
                    assert(pre =~= seq![ByteCode::Copy, ByteCode::Index(index)]);
                    assert(code@ =~= Seq::<ByteCode>::empty() + seq![ByteCode::Copy, ByteCode::Index(index)] + inner@);
                }
                Ok(code)
            },
        }
    }
}

impl<'db> PatternIR<'db> {
    /// Binds the parts of the value on top of the stack: a name takes the whole value as a new
    /// local; a struct pattern binds its fields; a unit pattern binds nothing.
    pub fn build(&self, state: &mut BuildState<'db>) -> (r: Result<Vec<ByteCode>, BuildError>)
        requires
            old(state).vars@.len() >= 1,
        ensures
            build_frame(*old(state), *final(state)),
            result_is(r, bind_model(*self, old(state).counter).code),
            declared_locals(
                *old(state),
                *final(state),
                bind_model(*self, old(state).counter).binds,
                bind_model(*self, old(state).counter).counter,
            ),
        decreases self,
    {
        let ghost st = *state;
        match self {
            PatternIR::Name(name) => {
                let id = state.add_var(name.0.clone());
                let mut code: Vec<ByteCode> = Vec::new();
                code.push(ByteCode::NewLocal(id));
                proof {
                    assert(code@ =~= seq![ByteCode::NewLocal(id)]);
                    assert(st.vars@.last()@ + seq![(name.0, id)] =~= st.vars@.last()@.push((name.0, id)));
                }
                Ok(code)
            },
            PatternIR::Struct { name, fields } => {
                proof {
                    assert(st.vars@.last()@ + Seq::<(String, u32)>::empty() =~= st.vars@.last()@);
                }
                let d = last_decl(name)?;
                let dfs = decl_fields(d)?;
                let ghost c0 = st.counter;
                let mut code: Vec<ByteCode> = Vec::new();
                let mut i: usize = 0;
                proof {
                    assert(fields@.take(0) =~= Seq::<Spanned<StructFieldPatternIR>>::empty());
                    assert(st.vars@.last()@ + Seq::<(String, u32)>::empty() =~= st.vars@.last()@);
                }
                while i < fields.len()
                    invariant
                        i <= fields@.len(),
                        state.vars@.len() >= 1,
                        build_frame(*old(state), *state),
                        st == *old(state),
                        c0 == st.counter,
                        decreases_to!(*self => *fields),
                        *self == (PatternIR::Struct { name: *name, fields: *fields }),
                        last_decl_of(name@) == Some(d),
                        fields_of(*d) == Some(*dfs),
                        field_binds_model(fields@.take(i as int), dfs@, c0).code == Ok::<Seq<ByteCode>, BuildError>(code@),
                        declared_locals(
                            st,
                            *state,
                            field_binds_model(fields@.take(i as int), dfs@, c0).binds,
                            field_binds_model(fields@.take(i as int), dfs@, c0).counter,
                        ),
                    decreases fields@.len() - i,
                {
                    let ghost a = field_binds_model(fields@.take(i as int), dfs@, c0);
                    let ghost mid = *state;
                    proof {
                        assert(fields@.take(i + 1).drop_last() =~= fields@.take(i as int));
                        assert(fields@.take(i + 1).last() == fields@[i as int]);
                    }
                    let slot = field_slot(dfs, fields[i].0.name());
                    let index = match slot {
                        Ok(x) => x,
                        Err(e) => {
                            proof {
                                lemma_field_binds_stuck(fields@, dfs@, c0, i + 1);
                            }
                            return Err(e);
                        },
                    };
                    proof {
                        assert(decreases_to!(*fields => fields@[i as int]));
                    }
                    let part = fields[i].0.build(state, index);
                    proof {
                        let b = field_bind_model(fields@[i as int].0, index, a.counter);
                        lemma_locals_trans(st, mid, *state, a.binds, a.counter, b.binds, b.counter);
                    }
                    let part = match part {
                        Ok(p) => p,
                        Err(e) => {
                            proof {
                                lemma_field_binds_stuck(fields@, dfs@, c0, i + 1);
                            }
                            return Err(e);
                        },
                    };
                    let ghost before = code@;
                    extend(&mut code, part);
                    proof {
                        assert(code@ =~= before + Seq::<ByteCode>::empty() + part@);
                    }
                    i = i + 1;
                }
                proof {
                    assert(fields@.take(i as int) =~= fields@);
                }
                code.push(ByteCode::Pop);
                Ok(code)
            },
            PatternIR::UnitStruct(_) => {
                proof {
                    assert(st.vars@.last()@ + Seq::<(String, u32)>::empty() =~= st.vars@.last()@);
                }
                Ok(Vec::new())
            },
            PatternIR::TupleStruct { fields, .. } => {
                let ghost c0 = st.counter;
                let mut code: Vec<ByteCode> = Vec::new();
                let n = fields.len();
                let mut i: usize = 0;
                proof {
                    assert(fields@.take(0) =~= Seq::<Spanned<PatternIR>>::empty());
                    assert(st.vars@.last()@ + Seq::<(String, u32)>::empty() =~= st.vars@.last()@);
                }
                while i < n
                    invariant
                        i <= n,
                        n == fields@.len(),
                        state.vars@.len() >= 1,
                        build_frame(*old(state), *state),
                        st == *old(state),
                        c0 == st.counter,
                        decreases_to!(*self => *fields),
                        *self matches PatternIR::TupleStruct { fields: f, .. } && f == *fields,
                        tuple_binds_model(fields@.take(i as int), n as nat, c0).code == Ok::<Seq<ByteCode>, BuildError>(code@),
                        declared_locals(
                            st,
                            *state,
                            tuple_binds_model(fields@.take(i as int), n as nat, c0).binds,
                            tuple_binds_model(fields@.take(i as int), n as nat, c0).counter,
                        ),
                    decreases n - i,
                {
                    let ghost a = tuple_binds_model(fields@.take(i as int), n as nat, c0);
                    let ghost mid = *state;
                    proof {
                        assert(fields@.take(i + 1).drop_last() =~= fields@.take(i as int));
                        assert(fields@.take(i + 1).last() == fields@[i as int]);
                    }
                    let slot = match count_u32(n - i - 1) {
                        Ok(x) => x,
                        Err(e) => {
                            proof {
                                lemma_tuple_binds_stuck(fields@, n as nat, c0, i + 1);
                            }
                            return Err(e);
                        },
                    };
                    let ghost before = code@;
                    code.push(ByteCode::Index(slot));
                    proof {
                        assert(decreases_to!(*fields => fields@[i as int]));
                    }
                    let part = fields[i].0.build(state);
                    proof {
                        let b = bind_model(fields@[i as int].0, a.counter);
                        lemma_locals_trans(st, mid, *state, a.binds, a.counter, b.binds, b.counter);
                    }
                    let part = match part {
                        Ok(p) => p,
                        Err(e) => {
                            proof {
                                lemma_tuple_binds_stuck(fields@, n as nat, c0, i + 1);
                            }
                            return Err(e);
                        },
                    };
                    extend(&mut code, part);
                    proof {
                        assert(code@ =~= before + seq![ByteCode::Index(slot)] + part@);
                    }
                    i = i + 1;
                }
                proof {
                    assert(fields@.take(i as int) =~= fields@);
                }
                Ok(code)
            },
            PatternIR::Error => {
                proof {
                    assert(st.vars@.last()@ + Seq::<(String, u32)>::empty() =~= st.vars@.last()@);
                }
                Ok(Vec::new())
            },
        }
    }

    /// The test of whether the value on top of the stack matches the pattern, leaving a boolean:
    /// a name always matches; a struct pattern checks the constructor, then each field that has a
    /// pattern of its own. `end` counts the instructions emitted so far, which the jumps out of a
    /// failed test are aimed by.
    pub fn build_match(&self, state: &mut BuildState<'db>, end: &mut i32) -> (r: Result<Vec<ByteCode>, BuildError>)
        requires
            old(state).vars@.len() >= 1,
        ensures
            *final(state) == *old(state),
            result_is(r, match_model(*self, *old(end)).code),
            *final(end) == match_model(*self, *old(end)).end,
        decreases self, 0int,
    {
        match self {
            PatternIR::Name(_) => {
                bump(end, 2)?;
                let mut code: Vec<ByteCode> = Vec::new();
                code.push(ByteCode::Pop);
                code.push(ByteCode::Push(Literal::Bool(true)));
                proof {
                    assert(code@ =~= seq![ByteCode::Pop, ByteCode::Push(Literal::Bool(true))]);
                }
                Ok(code)
            },
            PatternIR::Error => Err(BuildError::Unsupported),
            PatternIR::UnitStruct(name) => {
                let d = last_decl(name)?;
                constructor_tests(d.id, Vec::new(), end)
            },
            PatternIR::Struct { name, fields } => {
                let d = last_decl(name)?;
                let dfs = decl_fields(d)?;
                let slots = struct_slot_list(fields, dfs)?;
                proof {
                    assert(decreases_to!(*self => fields@));
                }
                let code = struct_field_tests(fields, &slots, state, end)?;
                constructor_tests(d.id, code, end)
            },
            PatternIR::TupleStruct { name, fields } => {
                let d = last_decl(name)?;
                let slots = tuple_slot_list(fields.len())?;
                proof {
                    assert(decreases_to!(*self => fields@));
                }
                let code = tuple_field_tests(fields, &slots, state, end)?;
                constructor_tests(d.id, code, end)
            },
        }
    }
}

/// The places of the fields of a struct pattern that have a pattern of their own.
fn struct_slot_list(fields: &Vec<Spanned<StructFieldPatternIR>>, dfs: &Vec<(String, Ty)>) -> (r: Result<Vec<(u32, usize)>, BuildError>)
    ensures
        match r {
            Ok(s) => struct_slots(fields@, dfs@) == Ok::<Seq<(u32, usize)>, BuildError>(s@),
            Err(e) => struct_slots(fields@, dfs@) == Err::<Seq<(u32, usize)>, BuildError>(e),
        },
{
    let mut slots: Vec<(u32, usize)> = Vec::new();
    let mut i: usize = 0;
    proof {
        assert(fields@.take(0) =~= Seq::<Spanned<StructFieldPatternIR>>::empty());
    }
    while i < fields.len()
        invariant
            i <= fields@.len(),
            struct_slots(fields@.take(i as int), dfs@) == Ok::<Seq<(u32, usize)>, BuildError>(slots@),
        decreases fields@.len() - i,
    {
        proof {
            assert(fields@.take(i + 1).drop_last() =~= fields@.take(i as int));
            assert(fields@.take(i + 1).last() == fields@[i as int]);
        }
        if let StructFieldPatternIR::Explicit { field, .. } = &fields[i].0 {
            let index = match field_slot(dfs, field.0.as_str()) {
                Ok(x) => x,
                Err(e) => {
                    proof {
                        lemma_slots_stuck(fields@, dfs@, i + 1);
                    }
                    return Err(e);
                },
            };
            slots.push((index, i));
        }
        i = i + 1;
    }
    proof {
        assert(fields@.take(i as int) =~= fields@);
    }
    Ok(slots)
}

/// Once a slot cannot be placed, the later fields change nothing.
proof fn lemma_slots_stuck(fs: Seq<Spanned<StructFieldPatternIR>>, dfs: Seq<(String, Ty)>, k: int)
    requires
        0 <= k <= fs.len(),
        struct_slots(fs.take(k), dfs) is Err,
    ensures
        struct_slots(fs, dfs) == struct_slots(fs.take(k), dfs),
    decreases fs.len() - k,
{
    if k < fs.len() {
        assert(fs.take(k + 1).drop_last() =~= fs.take(k));
        lemma_slots_stuck(fs, dfs, k + 1);
    } else {
        assert(fs.take(k) =~= fs);
    }
}

/// The places of the fields of a tuple pattern of `n` fields.
fn tuple_slot_list(n: usize) -> (r: Result<Vec<(u32, usize)>, BuildError>)
    ensures
        match r {
            Ok(s) => tuple_slots(n as nat) == Ok::<Seq<(u32, usize)>, BuildError>(s@),
            Err(e) => tuple_slots(n as nat) == Err::<Seq<(u32, usize)>, BuildError>(e),
        },
{
    let mut slots: Vec<(u32, usize)> = Vec::new();
    let mut i: usize = 0;
    while i < n
        invariant
            i <= n,
            slots@ =~= Seq::new(i as nat, |j: int| (j as u32, j as usize)),
            i <= u32::MAX + 1,
        decreases n - i,
    {
        let index = match count_u32(i) {
            Ok(x) => x,
            Err(e) => {
                return Err(e);
            },
        };
        slots.push((index, i));
        proof {
            assert(slots@ =~= Seq::new((i + 1) as nat, |j: int| (j as u32, j as usize)));
        }
        i = i + 1;
    }
    Ok(slots)
}

/// The tests of the fields of a struct pattern at `slots`, made from the last to the first.
fn struct_field_tests<'db>(
    fields: &Vec<Spanned<StructFieldPatternIR<'db>>>,
    slots: &Vec<(u32, usize)>,
    state: &mut BuildState<'db>,
    end: &mut i32,
) -> (r: Result<Vec<ByteCode>, BuildError>)
    requires
        old(state).vars@.len() >= 1,
    ensures
        *final(state) == *old(state),
        result_is(r, struct_tests(fields@, slots@, slots@.len(), *old(end), Seq::empty()).code),
        *final(end) == struct_tests(fields@, slots@, slots@.len(), *old(end), Seq::empty()).end,
    decreases fields@, 1int,
{
    let ghost total = struct_tests(fields@, slots@, slots@.len(), *end, Seq::empty());
    let mut code: Vec<ByteCode> = Vec::new();
    let mut k = slots.len();
    while k > 0
        invariant
            k <= slots@.len(),
            *state == *old(state),
            state.vars@.len() >= 1,
            total == struct_tests(fields@, slots@, k as nat, *end, code@),
            total == struct_tests(fields@, slots@, slots@.len(), *old(end), Seq::empty()),
        decreases k,
    {
        let (index, pos) = slots[k - 1];
        if pos >= fields.len() {
            proof {
                assert(slots@[k - 1] == (index, pos));
                assert(struct_tests(fields@, slots@, k as nat, *end, code@) == (Tested { code: Err(BuildError::Unsupported), end: *end }));
            }
            return Err(BuildError::Unsupported);
        }
        let sub = match &fields[pos].0 {
            StructFieldPatternIR::Explicit { pattern, .. } => {
                proof {
                    assert(decreases_to!(fields@ => fields@[pos as int]));
                }
                pattern.0.build_match(state, end)
            },
            _ => {
                return Err(BuildError::Unsupported);
            },
        };
        let sub = match sub {
            Ok(x) => x,
            Err(e) => {
                return Err(e);
            },
        };
        let mut chunk: Vec<ByteCode> = Vec::new();
        chunk.push(ByteCode::Copy);
        chunk.push(ByteCode::Index(index));
        extend(&mut chunk, sub);
        bump(end, 2)?;
        if k - 1 != 0 {
            let jump = *end;
            bump(end, 3)?;
            let mut skip: Vec<ByteCode> = Vec::new();
            skip.push(ByteCode::Je(3));
            skip.push(ByteCode::Push(Literal::Bool(false)));
            skip.push(ByteCode::Jmp(jump));
            extend(&mut skip, chunk);
            chunk = skip;
        }
        let ghost rest = code@;
        extend(&mut chunk, code);
        code = chunk;
        proof {
            if k - 1 != 0 {
                assert(code@ =~= seq![ByteCode::Je(3), ByteCode::Push(Literal::Bool(false)), ByteCode::Jmp(
                    (*end - 3) as i32,
                )] + seq![ByteCode::Copy, ByteCode::Index(index)] + sub@ + rest);
            } else {
                assert(code@ =~= seq![ByteCode::Copy, ByteCode::Index(index)] + sub@ + rest);
            }
        }
        k = k - 1;
    }
    Ok(code)
}

/// The tests of the fields of a tuple pattern at `slots`, made from the last to the first.
fn tuple_field_tests<'db>(
    fields: &Vec<Spanned<PatternIR<'db>>>,
    slots: &Vec<(u32, usize)>,
    state: &mut BuildState<'db>,
    end: &mut i32,
) -> (r: Result<Vec<ByteCode>, BuildError>)
    requires
        old(state).vars@.len() >= 1,
    ensures
        *final(state) == *old(state),
        result_is(r, tuple_tests(fields@, slots@, slots@.len(), *old(end), Seq::empty()).code),
        *final(end) == tuple_tests(fields@, slots@, slots@.len(), *old(end), Seq::empty()).end,
    decreases fields@, 1int,
{
    let ghost total = tuple_tests(fields@, slots@, slots@.len(), *end, Seq::empty());
    let mut code: Vec<ByteCode> = Vec::new();
    let mut k = slots.len();
    while k > 0
        invariant
            k <= slots@.len(),
            *state == *old(state),
            state.vars@.len() >= 1,
            total == tuple_tests(fields@, slots@, k as nat, *end, code@),
            total == tuple_tests(fields@, slots@, slots@.len(), *old(end), Seq::empty()),
        decreases k,
    {
        let (index, pos) = slots[k - 1];
        if pos >= fields.len() {
            proof {
                assert(slots@[k - 1] == (index, pos));
                assert(tuple_tests(fields@, slots@, k as nat, *end, code@) == (Tested { code: Err(BuildError::Unsupported), end: *end }));
            }
            return Err(BuildError::Unsupported);
        }
        proof {
            assert(slots@[k - 1] == (index, pos));
            assert(decreases_to!(fields@ => fields@[pos as int]));
        }
        let sub = match fields[pos].0.build_match(state, end) {
            Ok(x) => x,
            Err(e) => {
                return Err(e);
            },
        };
        let mut chunk: Vec<ByteCode> = Vec::new();
        chunk.push(ByteCode::Copy);
        chunk.push(ByteCode::Index(index));
        extend(&mut chunk, sub);
        bump(end, 2)?;
        if k - 1 != 0 {
            let jump = *end;
            bump(end, 3)?;
            let mut skip: Vec<ByteCode> = Vec::new();
            skip.push(ByteCode::Je(3));
            skip.push(ByteCode::Push(Literal::Bool(false)));
            skip.push(ByteCode::Jmp(jump));
            extend(&mut skip, chunk);
            chunk = skip;
        }
        let ghost rest = code@;
        extend(&mut chunk, code);
        code = chunk;
        proof {
            if k - 1 != 0 {
                assert(code@ =~= seq![ByteCode::Je(3), ByteCode::Push(Literal::Bool(false)), ByteCode::Jmp(
                    (*end - 3) as i32,
                )] + seq![ByteCode::Copy, ByteCode::Index(index)] + sub@ + rest);
            } else {
                assert(code@ =~= seq![ByteCode::Copy, ByteCode::Index(index)] + sub@ + rest);
            }
        }
        k = k - 1;
    }
    Ok(code)
}

/// The test of the constructor `id` in front of the tests `code` of the fields.
fn constructor_tests(id: u32, code: Vec<ByteCode>, end: &mut i32) -> (r: Result<Vec<ByteCode>, BuildError>)
    ensures
        result_is(r, constructor_test(id, Tested { code: Ok(code@), end: *old(end) }).code),
        *final(end) == constructor_test(id, Tested { code: Ok(code@), end: *old(end) }).end,
{
    if code.len() == 0 {
        bump(end, 1)?;
        let mut out: Vec<ByteCode> = Vec::new();
        out.push(ByteCode::Match(id));
        proof {
            assert(out@ =~= seq![ByteCode::Match(id)]);
        }
        return Ok(out);
    }
    let mut out: Vec<ByteCode> = Vec::new();
    out.push(ByteCode::Match(id));
    out.push(ByteCode::Je(3));
    out.push(ByteCode::Push(Literal::Bool(false)));
    out.push(ByteCode::Jmp(*end));
    let ghost head = out@;
    bump(end, 4)?;
    extend(&mut out, code);
    proof {
        assert(head =~= seq![ByteCode::Match(id), ByteCode::Je(3), ByteCode::Push(Literal::Bool(false)), ByteCode::Jmp(*old(end))]);
    }
    Ok(out)
}

} // verus!
