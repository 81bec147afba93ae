use vstd::prelude::*;

use crate::build::{ByteCode, FuncDef};
use crate::check::message::{int_text, nat_text, push_int, push_nat};
use crate::go::doc::{lit_text, literal_text};
use crate::go::{go_op, go_op_text};
use crate::parser::ast::lit_view;
use crate::util::push_str;

verus! {

/// The text of an instruction: its mnemonic, then its operands separated by spaces.
pub open spec fn code_text(code: ByteCode) -> Seq<char> {
    match code {
        ByteCode::Push(l) => "push "@ + literal_text(lit_view(l)),
        ByteCode::Pop => "pop"@,
        ByteCode::Copy => "copy"@,
        ByteCode::Print => "print"@,
        ByteCode::Panic => "panic"@,
        ByteCode::Return => "ret"@,
        ByteCode::GetLocal(id) => "get_local "@ + nat_text(id as nat),
        ByteCode::SetLocal(id) => "set_local "@ + nat_text(id as nat),
        ByteCode::NewLocal(id) => "new_local "@ + nat_text(id as nat),
        ByteCode::Param(id) => "param "@ + nat_text(id as nat),
        ByteCode::Index(i) => "index "@ + nat_text(i as nat),
        ByteCode::Construct { id, len } => "construct "@ + nat_text(id as nat) + " "@ + nat_text(len as nat),
        ByteCode::Match(id) => "match "@ + nat_text(id as nat),
        ByteCode::Call(id) => "call "@ + nat_text(id as nat),
        ByteCode::Je(n) => "je "@ + int_text(n as i64),
        ByteCode::Jne(n) => "jne "@ + int_text(n as i64),
        ByteCode::Jmp(n) => "jmp "@ + int_text(n as i64),
        ByteCode::Op(kind) => "op "@ + go_op_text(kind),
    }
}

/// A mnemonic followed by one number.
fn with_nat(name: &str, n: u32) -> (r: String)
    ensures
        r@ == name@ + nat_text(n as nat),
{
    let mut s = String::new();
    push_str(&mut s, name);
    push_nat(&mut s, n as u64);
    s
}

/// A mnemonic followed by one signed number.
fn with_int(name: &str, n: i32) -> (r: String)
    ensures
        r@ == name@ + int_text(n as i64),
{
    let mut s = String::new();
    push_str(&mut s, name);
    push_int(&mut s, n as i64);
    s
}

/// The text of an instruction.
pub fn byte_code_text(code: &ByteCode) -> (r: String)
    ensures
        r@ == code_text(*code),
{
    proof {
        reveal_strlit("push ");
        reveal_strlit(" ");
    }
    match code {
        ByteCode::Push(l) => {
            let mut s = String::new();
            push_str(&mut s, "push ");
            push_str(&mut s, lit_text(l).as_str());
            s
        },
        ByteCode::Pop => String::from_str("pop"),
        ByteCode::Copy => String::from_str("copy"),
        ByteCode::Print => String::from_str("print"),
        ByteCode::Panic => String::from_str("panic"),
        ByteCode::Return => String::from_str("ret"),
        ByteCode::GetLocal(id) => with_nat("get_local ", *id),
        ByteCode::SetLocal(id) => with_nat("set_local ", *id),
        ByteCode::NewLocal(id) => with_nat("new_local ", *id),
        ByteCode::Param(id) => with_nat("param ", *id),
        ByteCode::Index(i) => with_nat("index ", *i),
        ByteCode::Construct { id, len } => {
            let mut s = with_nat("construct ", *id);
            push_str(&mut s, " ");
            push_nat(&mut s, *len as u64);
            s
        },
        ByteCode::Match(id) => with_nat("match ", *id),
        ByteCode::Call(id) => with_nat("call ", *id),
        ByteCode::Je(n) => with_int("je ", *n),
        ByteCode::Jne(n) => with_int("jne ", *n),
        ByteCode::Jmp(n) => with_int("jmp ", *n),
        ByteCode::Op(kind) => {
            let mut s = String::new();
            push_str(&mut s, "op ");
            push_str(&mut s, go_op(*kind));
            s
        },
    }
}

/// The lines of a function's instructions, each indented by four spaces and ended by a line break.
pub open spec fn body_text(body: Seq<ByteCode>) -> Seq<char>
    decreases body.len(),
{
    if body.len() == 0 {
        Seq::empty()
    } else {
        body_text(body.drop_last()) + "    "@ + code_text(body.last()) + "\n"@
    }
}

/// The text of compiled functions: per function a header line with its id and its number of
/// arguments, then one line per instruction.
pub open spec fn funcs_text(funcs: Seq<(u32, FuncDef)>) -> Seq<char>
    decreases funcs.len(),
{
    if funcs.len() == 0 {
        Seq::empty()
    } else {
        let (id, f) = funcs.last();
        funcs_text(funcs.drop_last()) + "func "@ + nat_text(id as nat) + ", "@ + nat_text(f.args as nat)
            + "\n"@ + body_text(f.body@)
    }
}

/// The text of compiled functions, as written to the output file.
pub fn write_funcs_text(funcs: &[(u32, FuncDef)]) -> (r: String)
    ensures
        r@ == funcs_text(funcs@),
{
    proof {
        reveal_strlit("func ");
        reveal_strlit(", ");
        reveal_strlit("\n");
        reveal_strlit("    ");
    }
    let mut out = String::new();
    let mut i: usize = 0;
    proof {
        assert(funcs@.take(0) =~= Seq::<(u32, FuncDef)>::empty());
    }
    while i < funcs.len()
        invariant
            i <= funcs@.len(),
            out@ == funcs_text(funcs@.take(i as int)),
        decreases funcs@.len() - i,
    {
        let ghost before = out@;
        let (id, f) = &funcs[i];
        push_str(&mut out, "func ");
        push_nat(&mut out, *id as u64);
        push_str(&mut out, ", ");
        push_nat(&mut out, f.args as u64);
        push_str(&mut out, "\n");
        let ghost head = out@;
        let mut j: usize = 0;
        proof {
            assert(f.body@.take(0) =~= Seq::<ByteCode>::empty());
        }
        while j < f.body.len()
            invariant
                j <= f.body@.len(),
                out@ == head + body_text(f.body@.take(j as int)),
            decreases f.body@.len() - j,
        {
            push_str(&mut out, "    ");
            push_str(&mut out, byte_code_text(&f.body[j]).as_str());
            push_str(&mut out, "\n");
            proof {
                assert(f.body@.take(j + 1).drop_last() =~= f.body@.take(j as int));
                assert(out@ =~= head + body_text(f.body@.take(j + 1)));
            }
            j = j + 1;
        }
        proof {
            assert(f.body@.take(f.body@.len() as int) =~= f.body@);
            assert(funcs@.take(i + 1).drop_last() =~= funcs@.take(i as int));
            assert(out@ =~= funcs_text(funcs@.take(i + 1)));
        }
        i = i + 1;
    }
    proof {
        assert(funcs@.take(funcs@.len() as int) =~= funcs@);
    }
    out
}

} // verus!
