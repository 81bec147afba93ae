use vstd::prelude::*;

use crate::parser::ast::{Literal, OpKind};

pub mod doc;

verus! {

/// The locals in scope while Go code is generated, innermost last.
pub struct GoBuildState {
    pub scopes: Vec<Vec<(String, u32)>>,
}

/// A Go expression.
pub enum GoExpr {
    Ident(String),
    Literal(Literal),
    Call { receiver: Option<Box<GoExpr>>, name: String, args: Vec<GoExpr> },
    Op { left: Box<GoExpr>, right: Box<GoExpr>, kind: OpKind },
    Slice { ty: GoType, elements: Vec<GoExpr> },
}

/// A Go type.
pub enum GoType {
    Named { name: String, args: Vec<GoType> },
    Tuple(Vec<GoType>),
    Array(Box<GoType>),
}

/// A Go statement.
pub enum GoStmt {
    VarDecl { names: Vec<String>, expr: GoExpr },
    Expr(GoExpr),
}

/// A Go function, named after its id.
pub struct GoFunc {
    pub id: u32,
    pub receiver: Option<GoType>,
    pub args: Vec<GoType>,
    pub ret: Option<GoType>,
    pub body: Vec<GoStmt>,
}

/// A Go file: its imports by alias and its functions by id.
pub struct GoFile {
    pub imports: Vec<(String, String)>,
    pub funcs: Vec<(u32, GoFunc)>,
}

/// The Go spelling of an operator.
pub open spec fn go_op_text(kind: OpKind) -> Seq<char> {
    match kind {
        OpKind::Add => "+"@,
        OpKind::Sub => "-"@,
        OpKind::Mul => "*"@,
        OpKind::Div => "/"@,
        OpKind::Eq => "=="@,
        OpKind::Neq => "!="@,
        OpKind::Lt => "<"@,
        OpKind::Gt => ">"@,
        OpKind::Lte => "<="@,
        OpKind::Gte => ">="@,
        OpKind::And => "&&"@,
        OpKind::Or => "||"@,
    }
}

/// The Go spelling of an operator.
pub fn go_op(kind: OpKind) -> (r: &'static str)
    ensures
        r@ == go_op_text(kind),
{
    match kind {
        OpKind::Add => "+",
        OpKind::Sub => "-",
        OpKind::Mul => "*",
        OpKind::Div => "/",
        OpKind::Eq => "==",
        OpKind::Neq => "!=",
        OpKind::Lt => "<",
        OpKind::Gt => ">",
        OpKind::Lte => "<=",
        OpKind::Gte => ">=",
        OpKind::And => "&&",
        OpKind::Or => "||",
    }
}

impl GoFile {
    /// Whether no alias is imported twice and no id names two functions, each function standing
    /// under its own id.
    pub open spec fn wf(&self) -> bool {
        &&& forall|a: int, b: int|
            0 <= a < b < self.imports@.len() ==> (#[trigger] self.imports@[a]).0@ != (#[trigger] self.imports@[b]).0@
        &&& forall|a: int, b: int|
            0 <= a < b < self.funcs@.len() ==> (#[trigger] self.funcs@[a]).0 != (#[trigger] self.funcs@[b]).0
        &&& forall|a: int| 0 <= a < self.funcs@.len() ==> (#[trigger] self.funcs@[a]).0 == self.funcs@[a].1.id
    }

    /// A file with no imports and no functions.
    pub fn new() -> (f: GoFile)
        ensures
            f.wf(),
            f.imports@.len() == 0,
            f.funcs@.len() == 0,
    {
        GoFile { imports: Vec::new(), funcs: Vec::new() }
    }

    /// Imports `path` under `alias`, replacing an import under the same alias.
    pub fn insert_import(&mut self, alias: String, path: String)
        requires
            old(self).wf(),
        ensures
            final(self).wf(),
            final(self).funcs == old(self).funcs,
            exists|k: int| 0 <= k < final(self).imports@.len() && (#[trigger] final(self).imports@[k]).0@ == alias@
                && final(self).imports@[k].1@ == path@,
            forall|k: int|
                0 <= k < old(self).imports@.len() && (#[trigger] old(self).imports@[k]).0@ != alias@ ==> exists|j: int|
                    0 <= j < final(self).imports@.len() && final(self).imports@[j] == old(self).imports@[k],
    {
        let mut i: usize = 0;
        while i < self.imports.len()
            invariant
                i <= self.imports@.len(),
                *self == *old(self),
                old(self).wf(),
                forall|k: int| 0 <= k < i ==> (#[trigger] self.imports@[k]).0@ != alias@,
            decreases self.imports@.len() - i,
        {
            if crate::db::decl::str_eq(self.imports[i].0.as_str(), alias.as_str()) {
                let ghost before = self.imports@;
                let a = self.imports[i].0.clone();
                self.imports.set(i, (a, path));
                proof {
                    assert(self.imports@[i as int].0@ == alias@);
                    assert forall|k: int| 0 <= k < before.len() && (#[trigger] before[k]).0@ != alias@ implies exists|j: int|
                        0 <= j < self.imports@.len() && self.imports@[j] == before[k] by {
                        assert(self.imports@[k] == before[k]);
                    }
                }
                return;
            }
            i = i + 1;
        }
        let ghost before = self.imports@;
        self.imports.push((alias, path));
        proof {
            let n = before.len() as int;
            assert(self.imports@[n].0@ == alias@);
            assert forall|k: int| 0 <= k < before.len() && (#[trigger] before[k]).0@ != alias@ implies exists|j: int|
                0 <= j < self.imports@.len() && self.imports@[j] == before[k] by {
                assert(self.imports@[k] == before[k]);
            }
        }
    }

    /// Adds a function under its id, replacing the function with that id.
    pub fn insert_func(&mut self, func: GoFunc)
        requires
            old(self).wf(),
        ensures
            final(self).wf(),
            final(self).imports == old(self).imports,
            exists|k: int| 0 <= k < final(self).funcs@.len() && (#[trigger] final(self).funcs@[k]) == (func.id, func),
            forall|k: int|
                0 <= k < old(self).funcs@.len() && (#[trigger] old(self).funcs@[k]).0 != func.id ==> exists|j: int|
                    0 <= j < final(self).funcs@.len() && final(self).funcs@[j] == old(self).funcs@[k],
    {
        let id = func.id;
        let mut i: usize = 0;
        while i < self.funcs.len()
            invariant
                i <= self.funcs@.len(),
                *self == *old(self),
                old(self).wf(),
                id == func.id,
                forall|k: int| 0 <= k < i ==> (#[trigger] self.funcs@[k]).0 != id,
            decreases self.funcs@.len() - i,
        {
            if self.funcs[i].0 == id {
                let ghost before = self.funcs@;
                self.funcs.set(i, (id, func));
                proof {
                    assert(self.funcs@[i as int] == (id, func));
                    assert forall|k: int| 0 <= k < before.len() && (#[trigger] before[k]).0 != id implies exists|j: int|
                        0 <= j < self.funcs@.len() && self.funcs@[j] == before[k] by {
                        assert(self.funcs@[k] == before[k]);
                    }
                }
                return;
            }
            i = i + 1;
        }
        let ghost before = self.funcs@;
        self.funcs.push((id, func));
        proof {
            let n = before.len() as int;
            assert(self.funcs@[n] == (id, func));
            assert forall|k: int| 0 <= k < before.len() && (#[trigger] before[k]).0 != id implies exists|j: int|
                0 <= j < self.funcs@.len() && self.funcs@[j] == before[k] by {
                assert(self.funcs@[k] == before[k]);
            }
        }
    }
}


/// Each operator has its own Go spelling, the one Go writes it with: `+ - * /` for arithmetic,
/// `== != < > <= >=` for comparison and `&& ||` for the boolean operators; no two operators are
/// spelled alike.
pub proof fn law_go_op_spelling(a: OpKind, b: OpKind)
    ensures
        a == OpKind::Add ==> go_op_text(a) == seq!['+'],
        a == OpKind::Sub ==> go_op_text(a) == seq!['-'],
        a == OpKind::Mul ==> go_op_text(a) == seq!['*'],
        a == OpKind::Div ==> go_op_text(a) == seq!['/'],
        a == OpKind::Eq ==> go_op_text(a) == seq!['=', '='],
        a == OpKind::Neq ==> go_op_text(a) == seq!['!', '='],
        a == OpKind::Lt ==> go_op_text(a) == seq!['<'],
        a == OpKind::Gt ==> go_op_text(a) == seq!['>'],
        a == OpKind::Lte ==> go_op_text(a) == seq!['<', '='],
        a == OpKind::Gte ==> go_op_text(a) == seq!['>', '='],
        a == OpKind::And ==> go_op_text(a) == seq!['&', '&'],
        a == OpKind::Or ==> go_op_text(a) == seq!['|', '|'],
        go_op_text(a) == go_op_text(b) ==> a == b,
{
    reveal_strlit("+");
    reveal_strlit("-");
    reveal_strlit("*");
    reveal_strlit("/");
    reveal_strlit("==");
    reveal_strlit("!=");
    reveal_strlit("<");
    reveal_strlit(">");
    reveal_strlit("<=");
    reveal_strlit(">=");
    reveal_strlit("&&");
    reveal_strlit("||");
    assert(go_op_text(a) =~= match a {
        OpKind::Add => seq!['+'],
        OpKind::Sub => seq!['-'],
        OpKind::Mul => seq!['*'],
        OpKind::Div => seq!['/'],
        OpKind::Eq => seq!['=', '='],
        OpKind::Neq => seq!['!', '='],
        OpKind::Lt => seq!['<'],
        OpKind::Gt => seq!['>'],
        OpKind::Lte => seq!['<', '='],
        OpKind::Gte => seq!['>', '='],
        OpKind::And => seq!['&', '&'],
        OpKind::Or => seq!['|', '|'],
    });
    assert(go_op_text(b) =~= match b {
        OpKind::Add => seq!['+'],
        OpKind::Sub => seq!['-'],
        OpKind::Mul => seq!['*'],
        OpKind::Div => seq!['/'],
        OpKind::Eq => seq!['=', '='],
        OpKind::Neq => seq!['!', '='],
        OpKind::Lt => seq!['<'],
        OpKind::Gt => seq!['>'],
        OpKind::Lte => seq!['<', '='],
        OpKind::Gte => seq!['>', '='],
        OpKind::And => seq!['&', '&'],
        OpKind::Or => seq!['|', '|'],
    });
    if go_op_text(a) == go_op_text(b) {
        let t = go_op_text(a);
        assert(t.len() == go_op_text(b).len());
        assert(t[0] == go_op_text(b)[0]);
        assert(t.len() == 2 ==> t[1] == go_op_text(b)[1]);
    }
}

} // verus!
