use vstd::prelude::*;

use pretty::RcDoc;

use crate::check::message::{int_text, nat_text, push_int, push_nat};
use crate::go::{go_op, go_op_text, GoExpr, GoFile, GoFunc, GoStmt, GoType};
use crate::parser::ast::{lit_view, Literal, LiteralModel};
use crate::util::push_str;

verus! {

broadcast use vstd::std_specs::vec::group_vec_axioms;

/// A document of the Go printer, its texts by value.
pub enum DocModel {
    Nil,
    Text(Seq<char>),
    Space,
    HardLine,
    Append(Box<DocModel>, Box<DocModel>),
    Nest(isize, Box<DocModel>),
    Intersperse(Seq<DocModel>, Box<DocModel>),
}

/// A document of the Go printer: texts, spaces and line breaks, joined, indented or separated.
pub enum Doc {
    Nil,
    Text(String),
    Space,
    HardLine,
    Append(Box<Doc>, Box<Doc>),
    Nest(isize, Box<Doc>),
    Intersperse(Vec<Doc>, Box<Doc>),
}

/// The value of a document.
pub open spec fn doc_view(d: Doc) -> DocModel
    decreases d,
{
    match d {
        Doc::Nil => DocModel::Nil,
        Doc::Text(s) => DocModel::Text(s@),
        Doc::Space => DocModel::Space,
        Doc::HardLine => DocModel::HardLine,
        Doc::Append(a, b) => DocModel::Append(Box::new(doc_view(*a)), Box::new(doc_view(*b))),
        Doc::Nest(i, a) => DocModel::Nest(i, Box::new(doc_view(*a))),
        Doc::Intersperse(ds, sep) => DocModel::Intersperse(
            Seq::new(ds@.len(), |i: int| if 0 <= i < ds@.len() { doc_view(ds[i]) } else { DocModel::Nil }),
            Box::new(doc_view(*sep)),
        ),
    }
}

impl View for Doc {
    type V = DocModel;

    open spec fn view(&self) -> DocModel {
        doc_view(*self)
    }
}

/// Two documents one after the other.
pub open spec fn app(a: DocModel, b: DocModel) -> DocModel {
    DocModel::Append(Box::new(a), Box::new(b))
}

/// The separator of listed items: a comma and a space.
pub open spec fn comma_sep() -> DocModel {
    app(DocModel::Text(","@), DocModel::Space)
}

/// Items between two brackets, separated by commas.
pub open spec fn brackets_doc(open: Seq<char>, close: Seq<char>, items: Seq<DocModel>) -> DocModel {
    app(app(DocModel::Text(open), DocModel::Intersperse(items, Box::new(comma_sep()))), DocModel::Text(close))
}

/// The document of a Go type.
pub open spec fn type_doc(t: GoType) -> DocModel
    decreases t, 1nat,
{
    match t {
        GoType::Named { name, args } => if args@.len() == 0 {
            DocModel::Text(name@)
        } else {
            app(DocModel::Text(name@), brackets_doc("["@, "]"@, type_docs(args@)))
        },
        GoType::Tuple(ts) => brackets_doc("("@, ")"@, type_docs(ts@)),
        GoType::Array(inner) => app(DocModel::Text("[]"@), type_doc(*inner)),
    }
}

/// The documents of a list of Go types.
pub open spec fn type_docs(ts: Seq<GoType>) -> Seq<DocModel>
    decreases ts, 0nat,
{
    Seq::new(ts.len(), |i: int| if 0 <= i < ts.len() { type_doc(ts[i]) } else { DocModel::Nil })
}

/// The values of a list of documents.
pub open spec fn docs_view(ds: Seq<Doc>) -> Seq<DocModel> {
    Seq::new(ds.len(), |i: int| ds[i]@)
}

/// The text of Rust's debug form of a string, quoted and escaped.
pub uninterp spec fn debug_text(s: Seq<char>) -> Seq<char>;

/// The text of Rust's debug form of a character, quoted and escaped.
pub uninterp spec fn debug_char_text(c: char) -> Seq<char>;

/// A string in its quoted, escaped form: `format!("{:?}")`.
#[verifier::external_body]
fn debug_str(s: &str) -> (r: String)
    ensures
        r@ == debug_text(s@),
{
    format!("{s:?}")
}

/// A character in its quoted, escaped form: `format!("{:?}")`.
#[verifier::external_body]
fn debug_char(c: char) -> (r: String)
    ensures
        r@ == debug_char_text(c),
{
    format!("{c:?}")
}

/// The text of a literal in Go source.
pub open spec fn literal_text(l: LiteralModel) -> Seq<char> {
    match l {
        LiteralModel::String(s) => debug_text(s),
        LiteralModel::Int(i) => int_text(i),
        LiteralModel::Float(t) => t,
        LiteralModel::Char(c) => debug_char_text(c),
        LiteralModel::Bool(b) => if b {
            "true"@
        } else {
            "false"@
        },
    }
}

/// The text of a literal in Go source.
pub fn lit_text(l: &Literal) -> (r: String)
    ensures
        r@ == literal_text(lit_view(*l)),
{
    proof {
        reveal_strlit("true");
        reveal_strlit("false");
    }
    match l {
        Literal::String(s) => debug_str(s.as_str()),
        Literal::Int(i) => {
            let mut out = String::new();
            push_int(&mut out, *i);
            proof {
                assert(out@ =~= literal_text(lit_view(*l)));
            }
            out
        },
        Literal::Float(t) => t.clone(),
        Literal::Char(c) => debug_char(*c),
        Literal::Bool(b) => if *b {
            String::from_str("true")
        } else {
            String::from_str("false")
        },
    }
}

/// The document of a Go expression.
pub open spec fn expr_doc(e: GoExpr) -> DocModel
    decreases e, 1nat,
{
    match e {
        GoExpr::Ident(n) => DocModel::Text(n@),
        GoExpr::Literal(l) => DocModel::Text(literal_text(lit_view(l))),
        GoExpr::Call { receiver, name, args } => app(
            app(
                match receiver {
                    Some(r) => app(expr_doc(*r), DocModel::Text("."@)),
                    None => DocModel::Nil,
                },
                DocModel::Text(name@),
            ),
            brackets_doc("("@, ")"@, expr_docs(args@)),
        ),
        GoExpr::Op { left, right, kind } => app(
            app(app(app(expr_doc(*left), DocModel::Space), DocModel::Text(go_op_text(kind))), DocModel::Space),
            expr_doc(*right),
        ),
        GoExpr::Slice { ty, elements } => app(
            app(DocModel::Text("[]"@), type_doc(ty)),
            brackets_doc("{"@, "}"@, expr_docs(elements@)),
        ),
    }
}

/// The documents of a list of Go expressions.
pub open spec fn expr_docs(es: Seq<GoExpr>) -> Seq<DocModel>
    decreases es, 0nat,
{
    Seq::new(es.len(), |i: int| if 0 <= i < es.len() { expr_doc(es[i]) } else { DocModel::Nil })
}

/// Text documents of a list of names.
pub open spec fn texts_doc(names: Seq<String>) -> Seq<DocModel> {
    Seq::new(names.len(), |i: int| DocModel::Text(names[i]@))
}

/// The documents of a list of Go statements.
pub open spec fn stmt_docs(ss: Seq<GoStmt>) -> Seq<DocModel> {
    Seq::new(ss.len(), |i: int| stmt_doc(ss[i]))
}

/// The document of a Go statement.
pub open spec fn stmt_doc(s: GoStmt) -> DocModel {
    match s {
        GoStmt::VarDecl { names, expr } => app(
            app(
                app(
                    app(
                        DocModel::Intersperse(texts_doc(names@), Box::new(comma_sep())),
                        DocModel::Space,
                    ),
                    DocModel::Text(":="@),
                ),
                DocModel::Space,
            ),
            expr_doc(expr),
        ),
        GoStmt::Expr(e) => expr_doc(e),
    }
}

/// The document of a Go function: `func`, its receiver, its name after its id, its parameters,
/// its result and its body indented in braces.
pub open spec fn func_doc(f: GoFunc) -> DocModel {
    let receiver = match f.receiver {
        Some(r) => app(
            app(app(app(app(DocModel::Text("("@), DocModel::Text("self"@)), DocModel::Space), type_doc(r)), DocModel::Text(")"@)),
            DocModel::Space,
        ),
        None => DocModel::Nil,
    };
    let ret = match f.ret {
        Some(r) => app(DocModel::Space, type_doc(r)),
        None => DocModel::Nil,
    };
    let body = DocModel::Intersperse(stmt_docs(f.body@), Box::new(DocModel::HardLine));
    app(
        app(
            app(
                app(
                    app(
                        app(
                            app(
                                app(app(app(DocModel::Text("func"@), DocModel::Space), receiver), DocModel::Text("F"@ + nat_text(f.id as nat))),
                                brackets_doc("("@, ")"@, type_docs(f.args@)),
                            ),
                            ret,
                        ),
                        DocModel::Space,
                    ),
                    DocModel::Text("{"@),
                ),
                DocModel::Nest(4, Box::new(app(DocModel::HardLine, body))),
            ),
            DocModel::HardLine,
        ),
        DocModel::Text("}"@),
    )
}

/// The document of an import: the alias and the quoted path.
pub open spec fn import_doc(name: Seq<char>, loc: Seq<char>) -> DocModel {
    app(app(app(app(DocModel::Text(name), DocModel::Space), DocModel::Text("\""@)), DocModel::Text(loc)), DocModel::Text("\""@))
}

/// The documents of a list of imports.
pub open spec fn import_docs(imports: Seq<(String, String)>) -> Seq<DocModel> {
    Seq::new(imports.len(), |i: int| import_doc(imports[i].0@, imports[i].1@))
}

/// The documents of a list of functions.
pub open spec fn func_docs(funcs: Seq<(u32, GoFunc)>) -> Seq<DocModel> {
    Seq::new(funcs.len(), |i: int| func_doc(funcs[i].1))
}

/// The document of a Go file: the block of imports, then the functions.
pub open spec fn file_doc(f: GoFile) -> DocModel {
    let imports = DocModel::Intersperse(
        import_docs(f.imports@),
        Box::new(DocModel::HardLine),
    );
    let block = DocModel::Nest(4, Box::new(app(imports, DocModel::HardLine)));
    let head = app(
        app(app(app(app(DocModel::Text("import"@), DocModel::Space), DocModel::Text("("@)), DocModel::HardLine), block),
        DocModel::Text(")"@),
    );
    app(
        app(head, DocModel::HardLine),
        DocModel::Intersperse(func_docs(f.funcs@), Box::new(DocModel::HardLine)),
    )
}

/// A text document.
fn text(s: &str) -> (d: Doc)
    ensures
        d@ == DocModel::Text(s@),
{
    Doc::Text(String::from_str(s))
}

/// Two documents one after the other.
fn append(a: Doc, b: Doc) -> (d: Doc)
    ensures
        d@ == app(a@, b@),
{
    Doc::Append(Box::new(a), Box::new(b))
}

/// The separator of listed items.
fn comma() -> (d: Doc)
    ensures
        d@ == comma_sep(),
{
    proof {
        reveal_strlit(",");
    }
    append(text(","), Doc::Space)
}

/// Items between two brackets, separated by commas.
fn brackets(open: &str, close: &str, items: Vec<Doc>) -> (d: Doc)
    ensures
        d@ == brackets_doc(open@, close@, docs_view(items@)),
{
    let ghost v = docs_view(items@);
    let inner = Doc::Intersperse(items, Box::new(comma()));
    proof {
        assert(inner@ == DocModel::Intersperse(v, Box::new(comma_sep()))) by {
            assert(inner@->Intersperse_0 =~= v);
        }
    }
    append(append(text(open), inner), text(close))
}

impl GoType {
    /// The document of the type.
    pub fn pretty(&self) -> (d: Doc)
        ensures
            d@ == type_doc(*self),
        decreases self,
    {
        proof {
            reveal_strlit("[");
            reveal_strlit("]");
            reveal_strlit("(");
            reveal_strlit(")");
            reveal_strlit("[]");
        }
        match self {
            GoType::Named { name, args } => {
                if args.len() == 0 {
                    return Doc::Text(name.clone());
                }
                let docs = types_pretty(args);
                append(Doc::Text(name.clone()), brackets("[", "]", docs))
            },
            GoType::Tuple(ts) => brackets("(", ")", types_pretty(ts)),
            GoType::Array(inner) => append(text("[]"), inner.pretty()),
        }
    }
}

/// The documents of a list of types.
fn types_pretty(ts: &Vec<GoType>) -> (r: Vec<Doc>)
    ensures
        docs_view(r@) == type_docs(ts@),
    decreases ts@,
{
    let mut out: Vec<Doc> = Vec::new();
    let mut i: usize = 0;
    while i < ts.len()
        invariant
            i <= ts@.len(),
            out@.len() == i,
            forall|k: int| 0 <= k < i ==> (#[trigger] out@[k])@ == type_doc(ts@[k]),
        decreases ts@.len() - i,
    {
        proof {
            assert(decreases_to!(ts@ => ts@[i as int]));
        }
        out.push(ts[i].pretty());
        i = i + 1;
    }
    assert(docs_view(out@) =~= type_docs(ts@));
    out
}

impl GoExpr {
    /// The document of the expression.
    pub fn pretty(&self) -> (d: Doc)
        ensures
            d@ == expr_doc(*self),
        decreases self,
    {
        proof {
            reveal_strlit(".");
            reveal_strlit("(");
            reveal_strlit(")");
            reveal_strlit("[]");
            reveal_strlit("{");
            reveal_strlit("}");
        }
        match self {
            GoExpr::Ident(n) => Doc::Text(n.clone()),
            GoExpr::Literal(l) => Doc::Text(lit_text(l)),
            GoExpr::Call { receiver, name, args } => {
                let r = match receiver {
                    Some(r) => append(r.pretty(), text(".")),
                    None => Doc::Nil,
                };
                append(append(r, Doc::Text(name.clone())), brackets("(", ")", exprs_pretty(args)))
            },
            GoExpr::Op { left, right, kind } => append(
                append(append(append(left.pretty(), Doc::Space), text(go_op(*kind))), Doc::Space),
                right.pretty(),
            ),
            GoExpr::Slice { ty, elements } => append(
                append(text("[]"), ty.pretty()),
                brackets("{", "}", exprs_pretty(elements)),
            ),
        }
    }
}

/// The documents of a list of expressions.
fn exprs_pretty(es: &Vec<GoExpr>) -> (r: Vec<Doc>)
    ensures
        docs_view(r@) == expr_docs(es@),
    decreases es@,
{
    let mut out: Vec<Doc> = Vec::new();
    let mut i: usize = 0;
    while i < es.len()
        invariant
            i <= es@.len(),
            out@.len() == i,
            forall|k: int| 0 <= k < i ==> (#[trigger] out@[k])@ == expr_doc(es@[k]),
        decreases es@.len() - i,
    {
        proof {
            assert(decreases_to!(es@ => es@[i as int]));
        }
        out.push(es[i].pretty());
        i = i + 1;
    }
    assert(docs_view(out@) =~= expr_docs(es@));
    out
}

/// Text documents of a list of names.
fn names_pretty(names: &Vec<String>) -> (r: Vec<Doc>)
    ensures
        docs_view(r@) == texts_doc(names@),
{
    let mut out: Vec<Doc> = Vec::new();
    let mut i: usize = 0;
    while i < names.len()
        invariant
            i <= names@.len(),
            out@.len() == i,
            forall|k: int| 0 <= k < i ==> (#[trigger] out@[k])@ == DocModel::Text(names@[k]@),
        decreases names@.len() - i,
    {
        out.push(Doc::Text(names[i].clone()));
        i = i + 1;
    }
    assert(docs_view(out@) =~= texts_doc(names@));
    out
}

/// Documents separated by a separator.
fn intersperse(items: Vec<Doc>, sep: Doc) -> (d: Doc)
    ensures
        d@ == DocModel::Intersperse(docs_view(items@), Box::new(sep@)),
{
    let ghost v = docs_view(items@);
    let d = Doc::Intersperse(items, Box::new(sep));
    proof {
        assert(d@->Intersperse_0 =~= v);
    }
    d
}

impl GoStmt {
    /// The document of the statement.
    pub fn pretty(&self) -> (d: Doc)
        ensures
            d@ == stmt_doc(*self),
    {
        proof {
            reveal_strlit(":=");
        }
        match self {
            GoStmt::VarDecl { names, expr } => append(
                append(append(append(intersperse(names_pretty(names), comma()), Doc::Space), text(":=")), Doc::Space),
                expr.pretty(),
            ),
            GoStmt::Expr(e) => e.pretty(),
        }
    }
}

/// The documents of a list of statements.
fn stmts_pretty(ss: &Vec<GoStmt>) -> (r: Vec<Doc>)
    ensures
        docs_view(r@) == stmt_docs(ss@),
{
    let mut out: Vec<Doc> = Vec::new();
    let mut i: usize = 0;
    while i < ss.len()
        invariant
            i <= ss@.len(),
            out@.len() == i,
            forall|k: int| 0 <= k < i ==> (#[trigger] out@[k])@ == stmt_doc(ss@[k]),
        decreases ss@.len() - i,
    {
        out.push(ss[i].pretty());
        i = i + 1;
    }
    assert(docs_view(out@) =~= stmt_docs(ss@));
    out
}

impl GoFunc {
    /// The document of the function.
    pub fn pretty(&self) -> (d: Doc)
        ensures
            d@ == func_doc(*self),
    {
        proof {
            reveal_strlit("(");
            reveal_strlit("self");
            reveal_strlit(")");
            reveal_strlit("func");
            reveal_strlit("F");
            reveal_strlit("{");
            reveal_strlit("}");
        }
        let receiver = match &self.receiver {
            Some(r) => append(
                append(append(append(append(text("("), text("self")), Doc::Space), r.pretty()), text(")")),
                Doc::Space,
            ),
            None => Doc::Nil,
        };
        let ret = match &self.ret {
            Some(r) => append(Doc::Space, r.pretty()),
            None => Doc::Nil,
        };
        let body = intersperse(stmts_pretty(&self.body), Doc::HardLine);
        let mut name = String::new();
        push_str(&mut name, "F");
        push_nat(&mut name, self.id as u64);
        let head = append(append(append(text("func"), Doc::Space), receiver), Doc::Text(name));
        let sig = append(append(head, brackets("(", ")", types_pretty(&self.args))), ret);
        let open = append(append(sig, Doc::Space), text("{"));
        let block = append(open, Doc::Nest(4, Box::new(append(Doc::HardLine, body))));
        append(append(block, Doc::HardLine), text("}"))
    }
}

/// The document of an import: the alias and the quoted path.
fn import_pretty(name: &String, loc: &String) -> (d: Doc)
    ensures
        d@ == import_doc(name@, loc@),
{
    proof {
        reveal_strlit("\"");
    }
    append(
        append(append(append(Doc::Text(name.clone()), Doc::Space), text("\"")), Doc::Text(loc.clone())),
        text("\""),
    )
}

impl GoFile {
    /// The document of the file: the block of imports, then the functions.
    pub fn pretty(&self) -> (d: Doc)
        ensures
            d@ == file_doc(*self),
    {
        proof {
            reveal_strlit("import");
            reveal_strlit("(");
            reveal_strlit(")");
        }
        let mut imports: Vec<Doc> = Vec::new();
        let mut i: usize = 0;
        while i < self.imports.len()
            invariant
                i <= self.imports@.len(),
                imports@.len() == i,
                forall|k: int| 0 <= k < i ==> (#[trigger] imports@[k])@ == import_doc(self.imports@[k].0@, self.imports@[k].1@),
            decreases self.imports@.len() - i,
        {
            imports.push(import_pretty(&self.imports[i].0, &self.imports[i].1));
            i = i + 1;
        }
        assert(docs_view(imports@) =~= import_docs(self.imports@));
        let mut funcs: Vec<Doc> = Vec::new();
        let mut j: usize = 0;
        while j < self.funcs.len()
            invariant
                j <= self.funcs@.len(),
                funcs@.len() == j,
                forall|k: int| 0 <= k < j ==> (#[trigger] funcs@[k])@ == func_doc(self.funcs@[k].1),
            decreases self.funcs@.len() - j,
        {
            funcs.push(self.funcs[j].1.pretty());
            j = j + 1;
        }
        assert(docs_view(funcs@) =~= func_docs(self.funcs@));
        let block = Doc::Nest(4, Box::new(append(intersperse(imports, Doc::HardLine), Doc::HardLine)));
        let head = append(
            append(append(append(append(text("import"), Doc::Space), text("(")), Doc::HardLine), block),
            text(")"),
        );
        append(append(head, Doc::HardLine), intersperse(funcs, Doc::HardLine))
    }
}

/// The document type of the `pretty` crate, reference-counted.
#[verifier::external_type_specification]
#[verifier::external_body]
#[verifier::reject_recursive_types(A)]
pub struct ExRcDoc<'a, A>(RcDoc<'a, A>);

/// `RcDoc::text`: a document of the given text. What the document holds is not stated: the
/// type is opaque here.
#[verifier::external_body]
fn rc_text(s: String) -> (d: RcDoc<'static, ()>) {
    RcDoc::text(s)
}

/// `RcDoc::nil`: the empty document. What the document holds is not stated: the type is opaque
/// here.
#[verifier::external_body]
fn rc_nil() -> (d: RcDoc<'static, ()>) {
    RcDoc::nil()
}

/// `RcDoc::space`: a single space. What the document holds is not stated: the type is opaque
/// here.
#[verifier::external_body]
fn rc_space() -> (d: RcDoc<'static, ()>) {
    RcDoc::space()
}

/// `RcDoc::hardline`: a line break. What the document holds is not stated: the type is opaque
/// here.
#[verifier::external_body]
fn rc_hardline() -> (d: RcDoc<'static, ()>) {
    RcDoc::hardline()
}

/// `RcDoc::append`: one document after the other. What the document holds is not stated: the
/// type is opaque here.
#[verifier::external_body]
fn rc_append(a: RcDoc<'static, ()>, b: RcDoc<'static, ()>) -> (d: RcDoc<'static, ()>) {
    a.append(b)
}

/// `RcDoc::nest`: the document with its line breaks indented by `offset` more. What the document
/// holds is not stated: the type is opaque here.
#[verifier::external_body]
fn rc_nest(a: RcDoc<'static, ()>, offset: isize) -> (d: RcDoc<'static, ()>) {
    a.nest(offset)
}

/// `RcDoc::intersperse`: the documents with the separator between each two. What the document
/// holds is not stated: the type is opaque here.
#[verifier::external_body]
fn rc_intersperse(docs: Vec<RcDoc<'static, ()>>, sep: RcDoc<'static, ()>) -> (d: RcDoc<'static, ()>) {
    RcDoc::intersperse(docs, sep)
}

/// `Doc::render_fmt` into a new `String`: the document laid out in lines of `width` columns.
/// The text is not stated: the layout is the `pretty` crate's, and the document is opaque here.
#[verifier::external_body]
fn rc_render(d: &RcDoc<'static, ()>, width: usize) -> (r: String) {
    let mut out = String::new();
    let _ = d.render_fmt(width, &mut out);
    out
}

/// The document as a document of the `pretty` crate.
fn to_rc(d: &Doc) -> RcDoc<'static, ()>
    decreases d,
{
    match d {
        Doc::Nil => rc_nil(),
        Doc::Text(s) => rc_text(s.clone()),
        Doc::Space => rc_space(),
        Doc::HardLine => rc_hardline(),
        Doc::Append(a, b) => rc_append(to_rc(a), to_rc(b)),
        Doc::Nest(offset, a) => rc_nest(to_rc(a), *offset),
        Doc::Intersperse(ds, sep) => {
            let mut docs: Vec<RcDoc<'static, ()>> = Vec::new();
            let mut i: usize = 0;
            while i < ds.len()
                invariant
                    i <= ds@.len(),
                    *d == Doc::Intersperse(*ds, *sep),
                decreases ds@.len() - i,
            {
                proof {
                    assert(decreases_to!(*d => ds@[i as int])) by {
                        assert(decreases_to!(*d => (*d)->Intersperse_0));
                        assert(decreases_to!(*ds => ds@));
                        assert(decreases_to!(ds@ => ds@[i as int]));
                    }
                }
                docs.push(to_rc(&ds[i]));
                i = i + 1;
            }
            rc_intersperse(docs, to_rc(sep))
        },
    }
}

/// The document laid out by the `pretty` crate in lines of `width` columns.
pub fn render(d: &Doc, width: usize) -> String {
    rc_render(&to_rc(d), width)
}


/// Booleans are written `true` and `false` in Go.
pub proof fn law_go_literal_text(b: bool)
    ensures
        literal_text(LiteralModel::Bool(b)) == if b {
            seq!['t', 'r', 'u', 'e']
        } else {
            seq!['f', 'a', 'l', 's', 'e']
        },
{
    reveal_strlit("true");
    reveal_strlit("false");
    assert("true"@ =~= seq!['t', 'r', 'u', 'e']);
    assert("false"@ =~= seq!['f', 'a', 'l', 's', 'e']);
}

} // verus!
