use giblang::go::doc::{lit_text, render};
use giblang::go::{GoExpr, GoFile, GoFunc, GoStmt, GoType};
use giblang::parser::ast::{Literal, OpKind};

fn named(name: &str) -> GoType {
    GoType::Named { name: name.to_string(), args: vec![] }
}

fn ident(name: &str) -> GoExpr {
    GoExpr::Ident(name.to_string())
}

#[test]
fn literal_texts() {
    assert_eq!(lit_text(&Literal::Int(-5)), "-5");
    assert_eq!(lit_text(&Literal::Int(0)), "0");
    assert_eq!(lit_text(&Literal::Int(1234)), "1234");
    assert_eq!(lit_text(&Literal::Int(i64::MIN)), "-9223372036854775808");
    assert_eq!(lit_text(&Literal::Bool(true)), "true");
    assert_eq!(lit_text(&Literal::Bool(false)), "false");
    assert_eq!(lit_text(&Literal::Float("1.5".to_string())), "1.5");
    assert_eq!(lit_text(&Literal::String("a\"b".to_string())), "\"a\\\"b\"");
    assert_eq!(lit_text(&Literal::Char('x')), "'x'");
}

#[test]
fn type_documents() {
    let map = GoType::Named { name: "Map".to_string(), args: vec![named("int"), named("string")] };
    assert_eq!(render(&map.pretty(), 80), "Map[int, string]");
    assert_eq!(render(&named("int").pretty(), 80), "int");
    let arr = GoType::Array(Box::new(named("int")));
    assert_eq!(render(&arr.pretty(), 80), "[]int");
    let tuple = GoType::Tuple(vec![named("int"), named("bool")]);
    assert_eq!(render(&tuple.pretty(), 80), "(int, bool)");
    assert_eq!(render(&GoType::Tuple(vec![]).pretty(), 80), "()");
}

#[test]
fn expression_documents() {
    let call = GoExpr::Call {
        receiver: Some(Box::new(ident("fmt"))),
        name: "Println".to_string(),
        args: vec![GoExpr::Literal(Literal::String("hi".to_string())), ident("x")],
    };
    assert_eq!(render(&call.pretty(), 80), "fmt.Println(\"hi\", x)");
    let bare = GoExpr::Call { receiver: None, name: "f".to_string(), args: vec![] };
    assert_eq!(render(&bare.pretty(), 80), "f()");
    let op = GoExpr::Op {
        left: Box::new(ident("a")),
        right: Box::new(GoExpr::Literal(Literal::Int(1))),
        kind: OpKind::Add,
    };
    assert_eq!(render(&op.pretty(), 80), "a + 1");
    let slice = GoExpr::Slice {
        ty: named("int"),
        elements: vec![GoExpr::Literal(Literal::Int(1)), GoExpr::Literal(Literal::Int(2))],
    };
    assert_eq!(render(&slice.pretty(), 80), "[]int{1, 2}");
}

#[test]
fn statement_documents() {
    let decl = GoStmt::VarDecl {
        names: vec!["a".to_string(), "b".to_string()],
        expr: GoExpr::Call { receiver: None, name: "f".to_string(), args: vec![] },
    };
    assert_eq!(render(&decl.pretty(), 80), "a, b := f()");
    assert_eq!(render(&GoStmt::Expr(ident("x")).pretty(), 80), "x");
}

#[test]
fn function_documents() {
    let func = GoFunc {
        id: 3,
        receiver: None,
        args: vec![named("int")],
        ret: Some(named("int")),
        body: vec![GoStmt::Expr(ident("x")), GoStmt::Expr(ident("y"))],
    };
    assert_eq!(render(&func.pretty(), 80), "func F3(int) int {\n    x\n    y\n}");
    let method = GoFunc { id: 12, receiver: Some(named("T")), args: vec![], ret: None, body: vec![] };
    assert_eq!(render(&method.pretty(), 80), "func (self T) F12() {\n\n}");
}

#[test]
fn file_documents() {
    let func = GoFunc { id: 0, receiver: None, args: vec![], ret: None, body: vec![GoStmt::Expr(ident("x"))] };
    let file = GoFile { imports: vec![("fmt".to_string(), "fmt".to_string())], funcs: vec![(0, func)] };
    assert_eq!(render(&file.pretty(), 80), "import (\nfmt \"fmt\"\n)\nfunc F0() {\n    x\n}");
}

#[test]
fn file_entries_replace_by_key() {
    let mut file = GoFile::new();
    file.insert_import("fmt".to_string(), "fmt".to_string());
    file.insert_import("os".to_string(), "os".to_string());
    file.insert_import("fmt".to_string(), "other/fmt".to_string());
    assert_eq!(file.imports.len(), 2);
    assert_eq!(file.imports[0], ("fmt".to_string(), "other/fmt".to_string()));
    let f = |id: u32, n: usize| GoFunc { id, receiver: None, args: (0..n).map(|_| named("int")).collect(), ret: None, body: vec![] };
    file.insert_func(f(1, 0));
    file.insert_func(f(2, 0));
    file.insert_func(f(1, 3));
    assert_eq!(file.funcs.len(), 2);
    assert_eq!(file.funcs[0].0, 1);
    assert_eq!(file.funcs[0].1.args.len(), 3);
}
