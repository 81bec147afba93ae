use giblang::build::text::{byte_code_text, write_funcs_text};
use giblang::build::FuncDef;
use giblang::build::{count_i32, count_u32, widen, BuildError, BuildState, ByteCode};
use giblang::db::decl::{Decl, DeclKind, Project};
use giblang::db::path::ModulePath;
use giblang::ir::common::pattern::PatternIR;
use giblang::ir::expr::{CodeBlockIR, ExprIR, ExprIRData, OpIR};
use giblang::ir::top::FuncIR;
use giblang::ir::common::generic_args::GenericArgsIR;
use giblang::parser::ast::{Literal, OpKind};
use giblang::ty::Ty;
use giblang::util::Span;

fn sp(a: usize, b: usize) -> Span {
    Span::new(a, b)
}

fn empty_project() -> Project {
    let root = Decl {
        id: 0,
        name: "root".to_string(),
        span: sp(0, 0),
        kind: DeclKind::Module(vec![]),
        maybe_file: None,
        path: ModulePath::new(vec![]),
    };
    Project { decls: root, impl_map: vec![] }
}

fn lit(l: Literal) -> ExprIR<'static> {
    ExprIR { data: ExprIRData::Literal(l), ty: Ty::Unknown }
}

#[test]
fn build_string_literal_unescapes_newlines() {
    let project = empty_project();
    let mut state = BuildState::new(&project);
    let e = lit(Literal::String("a\\nb".to_string()));
    let code = e.build(&mut state).unwrap();
    assert_eq!(code.len(), 1);
    match &code[0] {
        ByteCode::Push(Literal::String(s)) => assert_eq!(s, "a\nb"),
        _ => panic!("expected a pushed string"),
    }
}

#[test]
fn build_int_literal_pushes_it() {
    let project = empty_project();
    let mut state = BuildState::new(&project);
    let code = lit(Literal::Int(42)).build(&mut state).unwrap();
    assert_eq!(code.len(), 1);
    assert!(matches!(code[0], ByteCode::Push(Literal::Int(42))));
}

#[test]
fn build_tuple_constructs_from_its_items() {
    let project = empty_project();
    let mut state = BuildState::new(&project);
    let e = ExprIR {
        data: ExprIRData::Tuple(vec![(lit(Literal::Int(1)), sp(1, 2)), (lit(Literal::Bool(true)), sp(4, 8))]),
        ty: Ty::Unknown,
    };
    let code = e.build(&mut state).unwrap();
    assert_eq!(code.len(), 3);
    assert!(matches!(code[2], ByteCode::Construct { id: 0, len: 2 }));
}

#[test]
fn build_op_ends_with_the_operator() {
    let project = empty_project();
    let mut state = BuildState::new(&project);
    let e = ExprIR {
        data: ExprIRData::Op(OpIR {
            left: Box::new((lit(Literal::Int(1)), sp(0, 1))),
            right: Box::new((lit(Literal::Int(2)), sp(4, 5))),
            kind: OpKind::Add,
        }),
        ty: Ty::Unknown,
    };
    let code = e.build(&mut state).unwrap();
    assert_eq!(code.len(), 3);
    assert!(matches!(code[0], ByteCode::Push(Literal::Int(1))));
    assert!(matches!(code[1], ByteCode::Push(Literal::Int(2))));
    assert!(matches!(code[2], ByteCode::Op(OpKind::Add)));
}

#[test]
fn build_error_expression_fails() {
    let project = empty_project();
    let mut state = BuildState::new(&project);
    let e = ExprIR { data: ExprIRData::Error, ty: Ty::Unknown };
    assert!(e.build(&mut state).is_err());
}

#[test]
fn unknown_names_are_not_found() {
    let project = empty_project();
    let mut state = BuildState::new(&project);
    assert_eq!(state.get_var("x"), None);
    assert_eq!(state.get_param("x"), None);
}

#[test]
fn name_pattern_always_matches() {
    let project = empty_project();
    let mut state = BuildState::new(&project);
    let p = PatternIR::Name(("x".to_string(), sp(0, 1)));
    let mut end: i32 = 5;
    let code = p.build_match(&mut state, &mut end).unwrap();
    assert_eq!(code.len(), 2);
    assert!(matches!(code[0], ByteCode::Pop));
    assert!(matches!(code[1], ByteCode::Push(Literal::Bool(true))));
    assert_eq!(end, 7);
}

fn func_decl(id: u32, path: &[&str]) -> Decl {
    Decl {
        id,
        name: path.last().unwrap().to_string(),
        span: sp(0, 4),
        kind: DeclKind::Module(vec![]),
        maybe_file: None,
        path: ModulePath::new(path.iter().map(|s| s.to_string()).collect()),
    }
}

fn func_ir<'a>(name: &str, decl: Option<&'a Decl>) -> FuncIR<'a> {
    FuncIR {
        receiver: None,
        name: (name.to_string(), sp(3, 7)),
        args: vec![],
        generics: (GenericArgsIR(vec![]), sp(7, 7)),
        ret: None,
        body: CodeBlockIR { stmts: vec![], vars: vec![], generics: vec![] },
        decl,
    }
}

#[test]
fn build_main_gets_id_zero_and_returns() {
    let project = empty_project();
    let mut state = BuildState::new(&project);
    let d = func_decl(5, &["main"]);
    let (id, def) = func_ir("main", Some(&d)).build(&mut state).unwrap();
    assert_eq!(id, 0);
    assert_eq!(def.args, 0);
    assert_eq!(def.body.len(), 1);
    assert!(matches!(def.body[0], ByteCode::Return));
}

#[test]
fn build_other_function_gets_its_declaration_id() {
    let project = empty_project();
    let mut state = BuildState::new(&project);
    let d = func_decl(5, &["helper"]);
    let (id, _) = func_ir("helper", Some(&d)).build(&mut state).unwrap();
    assert_eq!(id, 5);
}

#[test]
fn build_std_print_prints_its_parameter() {
    let project = empty_project();
    let mut state = BuildState::new(&project);
    let d = func_decl(9, &["std", "print"]);
    let (id, def) = func_ir("print", Some(&d)).build(&mut state).unwrap();
    assert_eq!(id, 9);
    assert_eq!(def.body.len(), 3);
    assert!(matches!(def.body[0], ByteCode::Param(0)));
    assert!(matches!(def.body[1], ByteCode::Print));
    assert!(matches!(def.body[2], ByteCode::Return));
}

#[test]
fn build_without_declaration_fails() {
    let project = empty_project();
    let mut state = BuildState::new(&project);
    assert_eq!(func_ir("main", None).build(&mut state).err(), Some(BuildError::Unsupported));
}

#[test]
fn locals_shadow_and_scopes_close() {
    let project = empty_project();
    let mut state = BuildState::new(&project);
    let a = state.add_var("x".to_string());
    state.enter_scope();
    let b = state.add_var("x".to_string());
    assert_ne!(a, b);
    assert_eq!(state.get_var("x"), Some(b));
    state.exit_scope();
    assert_eq!(state.get_var("x"), Some(a));
}

#[test]
fn params_are_found_by_position() {
    let project = empty_project();
    let mut state = BuildState::new(&project);
    state.add_param("a".to_string());
    state.add_param("b".to_string());
    assert_eq!(state.get_param("b"), Some(1));
    assert_eq!(state.get_param("a"), Some(0));
    state.clear();
    assert_eq!(state.get_param("a"), None);
}

#[test]
fn counts_that_do_not_fit_are_refused() {
    assert_eq!(count_i32(7), Ok(7));
    assert_eq!(count_u32(9), Ok(9));
    assert_eq!(count_i32(usize::MAX), Err(BuildError::TooLarge));
    assert_eq!(widen((3, 4)), (3, 4));
}

#[test]
fn instruction_texts() {
    assert_eq!(byte_code_text(&ByteCode::Push(Literal::Int(-3))), "push -3");
    assert_eq!(byte_code_text(&ByteCode::Push(Literal::String("a".to_string()))), "push \"a\"");
    assert_eq!(byte_code_text(&ByteCode::Pop), "pop");
    assert_eq!(byte_code_text(&ByteCode::Return), "ret");
    assert_eq!(byte_code_text(&ByteCode::GetLocal(7)), "get_local 7");
    assert_eq!(byte_code_text(&ByteCode::Construct { id: 12, len: 3 }), "construct 12 3");
    assert_eq!(byte_code_text(&ByteCode::Je(-4)), "je -4");
    assert_eq!(byte_code_text(&ByteCode::Jmp(10)), "jmp 10");
    assert_eq!(byte_code_text(&ByteCode::Op(OpKind::Add)), "op +");
}

#[test]
fn function_listing_text() {
    let f = FuncDef {
        args: 2,
        body: vec![ByteCode::Param(0), ByteCode::Return],
        offset: 0,
        file: 0,
        pos: (0, 0),
        marks: vec![],
    };
    let g = FuncDef { args: 0, body: vec![], offset: 0, file: 0, pos: (0, 0), marks: vec![] };
    assert_eq!(write_funcs_text(&[(5, f), (6, g)]), "func 5, 2\n    param 0\n    ret\nfunc 6, 0\n");
    assert_eq!(write_funcs_text(&[]), "");
}

#[test]
fn build_bare_std_module_function_fails() {
    let project = empty_project();
    let mut state = BuildState::new(&project);
    let d = func_decl(9, &["std"]);
    assert_eq!(func_ir("std", Some(&d)).build(&mut state).err(), Some(BuildError::Unsupported));
}

#[test]
fn build_other_std_function_only_returns_and_is_unplaced() {
    let project = empty_project();
    let mut state = BuildState::new(&project);
    let d = func_decl(4, &["std", "len"]);
    let (id, def) = func_ir("len", Some(&d)).build(&mut state).unwrap();
    assert_eq!(id, 4);
    assert_eq!(def.body.len(), 1);
    assert!(matches!(def.body[0], ByteCode::Return));
    assert_eq!((def.offset, def.file, def.pos), (0, 0, (0, 0)));
    assert!(def.marks.is_empty());
}

#[test]
fn unescaping_twice_is_unescaping_once() {
    use_unescape_twice("a\\nb\\\\nc");
    use_unescape_twice("\\\\n\\n");
}

fn use_unescape_twice(text: &str) {
    let once = giblang::ir::expr::lit::unescape(text);
    let twice = giblang::ir::expr::lit::unescape(&once);
    assert_eq!(once, twice);
}
