use giblang::check::err::CheckError;
use giblang::check::state::CheckState;
use giblang::check::TokenKind;
use giblang::db::decl::func::Function;
use giblang::db::decl::struct_::StructDecl;
use giblang::db::decl::{Decl, DeclKind, Project};
use giblang::db::path::ModulePath;
use giblang::ir::check_file;
use giblang::ir::expr::ident::IdentDef;
use giblang::ir::ty::TypeIRData;
use giblang::ir::common::pattern::PatternIR;
use giblang::parser::ast::StructFieldPattern;
use giblang::ir::expr::ExprIRData;
use giblang::parser::ast::{
    Assign, Call, Expr, Field, Func, GenericArgs, Lambda, LambdaParam, LetStatement, Literal, NamedType, Pattern,
    Stmt, Top, Type, While,
};
use giblang::ty::{Generic, Named, Ty};
use giblang::util::Span;

fn sp(a: usize, b: usize) -> Span {
    Span::new(a, b)
}

fn path(segs: &[&str]) -> ModulePath {
    ModulePath::new(segs.iter().map(|s| s.to_string()).collect())
}

fn std_ty(name: &str) -> Ty {
    Ty::Named(Named { name: path(&["std", name]), args: vec![] })
}

fn project() -> Project {
    let point = Decl {
        id: 1,
        name: "Point".to_string(),
        span: sp(0, 5),
        kind: DeclKind::Struct {
            generics: vec![],
            body: StructDecl::Fields(vec![("x".to_string(), std_ty("Int")), ("y".to_string(), std_ty("Int"))]),
        },
        maybe_file: None,
        path: path(&["Point"]),
    };
    let foo = Decl {
        id: 2,
        name: "foo".to_string(),
        span: sp(6, 9),
        kind: DeclKind::Function(Function {
            name: "foo".to_string(),
            generics: vec![],
            receiver: None,
            args: vec![("a".to_string(), std_ty("Int"))],
            ret: std_ty("Bool"),
            required: false,
        }),
        maybe_file: None,
        path: path(&["foo"]),
    };
    let main = Decl {
        id: 3,
        name: "main".to_string(),
        span: sp(10, 14),
        kind: DeclKind::Function(Function {
            name: "main".to_string(),
            generics: vec![],
            receiver: None,
            args: vec![],
            ret: Ty::Tuple(vec![]),
            required: false,
        }),
        maybe_file: None,
        path: path(&["main"]),
    };
    let root = Decl {
        id: 0,
        name: "root".to_string(),
        span: sp(0, 0),
        kind: DeclKind::Module(vec![point, foo, main]),
        maybe_file: None,
        path: path(&[]),
    };
    Project { decls: root, impl_map: vec![] }
}

fn name(text: &str, a: usize) -> (String, Span) {
    (text.to_string(), sp(a, a + text.len()))
}

fn lit(l: Literal, a: usize) -> (Expr, Span) {
    (Expr::Literal(l), sp(a, a + 1))
}

#[test]
fn literal_has_its_standard_type() {
    let p = project();
    let mut state = CheckState::new(&p, path(&[]));
    let ir = Expr::Literal(Literal::Int(3)).check(&mut state);
    assert!(ir.ty.equals(&std_ty("Int")));
    assert!(matches!(ir.data, ExprIRData::Literal(Literal::Int(3))));
    assert!(state.errors.is_empty());
}

#[test]
fn unresolved_name_is_reported() {
    let p = project();
    let mut state = CheckState::new(&p, path(&[]));
    let ir = Expr::Ident(vec![name("nope", 0)]).check(&mut state);
    assert!(matches!(ir.ty, Ty::Unknown));
    assert_eq!(state.errors.len(), 1);
    assert!(matches!(&state.errors[0], CheckError::Unresolved { name } if name.0 == "nope"));
}

#[test]
fn declared_variable_has_its_type() {
    let p = project();
    let mut state = CheckState::new(&p, path(&[]));
    state.insert_variable("v".to_string(), std_ty("Float"), TokenKind::Var, sp(0, 1));
    let ir = Expr::Ident(vec![name("v", 3)]).check(&mut state);
    assert!(ir.ty.equals(&std_ty("Float")));
    assert!(state.errors.is_empty());
}

#[test]
fn call_with_wrong_arity_is_reported_and_has_result_type() {
    let p = project();
    let mut state = CheckState::new(&p, path(&[]));
    let call = Call { name: Box::new((Expr::Ident(vec![name("foo", 0)]), sp(0, 3))), args: vec![] };
    let ir = Expr::Call(call).check(&mut state);
    assert!(ir.ty.equals(&std_ty("Bool")));
    assert!(matches!(&state.errors[0], CheckError::UnexpectedArgs { expected: 1, found: 0, .. }));
}

#[test]
fn call_of_a_value_that_is_not_a_function_is_reported() {
    let p = project();
    let mut state = CheckState::new(&p, path(&[]));
    let call = Call { name: Box::new(lit(Literal::Int(1), 0)), args: vec![] };
    let ir = Expr::Call(call).check(&mut state);
    assert!(matches!(ir.ty, Ty::Unknown));
    assert!(matches!(&state.errors[0], CheckError::ExpectedFunction { .. }));
}

#[test]
fn mismatch_against_expected_type_is_reported() {
    let p = project();
    let mut state = CheckState::new(&p, path(&[]));
    let _ = Expr::Literal(Literal::Bool(true)).expect(&mut state, &std_ty("Int"), sp(4, 8));
    assert_eq!(state.errors.len(), 1);
    assert!(matches!(&state.errors[0], CheckError::TypeMismatch { span, .. } if *span == sp(4, 8)));
}

#[test]
fn field_of_struct_has_the_field_type() {
    let p = project();
    let mut state = CheckState::new(&p, path(&[]));
    let point = Ty::Named(Named { name: path(&["Point"]), args: vec![] });
    state.insert_variable("p".to_string(), point, TokenKind::Var, sp(0, 1));
    let field = Field { name: name("x", 2), struct_: Box::new((Expr::Ident(vec![name("p", 0)]), sp(0, 1))) };
    let ir = Expr::Field(field).check(&mut state);
    assert!(ir.ty.equals(&std_ty("Int")));
    assert!(state.errors.is_empty());
}

#[test]
fn missing_field_is_reported() {
    let p = project();
    let mut state = CheckState::new(&p, path(&[]));
    let point = Ty::Named(Named { name: path(&["Point"]), args: vec![] });
    state.insert_variable("p".to_string(), point, TokenKind::Var, sp(0, 1));
    let field = Field { name: name("z", 2), struct_: Box::new((Expr::Ident(vec![name("p", 0)]), sp(0, 1))) };
    let ir = Expr::Field(field).check(&mut state);
    assert!(matches!(ir.ty, Ty::Unknown));
    assert!(matches!(&state.errors[0], CheckError::NoField { field, .. } if field == "z"));
}

#[test]
fn block_has_type_of_last_statement_and_empty_block_is_unit() {
    let p = project();
    let mut state = CheckState::new(&p, path(&[]));
    let ir = Expr::CodeBlock(vec![(Stmt::Expr(Expr::Literal(Literal::Char('c'))), sp(0, 3))]).check(&mut state);
    assert!(ir.ty.equals(&std_ty("Char")));
    let empty = Expr::CodeBlock(vec![]).check(&mut state);
    assert!(empty.ty.equals(&Ty::unit()));
    assert_eq!(state.variables.len(), 1);
}

#[test]
fn while_condition_must_be_boolean() {
    let p = project();
    let mut state = CheckState::new(&p, path(&[]));
    let w = While { expr: Box::new(lit(Literal::Int(0), 6)), block: (vec![], sp(8, 10)) };
    let ir = Expr::While(w).check(&mut state);
    assert!(ir.ty.equals(&Ty::unit()));
    assert!(matches!(&state.errors[0], CheckError::TypeMismatch { expected, .. } if expected.equals(&std_ty("Bool"))));
}

#[test]
fn assignment_to_a_literal_is_reported() {
    let p = project();
    let mut state = CheckState::new(&p, path(&[]));
    let a = Assign { refr: lit(Literal::Int(0), 0), value: lit(Literal::Int(1), 4) };
    let _ = Stmt::Assign(a).check(&mut state);
    assert!(matches!(state.errors.last(), Some(CheckError::ExpectedIdentOrField { .. })));
}

#[test]
fn let_declares_its_pattern() {
    let p = project();
    let mut state = CheckState::new(&p, path(&[]));
    let l = LetStatement { pattern: (Pattern::Name(name("n", 4)), sp(4, 5)), ty: None, value: lit(Literal::Int(5), 8) };
    let _ = Stmt::Let(l).check(&mut state);
    let v = state.get_variable("n").unwrap();
    assert!(v.ty.equals(&std_ty("Int")));
}

#[test]
fn tuple_has_the_types_of_its_elements() {
    let p = project();
    let mut state = CheckState::new(&p, path(&[]));
    let ir = Expr::Tuple(vec![lit(Literal::Int(1), 1), lit(Literal::Bool(false), 3)]).check(&mut state);
    assert!(ir.ty.equals(&Ty::Tuple(vec![std_ty("Int"), std_ty("Bool")])));
}

#[test]
fn lambda_is_a_function_of_its_parameters() {
    let p = project();
    let mut state = CheckState::new(&p, path(&[]));
    let param = LambdaParam {
        pattern: (Pattern::Name(name("a", 1)), sp(1, 2)),
        ty: Some((Type::Named(NamedType { name: vec![name("Point", 4)], args: vec![] }), sp(4, 9))),
    };
    let lambda = Lambda {
        args: vec![(param, sp(1, 9))],
        body: (vec![(Stmt::Expr(Expr::Literal(Literal::Bool(true))), sp(12, 16))], sp(11, 17)),
    };
    let ir = Expr::Lambda(lambda).check(&mut state);
    let point = Ty::Named(Named { name: path(&["Point"]), args: vec![] });
    let expected = Ty::Function(giblang::ty::FuncTy {
        receiver: None,
        args: vec![point],
        ret: Box::new(std_ty("Bool")),
    });
    assert!(ir.ty.equals(&expected));
    assert_eq!(state.variables.len(), 1);
}

#[test]
fn wildcard_type_is_a_fresh_variable() {
    let p = project();
    let mut state = CheckState::new(&p, path(&[]));
    let ir = Type::Wildcard(sp(0, 1)).check_ir(&mut state);
    assert!(matches!(ir.ty, Ty::TypeVar { id: 0 }));
    let ir2 = Type::Wildcard(sp(2, 3)).check_ir(&mut state);
    assert!(matches!(ir2.ty, Ty::TypeVar { id: 1 }));
}

#[test]
fn checking_a_file_checks_each_item() {
    let p = project();
    let main = Func {
        receiver: None,
        name: name("main", 3),
        generics: (GenericArgs(vec![]), sp(7, 7)),
        args: vec![],
        ret: None,
        body: Some(vec![]),
    };
    let file = vec![(Top::Func(main), sp(0, 20)), (Top::Use(vec![name("foo", 25)]), sp(21, 28))];
    let (ir, errors) = check_file(&p, path(&[]), &file);
    assert_eq!(ir.tops.len(), 2);
    assert!(errors.is_empty());
    assert_eq!(ir.imports.len(), 1);
    assert_eq!(ir.imports[0].0, "foo");
}

fn bound(super_: Ty) -> Generic {
    Generic { name: ("T".to_string(), sp(0, 1)), super_: Box::new(super_) }
}

#[test]
fn written_tuple_type_checks_to_a_tuple() {
    let p = project();
    let mut state = CheckState::new(&p, path(&[]));
    let ty = Type::Tuple(vec![]).check(&mut state);
    assert!(matches!(ty, Ty::Tuple(ref v) if v.is_empty()));
    assert!(state.errors.is_empty());
}

#[test]
fn bound_on_a_type_variable_is_recorded() {
    let p = project();
    let mut state = CheckState::new(&p, path(&[]));
    let ty = Type::Wildcard(sp(0, 1)).expect_is_bound_by(&bound(std_ty("Int")), &mut state, sp(0, 1));
    assert!(matches!(ty, Ty::TypeVar { id: 0 }));
    assert_eq!(state.type_state.get_type_var(0).bounds.len(), 1);
    assert!(state.errors.is_empty());
}

#[test]
fn type_outside_its_bound_is_reported() {
    let p = project();
    let mut state = CheckState::new(&p, path(&[]));
    let ty = Type::Tuple(vec![]).expect_is_bound_by(&bound(std_ty("Int")), &mut state, sp(4, 6));
    assert!(matches!(ty, Ty::Tuple(_)));
    assert_eq!(state.errors.len(), 1);
    assert!(matches!(&state.errors[0], CheckError::TypeMismatch { span, .. } if *span == sp(4, 6)));
    let ok = Type::Tuple(vec![]).expect_is_bound_by(&bound(Ty::Any), &mut state, sp(7, 8));
    assert!(matches!(ok, Ty::Tuple(_)));
    assert_eq!(state.errors.len(), 1);
}

#[test]
fn lambda_with_extra_parameters_reports_each() {
    let p = project();
    let mut state = CheckState::new(&p, path(&[]));
    let param = |n: &str, a: usize| LambdaParam { pattern: (Pattern::Name(name(n, a)), sp(a, a + 1)), ty: None };
    let lambda = Lambda {
        args: vec![(param("a", 1), sp(1, 2)), (param("b", 4), sp(4, 5)), (param("c", 7), sp(7, 8))],
        body: (vec![(Stmt::Expr(Expr::Literal(Literal::Bool(true))), sp(12, 16))], sp(11, 17)),
    };
    let expected = Ty::Function(giblang::ty::FuncTy { receiver: None, args: vec![std_ty("Int")], ret: Box::new(std_ty("Bool")) });
    let ir = lambda.expect(&mut state, &expected, sp(0, 17));
    match &ir.data {
        ExprIRData::Lambda(li) => assert_eq!(li.args.len(), 1),
        _ => panic!("expected a lambda"),
    }
    let extra: Vec<Span> = state
        .errors
        .iter()
        .filter_map(|e| match e {
            CheckError::UnexpectedArgument { span } => Some(*span),
            _ => None,
        })
        .collect();
    assert_eq!(extra, vec![sp(4, 5), sp(7, 8)]);
}


#[test]
fn type_names_are_written_as_in_source() {
    let list = Ty::Named(Named { name: path(&["std", "Vec"]), args: vec![std_ty("Int")] });
    assert_eq!(list.name(), "std::Vec[std::Int]");
    let f = Ty::Function(giblang::ty::FuncTy { receiver: None, args: vec![std_ty("Int"), std_ty("Bool")], ret: Box::new(Ty::Tuple(vec![])) });
    assert_eq!(f.name(), "(std::Int, std::Bool) -> ()");
    assert_eq!(Ty::TypeVar { id: 42 }.name(), "{unknown #42}");
    assert_eq!(Ty::Sum(vec![std_ty("Int"), Ty::Any]).name(), "std::Int | Any");
}

#[test]
fn diagnostics_have_their_messages() {
    let e = CheckError::UnexpectedArgs { expected: 2, found: 10, span: sp(0, 1), func: std_ty("Int") };
    assert_eq!(e.message(), "Expected 2 arguments but found 10 calling 'std::Int'");
    let m = CheckError::TypeMismatch { expected: std_ty("Int"), found: Ty::Unknown, span: sp(0, 1) };
    assert_eq!(m.message(), "Expected value to be of type 'std::Int' but found 'Unknown'");
    let u = CheckError::Unresolved { name: name("foo", 0) };
    assert_eq!(u.message(), "Unresolved name 'foo'");
}

#[test]
fn struct_pattern_binds_its_fields() {
    let p = project();
    let mut state = CheckState::new(&p, path(&[]));
    let point = Ty::Named(Named { name: path(&["Point"]), args: vec![] });
    let pat = Pattern::Struct {
        name: vec![name("Point", 0)],
        fields: vec![(StructFieldPattern::Implied(name("x", 8)), sp(8, 9))],
    };
    let ir = pat.expect(&mut state, &point);
    assert!(matches!(&ir, PatternIR::Struct { fields, .. } if fields.len() == 1 && fields[0].1 == sp(8, 9)));
    assert!(state.errors.is_empty());
    assert!(state.get_variable("x").unwrap().ty.equals(&std_ty("Int")));
}

#[test]
fn struct_pattern_against_a_non_struct_type_is_reported() {
    let p = project();
    let mut state = CheckState::new(&p, path(&[]));
    let pat = Pattern::Struct { name: vec![name("Point", 0)], fields: vec![] };
    let ir = pat.expect(&mut state, &Ty::Tuple(vec![]));
    assert!(matches!(ir, PatternIR::Error));
    assert!(matches!(&state.errors[0], CheckError::ExpectedStructType { span, .. } if *span == sp(0, 5)));
}

#[test]
fn struct_pattern_of_the_wrong_shape_is_reported() {
    let p = project();
    let mut state = CheckState::new(&p, path(&[]));
    let point = Ty::Named(Named { name: path(&["Point"]), args: vec![] });
    let pat = Pattern::TupleStruct { name: vec![name("Point", 0)], fields: vec![] };
    let ir = pat.expect(&mut state, &point);
    assert!(matches!(ir, PatternIR::Error));
    assert!(matches!(&state.errors[0], CheckError::StructPatternMismatch { span } if *span == sp(0, 5)));
}

#[test]
fn struct_pattern_of_another_struct_is_reported() {
    let p = project();
    let mut state = CheckState::new(&p, path(&[]));
    let other = Ty::Named(Named { name: path(&["foo"]), args: vec![] });
    let pat = Pattern::Struct { name: vec![name("Point", 0)], fields: vec![] };
    let _ = pat.expect(&mut state, &other);
    assert!(matches!(&state.errors[0], CheckError::StructMismatch { span, .. } if *span == sp(0, 5)));
}

#[test]
fn pattern_naming_a_function_is_not_a_struct() {
    let p = project();
    let mut state = CheckState::new(&p, path(&[]));
    let pat = Pattern::UnitStruct(vec![name("foo", 0)]);
    let ir = pat.expect(&mut state, &Ty::Unknown);
    assert!(matches!(ir, PatternIR::Error));
    assert!(matches!(&state.errors[0], CheckError::ExpectedStruct { span } if *span == sp(0, 3)));
}

#[test]
fn a_variable_name_records_its_variable() {
    let p = project();
    let mut state = CheckState::new(&p, path(&[]));
    state.insert_variable("n".to_string(), std_ty("Int"), TokenKind::Var, sp(0, 1));
    let ir = Expr::Ident(vec![name("n", 4)]).check(&mut state);
    match &ir.data {
        ExprIRData::Ident(defs) => {
            assert_eq!(defs.len(), 1);
            assert!(matches!(&defs[0].0, IdentDef::Variable(v) if v.name == "n"));
            assert_eq!(defs[0].1, sp(4, 5));
        }
        _ => panic!("expected an identifier"),
    }
    let ir = Expr::Ident(vec![name("nope", 8)]).check(&mut state);
    assert!(matches!(&ir.data, ExprIRData::Ident(defs) if matches!(defs[0].0, IdentDef::Unresolved)));
    assert!(matches!(&state.errors[0], CheckError::Unresolved { name } if name.0 == "nope"));
}

#[test]
fn unknown_type_name_is_reported() {
    let p = project();
    let mut state = CheckState::new(&p, path(&[]));
    let t = NamedType { name: vec![name("Missing", 0)], args: vec![] };
    let ir = t.check(&mut state);
    assert!(matches!(ir.data, TypeIRData::Named(_)));
    assert!(matches!(ir.ty, Ty::Unknown));
    assert!(matches!(&state.errors[0], CheckError::Unresolved { name } if name.0 == "Missing"));
    let any = NamedType { name: vec![name("Any", 3)], args: vec![] }.check(&mut state);
    assert!(matches!(any.data, TypeIRData::Any(s) if s == sp(3, 6)));
    assert_eq!(state.errors.len(), 1);
}

#[test]
fn missing_field_adds_exactly_one_error() {
    let p = project();
    let mut state = CheckState::new(&p, path(&[]));
    let point = Ty::Named(Named { name: path(&["Point"]), args: vec![] });
    state.insert_variable("p".to_string(), point, TokenKind::Var, sp(0, 1));
    let field = Field { name: name("q", 2), struct_: Box::new((Expr::Ident(vec![name("p", 0)]), sp(0, 1))) };
    let _ = Expr::Field(field).check(&mut state);
    assert_eq!(state.errors.len(), 1);
    assert!(matches!(&state.errors[0], CheckError::NoField { field, span, .. } if field == "q" && *span == sp(2, 3)));
}

#[test]
fn failed_import_is_reported() {
    let p = project();
    let file = vec![(Top::Use(vec![name("nothing", 4)]), sp(0, 11))];
    let (ir, errors) = check_file(&p, path(&[]), &file);
    assert_eq!(ir.imports.len(), 0);
    assert_eq!(errors.len(), 1);
    assert!(matches!(&errors[0], CheckError::Unresolved { name } if name.0 == "nothing" && name.1 == sp(4, 11)));
}

#[test]
fn lambda_against_a_one_parameter_function_binds_it() {
    let p = project();
    let mut state = CheckState::new(&p, path(&[]));
    let lambda = Lambda {
        args: vec![],
        body: (vec![(Stmt::Expr(Expr::Ident(vec![name("it", 2)])), sp(2, 4))], sp(1, 5)),
    };
    let expected = Ty::Function(giblang::ty::FuncTy {
        receiver: None,
        args: vec![std_ty("Int")],
        ret: Box::new(std_ty("Int")),
    });
    let ir = Expr::Lambda(lambda).expect(&mut state, &expected, sp(0, 6));
    assert!(ir.ty.equals(&std_ty("Int")));
    assert!(state.errors.is_empty());
    match ir.data {
        ExprIRData::Lambda(li) => {
            assert_eq!(li.vars.len(), 1);
            assert_eq!(li.vars[0].name, "it");
        }
        _ => panic!("not a lambda"),
    }
}

#[test]
fn call_checks_its_callee_and_arguments() {
    let p = project();
    let mut state = CheckState::new(&p, path(&[]));
    let call = Call { name: Box::new((Expr::Ident(vec![name("foo", 0)]), sp(0, 3))), args: vec![lit(Literal::Bool(true), 4)] };
    let ir = Expr::Call(call).check(&mut state);
    assert!(ir.ty.equals(&std_ty("Bool")));
    assert_eq!(state.errors.len(), 1);
    assert!(matches!(&state.errors[0], CheckError::TypeMismatch { span, .. } if *span == sp(4, 5)));
    match ir.data {
        ExprIRData::Call(ci) => {
            assert_eq!(ci.args.len(), 1);
            assert!(matches!(ci.expr.0.data, ExprIRData::Ident(_)));
        }
        _ => panic!("not a call"),
    }
}

#[test]
fn struct_pattern_substitutes_the_type_arguments() {
    let t = Generic { name: ("T".to_string(), sp(4, 5)), super_: Box::new(Ty::Any) };
    let cell = Decl {
        id: 1,
        name: "Cell".to_string(),
        span: sp(0, 4),
        kind: DeclKind::Struct {
            generics: vec![t.deep_clone()],
            body: StructDecl::Fields(vec![("v".to_string(), Ty::Generic(t))]),
        },
        maybe_file: None,
        path: path(&["Cell"]),
    };
    let root = Decl {
        id: 0,
        name: "root".to_string(),
        span: sp(0, 0),
        kind: DeclKind::Module(vec![cell]),
        maybe_file: None,
        path: path(&[]),
    };
    let p = Project { decls: root, impl_map: vec![] };
    let mut state = CheckState::new(&p, path(&[]));
    let cell_int = Ty::Named(Named { name: path(&["Cell"]), args: vec![std_ty("Int")] });
    let pat = Pattern::Struct {
        name: vec![name("Cell", 0)],
        fields: vec![(StructFieldPattern::Implied(name("v", 6)), sp(6, 7))],
    };
    let _ = pat.expect(&mut state, &cell_int);
    assert!(state.errors.is_empty());
    assert!(state.get_variable("v").unwrap().ty.equals(&std_ty("Int")));
}
