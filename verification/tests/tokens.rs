use giblang::check::{SemanticToken, TokenKind};
use giblang::ir::common::generic_args::{GenericArgIR, GenericArgsIR};
use giblang::ir::common::pattern::PatternIR;
use giblang::ir::expr::{CodeBlockIR, ExprIR, ExprIRData};
use giblang::ir::offset::NodeAt;
use giblang::ir::stmt::{LetIR, StmtIR};
use giblang::ir::top::{EnumIR, FuncIR, FunctionArgIR, TopIR};
use giblang::ir::ty::{TypeIR, TypeIRData};
use giblang::ir::FileIR;
use giblang::parser::ast::Literal;
use giblang::ty::{Generic, Ty};
use giblang::util::Span;

fn sp(a: usize, b: usize) -> Span {
    Span::new(a, b)
}

fn generic_ty(name: &str, s: Span) -> TypeIR<'static> {
    TypeIR { data: TypeIRData::Generic((name.to_string(), s)), ty: Ty::Unknown }
}

// fn f[T](a: T) { let x = 1 }
fn func() -> FuncIR<'static> {
    let t = GenericArgIR {
        name: ("T".to_string(), sp(5, 6)),
        super_: None,
        generic: Generic { name: ("T".to_string(), sp(5, 6)), super_: Box::new(Ty::Any) },
    };
    let arg = FunctionArgIR { name: ("a".to_string(), sp(8, 9)), ty: (generic_ty("T", sp(11, 12)), sp(11, 12)) };
    let stmt = StmtIR::Let(LetIR {
        pattern: (PatternIR::Name(("x".to_string(), sp(20, 21))), sp(20, 21)),
        ty: None,
        expr: Box::new((ExprIR { data: ExprIRData::Literal(Literal::Int(1)), ty: Ty::Unknown }, sp(24, 25))),
    });
    FuncIR {
        receiver: None,
        name: ("f".to_string(), sp(3, 4)),
        args: vec![(arg, sp(8, 12))],
        generics: (GenericArgsIR(vec![(t, sp(5, 6))]), sp(4, 7)),
        ret: None,
        body: CodeBlockIR { stmts: vec![(stmt, sp(16, 25))], vars: vec![], generics: vec![] },
        decl: None,
    }
}

fn file() -> FileIR<'static> {
    let e = EnumIR { name: ("E".to_string(), sp(35, 36)), generics: (GenericArgsIR(vec![]), sp(36, 36)), members: vec![] };
    FileIR { tops: vec![(TopIR::Func(func()), sp(0, 27)), (TopIR::Enum(e), sp(30, 40))], imports: vec![], type_vars: vec![] }
}

#[test]
fn file_tokens_follow_source_order() {
    let toks = file().tokens();
    let expected = vec![
        SemanticToken { span: sp(3, 4), kind: TokenKind::Func },
        SemanticToken { span: sp(5, 6), kind: TokenKind::Generic },
        SemanticToken { span: sp(8, 9), kind: TokenKind::Param },
        SemanticToken { span: sp(11, 12), kind: TokenKind::Generic },
        SemanticToken { span: sp(20, 21), kind: TokenKind::Var },
        SemanticToken { span: sp(35, 36), kind: TokenKind::Enum },
    ];
    assert_eq!(toks, expected);
}

#[test]
fn pattern_tokens_are_appended() {
    let mut toks = vec![SemanticToken { span: sp(0, 1), kind: TokenKind::Func }];
    PatternIR::Name(("y".to_string(), sp(2, 3))).tokens(&mut toks);
    assert_eq!(toks.len(), 2);
    assert_eq!(toks[1], SemanticToken { span: sp(2, 3), kind: TokenKind::Var });
}

#[test]
fn node_at_offset_is_the_innermost() {
    let f = file();
    assert!(matches!(f.at_offset(11), NodeAt::Type(_)));
    assert!(matches!(f.at_offset(9), NodeAt::Arg(_)));
    assert!(matches!(f.at_offset(5), NodeAt::Generics(_)));
    assert!(matches!(f.at_offset(20), NodeAt::Pattern(_)));
    assert!(matches!(f.at_offset(24), NodeAt::Expr(_)));
    assert!(matches!(f.at_offset(3), NodeAt::Func(_)));
    assert!(matches!(f.at_offset(33), NodeAt::Top(_)));
    assert!(matches!(f.at_offset(100), NodeAt::File(_)));
}
