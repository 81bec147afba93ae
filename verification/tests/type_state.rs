use giblang::check::type_state::{TypeState, TypeVarUsage};
use giblang::db::path::ModulePath;
use giblang::ty::{Named, Ty};
use giblang::util::Span;

fn std_int() -> Ty {
    Ty::Named(Named { name: ModulePath::new(vec!["std".to_string(), "Int".to_string()]), args: vec![] })
}

fn is_int(t: &Ty) -> bool {
    match t {
        Ty::Named(n) => n.name.name == vec!["std".to_string(), "Int".to_string()],
        _ => false,
    }
}

#[test]
fn fresh_variables_get_consecutive_ids() {
    let mut s = TypeState::new();
    assert_eq!(s.len(), 0);
    let a = s.new_type_var(Span::new(0, 1));
    let b = s.new_type_var(Span::new(2, 3));
    assert_eq!((a, b), (0, 1));
    assert_eq!(s.len(), 2);
    assert_eq!(s.get_type_var(b).span, Span::new(2, 3));
    assert!(s.get_type_var(a).usages.is_empty());
}

#[test]
fn usage_is_recorded_and_resolves() {
    let mut s = TypeState::new();
    let a = s.new_type_var(Span::new(0, 1));
    assert!(matches!(s.resolved_ty(a), Ty::Unknown));
    s.expected_var_is_ty(a, std_int(), Span::new(4, 7));
    assert_eq!(s.get_type_var(a).usages.len(), 1);
    assert!(matches!(s.get_type_var(a).usages[0], TypeVarUsage::VarIsTy(_)));
    assert!(is_int(&s.resolved_ty(a)));
}

#[test]
fn merged_variables_share_their_usages() {
    let mut s = TypeState::new();
    let a = s.new_type_var(Span::new(0, 1));
    let b = s.new_type_var(Span::new(2, 3));
    s.expected_var_is_ty(a, std_int(), Span::new(4, 7));
    s.expect_var_is_expr(b, Span::new(9, 10));
    s.merge(a, b);
    assert_eq!(s.get_type_var(a).usages.len(), 2);
    assert_eq!(s.get_type_var(b).usages.len(), 2);
    s.merge(b, a);
    assert_eq!(s.get_type_var(a).usages.len(), 2);
}

#[test]
fn a_type_variable_as_expected_type_merges() {
    let mut s = TypeState::new();
    let a = s.new_type_var(Span::new(0, 1));
    let b = s.new_type_var(Span::new(2, 3));
    s.expected_ty_is_var(b, std_int(), Span::new(4, 7));
    s.expected_var_is_ty(a, Ty::TypeVar { id: b }, Span::new(8, 9));
    assert!(is_int(&s.resolved_ty(a)));
}

#[test]
fn merging_points_the_second_variable_at_the_first() {
    let mut s = TypeState::new();
    let a = s.new_type_var(Span::new(0, 1));
    let b = s.new_type_var(Span::new(2, 3));
    let c = s.new_type_var(Span::new(4, 5));
    s.merge(a, b);
    assert!(matches!(s.vars.get(&b), Some(giblang::check::type_state::MaybeTypeVar::Pointer(r)) if *r == a));
    assert!(matches!(s.vars.get(&a), Some(giblang::check::type_state::MaybeTypeVar::Data(_))));
    assert!(matches!(s.vars.get(&c), Some(giblang::check::type_state::MaybeTypeVar::Data(_))));
    assert_eq!(s.vars.len(), 3);
}
