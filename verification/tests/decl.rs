use giblang::check::err::CheckError;
use giblang::db::decl::{Decl, DeclKind};
use giblang::db::path::ModulePath;
use giblang::util::Span;

fn module(id: u32, name: &str, path: &[&str], items: Vec<Decl>) -> Decl {
    Decl {
        id,
        name: name.to_string(),
        span: Span::new(0, 0),
        kind: DeclKind::Module(items),
        maybe_file: None,
        path: ModulePath::new(path.iter().map(|s| s.to_string()).collect()),
    }
}

fn tree() -> Decl {
    let inner = module(2, "inner", &["outer", "inner"], vec![]);
    let outer = module(1, "outer", &["outer"], vec![inner]);
    module(0, "root", &[], vec![outer])
}

fn spanned(parts: &[(&str, usize, usize)]) -> Vec<(String, Span)> {
    parts.iter().map(|(n, a, b)| (n.to_string(), Span::new(*a, *b))).collect()
}

#[test]
fn path_without_error_follows_names() {
    let root = tree();
    let found = root.get_path_without_error(&spanned(&[("outer", 0, 5), ("inner", 7, 12)]));
    assert_eq!(found.map(|d| d.id), Some(2));
    assert!(root.get_path_without_error(&spanned(&[("outer", 0, 5), ("nope", 7, 11)])).is_none());
    assert_eq!(root.get_path_without_error(&[]).map(|d| d.id), Some(0));
}

#[test]
fn path_with_error_names_whole_path() {
    let root = tree();
    match root.get_path_with_error(&spanned(&[("outer", 3, 8), ("inner", 10, 15)])) {
        Ok(d) => assert_eq!(d.id, 2),
        Err(_) => panic!("expected the inner module"),
    }
    match root.get_path_with_error(&spanned(&[("outer", 3, 8), ("nope", 10, 14)])) {
        Err(CheckError::Unresolved { name: (name, span) }) => {
            assert_eq!(name, "outer::nope");
            assert_eq!((span.start, span.end), (3, 14));
        }
        _ => panic!("expected an unresolved path"),
    }
    assert!(matches!(root.get_path_with_error(&[]), Ok(d) if d.id == 0));
}
