use giblang::db::path::ModulePath;
use giblang::fs::project::Project;
use giblang::fs::export::Export;
use giblang::fs::tree_node::{file_name_of, FileState, FileTreeNode};
use giblang::ty::{Generic, Named, Ty};
use giblang::util::Span;

fn file(name: &str) -> FileTreeNode {
    FileTreeNode::File(FileState { text: String::new(), ast: vec![], filename: name.to_string() })
}

fn path(segs: &[&str]) -> Vec<String> {
    segs.iter().map(|s| s.to_string()).collect()
}

fn named(name: &str, args: Vec<Ty>) -> Ty {
    Ty::Named(Named { name: ModulePath::new(vec!["std".to_string(), name.to_string()]), args })
}

fn generic(name: &str) -> Ty {
    Ty::Generic(Generic { name: (name.to_string(), Span::new(0, 1)), super_: Box::new(Ty::Any) })
}

fn named_parts(t: &Ty) -> (Vec<String>, usize) {
    match t {
        Ty::Named(n) => (n.name.name.clone(), n.args.len()),
        _ => panic!("expected a named type"),
    }
}

#[test]
fn file_name_joins_segments() {
    assert_eq!(file_name_of(&path(&["a", "b"])), "a/b.gib");
    assert_eq!(file_name_of(&path(&["main"])), "main.gib");
    assert_eq!(file_name_of(&path(&[])), ".gib");
}

#[test]
fn inserted_file_is_found_at_its_path() {
    let mut root = FileTreeNode::Module(vec![]);
    assert!(root.insert_path(&path(&["a", "b"]), file("a/b.gib")));
    assert!(root.has_key("a"));
    assert!(!root.has_key("b"));
    match root.get_path(&path(&["a", "b"])) {
        Some(Export::Module(FileTreeNode::File(f))) => assert_eq!(f.filename, "a/b.gib"),
        _ => panic!("expected the inserted file"),
    }
    assert!(root.get_path(&path(&["a", "c"])).is_none());
}

#[test]
fn insertion_below_a_file_is_refused() {
    let mut root = FileTreeNode::Module(vec![]);
    assert!(root.insert_path(&path(&["a"]), file("a.gib")));
    assert!(!root.insert_path(&path(&["a", "b"]), file("a/b.gib")));
}

#[test]
fn files_are_listed_in_order() {
    let mut root = FileTreeNode::Module(vec![]);
    assert!(root.insert_path(&path(&["x"]), file("x.gib")));
    assert!(root.insert_path(&path(&["m", "y"]), file("m/y.gib")));
    assert!(root.insert_path(&path(&["z"]), file("z.gib")));
    let names: Vec<String> = root.files().iter().map(|f| f.filename.clone()).collect();
    assert_eq!(names, vec!["x.gib".to_string(), "m/y.gib".to_string(), "z.gib".to_string()]);
}

#[test]
fn imply_then_parameterize_gives_the_type_back() {
    let pattern = named("List", vec![generic("T")]);
    let t = named("List", vec![named("Int", vec![])]);
    let m = pattern.imply_generics(&t).unwrap();
    assert_eq!(m.len(), 1);
    assert_eq!(m[0].0, "T");
    let back = pattern.parameterize(&m);
    let (name, n) = named_parts(&back);
    assert_eq!(name, vec!["std".to_string(), "List".to_string()]);
    assert_eq!(n, 1);
    match &back {
        Ty::Named(outer) => assert_eq!(named_parts(&outer.args[0]).0, vec!["std".to_string(), "Int".to_string()]),
        _ => panic!("expected a named type"),
    }
}

#[test]
fn imply_fails_on_different_names() {
    let pattern = named("List", vec![generic("T")]);
    let t = named("Map", vec![named("Int", vec![])]);
    assert!(pattern.imply_generics(&t).is_none());
}

#[test]
fn inserted_file_is_read_back_from_the_project() {
    let mut p = Project::default();
    p.insert("src/a/b.gib", "fn f()", vec![], &path(&["a", "b"]));
    let f = p.get_file(&path(&["a", "b"]));
    assert_eq!(f.text, "fn f()");
    assert_eq!(f.filename, "src/a/b.gib");
    p.insert("src/a/b.gib", "fn g()", vec![], &path(&["a", "b"]));
    assert_eq!(p.get_file(&path(&["a", "b"])).text, "fn g()");
    let missing = p.get_path_with_error(&[("a".to_string(), Span::new(0, 1)), ("c".to_string(), Span::new(2, 3))]);
    match missing {
        Err((seg, span)) => {
            assert_eq!(seg, "c");
            assert_eq!(span, Span::new(2, 3));
        },
        Ok(_) => panic!("expected the missing segment"),
    }
}

#[test]
fn inserting_a_file_leaves_the_others() {
    let mut p = Project::default();
    p.insert("src/a/b.gib", "fn f()", vec![], &path(&["a", "b"]));
    p.insert("src/a/c.gib", "fn g()", vec![], &path(&["a", "c"]));
    p.insert("src/d.gib", "fn h()", vec![], &path(&["d"]));
    assert_eq!(p.get_file(&path(&["a", "b"])).text, "fn f()");
    assert_eq!(p.get_file(&path(&["a", "c"])).text, "fn g()");
    assert_eq!(p.get_file(&path(&["d"])).text, "fn h()");
}
