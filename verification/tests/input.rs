use giblang::db::input::{get_module_path, get_path_name, SourceFile, Vfs, VfsInner, STD_SOURCE};

#[test]
fn test_get_path_name() {
    let name = get_path_name("src/db/input.gib");
    assert_eq!(name, "input");
}

#[test]
fn test_get_module_path() {
    let module = get_module_path("src", "src/db/input.gib");
    assert_eq!(module, vec!["db".to_string(), "input".to_string()]);
}

#[test]
fn example() {
    let module = get_module_path(
        "/home/james/projects/another-giblang-impl",
        "/home/james/projects/another-giblang-impl/gib_mod/another.gib",
    );
    assert_eq!(module, vec!["gib_mod".to_string(), "another".to_string()]);
}


fn src(name: &str, path: &str, text: &str, module: &[&str]) -> SourceFile {
    SourceFile {
        name: name.to_string(),
        path: path.to_string(),
        text: text.to_string(),
        module: module.iter().map(|s| s.to_string()).collect(),
    }
}

fn segs(p: &[&str]) -> Vec<String> {
    p.iter().map(|s| s.to_string()).collect()
}

#[test]
fn written_file_is_read_back() {
    let mut v = Vfs::dir("root".to_string());
    v.insert_path(&segs(&["a", "b"]), src("b", "/p/a/b.gib", "fn f()", &["a", "b"]));
    let f = v.get_file(&segs(&["a", "b"])).unwrap();
    assert_eq!(f.text, "fn f()");
    assert_eq!(f.path, "/p/a/b.gib");
    assert!(v.get_file(&segs(&["a", "c"])).is_none());
    assert_eq!(v.paths(), vec!["/p/a/b.gib".to_string()]);
}

#[test]
fn rewriting_a_path_replaces_the_file() {
    let mut v = Vfs::dir("root".to_string());
    v.insert_path(&segs(&["a"]), src("a", "/p/a.gib", "one", &["a"]));
    v.insert_path(&segs(&["a"]), src("a", "/p/a.gib", "two", &["a"]));
    assert_eq!(v.get_file(&segs(&["a"])).unwrap().text, "two");
}

#[test]
fn project_has_the_standard_module_and_its_files() {
    let mut v = Vfs::from_files(
        "/p",
        vec![src("main", "/p/main.gib", "fn main()", &["main"]), src("b", "/p/m/b.gib", "", &["m", "b"])],
    );
    assert_eq!(v.name, "root");
    let std = v.get_file(&segs(&["std"])).unwrap();
    assert_eq!(std.path, "/p/std.gib");
    assert_eq!(std.text, STD_SOURCE);
    assert_eq!(v.get_file(&segs(&["main"])).unwrap().text, "fn main()");
    assert_eq!(v.get_file(&segs(&["m", "b"])).unwrap().path, "/p/m/b.gib");
    assert_eq!(v.paths(), vec!["/p/std.gib".to_string(), "/p/main.gib".to_string(), "/p/m/b.gib".to_string()]);
}

#[test]
fn project_skips_a_file_below_a_file() {
    let mut v = Vfs::from_files("/p", vec![src("a", "/p/a.gib", "", &["a"]), src("b", "/p/a/b.gib", "", &["a", "b"])]);
    assert_eq!(v.get_file(&segs(&["a"])).unwrap().path, "/p/a.gib");
    assert!(matches!(v.inner, VfsInner::Dir(_)));
    assert_eq!(v.paths(), vec!["/p/std.gib".to_string(), "/p/a.gib".to_string()]);
}

#[test]
fn input_makes_an_empty_file_where_there_is_none() {
    let mut v = Vfs::from_files("/p", vec![]);
    let made = v.input("/p", "/p/m/new.gib");
    assert_eq!(made.name, "new");
    assert_eq!(made.text, "");
    assert_eq!(made.module, segs(&["m", "new"]));
    let again = v.input("/p", "/p/m/new.gib");
    assert_eq!(again.path, "/p/m/new.gib");
}

#[test]
fn looking_up_a_missing_file_creates_its_directories() {
    let mut v = Vfs::dir("root".to_string());
    v.insert_path(&segs(&["a", "b"]), src("b", "/p/a/b.gib", "fn f()", &["a", "b"]));
    assert!(v.get_file(&segs(&["x", "y", "z"])).is_none());
    assert_eq!(v.get_file(&segs(&["a", "b"])).unwrap().text, "fn f()");
    match &v.inner {
        VfsInner::Dir(entries) => {
            assert_eq!(entries.len(), 2);
            assert_eq!(entries[1].name, "x");
            assert!(matches!(&entries[1].inner, VfsInner::Dir(e) if e.len() == 1 && e[0].name == "y"));
        }
        VfsInner::File(_) => panic!("expected a directory"),
    }
}
