use std::cmp::Ordering;

use giblang::build::{ByteCode, FuncDef};
use giblang::dap::{cmp_pos, ByteCodeBreakpoint, ByteCodeFile};

fn func(file: u32, pos: (u32, u32), marks: Vec<(usize, (u32, u32))>) -> FuncDef {
    FuncDef { args: 0, body: vec![ByteCode::Return], offset: 0, file, pos, marks }
}

fn program() -> ByteCodeFile {
    ByteCodeFile {
        funcs: vec![
            (0, func(0, (0, 0), vec![(0, (1, 4)), (3, (2, 4)), (6, (3, 4))])),
            (7, func(0, (5, 0), vec![(0, (6, 4)), (2, (7, 8))])),
            (9, func(1, (0, 0), vec![(0, (1, 0))])),
        ],
        file_names: vec![(0, "main.gib".to_string()), (1, "other.gib".to_string())],
    }
}

#[test]
fn positions_compare_by_line_then_column() {
    assert_eq!(cmp_pos((1, 9), (2, 0)), Ordering::Less);
    assert_eq!(cmp_pos((2, 0), (1, 9)), Ordering::Greater);
    assert_eq!(cmp_pos((2, 3), (2, 4)), Ordering::Less);
    assert_eq!(cmp_pos((2, 4), (2, 4)), Ordering::Equal);
}

#[test]
fn index_is_the_last_mark_before_the_position() {
    let f = func(0, (0, 0), vec![(0, (1, 4)), (3, (2, 4)), (6, (3, 4))]);
    assert_eq!(f.get_index(2, 10), Some(3));
    assert_eq!(f.get_index(9, 0), Some(6));
    assert_eq!(f.get_index(1, 4), None);
    assert_eq!(f.get_index(0, 0), None);
}

#[test]
fn func_is_the_last_one_starting_before() {
    let p = program();
    assert_eq!(p.get_func(0, 2, 0).map(|f| f.0), Some(0));
    assert_eq!(p.get_func(0, 6, 9).map(|f| f.0), Some(7));
    assert_eq!(p.get_func(1, 3, 0).map(|f| f.0), Some(9));
    assert!(p.get_func(2, 3, 0).is_none());
}

#[test]
fn files_are_found_by_name() {
    let p = program();
    assert_eq!(p.find_file("other.gib"), Some(1));
    assert_eq!(p.find_file("main.gib"), Some(0));
    assert_eq!(p.find_file("none.gib"), None);
}

#[test]
fn breakpoint_is_the_mark_in_the_enclosing_function() {
    let p = program();
    assert_eq!(p.get_breakpoint("main.gib", 7, 9), Some(ByteCodeBreakpoint { func: 7, instr: 2 }));
    assert_eq!(p.get_breakpoint("main.gib", 3, 0), Some(ByteCodeBreakpoint { func: 0, instr: 3 }));
    assert_eq!(p.get_breakpoint("main.gib", 6, 4), None);
}
