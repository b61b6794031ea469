use std::collections::VecDeque;
use std::path::PathBuf;

use git_branch_stack::stack::FileStack;
use git_branch_stack::stack_file::{parse_entries, render_entries};

fn strings(items: &[&str]) -> VecDeque<String> {
    items.iter().map(|s| s.to_string()).collect()
}

#[test]
fn lines_are_read_top_first() {
    assert_eq!(parse_entries("a\nb\nc\n"), strings(&["a", "b", "c"]));
    let stack = FileStack::new(PathBuf::from("stack"), Some("a\nb\nc\n".to_string()));
    let seen: Vec<&String> = stack.iter().collect();
    assert_eq!(seen, vec!["a", "b", "c"]);
}

#[test]
fn the_final_newline_is_optional() {
    assert_eq!(parse_entries("a\nb"), strings(&["a", "b"]));
    assert_eq!(parse_entries(""), strings(&[]));
    assert_eq!(parse_entries("\n"), strings(&[""]));
}

#[test]
fn lines_are_trimmed_of_white_space() {
    assert_eq!(
        parse_entries("  a \r\n\tb\u{a0}\n\u{3000}c d\u{2028}\n"),
        strings(&["a", "b", "c d"])
    );
    assert_eq!(parse_entries("a\n\n  \nb\n"), strings(&["a", "", "", "b"]));
}

#[test]
fn entries_are_written_one_per_line() {
    assert_eq!(render_entries(&strings(&["x", "y z"])), "x\ny z\n");
    assert_eq!(render_entries(&strings(&[])), "");
}

#[test]
fn saving_and_reloading_keeps_the_order() {
    let loaded = FileStack::new(PathBuf::from("stack"), Some(" a\nb \r\n\nc".to_string()));
    let saved = loaded.contents();
    assert_eq!(saved, "a\nb\n\nc\n");
    let reloaded = FileStack::new(PathBuf::from("stack"), Some(saved));
    assert_eq!(
        reloaded.iter().collect::<Vec<&String>>(),
        loaded.iter().collect::<Vec<&String>>()
    );
}
