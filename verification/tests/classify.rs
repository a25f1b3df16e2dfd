use hw1::api::FetchError;
use hw1::inspect::{default_keywords, has_keyword, looks_like_source, lowered_look_like_source};
use hw1::inspect_repo::{
    analyze_repo, classify, classify_with, clone_path, default_extensions, has_code_extension,
    Selection, SOURCE_THRESHOLD,
};
use hw1::models::tree::{parse_tree, parse_tree_entry, EntryKind, TreeEntry};
use serde_json::Value;

fn object(members: Vec<(&str, Value)>) -> Value {
    let mut map = serde_json::Map::new();
    for (key, value) in members {
        map.insert(key.to_string(), value);
    }
    Value::Object(map)
}

fn text(value: &str) -> Value {
    Value::String(value.to_string())
}

fn file(path: &str) -> TreeEntry {
    TreeEntry { kind: EntryKind::File, path: path.to_string() }
}

fn directory(path: &str) -> TreeEntry {
    TreeEntry { kind: EntryKind::Other, path: path.to_string() }
}

fn tree(code: usize, other: usize) -> Vec<TreeEntry> {
    let mut entries = Vec::new();
    for i in 0..code {
        entries.push(file(&format!("src/m{}.rs", i)));
    }
    for i in 0..other {
        entries.push(file(&format!("docs/page{}.md", i)));
    }
    entries
}

fn names(list: &[&str]) -> Vec<String> {
    list.iter().map(|name| name.to_string()).collect()
}

#[test]
fn threshold_is_seventy() {
    assert_eq!(SOURCE_THRESHOLD, 70);
}

#[test]
fn seven_of_ten_is_source() {
    assert!(classify(&tree(7, 3)));
}

#[test]
fn six_of_ten_is_not_source() {
    assert!(!classify(&tree(6, 4)));
}

#[test]
fn no_files_is_not_source() {
    assert!(!classify(&Vec::new()));
    assert!(!classify(&vec![directory("src"), directory("lib.rs"), directory("a.c")]));
}

#[test]
fn percentage_is_rounded_down() {
    // 9 of 13 is 69.2 percent, 7 of 10 is 70 percent, 69 of 99 is 69.7 percent.
    assert!(!classify(&tree(9, 4)));
    assert!(!classify(&tree(69, 30)));
    assert!(classify(&tree(70, 30)));
    assert!(classify(&tree(1, 0)));
    assert!(!classify(&tree(0, 1)));
}

#[test]
fn directories_do_not_count() {
    let mut entries = tree(7, 3);
    for i in 0..20 {
        entries.push(directory(&format!("dir{}", i)));
    }
    assert!(classify(&entries));
    let mut entries = tree(6, 4);
    for i in 0..20 {
        entries.push(directory(&format!("dir{}.rs", i)));
    }
    assert!(!classify(&entries));
}

#[test]
fn recognized_endings() {
    let extensions = default_extensions();
    assert_eq!(extensions, names(&[".rs", ".java", ".c", ".cpp", ".h"]));
    for path in ["a.rs", "x/y/B.java", "k.c", "k.cpp", "k.h", ".rs"] {
        assert!(has_code_extension(path, &extensions), "{}", path);
    }
    for path in ["a.py", "rs", "a.rs.md", "a.RS", "", "c", "a.hpp", "a.cc"] {
        assert!(!has_code_extension(path, &extensions), "{}", path);
    }
}

#[test]
fn extension_table_is_configurable() {
    let entries = vec![file("a.py"), file("b.py"), file("c.rs")];
    assert!(!classify(&entries));
    assert!(!classify_with(&entries, &names(&[".py"])));
    assert!(classify_with(&entries, &names(&[".py", ".rs"])));
    assert!(!classify_with(&entries, &Vec::new()));
}

#[test]
fn tree_entries_are_decoded() {
    let blob = parse_tree_entry(&object(vec![("type", text("blob")), ("path", text("src/a.rs"))]));
    assert_eq!(blob, file("src/a.rs"));
    let dir = parse_tree_entry(&object(vec![("type", text("tree")), ("path", text("src"))]));
    assert_eq!(dir, directory("src"));
    let bare = parse_tree_entry(&object(vec![("type", text("blob"))]));
    assert_eq!(bare, file(""));
    let untyped = parse_tree_entry(&object(vec![("path", text("a.rs"))]));
    assert_eq!(untyped, directory("a.rs"));
    let upper = parse_tree_entry(&object(vec![("type", text("Blob")), ("path", text("a.rs"))]));
    assert_eq!(upper.kind, EntryKind::Other);
    let listing = vec![
        object(vec![("type", text("blob")), ("path", text("a.c"))]),
        Value::Null,
    ];
    assert_eq!(parse_tree(&listing), vec![file("a.c"), directory("")]);
}

#[test]
fn analyze_repo_reads_the_listing() {
    let mut listing = Vec::new();
    for i in 0..7 {
        listing.push(object(vec![("type", text("blob")), ("path", text(&format!("f{}.java", i)))]));
    }
    for i in 0..3 {
        listing.push(object(vec![("type", text("blob")), ("path", text(&format!("f{}.txt", i)))]));
    }
    listing.push(object(vec![("type", text("tree")), ("path", text("docs"))]));
    assert!(analyze_repo(&listing));
    listing.push(object(vec![("type", text("blob"))]));
    assert!(!analyze_repo(&listing));
    assert!(!analyze_repo(&Vec::new()));
}

#[test]
fn names_speak_for_source() {
    assert!(looks_like_source(&names(&["src/main.rs", "Cargo.toml"])));
    assert!(looks_like_source(&names(&["SRC/MAIN.RS"])));
    assert!(looks_like_source(&names(&["Driver.JAVA", "notes.txt"])));
}

#[test]
fn names_speak_against_source() {
    assert!(!looks_like_source(&names(&["src/main.rs", "README.md"])));
    assert!(!looks_like_source(&names(&["Tutorial/step1.c"])));
    assert!(!looks_like_source(&names(&["examples/demo.rs", "lib.h"])));
    assert!(!looks_like_source(&names(&["notes.txt", "Makefile"])));
    assert!(!looks_like_source(&Vec::new()));
}

#[test]
fn lowered_names_are_taken_as_they_are() {
    assert!(lowered_look_like_source(&names(&["main.rs"])));
    assert!(!lowered_look_like_source(&names(&["MAIN.RS"])));
    assert!(lowered_look_like_source(&names(&["main.rs", "README.md"])));
    assert!(!lowered_look_like_source(&names(&["main.rs", "readme.md"])));
}

#[test]
fn documentation_keywords() {
    let keywords = default_keywords();
    assert_eq!(keywords, names(&["tutorial", "example", "readme"]));
    assert!(has_keyword("my-tutorial-notes", &keywords));
    assert!(has_keyword("examples", &keywords));
    assert!(has_keyword("readme", &keywords));
    assert!(!has_keyword("read_me", &keywords));
    assert!(!has_keyword("", &keywords));
    assert!(!has_keyword("readme", &Vec::new()));
}

#[test]
fn clone_goes_to_language_and_name() {
    assert_eq!(clone_path("Rust", "demo"), "repo_cloned/Rust_demo");
    assert_eq!(clone_path("C++", "a_b"), "repo_cloned/C++_a_b");
}

#[test]
fn first_source_that_clones_wins() {
    let n = 4;
    let state = Selection::start(n);
    assert_eq!(state, Selection::Inspecting(0));
    let (state, report) = state.on_analysis(n, Ok(false));
    assert_eq!((state, report), (Selection::Inspecting(1), None));
    let (state, report) = state.on_analysis(n, Ok(true));
    assert_eq!((state, report), (Selection::Cloning(1), None));
    let state = state.on_clone(n, false);
    assert_eq!(state, Selection::Inspecting(2));
    let (state, report) = state.on_analysis(n, Err(FetchError::Schema));
    assert_eq!((state, report), (Selection::Inspecting(3), Some(FetchError::Schema)));
    let (state, _) = state.on_analysis(n, Ok(true));
    assert_eq!(state, Selection::Cloning(3));
    let state = state.on_clone(n, true);
    assert_eq!(state, Selection::Cloned(3));
    assert_eq!(state.on_clone(n, false), Selection::Cloned(3));
    assert_eq!(state.on_analysis(n, Ok(true)).0, Selection::Cloned(3));
}

#[test]
fn selection_stops_after_the_first_clone() {
    let n = 3;
    let (state, _) = Selection::start(n).on_analysis(n, Ok(true));
    assert_eq!(state.on_clone(n, true), Selection::Cloned(0));
}

#[test]
fn selection_runs_out() {
    assert_eq!(Selection::start(0), Selection::Exhausted);
    let (state, _) = Selection::start(1).on_analysis(1, Ok(false));
    assert_eq!(state, Selection::Exhausted);
    let (state, _) = Selection::start(1).on_analysis(1, Ok(true));
    assert_eq!(state.on_clone(1, false), Selection::Exhausted);
    assert_eq!(Selection::Exhausted.on_analysis(5, Ok(true)).0, Selection::Exhausted);
    assert_eq!(Selection::Inspecting(usize::MAX).on_analysis(usize::MAX, Ok(false)).0, Selection::Exhausted);
}
