use fn_indexer::file_index::FileIndex;
use fn_indexer::filter::{eligible_file_name_x, entry_visible};
use fn_indexer::patterns::{assign_decl_capture_x, fn_decl_capture_x, line_capture_x};
use fn_indexer::paths::{normalize_abs_x, parent_dir_x, resolve_import};
use fn_indexer::text::{split_content, trim_x};

#[test]
fn function_declaration_is_captured() {
    assert_eq!(
        fn_decl_capture_x("function foo() { return 1; }"),
        Some(String::from("foo"))
    );
    assert_eq!(fn_decl_capture_x("  function bar_2 ("), Some(String::from("bar_2")));
}

#[test]
fn function_declaration_needs_space_and_paren() {
    assert_eq!(fn_decl_capture_x("functionfoo("), None);
    assert_eq!(fn_decl_capture_x("function foo"), None);
    assert_eq!(fn_decl_capture_x("xfunction foo("), None);
    assert_eq!(fn_decl_capture_x("function"), None);
}

#[test]
fn function_declaration_can_capture_empty_name() {
    assert_eq!(fn_decl_capture_x("function  ("), Some(String::from("")));
}

#[test]
fn assignment_declaration_is_captured() {
    assert_eq!(
        assign_decl_capture_x("const add = (a, b) => a + b"),
        Some(String::from("add"))
    );
    assert_eq!(assign_decl_capture_x("let go = ("), Some(String::from("go")));
    assert_eq!(assign_decl_capture_x("var v1 = (x) => x"), Some(String::from("v1")));
}

#[test]
fn assignment_declaration_is_rigid_about_spaces() {
    assert_eq!(assign_decl_capture_x("const add=(a)=>a"), None);
    assert_eq!(assign_decl_capture_x("const add =(a)=>a"), None);
    assert_eq!(assign_decl_capture_x("const add = x => x"), None);
    assert_eq!(assign_decl_capture_x("const obj = require('./b')"), None);
}

#[test]
fn line_capture_tries_function_form_first() {
    assert_eq!(
        line_capture_x("function foo() {"),
        Some(String::from("foo"))
    );
    assert_eq!(line_capture_x("const f = () => 0"), Some(String::from("f")));
    assert_eq!(line_capture_x("return 1;"), None);
}

#[test]
fn trim_removes_surrounding_whitespace() {
    assert_eq!(trim_x("  function foo() \t"), String::from("function foo()"));
    assert_eq!(trim_x(" \t "), String::from(""));
}

#[test]
fn split_content_trims_lines_and_drops_trailing_newline() {
    let lines = split_content("a\n  b \nc\n");
    assert_eq!(lines, vec![String::from("a"), String::from("b"), String::from("c")]);
    let lines = split_content("a\n\nb");
    assert_eq!(lines, vec![String::from("a"), String::from(""), String::from("b")]);
    let empty = split_content("");
    assert_eq!(empty.len(), 0);
}

#[test]
fn parent_dir_takes_everything_before_last_slash() {
    assert_eq!(parent_dir_x("/tmp/project/a.js"), String::from("/tmp/project"));
    assert_eq!(parent_dir_x("/a.js"), String::from(""));
}

#[test]
fn normalize_resolves_dot_segments() {
    assert_eq!(normalize_abs_x("/a/b/./c.js"), String::from("/a/b/c.js"));
    assert_eq!(normalize_abs_x("/a/b/../c.js"), String::from("/a/c.js"));
    assert_eq!(normalize_abs_x("/a//b.js"), String::from("/a/b.js"));
}

#[test]
fn resolve_import_appends_js_and_normalizes() {
    assert_eq!(resolve_import("/tmp/p", "./b"), String::from("/tmp/p/b.js"));
    assert_eq!(resolve_import("/tmp/p", "../lib/util"), String::from("/tmp/lib/util.js"));
    assert_eq!(resolve_import("/tmp/p", "b"), String::from("/tmp/p/b.js"));
}

#[test]
fn eligible_file_names() {
    assert!(eligible_file_name_x("index.js"));
    assert!(!eligible_file_name_x(".index.js"));
    assert!(!eligible_file_name_x("index.test.js"));
    assert!(!eligible_file_name_x("testdata.js"));
    assert!(!eligible_file_name_x("index.json"));
    assert!(!eligible_file_name_x("js"));
}

#[test]
fn entry_visibility() {
    assert!(!entry_visible("node_modules", false));
    assert!(!entry_visible("my_node_modules_cache", false));
    assert!(entry_visible("src", false));
    // directories are never held to the script-file rule
    assert!(entry_visible("test_fixtures", false));
    assert!(entry_visible("ok.js", true));
    assert!(!entry_visible("ok.txt", true));
}

#[test]
fn build_records_definitions_with_offsets() {
    let fi = FileIndex::build("/tmp/p/a.js", "// one\nfunction foo() {\n}\nconst bar = () => 2\n");
    assert_eq!(fi.find_local_fn_offset("foo"), Some(1));
    assert_eq!(fi.find_local_fn_offset("bar"), Some(3));
    assert_eq!(fi.find_local_fn_offset("baz"), None);
    assert_eq!(fi.line_count(), 4);
    assert_eq!(fi.line_at(1).as_str(), "function foo() {");
}

#[test]
fn build_last_definition_wins() {
    let fi = FileIndex::build("/tmp/p/a.js", "function foo() {\n}\nfunction foo() {\n}\n");
    assert_eq!(fi.find_local_fn_offset("foo"), Some(2));
}

#[test]
fn build_records_destructured_imports() {
    let fi = FileIndex::build(
        "/tmp/p/a.js",
        "const { helper, other } = require('./b')\nvar util = require('../lib/util')\n",
    );
    assert_eq!(fi.find_import("helper"), Some(String::from("/tmp/p/b.js")));
    assert_eq!(fi.find_import("other"), Some(String::from("/tmp/p/b.js")));
    assert_eq!(fi.find_import("util"), Some(String::from("/tmp/lib/util.js")));
    assert_eq!(fi.find_import("missing"), None);
}

#[test]
fn build_recognizes_import_spanning_lines() {
    let fi = FileIndex::build("/tmp/p/a.js", "const {\n  a,\n  b\n} = require('./c')\n");
    assert_eq!(fi.find_import("a"), Some(String::from("/tmp/p/c.js")));
    assert_eq!(fi.find_import("b"), Some(String::from("/tmp/p/c.js")));
}

#[test]
fn build_later_import_overwrites_earlier() {
    let fi = FileIndex::build(
        "/tmp/p/a.js",
        "const x = require('./one')\nconst x = require('./two')\n",
    );
    assert_eq!(fi.find_import("x"), Some(String::from("/tmp/p/two.js")));
}
