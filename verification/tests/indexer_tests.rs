use fn_indexer::indexer::{path_exists, Indexer, IndexerError};
use fn_indexer::utils::OptionIterator;

fn canon(path: &str) -> String {
    fs_err::canonicalize(path).unwrap().display().to_string()
}

#[test]
fn option_iterator_without_cursor_yields_nothing() {
    let mut it: OptionIterator<fn_indexer::utils::ContentCursor> = OptionIterator::new(None);
    assert_eq!(it.next(), None);
}

#[test]
fn path_exists_reports_the_file_system() {
    let dir = tempfile::tempdir().unwrap();
    let root = dir.path().to_str().unwrap().to_string();
    assert!(path_exists(&root));
    assert!(!path_exists(&format!("{}/absent", root)));
}

#[test]
fn scenario_missing_root_fails_without_traversal() {
    let mut indexer = Indexer::new("/no/such/directory/anywhere");
    let r = indexer.index();
    assert!(
        matches!(r, Err(IndexerError::DirNotFound(ref d)) if d == "/no/such/directory/anywhere")
    );
}

#[test]
fn scenario_only_ineligible_files_is_an_empty_project() {
    let dir = tempfile::tempdir().unwrap();
    let root = dir.path().to_str().unwrap().to_string();
    fs_err::write(format!("{}/.test.js", root), "function hidden() {}\n").unwrap();
    fs_err::write(format!("{}/.profile", root), "# dotfile\n").unwrap();
    fs_err::write(format!("{}/unit.test.js", root), "function t() {}\n").unwrap();
    let mut indexer = Indexer::new(&root);
    let r = indexer.index();
    assert!(matches!(r, Err(IndexerError::EmptyProject(ref d)) if d == &root));
}

#[test]
fn catalog_holds_exactly_the_eligible_files() {
    let dir = tempfile::tempdir().unwrap();
    let root = dir.path().to_str().unwrap().to_string();
    fs_err::write(format!("{}/good.js", root), "function g() {}\n").unwrap();
    fs_err::write(format!("{}/.hidden.js", root), "function h() {}\n").unwrap();
    fs_err::write(format!("{}/a.test.js", root), "function t() {}\n").unwrap();
    fs_err::write(format!("{}/notes.txt", root), "function n() {}\n").unwrap();
    fs_err::create_dir_all(format!("{}/sub", root)).unwrap();
    fs_err::write(format!("{}/sub/other.js", root), "function o() {}\n").unwrap();
    fs_err::create_dir_all(format!("{}/node_modules/pkg", root)).unwrap();
    fs_err::write(format!("{}/node_modules/pkg/index.js", root), "function p() {}\n").unwrap();
    let mut indexer = Indexer::new(&root);
    indexer.index().unwrap();
    assert!(indexer.has_file(&canon(&format!("{}/good.js", root))));
    assert!(indexer.has_file(&canon(&format!("{}/sub/other.js", root))));
    assert!(!indexer.has_file(&canon(&format!("{}/.hidden.js", root))));
    assert!(!indexer.has_file(&canon(&format!("{}/a.test.js", root))));
    assert!(!indexer.has_file(&canon(&format!("{}/notes.txt", root))));
    assert!(!indexer.has_file(&canon(&format!("{}/node_modules/pkg/index.js", root))));
}

#[test]
fn scenario_local_function_content_starts_at_its_line() {
    let dir = tempfile::tempdir().unwrap();
    let root = dir.path().to_str().unwrap().to_string();
    fs_err::write(
        format!("{}/a.js", root),
        "// header\n// more\nfunction foo() { return 1; }\nfunction tail() {}\n",
    )
    .unwrap();
    let mut indexer = Indexer::new(&root);
    indexer.index().unwrap();
    let mut it = indexer
        .iter_fn_content(&format!("{}/a.js", root), "foo", None)
        .unwrap();
    assert!(it.iter.is_some());
    assert_eq!(it.next(), Some(String::from("function foo() { return 1; }")));
    // the sequence is not bounded to the function body
    assert_eq!(it.next(), Some(String::from("function tail() {}")));
    assert_eq!(it.next(), None);
}

#[test]
fn scenario_imported_function_resolves_across_files() {
    let dir = tempfile::tempdir().unwrap();
    let root = dir.path().to_str().unwrap().to_string();
    fs_err::write(
        format!("{}/a.js", root),
        "const { helper } = require('./b')\nhelper()\n",
    )
    .unwrap();
    fs_err::write(
        format!("{}/b.js", root),
        "// 1\n// 2\n// 3\n// 4\nfunction helper() { return 2; }\n",
    )
    .unwrap();
    let mut indexer = Indexer::new(&root);
    indexer.index().unwrap();
    let mut it = indexer
        .iter_fn_content(&format!("{}/a.js", root), "helper", None)
        .unwrap();
    assert_eq!(it.next(), Some(String::from("function helper() { return 2; }")));
    assert_eq!(it.next(), None);
}

#[test]
fn scenario_unknown_name_is_a_soft_miss() {
    let dir = tempfile::tempdir().unwrap();
    let root = dir.path().to_str().unwrap().to_string();
    fs_err::write(format!("{}/a.js", root), "function foo() {}\n").unwrap();
    let mut indexer = Indexer::new(&root);
    indexer.index().unwrap();
    let r = indexer.iter_fn_content(&format!("{}/a.js", root), "nothere", None);
    let mut it = r.unwrap();
    assert!(it.iter.is_none());
    assert_eq!(it.next(), None);
}

#[test]
fn local_definition_wins_over_an_identically_named_import() {
    let dir = tempfile::tempdir().unwrap();
    let root = dir.path().to_str().unwrap().to_string();
    fs_err::write(
        format!("{}/a.js", root),
        "const dual = require('./b')\nfunction dual() { return 'local'; }\n",
    )
    .unwrap();
    fs_err::write(format!("{}/b.js", root), "function dual() { return 'imported'; }\n").unwrap();
    let mut indexer = Indexer::new(&root);
    indexer.index().unwrap();
    let mut it = indexer
        .iter_fn_content(&format!("{}/a.js", root), "dual", None)
        .unwrap();
    assert_eq!(it.next(), Some(String::from("function dual() { return 'local'; }")));
}

#[test]
fn qualifier_selects_the_import_key() {
    let dir = tempfile::tempdir().unwrap();
    let root = dir.path().to_str().unwrap().to_string();
    fs_err::write(format!("{}/a.js", root), "const obj = require('./b')\n").unwrap();
    fs_err::write(format!("{}/b.js", root), "function method() { return 3; }\n").unwrap();
    let mut indexer = Indexer::new(&root);
    indexer.index().unwrap();
    let mut it = indexer
        .iter_fn_content(&format!("{}/a.js", root), "method", Some(String::from("obj")))
        .unwrap();
    assert_eq!(it.next(), Some(String::from("function method() { return 3; }")));
}

#[test]
fn import_to_an_unindexed_file_is_an_error() {
    let dir = tempfile::tempdir().unwrap();
    let root = dir.path().to_str().unwrap().to_string();
    fs_err::write(format!("{}/a.js", root), "const m = require('./missing')\n").unwrap();
    fs_err::write(format!("{}/real.js", root), "function anchor() {}\n").unwrap();
    let mut indexer = Indexer::new(&root);
    indexer.index().unwrap();
    let r = indexer.iter_fn_content(&format!("{}/a.js", root), "m", None);
    assert!(matches!(r, Err(IndexerError::UnindexedFile(_))));
}

#[test]
fn import_whose_target_lacks_the_function_is_an_error() {
    let dir = tempfile::tempdir().unwrap();
    let root = dir.path().to_str().unwrap().to_string();
    fs_err::write(format!("{}/a.js", root), "const { nope } = require('./b')\n").unwrap();
    fs_err::write(format!("{}/b.js", root), "function other() {}\n").unwrap();
    let mut indexer = Indexer::new(&root);
    indexer.index().unwrap();
    let r = indexer.iter_fn_content(&format!("{}/a.js", root), "nope", None);
    assert!(matches!(r, Err(IndexerError::MissingDefinition(ref f, _)) if f == "nope"));
}

#[test]
fn query_path_is_canonicalized_before_lookup() {
    let dir = tempfile::tempdir().unwrap();
    let root = dir.path().to_str().unwrap().to_string();
    fs_err::write(format!("{}/a.js", root), "function foo() { return 1; }\n").unwrap();
    let mut indexer = Indexer::new(&root);
    indexer.index().unwrap();
    let mut it = indexer
        .iter_fn_content(&format!("{}/./a.js", root), "foo", None)
        .unwrap();
    assert_eq!(it.next(), Some(String::from("function foo() { return 1; }")));
}

#[test]
fn querying_a_file_outside_the_tree_is_an_error() {
    let dir = tempfile::tempdir().unwrap();
    let root = dir.path().to_str().unwrap().to_string();
    fs_err::write(format!("{}/a.js", root), "function foo() {}\n").unwrap();
    let other = tempfile::tempdir().unwrap();
    let stray = format!("{}/b.js", other.path().to_str().unwrap());
    fs_err::write(&stray, "function bar() {}\n").unwrap();
    let mut indexer = Indexer::new(&root);
    indexer.index().unwrap();
    let r = indexer.iter_fn_content(&stray, "bar", None);
    assert!(matches!(r, Err(IndexerError::UnindexedFile(_))));
    let r2 = indexer.iter_fn_content(&format!("{}/ghost.js", root), "x", None);
    assert!(matches!(r2, Err(IndexerError::UnindexedFile(_))));
}

#[test]
fn get_index_exposes_one_files_state() {
    let dir = tempfile::tempdir().unwrap();
    let root = dir.path().to_str().unwrap().to_string();
    fs_err::write(
        format!("{}/a.js", root),
        "const { helper } = require('./b')\nfunction local() {}\n",
    )
    .unwrap();
    fs_err::write(format!("{}/b.js", root), "function helper() {}\n").unwrap();
    let mut indexer = Indexer::new(&root);
    indexer.index().unwrap();
    let key = canon(&format!("{}/a.js", root));
    let fi = indexer.get_index(&key).unwrap();
    assert_eq!(fi.find_local_fn_offset("local"), Some(1));
    assert_eq!(fi.find_import("helper"), Some(canon(&format!("{}/b.js", root))));
    assert!(indexer.get_index(&format!("{}/ghost.js", root)).is_none());
}

#[test]
fn reindexing_after_changes_overwrites_entries() {
    let dir = tempfile::tempdir().unwrap();
    let root = dir.path().to_str().unwrap().to_string();
    fs_err::write(format!("{}/a.js", root), "function foo() { return 1; }\n").unwrap();
    let mut indexer = Indexer::new(&root);
    indexer.index().unwrap();
    fs_err::write(format!("{}/a.js", root), "// moved\nfunction foo() { return 9; }\n").unwrap();
    indexer.index().unwrap();
    let mut it = indexer
        .iter_fn_content(&format!("{}/a.js", root), "foo", None)
        .unwrap();
    assert_eq!(it.next(), Some(String::from("function foo() { return 9; }")));
}
