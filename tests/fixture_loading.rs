use test_package_compiler::{
    is_source_file, origin_dir, source_files, source_from_file, strip_dir, FixtureError, Origin,
};

#[test]
fn origin_directories() {
    assert_eq!(origin_dir(Origin::Src), "src");
    assert_eq!(origin_dir(Origin::Test), "test");
}

#[test]
fn source_extension_is_recognised() {
    assert!(is_source_file("src/main.gleam"));
    assert!(is_source_file("/pkg/src/a/b.c.gleam"));
    assert!(!is_source_file("src/main.erl"));
    assert!(!is_source_file("src/README"));
    assert!(!is_source_file("src/.gleam"));
    assert!(!is_source_file("gleam"));
    assert!(!is_source_file("src/main.gleam.bak"));
}

#[test]
fn absent_test_tree_gives_no_sources() {
    let listing = vec!["/pkg/test/a_test.gleam".to_string()];
    assert!(source_files(false, &listing).is_empty());
    assert!(source_files(false, &Vec::new()).is_empty());
}

#[test]
fn listing_is_filtered_in_order() {
    let listing = vec![
        "/pkg/src/b.gleam".to_string(),
        "/pkg/src/notes.txt".to_string(),
        "/pkg/src/a.gleam".to_string(),
        "/pkg/src/Makefile".to_string(),
    ];
    assert_eq!(
        source_files(true, &listing),
        vec!["/pkg/src/b.gleam".to_string(), "/pkg/src/a.gleam".to_string()]
    );
}

#[test]
fn strip_dir_takes_whole_components() {
    assert_eq!(strip_dir("/pkg", "/pkg/src/a.gleam"), Some("src/a.gleam".to_string()));
    assert_eq!(strip_dir("/pkg", "/pkgs/src/a.gleam"), None);
    assert_eq!(strip_dir("/pkg", "/pkg"), None);
}

#[test]
fn source_record_from_nested_file() {
    let s = source_from_file("/pkg", "/pkg/src/one/two.gleam", Origin::Src, "pub fn x() { 1 }".to_string())
        .unwrap();
    assert_eq!(s.path, "src/one/two.gleam");
    assert_eq!(s.name, "one/two");
    assert_eq!(s.origin, Origin::Src);
    assert_eq!(s.code, "pub fn x() { 1 }");
}

#[test]
fn source_record_from_test_file() {
    let s = source_from_file("/pkg", "/pkg/test/main_test.gleam", Origin::Test, String::new()).unwrap();
    assert_eq!(s.path, "test/main_test.gleam");
    assert_eq!(s.name, "main_test");
    assert_eq!(s.origin, Origin::Test);
}

#[test]
fn source_record_errors() {
    assert_eq!(
        source_from_file("/pkg", "/other/src/a.gleam", Origin::Src, String::new()).unwrap_err(),
        FixtureError::OutsideRoot
    );
    assert_eq!(
        source_from_file("/pkg", "/pkg/test/a.gleam", Origin::Src, String::new()).unwrap_err(),
        FixtureError::OutsideOrigin
    );
    assert_eq!(
        source_from_file("/pkg", "/pkg/src/a.erl", Origin::Src, String::new()).unwrap_err(),
        FixtureError::NotSource
    );
}
