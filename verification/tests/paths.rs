use std::path::{Component, Path};

use vigilant_waddle::hivepart::mk_hive;
use vigilant_waddle::stooq_download::full_path;
use vigilant_waddle::paths::{path_from_parts, path_under, DbConfig, PathMan, SillyConfig, DATA_BASE};

struct FakeConfig;

impl DbConfig for FakeConfig {
    fn db_base(&self) -> &str {
        "/a_folder"
    }
}

#[test]
fn test_mk_hive() {
    let test_data = vec![
        ("foo".to_string(), "bar".to_string()),
        ("baz".to_string(), "qux".to_string()),
    ];
    let expected = "foo=bar/baz=qux";
    assert!(mk_hive(test_data) == expected);
}

#[test]
fn test_pm_tags() {
    let f = FakeConfig;
    let fc = PathMan::new(&f);
    let p = fc.patch_from_tags(&["foo", "bar", "baz"]);
    let parts: Vec<_> = Path::new(&p).components().collect();
    println!("Returned {p}");
    assert_eq!(parts[0], Component::RootDir);
    assert_eq!(parts[1], Component::Normal("a_folder".as_ref()));
    assert_eq!(parts[2], Component::Normal("foo".as_ref()));
    assert_eq!(parts[3], Component::Normal("bar".as_ref()));
    assert_eq!(parts[4], Component::Normal("baz".as_ref()));
}

#[test]
fn mk_hive_empty_is_empty_path() {
    assert_eq!(mk_hive(Vec::new()), "");
}

#[test]
fn mk_hive_absolute_key_restarts_path() {
    let fields = vec![
        ("a".to_string(), "1".to_string()),
        ("/b".to_string(), "2".to_string()),
    ];
    assert_eq!(mk_hive(fields), "/b=2");
}

#[test]
fn joining_follows_pathbuf() {
    assert_eq!(path_under("/tmp", &["file.bk"]), "/tmp/file.bk");
    assert_eq!(path_under("/tmp/", &["file.bk"]), "/tmp/file.bk");
    assert_eq!(path_under("", &["file.bk"]), "file.bk");
    assert_eq!(path_under("/tmp", &["/etc"]), "/etc");
    assert_eq!(path_under("a", &[]), "a/");
    assert_eq!(path_from_parts(&["a", "/b", "c"]), "/b/c");
}

#[test]
fn tags_under_base_join_with_slashes() {
    assert_eq!(path_under("/a_folder", &["foo", "bar", "baz"]), "/a_folder/foo/bar/baz");
    assert_eq!(path_from_parts(&["x", "y"]), "x/y");
    assert_eq!(path_from_parts(&[]), "");
}

#[test]
fn silly_config_uses_data_base() {
    let c = SillyConfig;
    assert_eq!(c.db_base(), DATA_BASE);
    let pm = PathMan::new(&c);
    assert_eq!(pm.patch_from_tags(&["raw"]), format!("{DATA_BASE}/raw"));
}

#[test]
fn full_path_is_under_data_base() {
    assert_eq!(full_path("raw/x.csv"), format!("{DATA_BASE}/raw/x.csv"));
    assert_eq!(full_path("/abs"), "/abs");
}
