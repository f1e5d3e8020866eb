use built::{collect_dependencies, parse_dependencies, LockError, LockPackage};

#[test]
fn parse_deps() {
    let lock_toml_buf = r#"
            [root]
            dependencies = [
                "normal_dep 1.2.3 (r+g)",
                "local_dep 4.5.6",
            ]

            [[package]]
            name = "normal_dep"
            version = "1.2.3"
            source = "r+g"
            dependencies = [
                "dep_of_dep 7.8.9 (r+g)",
            ]

            [[package]]
            name = "local_dep"
            version = "4.5.6"

            [[package]]
            name = "dep_of_dep"
            version = "7.8.9"
            source = "r+g""#;
    let deps = parse_dependencies(&lock_toml_buf).unwrap();
    assert_eq!(deps,
               [("dep_of_dep".to_owned(), "7.8.9".to_owned()),
                ("local_dep".to_owned(), "4.5.6".to_owned()),
                ("normal_dep".to_owned(), "1.2.3".to_owned())]);
}

#[test]
fn parse_deps_any_declaration_order() {
    let a = "[[package]]\nname = \"normal_dep\"\nversion = \"1.2.3\"\n\n\
             [[package]]\nname = \"dep_of_dep\"\nversion = \"7.8.9\"\n\n\
             [[package]]\nname = \"local_dep\"\nversion = \"4.5.6\"\n";
    let b = "[[package]]\nname = \"local_dep\"\nversion = \"4.5.6\"\n\n\
             [[package]]\nname = \"dep_of_dep\"\nversion = \"7.8.9\"\n\n\
             [[package]]\nname = \"normal_dep\"\nversion = \"1.2.3\"\n";
    let da = parse_dependencies(a).unwrap();
    let db = parse_dependencies(b).unwrap();
    assert_eq!(da, db);
    assert_eq!(da,
               vec![("dep_of_dep".to_owned(), "7.8.9".to_owned()),
                    ("local_dep".to_owned(), "4.5.6".to_owned()),
                    ("normal_dep".to_owned(), "1.2.3".to_owned())]);
}

#[test]
fn parse_deps_missing_version_fails() {
    let doc = "[[package]]\nname = \"normal_dep\"\nversion = \"1.2.3\"\n\n\
               [[package]]\nname = \"local_dep\"\n";
    assert_eq!(parse_dependencies(doc), Err(LockError::MissingField));
}

#[test]
fn parse_deps_missing_name_fails() {
    let doc = "[[package]]\nversion = \"1.2.3\"\n";
    assert_eq!(parse_dependencies(doc), Err(LockError::MissingField));
}

#[test]
fn parse_deps_non_string_version_fails() {
    let doc = "[[package]]\nname = \"a\"\nversion = 3\n";
    assert_eq!(parse_dependencies(doc), Err(LockError::MissingField));
}

#[test]
fn parse_deps_invalid_document() {
    assert_eq!(parse_dependencies("[[package]\nname = "), Err(LockError::InvalidDocument));
}

#[test]
fn parse_deps_without_package_list() {
    assert_eq!(parse_dependencies("[root]\nname = \"x\"\n"), Err(LockError::MissingPackageList));
    assert_eq!(parse_dependencies("package = 5\n"), Err(LockError::MissingPackageList));
}

#[test]
fn parse_deps_duplicates_once_and_versions_ordered() {
    let doc = "[[package]]\nname = \"b\"\nversion = \"2.0.0\"\n\n\
               [[package]]\nname = \"a\"\nversion = \"1.0.0\"\n\n\
               [[package]]\nname = \"b\"\nversion = \"1.0.0\"\n\n\
               [[package]]\nname = \"a\"\nversion = \"1.0.0\"\n";
    assert_eq!(parse_dependencies(doc).unwrap(),
               vec![("a".to_owned(), "1.0.0".to_owned()),
                    ("b".to_owned(), "1.0.0".to_owned()),
                    ("b".to_owned(), "2.0.0".to_owned())]);
}

#[test]
fn parse_deps_empty_package_list() {
    assert_eq!(parse_dependencies("package = []\n").unwrap(), Vec::<(String, String)>::new());
}

fn pkg(name: Option<&str>, version: Option<&str>) -> LockPackage {
    LockPackage { name: name.map(|s| s.to_owned()), version: version.map(|s| s.to_owned()) }
}

#[test]
fn collect_sorts_by_name_then_version() {
    let ps = vec![pkg(Some("zeta"), Some("0.1")),
                  pkg(Some("alpha"), Some("0.2")),
                  pkg(Some("alpha"), Some("0.10")),
                  pkg(Some("Beta"), Some("1"))];
    assert_eq!(collect_dependencies(&ps).unwrap(),
               vec![("Beta".to_owned(), "1".to_owned()),
                    ("alpha".to_owned(), "0.10".to_owned()),
                    ("alpha".to_owned(), "0.2".to_owned()),
                    ("zeta".to_owned(), "0.1".to_owned())]);
}

#[test]
fn collect_fails_on_incomplete_entry() {
    let ps = vec![pkg(Some("a"), Some("1")), pkg(None, Some("2"))];
    assert_eq!(collect_dependencies(&ps), Err(LockError::MissingField));
}

#[test]
fn parse_deps_non_table_items_fail() {
    assert_eq!(parse_dependencies("package = [1, 2]\n"), Err(LockError::MissingField));
}
