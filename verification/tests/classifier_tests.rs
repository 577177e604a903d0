use pgmt::classify;
use pgmt::files::has_sql_extension;
use pgmt::parse_version;
use pgmt::sort_sql_files;
use pgmt::SqlFile;
use pgmt::SqlFileKind;
use pgmt::SqlInnerFile;
use pgmt::Version;

fn file(name: &str, content: &str) -> SqlFile {
    SqlFile {
        content: content.to_string(),
        file_name: name.to_string(),
        file_path: format!("migrations/{}", name),
    }
}

#[test]
fn classifies_a_forward_migration() {
    let f = SqlInnerFile::from(file("V1.0.0__migration.sql", "CREATE TABLE table_1 (id INT);\n"));
    assert_eq!(f.prefix, "V");
    assert_eq!(f.version.as_deref(), Some("1.0.0"));
    assert_eq!(f.description, "migration.sql");
    assert_eq!(f.file_name, "V1.0.0__migration.sql");
    assert_eq!(f.checksum, 692943017);
    assert!(matches!(f.kind(), Some(SqlFileKind::V(Version { major: 1, minor: 0, patch: 0 }))));
}

#[test]
fn classifies_an_undo_migration() {
    let f = SqlInnerFile::from(file("U2.1.3__Drop_table_1_name.sql", "DROP TABLE t;"));
    assert_eq!(f.prefix, "U");
    assert_eq!(f.version.as_deref(), Some("2.1.3"));
    assert_eq!(f.description, "Drop table 1 name.sql");
    assert!(matches!(f.kind(), Some(SqlFileKind::U(Version { major: 2, minor: 1, patch: 3 }))));
}

#[test]
fn classifies_a_repeatable_migration() {
    let f = SqlInnerFile::from(file("R__seed.sql", "INSERT INTO t VALUES (1);"));
    assert_eq!(f.prefix, "R");
    assert_eq!(f.version, None);
    assert_eq!(f.description, "seed.sql");
    match f.kind() {
        Some(SqlFileKind::R(name)) => assert_eq!(name, "R__seed.sql"),
        _ => panic!("expected a repeatable kind"),
    }
}

#[test]
fn classification_normalizes_content() {
    let f = SqlInnerFile::from(file("V1.0.0__x.sql", "a\r\nb"));
    assert_eq!(f.content, "a\nb");
    assert_eq!(f.checksum, -284716805);
}

#[test]
fn unknown_prefix_is_unclassifiable() {
    assert!(classify(file("notes.txt", "x")).is_none());
    assert!(classify(file("", "x")).is_none());
    assert!(classify(file("V1.0.0__a.sql", "x")).is_some());
}

#[test]
fn unparsable_version_is_unsortable() {
    let f = SqlInnerFile::from(file("Vabc__x.sql", "x"));
    assert!(f.kind().is_none());
    let f = SqlInnerFile::from(file("V1.0__x.sql", "x"));
    assert!(f.kind().is_none());
}

#[test]
fn version_parsing_follows_the_grammar() {
    assert_eq!(parse_version("1.0.0"), Some(Version { major: 1, minor: 0, patch: 0 }));
    assert_eq!(parse_version("10.20.30"), Some(Version { major: 10, minor: 20, patch: 30 }));
    assert_eq!(parse_version("1.0"), None);
    assert_eq!(parse_version("1.0.01"), None);
    assert_eq!(parse_version("x.y.z"), None);
    // The file-name grammar admits plain MAJOR.MINOR.PATCH only.
    assert_eq!(parse_version("1.0.0-alpha"), None);
}

#[test]
fn sorts_by_kind_then_version() {
    let names = [
        "R__seed.sql",
        "V1.0.10__j.sql",
        "U1.0.0__u.sql",
        "V1.0.9__i.sql",
        "V0.2.0__a.sql",
        "whatever.sql",
        "R__apples.sql",
    ];
    let files: Vec<SqlInnerFile> = names
        .iter()
        .map(|n| SqlInnerFile::from(file(n, "x")))
        .collect();
    let sorted = sort_sql_files(files);
    let got: Vec<&str> = sorted.iter().map(|f| f.file_name.as_str()).collect();
    // U before V before R; within V by version (1.0.9 < 1.0.10); within R by
    // name; an unsortable name last.
    assert_eq!(
        got,
        vec![
            "U1.0.0__u.sql",
            "V0.2.0__a.sql",
            "V1.0.9__i.sql",
            "V1.0.10__j.sql",
            "R__apples.sql",
            "R__seed.sql",
            "whatever.sql",
        ]
    );
}

#[test]
fn sql_extension_is_case_insensitive() {
    assert!(has_sql_extension("V1.0.0__a.sql"));
    assert!(has_sql_extension("V1.0.0__a.SQL"));
    assert!(has_sql_extension("V1.0.0__a.sQl"));
    assert!(!has_sql_extension("V1.0.0__a.sqlx"));
    assert!(!has_sql_extension("V1.0.0__a.txt"));
    assert!(!has_sql_extension("sql"));
    assert!(!has_sql_extension(".sql"));
    assert!(!has_sql_extension("a.sql.bak"));
}

#[test]
fn equal_versions_are_both_kept() {
    let a = SqlInnerFile::from(file("V1.0.0__a.sql", "A"));
    let b = SqlInnerFile::from(file("V1.0.0__b.sql", "B"));
    let sorted = sort_sql_files(vec![a, b]);
    assert_eq!(sorted.len(), 2);
    assert!(sorted.iter().all(|f| f.version.as_deref() == Some("1.0.0")));
}
