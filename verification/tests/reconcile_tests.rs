use pgmt::filter_out_and_verify_previous_migrations;
use pgmt::Error;
use pgmt::SchemaHistoryRow;
use pgmt::SqlFile;
use pgmt::SqlInnerFile;

fn migration(name: &str, content: &str) -> SqlInnerFile {
    SqlInnerFile::from(SqlFile {
        content: content.to_string(),
        file_name: name.to_string(),
        file_path: format!("migrations/{}", name),
    })
}

fn row(rank: i32, script: &str, checksum: i32) -> SchemaHistoryRow {
    SchemaHistoryRow {
        installed_rank: rank,
        version: Some("1.0.0".to_string()),
        description: "m".to_string(),
        kind: "V".to_string(),
        script: script.to_string(),
        checksum,
        installed_by: "installed_by".to_string(),
        installed_on_micros: 0,
        execution_time: 0,
        success: true,
    }
}

#[test]
fn returns_the_unapplied_suffix() {
    let a = migration("V1.0.0__a.sql", "A");
    let b = migration("V1.1.0__b.sql", "B");
    let c = migration("V1.2.0__c.sql", "C");
    let history = vec![row(1, "V1.0.0__a.sql", a.checksum)];
    let rest =
        filter_out_and_verify_previous_migrations(vec![a, b, c], &history).unwrap();
    let names: Vec<&str> = rest.iter().map(|f| f.file_name.as_str()).collect();
    assert_eq!(names, vec!["V1.1.0__b.sql", "V1.2.0__c.sql"]);
}

#[test]
fn empty_history_returns_everything() {
    let a = migration("V1.0.0__a.sql", "A");
    let rest = filter_out_and_verify_previous_migrations(vec![a], &Vec::new()).unwrap();
    assert_eq!(rest.len(), 1);
}

#[test]
fn checksum_mismatch_names_the_file_and_both_checksums() {
    let a = migration("V1.0.0__m.sql", "B");
    let stored = crc32fast::hash(b"A") as i32;
    let history = vec![row(1, "V1.0.0__m.sql", stored)];
    let file_checksum = a.checksum;
    let res = filter_out_and_verify_previous_migrations(vec![a], &history);
    match res {
        Err(Error::ChecksumMismatchError(e)) => {
            assert_eq!(e.file_name, "V1.0.0__m.sql");
            assert_eq!(e.file_checksum, file_checksum);
            assert_eq!(e.applied_checksum, stored);
        }
        _ => panic!("expected a checksum mismatch"),
    }
}

#[test]
fn mismatch_is_reported_at_the_first_divergence() {
    let a = migration("V1.0.0__a.sql", "A");
    let b = migration("V1.1.0__b.sql", "B");
    let history = vec![
        row(1, "V1.0.0__a.sql", a.checksum),
        row(2, "V1.1.0__b.sql", a.checksum),
    ];
    let res = filter_out_and_verify_previous_migrations(vec![a, b], &history);
    match res {
        Err(Error::ChecksumMismatchError(e)) => assert_eq!(e.file_name, "V1.1.0__b.sql"),
        _ => panic!("expected a checksum mismatch"),
    }
}

#[test]
fn extra_history_rows_are_tolerated() {
    let a = migration("V1.0.0__a.sql", "A");
    let history = vec![
        row(1, "V1.0.0__a.sql", a.checksum),
        row(2, "V1.1.0__gone.sql", 123),
    ];
    let rest = filter_out_and_verify_previous_migrations(vec![a], &history).unwrap();
    assert_eq!(rest.len(), 0);
}
