use pgmt::ChecksumMismatchError;
use pgmt::Error;

#[test]
fn message_error_renders_its_text() {
    let e = Error::Message("something broke".to_string());
    assert_eq!(e.to_string(), r#"Message("something broke")"#);
}

#[test]
fn database_error_renders_its_text() {
    let e = Error::Database("duplicate table".to_string());
    assert_eq!(e.to_string(), r#"Database("duplicate table")"#);
}

#[test]
fn checksum_mismatch_renders_both_checksums() {
    let e = Error::ChecksumMismatchError(ChecksumMismatchError {
        file_name: "V1.0.0__m.sql".to_string(),
        file_checksum: -228401567,
        applied_checksum: 42,
    });
    assert_eq!(
        e.to_string(),
        r#"ChecksumMismatchError(ChecksumMismatchError { file_name: "V1.0.0__m.sql", file_checksum: -228401567, applied_checksum: 42 })"#
    );
}

#[test]
fn decimal_rendering_covers_the_extremes() {
    let e = Error::ChecksumMismatchError(ChecksumMismatchError {
        file_name: "f".to_string(),
        file_checksum: i32::MIN,
        applied_checksum: i32::MAX,
    });
    assert_eq!(
        e.to_string(),
        r#"ChecksumMismatchError(ChecksumMismatchError { file_name: "f", file_checksum: -2147483648, applied_checksum: 2147483647 })"#
    );
    let z = Error::ChecksumMismatchError(ChecksumMismatchError {
        file_name: "f".to_string(),
        file_checksum: 0,
        applied_checksum: -1,
    });
    assert_eq!(
        z.to_string(),
        r#"ChecksumMismatchError(ChecksumMismatchError { file_name: "f", file_checksum: 0, applied_checksum: -1 })"#
    );
}
