use pgmt::checksum::content_checksum;
use pgmt::checksum::normalize_line_endings;
use pgmt::checksum::u32_as_i32;

#[test]
fn normalizes_crlf_to_lf() {
    assert_eq!(normalize_line_endings("a\r\nb\r\nc"), "a\nb\nc");
    assert_eq!(normalize_line_endings("no endings"), "no endings");
    assert_eq!(normalize_line_endings(""), "");
    // A lone CR is not an ending and passes through.
    assert_eq!(normalize_line_endings("a\rb"), "a\rb");
}

#[test]
fn checksum_matches_crc32_of_lf_content() {
    // CRC32 of the LF-normalized bytes, reinterpreted as signed.
    assert_eq!(content_checksum("hello"), 907060870);
    assert_eq!(content_checksum("CREATE TABLE table_1 (id INT);\n"), 692943017);
    assert_eq!(content_checksum("A"), -740712821);
    assert_eq!(content_checksum("B"), 1255198513);
}

#[test]
fn checksum_agrees_with_crc32fast() {
    let content = "SELECT 1;\n";
    let expected = crc32fast::hash(content.as_bytes()) as i32;
    assert_eq!(content_checksum(content), expected);
    assert_eq!(content_checksum(content), 1343138175);
}

#[test]
fn crlf_and_lf_content_have_equal_checksums() {
    let with_crlf = "CREATE TABLE t (\r\n  id INT\r\n);\r\n";
    let with_lf = "CREATE TABLE t (\n  id INT\n);\n";
    assert_eq!(content_checksum(with_crlf), content_checksum(with_lf));
    assert_eq!(content_checksum(with_crlf), content_checksum(&normalize_line_endings(with_crlf)));
}

#[test]
fn signed_reinterpretation_of_u32() {
    assert_eq!(u32_as_i32(0), 0);
    assert_eq!(u32_as_i32(0x7fff_ffff), i32::MAX);
    assert_eq!(u32_as_i32(0x8000_0000), i32::MIN);
    assert_eq!(u32_as_i32(0xffff_ffff), -1);
    assert_eq!(u32_as_i32(0xf261_4b5f), -228504737);
}
