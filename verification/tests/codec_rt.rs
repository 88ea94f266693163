use linkvault::codec::{decode_fields, encode_fields, parse_dec_from, u64_to_dec};
use linkvault::database::{decode_entry, encode_entry, FileInfo};

#[test]
fn u64_to_dec_exact() {
    assert_eq!(u64_to_dec(0), "0");
    assert_eq!(u64_to_dec(7), "7");
    assert_eq!(u64_to_dec(10), "10");
    assert_eq!(u64_to_dec(90210), "90210");
    assert_eq!(u64_to_dec(u64::MAX), "18446744073709551615");
}

#[test]
fn parse_dec_reads_number_and_position() {
    assert_eq!(parse_dec_from("123\nrest", 0), Some((123, 4)));
    assert_eq!(parse_dec_from("0\n", 0), Some((0, 2)));
    assert_eq!(parse_dec_from("xx12\n", 2), Some((12, 5)));
    assert_eq!(parse_dec_from("12", 0), None);
    assert_eq!(parse_dec_from("a\n", 0), None);
    // A value beyond u64 is rejected rather than wrapped.
    assert_eq!(parse_dec_from("18446744073709551616\n", 0), None);
    assert_eq!(parse_dec_from("18446744073709551615\n", 0), Some((u64::MAX, 21)));
}

#[test]
fn encode_fields_exact_text() {
    let e = encode_fields(7, "File", "/a", "/b/c");
    assert_eq!(e, "7\n4\nFile2\n/a4\n/b/c");
}

#[test]
fn decode_inverts_encode() {
    let e = encode_fields(42, "Dir", "/data/x", "/out/x");
    assert_eq!(
        decode_fields(&e),
        Some((42, "Dir".to_string(), "/data/x".to_string(), "/out/x".to_string()))
    );
}

#[test]
fn decode_inverts_encode_with_hostile_fields() {
    // Fields holding newlines and digits must survive because of the length
    // prefixes.
    let e = encode_fields(9, "12\n34", "a\nb\nc", "");
    assert_eq!(
        decode_fields(&e),
        Some((9, "12\n34".to_string(), "a\nb\nc".to_string(), "".to_string()))
    );
}

#[test]
fn decode_rejects_garbage() {
    assert_eq!(decode_fields(""), None);
    assert_eq!(decode_fields("not an entry"), None);
    assert_eq!(decode_fields("7\n4\nFile"), None);
    // Trailing text beyond the last declared length is refused.
    assert_eq!(decode_fields("7\n4\nFile2\n/a4\n/b/cEXTRA"), None);
}

#[test]
fn entry_codec_round_trip() {
    let fi = FileInfo::new(
        12345678,
        "File".to_string(),
        "/data/a.txt".to_string(),
        "/out/a.txt".to_string(),
    );
    let text = encode_entry(&fi);
    let back = decode_entry(&text).expect("entry must decode");
    assert_eq!(back.id, 12345678);
    assert_eq!(back.type_, "File");
    assert_eq!(back.source, "/data/a.txt");
    assert_eq!(back.target, "/out/a.txt");
}
