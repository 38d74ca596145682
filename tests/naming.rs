use chunked_upload::naming::{
    belongs_to_upload, chunk_file_name, decimal_text, is_valid_upload_id, parse_chunk_name,
};

#[test]
fn chunk_name_format() {
    assert_eq!(chunk_file_name("abc", 2), "(abc)-2");
    assert_eq!(chunk_file_name("abc", 0), "(abc)-0");
    assert_eq!(chunk_file_name("x y", 4294967295), "(x y)-4294967295");
    assert_eq!(chunk_file_name("", 17), "()-17");
}

#[test]
fn decimal_text_values() {
    assert_eq!(decimal_text(0), "0");
    assert_eq!(decimal_text(7), "7");
    assert_eq!(decimal_text(10), "10");
    assert_eq!(decimal_text(1234), "1234");
    assert_eq!(decimal_text(u64::MAX), "18446744073709551615");
}

#[test]
fn parse_round_trip() {
    for n in [0u32, 1, 9, 10, 99, 100, 65536, 4294967295] {
        let name = chunk_file_name("abc", n);
        assert_eq!(parse_chunk_name("abc", &name), Some(n));
    }
}

#[test]
fn parse_rejects_non_canonical_names() {
    assert_eq!(parse_chunk_name("abc", "(abc)-"), None);
    assert_eq!(parse_chunk_name("abc", "(abc)-01"), None);
    assert_eq!(parse_chunk_name("abc", "(abc)-+1"), None);
    assert_eq!(parse_chunk_name("abc", "(abc)-1x"), None);
    assert_eq!(parse_chunk_name("abc", "(abc)-4294967296"), None);
    assert_eq!(parse_chunk_name("abc", "(abd)-1"), None);
    assert_eq!(parse_chunk_name("abc", "abc-1"), None);
    assert_eq!(parse_chunk_name("abc", "(abc)-99999999999999999999"), None);
}

#[test]
fn prefix_membership() {
    assert!(belongs_to_upload("abc", "(abc)-1"));
    assert!(belongs_to_upload("abc", "(abc)-junk"));
    assert!(belongs_to_upload("abc", "(abc)-"));
    assert!(!belongs_to_upload("abc", "(abc)"));
    assert!(!belongs_to_upload("abc", "(abcd)-1"));
    assert!(!belongs_to_upload("abc", "(ab)-1"));
    assert!(!belongs_to_upload("abc", "other"));
}

#[test]
fn upload_id_validity() {
    assert!(is_valid_upload_id("abc"));
    assert!(is_valid_upload_id("a)b-c"));
    assert!(is_valid_upload_id(""));
    assert!(!is_valid_upload_id("abc)-"));
    assert!(!is_valid_upload_id("a)-b"));
    assert!(!is_valid_upload_id(")-"));
}

#[test]
fn valid_ids_keep_their_parts_apart() {
    for (id, other) in [("a", "a)"), ("a", "ab"), ("ab", "a"), ("a)", "a"), ("x", "")] {
        assert!(is_valid_upload_id(id) && is_valid_upload_id(other));
        assert!(!belongs_to_upload(id, &chunk_file_name(other, 1)));
    }
    assert!(belongs_to_upload("a", &chunk_file_name("a)-b", 1)));
    assert!(!is_valid_upload_id("a)-b"));
}
