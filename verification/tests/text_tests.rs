use hhgoa_face_chain::digest::sha256_hex;
use hhgoa_face_chain::text::{chars_of, str_contains, trim_str};

#[test]
fn trimming_and_searching() {
    assert_eq!(trim_str("\t a b \u{3000}\n"), "a b");
    assert_eq!(trim_str("   "), "");
    assert!(str_contains("hello world", "o w"));
    assert!(str_contains("abc", ""));
    assert!(!str_contains("abc", "abcd"));
    assert_eq!(chars_of("añb"), vec!['a', 'ñ', 'b']);
}

#[test]
fn sha256_hex_of_empty_input() {
    assert_eq!(sha256_hex(b""), "e3b0c44298fc1c149afbf4c8996fb92427ae41e4649b934ca495991b7852b855");
}
