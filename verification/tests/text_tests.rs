use colgrep_cloud::text::{chars_of, concat_str, contains, numeral_string, string_of, strip_prefix};

#[test]
fn chars_round_trip() {
    let s = "héllo wörld";
    let cs = chars_of(s);
    assert_eq!(cs, s.chars().collect::<Vec<_>>());
    assert_eq!(string_of(&cs), s);
    assert_eq!(string_of(&[]), "");
}

#[test]
fn concatenation() {
    assert_eq!(concat_str("ab", "cd"), "abcd");
    assert_eq!(concat_str("", "x"), "x");
}

#[test]
fn substring_search() {
    let h = chars_of("fn main() {}");
    assert!(contains(&h, &chars_of("main")));
    assert!(contains(&h, &chars_of("")));
    assert!(contains(&h, &chars_of("{}")));
    assert!(!contains(&h, &chars_of("mian")));
    assert!(!contains(&chars_of("ab"), &chars_of("abc")));
    assert!(contains(&chars_of("aab"), &chars_of("ab")));
}

#[test]
fn prefixes() {
    assert_eq!(strip_prefix("Bearer abc", "Bearer "), Some("abc".to_string()));
    assert_eq!(strip_prefix("Bearer ", "Bearer "), Some(String::new()));
    assert_eq!(strip_prefix("bearer abc", "Bearer "), None);
    assert_eq!(strip_prefix("Bear", "Bearer "), None);
}

#[test]
fn numerals() {
    assert_eq!(numeral_string(0, 10), "0");
    assert_eq!(numeral_string(503, 10), "503");
    assert_eq!(numeral_string(65535, 16), "ffff");
    assert_eq!(numeral_string(5, 2), "101");
}
