use colgrep_cloud::storage::{
    generate_id, generate_token, id_from_nanos, rows_removed, storage_key, token_from_bytes,
    url_safe_token,
    CodebaseRow, TOKEN_BYTES,
};

#[test]
fn ids_are_lowercase_hex() {
    assert_eq!(id_from_nanos(0), "0");
    assert_eq!(id_from_nanos(9), "9");
    assert_eq!(id_from_nanos(10), "a");
    assert_eq!(id_from_nanos(255), "ff");
    assert_eq!(id_from_nanos(256), "100");
    assert_eq!(id_from_nanos(0x1234_abcd), "1234abcd");
    assert_eq!(id_from_nanos(u128::MAX), "f".repeat(32));
    let t: u128 = 1_732_000_000_123_456_789;
    assert_eq!(id_from_nanos(t), format!("{:x}", t));
}

#[test]
fn generated_ids_are_hex_numerals() {
    let id = generate_id().unwrap();
    assert!(!id.is_empty());
    assert!(id.chars().all(|c| c.is_ascii_hexdigit() && !c.is_ascii_uppercase()));
    assert!(!id.starts_with('0'));
}

#[test]
fn tokens_are_url_safe() {
    assert_eq!(url_safe_token("ab/+c=="), "ab_-c");
    assert_eq!(url_safe_token("===="), "");
    assert_eq!(url_safe_token("a=b="), "a=b");
    assert_eq!(url_safe_token("++//"), "--__");
    assert_eq!(url_safe_token(""), "");
}

#[test]
fn generated_tokens() {
    assert_eq!(TOKEN_BYTES, 24);
    let t = generate_token().unwrap();
    assert_eq!(t.len(), 32);
    assert!(!t.contains('/') && !t.contains('+') && !t.contains('='));
    assert_ne!(t, generate_token().unwrap());
}

#[test]
fn index_keys() {
    assert_eq!(storage_key("u1", "c2"), "u1/c2");
    assert_eq!(storage_key("", ""), "/");
}

#[test]
fn deleted_rows() {
    assert!(rows_removed(Some(1)));
    assert!(rows_removed(Some(3)));
    assert!(!rows_removed(Some(0)));
    assert!(!rows_removed(None));
}

fn row(file_count: i64, code_unit_count: i64) -> CodebaseRow {
    CodebaseRow {
        id: "id1".to_string(),
        name: "demo".to_string(),
        root_path: "/src".to_string(),
        file_count,
        code_unit_count,
        last_indexed: Some("2024-01-01".to_string()),
        created_at: "2023-12-31".to_string(),
    }
}

#[test]
fn rows_become_responses() {
    let r = row(3, 12).to_response();
    assert_eq!(r.id, "id1");
    assert_eq!(r.name, "demo");
    assert_eq!(r.root_path, "/src");
    assert_eq!(r.file_count, 3);
    assert_eq!(r.code_unit_count, 12);
    assert_eq!(r.last_indexed, Some("2024-01-01".to_string()));
    assert_eq!(r.created_at, "2023-12-31");
}

#[test]
fn counts_keep_low_bits() {
    let r = row(-1, 4_294_967_297).to_response();
    assert_eq!(r.file_count, u32::MAX);
    assert_eq!(r.code_unit_count, 1);
}

#[test]
fn distinct_readings_give_distinct_ids() {
    assert_ne!(id_from_nanos(1), id_from_nanos(16));
    assert_ne!(id_from_nanos(0x10), id_from_nanos(0x100));
    assert!(!id_from_nanos(u128::MAX).contains('/'));
}

#[test]
fn index_keys_of_different_owners_differ() {
    assert_ne!(storage_key("1a", "2b"), storage_key("1a2", "b"));
    assert_ne!(storage_key("1a", "2b"), storage_key("1b", "2b"));
}

#[test]
fn tokens_from_bytes() {
    assert_eq!(token_from_bytes(&[0xfb, 0xff, 0xbf]), "-_-_");
    assert_eq!(token_from_bytes(&[0]), "AA");
    assert_eq!(token_from_bytes(&[]), "");
    assert_eq!(token_from_bytes(&[0u8; 24]), "A".repeat(32));
}
