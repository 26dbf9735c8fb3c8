use base64::Engine;
use colgrep_cloud::auth::{
    bytes_equal, draw_salt, salt_from_bytes, hash_password, key_matches, salted_key, verify_decoded,
    verify_password, HASH_LEN, PBKDF2_ITERATIONS, SALT_LEN,
};

fn reference_hash(password: &str, salt: &[u8; 16]) -> String {
    let mut key = [0u8; 32];
    pbkdf2::pbkdf2_hmac::<sha2::Sha256>(password.as_bytes(), salt, 100_000, &mut key);
    let mut all = salt.to_vec();
    all.extend_from_slice(&key);
    base64::engine::general_purpose::STANDARD.encode(all)
}

#[test]
fn constants_match_the_scheme() {
    assert_eq!(SALT_LEN, 16);
    assert_eq!(HASH_LEN, 32);
    assert_eq!(PBKDF2_ITERATIONS, 100_000);
}

#[test]
fn hash_then_verify_succeeds() {
    let salt = [7u8; 16];
    let stored = hash_password("correct horse", &salt);
    assert_eq!(verify_password("correct horse", &stored), Ok(true));
}

#[test]
fn wrong_password_is_refused() {
    let salt = [1u8; 16];
    let stored = hash_password("correct horse", &salt);
    assert_eq!(verify_password("correct hors", &stored), Ok(false));
    assert_eq!(verify_password("", &stored), Ok(false));
}

#[test]
fn hash_matches_direct_computation() {
    let salt: [u8; 16] = [0, 1, 2, 3, 4, 5, 6, 7, 8, 9, 10, 11, 12, 13, 14, 15];
    assert_eq!(hash_password("pässwörd", &salt), reference_hash("pässwörd", &salt));
}

#[test]
fn stored_hash_is_salt_then_key() {
    let salt = [9u8; 16];
    let stored = hash_password("secret-password", &salt);
    let decoded = base64::engine::general_purpose::STANDARD.decode(&stored).unwrap();
    assert_eq!(decoded.len(), 48);
    assert_eq!(&decoded[..16], &salt);
    // 48 bytes encode to 64 characters without padding
    assert_eq!(stored.len(), 64);
}

#[test]
fn different_salts_give_different_hashes() {
    let a = hash_password("same", &[1u8; 16]);
    let b = hash_password("same", &[2u8; 16]);
    assert_ne!(a, b);
}

#[test]
fn undecodable_stored_hash_is_an_error() {
    assert_eq!(
        verify_password("anything", "not base64!!"),
        Err("Invalid stored hash".to_string())
    );
}

#[test]
fn stored_hash_of_wrong_length_is_refused() {
    // ten zero bytes
    assert_eq!(verify_password("anything", "AAAAAAAAAAAAAA=="), Ok(false));
    assert_eq!(verify_password("anything", ""), Ok(false));
}

#[test]
fn key_checks() {
    let salt = [3u8; 16];
    let key = [4u8; 32];
    let joined = salted_key(&salt, &key);
    assert_eq!(joined.len(), 48);
    assert!(key_matches(&joined, &key));
    assert!(!key_matches(&joined, &[5u8; 32]));
    assert!(!key_matches(&joined[..47], &key));
    assert!(bytes_equal(&[1, 2, 3], &[1, 2, 3]));
    assert!(!bytes_equal(&[1, 2, 3], &[1, 2]));
    assert!(!bytes_equal(&[1, 2, 3], &[1, 2, 4]));
}

#[test]
fn verify_decoded_checks_the_key() {
    let salt = [8u8; 16];
    let stored = hash_password("hunter22", &salt);
    let decoded = base64::engine::general_purpose::STANDARD.decode(&stored).unwrap();
    assert!(verify_decoded("hunter22", &decoded));
    assert!(!verify_decoded("hunter23", &decoded));
    assert!(!verify_decoded("hunter22", &decoded[..40]));
}

#[test]
fn salts_are_fresh() {
    let a = draw_salt().unwrap();
    let b = draw_salt().unwrap();
    assert_eq!(a.len(), 16);
    assert_ne!(a, b);
}

#[test]
fn salt_from_drawn_bytes() {
    let bytes: Vec<u8> = (0u8..16).collect();
    assert_eq!(salt_from_bytes(&bytes).to_vec(), bytes);
}
