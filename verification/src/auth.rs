//! Password hashing with PBKDF2-SHA256 and a random salt.

use vstd::prelude::*;
use vstd::utf8::encode_utf8;
use crate::codec::{
    base64_standard, base64_standard_decoded, decode_base64, encode_base64, pbkdf2_hmac_sha256,
    pbkdf2_sha256_32, random_bytes,
};

verus! {

/// Bytes of salt in a stored hash.
pub const SALT_LEN: usize = 16;

/// PBKDF2 rounds.
pub const PBKDF2_ITERATIONS: u32 = 100_000;

/// Bytes of derived key in a stored hash.
pub const HASH_LEN: usize = 32;

/// The key derived from a password (by its UTF-8 bytes) and a salt.
pub open spec fn derived_key(password: Seq<char>, salt: Seq<u8>) -> Seq<u8> {
    pbkdf2_hmac_sha256(encode_utf8(password), salt, PBKDF2_ITERATIONS)
}

/// The bytes a stored hash encodes: the salt, then the derived key.
pub open spec fn stored_hash_bytes(password: Seq<char>, salt: Seq<u8>) -> Seq<u8> {
    salt + derived_key(password, salt)
}

/// The stored hash of a password with a salt: base64 of salt and key.
pub open spec fn hashed_password(password: Seq<char>, salt: Seq<u8>) -> Seq<char> {
    base64_standard(stored_hash_bytes(password, salt))
}

/// Decoded stored-hash bytes that the password matches: the right length,
/// and the key part equals the key derived from the password and the salt
/// part.
pub open spec fn decoded_matches(password: Seq<char>, decoded: Seq<u8>) -> bool {
    &&& decoded.len() == SALT_LEN + HASH_LEN
    &&& decoded.subrange(SALT_LEN as int, (SALT_LEN + HASH_LEN) as int) == derived_key(
        password,
        decoded.subrange(0, SALT_LEN as int),
    )
}

/// The verdict on a password against a stored hash: `None` where the stored
/// hash is not base64, else whether the password matches.
pub open spec fn password_verdict(password: Seq<char>, stored: Seq<char>) -> Option<bool> {
    match base64_standard_decoded(stored) {
        Some(decoded) => Some(decoded_matches(password, decoded)),
        None => None,
    }
}

/// The stored hash of a password is base64 of the salt followed by the
/// PBKDF2-HMAC-SHA256 key of exactly the password's UTF-8 bytes, that salt
/// and `PBKDF2_ITERATIONS` rounds.
pub proof fn law_stored_hash(password: Seq<char>, salt: Seq<u8>)
    ensures
        hashed_password(password, salt) == base64_standard(
            salt + pbkdf2_hmac_sha256(encode_utf8(password), salt, PBKDF2_ITERATIONS),
        ),
{
}

/// A password matches a stored hash that decodes to a 16-byte salt and a
/// 32-byte key exactly when the PBKDF2-HMAC-SHA256 key of the password's
/// own UTF-8 bytes and that salt is that key; a stored hash of another
/// length matches no password, and one that is not base64 gives no verdict.
pub proof fn law_password_verdict(password: Seq<char>, stored: Seq<char>)
    ensures
        base64_standard_decoded(stored) is None ==> password_verdict(password, stored) is None,
        base64_standard_decoded(stored) matches Some(d) ==> password_verdict(password, stored)
            == Some(
            d.len() == 48 && d.subrange(16, 48) == pbkdf2_hmac_sha256(
                encode_utf8(password),
                d.subrange(0, 16),
                PBKDF2_ITERATIONS,
            ),
        ),
{
}

/// Verifying one password against the stored hash of another, under a
/// salt, succeeds exactly when their PBKDF2 keys under that salt agree:
/// a password differing in any way (letter case included) is refused
/// unless the two keys collide.
pub proof fn law_verify_against_hash(
    password: Seq<char>,
    other: Seq<char>,
    salt: Seq<u8>,
    stored: Seq<char>,
)
    requires
        salt.len() == SALT_LEN,
        pbkdf2_hmac_sha256(encode_utf8(password), salt, PBKDF2_ITERATIONS).len() == HASH_LEN,
        base64_standard_decoded(stored) == Some(
            salt + pbkdf2_hmac_sha256(encode_utf8(password), salt, PBKDF2_ITERATIONS),
        ),
    ensures
        password_verdict(other, stored) == Some(
            pbkdf2_hmac_sha256(encode_utf8(other), salt, PBKDF2_ITERATIONS) == pbkdf2_hmac_sha256(
                encode_utf8(password),
                salt,
                PBKDF2_ITERATIONS,
            ),
        ),
{
    let key = pbkdf2_hmac_sha256(encode_utf8(password), salt, PBKDF2_ITERATIONS);
    let d = salt + key;
    assert(d.subrange(0, 16) =~= salt);
    assert(d.subrange(16, 48) =~= key);
}

/// Equality of two byte slices.
pub fn bytes_equal(a: &[u8], b: &[u8]) -> (r: bool)
    ensures
        r == (a@ == b@),
{
    if a.len() != b.len() {
        return false;
    }
    let n = a.len();
    for i in 0..n
        invariant
            n == a@.len(),
            n == b@.len(),
            forall|j: int| 0 <= j < i ==> a@[j] == b@[j],
    {
        if a[i] != b[i] {
            return false;
        }
    }
    assert(a@ =~= b@);
    true
}

/// The salt followed by the derived key.
pub fn salted_key(salt: &[u8], key: &[u8]) -> (r: Vec<u8>)
    ensures
        r@ == salt@ + key@,
{
    let mut r: Vec<u8> = Vec::new();
    r.extend_from_slice(salt);
    r.extend_from_slice(key);
    r
}

/// Whether decoded stored-hash bytes hold the given derived key after their
/// salt (and are exactly salt and key long).
pub fn key_matches(decoded: &[u8], key: &[u8]) -> (r: bool)
    ensures
        r == (decoded@.len() == SALT_LEN + HASH_LEN && decoded@.subrange(
            SALT_LEN as int,
            (SALT_LEN + HASH_LEN) as int,
        ) == key@),
{
    if decoded.len() != SALT_LEN + HASH_LEN {
        return false;
    }
    bytes_equal(&decoded[SALT_LEN..SALT_LEN + HASH_LEN], key)
}

/// Whether decoded stored-hash bytes match the password.
pub fn verify_decoded(password: &str, decoded: &[u8]) -> (r: bool)
    ensures
        r == decoded_matches(password@, decoded@),
        r == (decoded@.len() == 48 && decoded@.subrange(16, 48) == pbkdf2_hmac_sha256(
            encode_utf8(password@),
            decoded@.subrange(0, 16),
            PBKDF2_ITERATIONS,
        )),
{
    if decoded.len() != SALT_LEN + HASH_LEN {
        return false;
    }
    let salt = &decoded[0..SALT_LEN];
    let key = pbkdf2_sha256_32(password.as_bytes(), salt, PBKDF2_ITERATIONS);
    key_matches(decoded, key.as_slice())
}

/// Hash a password with the given salt; the result is base64 of the salt
/// followed by the derived key, and verifying the same password against it
/// succeeds.
pub fn hash_password(password: &str, salt: &[u8; SALT_LEN]) -> (r: String)
    ensures
        r@ == hashed_password(password@, salt@),
        password_verdict(password@, r@) == Some(true),
        base64_standard_decoded(r@) == Some(
            salt@ + pbkdf2_hmac_sha256(encode_utf8(password@), salt@, PBKDF2_ITERATIONS),
        ),
        forall|other: Seq<char>|
            #[trigger] password_verdict(other, r@) == Some(
                pbkdf2_hmac_sha256(encode_utf8(other), salt@, PBKDF2_ITERATIONS)
                    == pbkdf2_hmac_sha256(encode_utf8(password@), salt@, PBKDF2_ITERATIONS),
            ),
{
    let salt_bytes = salt.as_slice();
    let key = pbkdf2_sha256_32(password.as_bytes(), salt_bytes, PBKDF2_ITERATIONS);
    let bytes = salted_key(salt_bytes, key.as_slice());
    let r = encode_base64(bytes.as_slice());
    assert(bytes@.subrange(0, SALT_LEN as int) =~= salt@);
    assert(bytes@.subrange(SALT_LEN as int, (SALT_LEN + HASH_LEN) as int) =~= key@);
    assert forall|other: Seq<char>|
        #[trigger] password_verdict(other, r@) == Some(
            pbkdf2_hmac_sha256(encode_utf8(other), salt@, PBKDF2_ITERATIONS)
                == pbkdf2_hmac_sha256(encode_utf8(password@), salt@, PBKDF2_ITERATIONS),
        ) by {
        law_verify_against_hash(password@, other, salt@, r@);
    }
    r
}

/// Verify a password against a stored hash: an error where the stored hash
/// is not base64, else whether the password matches it.
pub fn verify_password(password: &str, stored: &str) -> (r: Result<bool, String>)
    ensures
        r matches Ok(b) ==> password_verdict(password@, stored@) == Some(b),
        r matches Err(m) ==> password_verdict(password@, stored@) is None && m@
            == "Invalid stored hash"@,
{
    match decode_base64(stored) {
        Ok(decoded) => Ok(verify_decoded(password, decoded.as_slice())),
        Err(_) => Err("Invalid stored hash".to_owned()),
    }
}

/// The salt made of drawn bytes.
pub fn salt_from_bytes(bytes: &[u8]) -> (r: [u8; SALT_LEN])
    requires
        bytes@.len() == SALT_LEN,
    ensures
        r@ == bytes@,
{
    let mut salt = [0u8; SALT_LEN];
    for i in 0..SALT_LEN
        invariant
            bytes@.len() == SALT_LEN,
            salt@.len() == SALT_LEN,
            forall|j: int| 0 <= j < i ==> salt@[j] == bytes@[j],
    {
        salt[i] = bytes[i];
    }
    assert(salt@ =~= bytes@);
    salt
}

/// A fresh random salt: `SALT_LEN` bytes from the system's random source,
/// or its error.  The bytes are random; which ones, and whether the source
/// fails, the contract leaves open.
pub fn draw_salt() -> (r: Result<[u8; SALT_LEN], getrandom::Error>)
{
    match random_bytes(SALT_LEN) {
        Ok(v) => Ok(salt_from_bytes(v.as_slice())),
        Err(e) => Err(e),
    }
}

} // verus!
