//! The calls into the encoding, key-derivation and randomness crates.

use vstd::prelude::*;
use base64::Engine;

verus! {

/// `base64::DecodeError`, carried through unchanged.
#[verifier::external_type_specification]
#[verifier::external_body]
pub struct ExDecodeError(base64::DecodeError);

/// `getrandom::Error`, carried through unchanged.
#[verifier::external_type_specification]
#[verifier::external_body]
pub struct ExRandomError(getrandom::Error);

/// The text that the standard base64 engine (RFC 4648 alphabet, with
/// padding) makes of the given bytes.
pub uninterp spec fn base64_standard(bytes: Seq<u8>) -> Seq<char>;

/// What the standard base64 engine decodes from the given text: the bytes,
/// or nothing where the text is not canonical padded base64.
pub uninterp spec fn base64_standard_decoded(text: Seq<char>) -> Option<Seq<u8>>;

/// PBKDF2 with HMAC-SHA256 over the password bytes and salt, with the given
/// number of rounds, into a 32-byte buffer.
pub uninterp spec fn pbkdf2_hmac_sha256(password: Seq<u8>, salt: Seq<u8>, rounds: u32) -> Seq<u8>;

/// `base64::engine::general_purpose::STANDARD.encode`.  The contract names
/// the result and states what the crate documents of it: decoding it with
/// the same engine gives back the input.  The length bound keeps out the
/// inputs on which computing the output size overflows and the call panics.
#[verifier::external_body]
pub(crate) fn encode_base64(bytes: &[u8]) -> (r: String)
    requires
        bytes@.len() <= usize::MAX / 2,
    ensures
        r@ == base64_standard(bytes@),
        base64_standard_decoded(r@) == Some(bytes@),
{
    base64::engine::general_purpose::STANDARD.encode(bytes)
}

/// `base64::engine::general_purpose::STANDARD.decode` on the bytes of the
/// text.  The contract ties the outcome to the named decoding; which
/// `DecodeError` variant comes back is left unsaid.
#[verifier::external_body]
pub(crate) fn decode_base64(text: &str) -> (r: Result<Vec<u8>, base64::DecodeError>)
    ensures
        r matches Ok(v) ==> base64_standard_decoded(text@) == Some(v@),
        r is Err ==> base64_standard_decoded(text@) is None,
{
    base64::engine::general_purpose::STANDARD.decode(text)
}

/// `pbkdf2::pbkdf2_hmac::<sha2::Sha256>` into a 32-byte buffer.  The
/// contract names the derived key and states that it fills the buffer.
#[verifier::external_body]
pub(crate) fn pbkdf2_sha256_32(password: &[u8], salt: &[u8], rounds: u32) -> (r: Vec<u8>)
    ensures
        r@ == pbkdf2_hmac_sha256(password@, salt@, rounds),
        r@.len() == 32,
{
    let mut out = [0u8; 32];
    pbkdf2::pbkdf2_hmac::<sha2::Sha256>(password, salt, rounds, &mut out);
    out.to_vec()
}

/// `getrandom::getrandom` into a fresh buffer of `len` bytes.  The bytes
/// are random; the contract states only their number.
#[verifier::external_body]
pub(crate) fn random_bytes(len: usize) -> (r: Result<Vec<u8>, getrandom::Error>)
    ensures
        r matches Ok(v) ==> v@.len() == len,
{
    let mut buf = vec![0u8; len];
    getrandom::getrandom(&mut buf).map(|()| buf)
}

} // verus!
