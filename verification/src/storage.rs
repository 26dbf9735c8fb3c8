//! Identifiers, session tokens, object keys and stored codebase rows.

use vstd::prelude::*;
use crate::codec::{base64_standard, encode_base64, random_bytes};
use crate::models::CodebaseResponse;
use crate::text::{chars_of, concat_str, lemma_numeral_digits, lemma_numeral_value, numeral, numeral_string, string_of};

verus! {

/// Bytes of randomness in a session token.
pub const TOKEN_BYTES: usize = 24;

/// The lowercase hexadecimal numeral of `n`, without leading zeros
/// (`format!("{:x}", n)`).
pub open spec fn hex_text(n: nat) -> Seq<char> {
    numeral(n, 16)
}

/// Distinct numbers have distinct numerals, so identifiers made from
/// distinct clock readings differ.
pub proof fn lemma_hex_text_injective(a: nat, b: nat)
    requires
        hex_text(a) == hex_text(b),
    ensures
        a == b,
{
    lemma_numeral_value(a, 16);
    lemma_numeral_value(b, 16);
}

/// The identifier for a clock reading in nanoseconds: its lowercase hex
/// numeral.
pub fn id_from_nanos(nanos: u128) -> (r: String)
    ensures
        r@ == hex_text(nanos as nat),
{
    numeral_string(nanos, 16)
}

/// Nanoseconds since the Unix epoch on the system clock
/// (`UNIX_EPOCH.elapsed()`), or `None` where the clock stands before the
/// epoch.  The reading depends on the time; nothing is stated of it.
#[verifier::external_body]
fn clock_nanos() -> (r: Option<u128>) {
    std::time::UNIX_EPOCH.elapsed().ok().map(|d| d.as_nanos())
}

/// A new identifier from the clock: the hex numeral of the nanoseconds
/// since the epoch; `None` where the clock stands before the epoch.
pub fn generate_id() -> (r: Option<String>)
    ensures
        r matches Some(id) ==> exists|t: u128| id@ == hex_text(t as nat),
{
    match clock_nanos() {
        Some(t) => Some(id_from_nanos(t)),
        None => None,
    }
}

/// `s` without the run of `c` at its end.
pub open spec fn trim_trailing(s: Seq<char>, c: char) -> Seq<char>
    decreases s.len(),
{
    if s.len() > 0 && s.last() == c {
        trim_trailing(s.drop_last(), c)
    } else {
        s
    }
}

/// The URL-safe stand-in for a base64 character.
pub open spec fn url_safe_char(c: char) -> char {
    if c == '/' {
        '_'
    } else if c == '+' {
        '-'
    } else {
        c
    }
}

/// A session token from base64 text: padding dropped, `/` and `+` replaced
/// by `_` and `-`.
pub open spec fn token_text(encoded: Seq<char>) -> Seq<char> {
    trim_trailing(encoded, '=').map_values(|c: char| url_safe_char(c))
}

/// Trimming leaves a prefix that does not end with the trimmed character.
pub proof fn lemma_trim_trailing(s: Seq<char>, c: char)
    ensures
        trim_trailing(s, c).len() <= s.len(),
        trim_trailing(s, c) == s.take(trim_trailing(s, c).len() as int),
        trim_trailing(s, c).len() > 0 ==> trim_trailing(s, c).last() != c,
    decreases s.len(),
{
    if s.len() > 0 && s.last() == c {
        lemma_trim_trailing(s.drop_last(), c);
        assert(s.drop_last().take(trim_trailing(s, c).len() as int) =~= s.take(
            trim_trailing(s, c).len() as int,
        ));
    } else {
        assert(s.take(s.len() as int) =~= s);
    }
}

/// A token holds no `/`, `+` or trailing `=`: it can stand in a URL or a
/// header as it is.
pub proof fn lemma_token_url_safe(encoded: Seq<char>)
    ensures
        forall|i: int|
            0 <= i < token_text(encoded).len() ==> #[trigger] token_text(encoded)[i] != '/'
                && token_text(encoded)[i] != '+',
        token_text(encoded).len() > 0 ==> token_text(encoded).last() != '=',
{
    lemma_trim_trailing(encoded, '=');
}

/// The session token for base64 text.
pub fn url_safe_token(encoded: &str) -> (r: String)
    ensures
        r@ == token_text(encoded@),
{
    let cs = chars_of(encoded);
    let mut end = cs.len();
    assert(cs@.take(end as int) =~= cs@);
    while end > 0 && cs[end - 1] == '='
        invariant
            end <= cs@.len(),
            trim_trailing(cs@.take(end as int), '=') == trim_trailing(cs@, '='),
        decreases end,
    {
        assert(cs@.take(end as int).drop_last() =~= cs@.take(end - 1));
        end -= 1;
    }
    let ghost kept = cs@.take(end as int);
    assert(trim_trailing(kept, '=') == kept);
    let mut out: Vec<char> = Vec::new();
    for i in 0..end
        invariant
            end <= cs@.len(),
            kept == cs@.take(end as int),
            out@ == kept.take(i as int).map_values(|c: char| url_safe_char(c)),
    {
        let c = cs[i];
        let d = if c == '/' {
            '_'
        } else if c == '+' {
            '-'
        } else {
            c
        };
        out.push(d);
        assert(kept.take(i + 1) =~= kept.take(i as int).push(c));
        assert(out@ =~= kept.take(i + 1).map_values(|c: char| url_safe_char(c)));
    }
    assert(kept.take(end as int) =~= kept);
    assert(cs@.take(cs@.len() as int) =~= cs@);
    string_of(out.as_slice())
}

/// The session token for drawn bytes: their base64, made URL-safe.
pub fn token_from_bytes(bytes: &[u8]) -> (r: String)
    requires
        bytes@.len() <= usize::MAX / 2,
    ensures
        r@ == token_text(base64_standard(bytes@)),
{
    let encoded = encode_base64(bytes);
    url_safe_token(encoded.as_str())
}

/// A new session token: `TOKEN_BYTES` bytes from the system's random
/// source, through `token_from_bytes`; or the source's error.
pub fn generate_token() -> (r: Result<String, getrandom::Error>)
    ensures
        r matches Ok(t) ==> exists|b: Seq<u8>|
            b.len() == TOKEN_BYTES && t@ == token_text(#[trigger] base64_standard(b)),
{
    match random_bytes(TOKEN_BYTES) {
        Ok(bytes) => {
            let t = token_from_bytes(bytes.as_slice());
            assert(t@ == token_text(base64_standard(bytes@)));
            Ok(t)
        },
        Err(e) => Err(e),
    }
}

/// The object key under which a user's codebase index is stored.
pub open spec fn index_key(user_id: Seq<char>, codebase_id: Seq<char>) -> Seq<char> {
    user_id + seq!['/'] + codebase_id
}

/// Keys of different users' or codebases' indexes differ, where user ids
/// hold no `/` (generated ids are hex numerals): no upload overwrites
/// another user's index.
pub proof fn lemma_index_key_injective(u1: Seq<char>, c1: Seq<char>, u2: Seq<char>, c2: Seq<char>)
    requires
        !u1.contains('/'),
        !u2.contains('/'),
        index_key(u1, c1) == index_key(u2, c2),
    ensures
        u1 == u2,
        c1 == c2,
{
    let k = index_key(u1, c1);
    assert(k[u1.len() as int] == '/');
    assert(k[u2.len() as int] == '/');
    if u1.len() < u2.len() {
        assert(u2[u1.len() as int] == k[u1.len() as int]);
        assert(u2.contains('/'));
    }
    if u2.len() < u1.len() {
        assert(u1[u2.len() as int] == k[u2.len() as int]);
        assert(u1.contains('/'));
    }
    assert(u1 =~= k.subrange(0, u1.len() as int));
    assert(u2 =~= k.subrange(0, u2.len() as int));
    assert(c1 =~= k.skip(u1.len() as int + 1));
    assert(c2 =~= k.skip(u2.len() as int + 1));
}

/// Identifiers are made of hexadecimal digits, so they hold no `/`.
pub proof fn lemma_hex_text_has_no_slash(n: nat)
    ensures
        !hex_text(n).contains('/'),
{
    lemma_numeral_digits(n, 16);
}

/// The object key of a codebase index: `user_id/codebase_id`.
pub fn storage_key(user_id: &str, codebase_id: &str) -> (r: String)
    ensures
        r@ == index_key(user_id@, codebase_id@),
{
    let slash = string_of(&['/']);
    let head = concat_str(user_id, slash.as_str());
    concat_str(head.as_str(), codebase_id)
}

/// Whether a delete statement removed anything, by the number of rows it
/// reports changed (none reported counts as nothing removed).
pub fn rows_removed(changes: Option<usize>) -> (r: bool)
    ensures
        r == (changes matches Some(c) && c > 0),
{
    match changes {
        Some(c) => c > 0,
        None => false,
    }
}

/// A codebase row as the database returns it.
#[derive(Debug, Clone, PartialEq, Eq)]
pub struct CodebaseRow {
    pub id: String,
    pub name: String,
    pub root_path: String,
    pub file_count: i64,
    pub code_unit_count: i64,
    pub last_indexed: Option<String>,
    pub created_at: String,
}

/// The low 32 bits of a count, as `as u32` keeps them (truncation).
pub open spec fn low_u32(x: i64) -> u32 {
    x as u32
}

/// `x as u32`.
fn truncate_count(x: i64) -> (r: u32)
    ensures
        r == low_u32(x),
{
    #[verifier::truncate]
    (x as u32)
}

/// Copy of an optional string.
fn clone_opt_string(s: &Option<String>) -> (r: Option<String>)
    ensures
        r == *s,
{
    match s {
        Some(x) => Some(x.clone()),
        None => None,
    }
}

impl CodebaseRow {
    /// The API view of the row; the counts keep their low 32 bits.
    pub fn to_response(&self) -> (r: CodebaseResponse)
        ensures
            r.id@ == self.id@,
            r.name@ == self.name@,
            r.root_path@ == self.root_path@,
            r.file_count == low_u32(self.file_count),
            r.code_unit_count == low_u32(self.code_unit_count),
            r.last_indexed == self.last_indexed,
            r.created_at@ == self.created_at@,
    {
        CodebaseResponse {
            id: self.id.clone(),
            name: self.name.clone(),
            root_path: self.root_path.clone(),
            file_count: truncate_count(self.file_count),
            code_unit_count: truncate_count(self.code_unit_count),
            last_indexed: clone_opt_string(&self.last_indexed),
            created_at: self.created_at.clone(),
        }
    }
}

} // verus!
