//! Character-level string helpers with exact specifications.

use vstd::prelude::*;

verus! {

/// Appends one character to a string (`String::push`); the contract states
/// what its documentation says: the character is added at the end.
#[verifier::external_body]
pub(crate) fn push_char(s: &mut String, c: char)
    ensures
        final(s)@ == old(s)@.push(c),
{
    s.push(c);
}

/// What `str::to_lowercase` returns for a string: the Unicode lowercase
/// mapping of every character (with the final-sigma rule).  Its tables are
/// pages long, so only its name stands here.
pub uninterp spec fn lowercase(s: Seq<char>) -> Seq<char>;

/// `str::to_lowercase`.  The contract claims only that the result is
/// determined by the characters of the argument.
#[verifier::external_body]
pub(crate) fn to_lowercase(s: &str) -> (r: String)
    ensures
        r@ == lowercase(s@),
{
    s.to_lowercase()
}

/// The characters of a string, in order.
pub fn chars_of(s: &str) -> (r: Vec<char>)
    ensures
        r@ == s@,
{
    let mut r: Vec<char> = Vec::new();
    for c in it: s.chars()
        invariant
            r@ == it.seq().take(it.index() as int),
            it.seq() == s@,
    {
        r.push(c);
    }
    r
}

/// A string holding exactly the given characters.
pub fn string_of(cs: &[char]) -> (r: String)
    ensures
        r@ == cs@,
{
    let mut r = String::new();
    let n = cs.len();
    for i in 0..n
        invariant
            n == cs@.len(),
            r@ == cs@.take(i as int),
    {
        push_char(&mut r, cs[i]);
        assert(cs@.take(i + 1) == cs@.take(i as int).push(cs@[i as int]));
    }
    assert(cs@.take(n as int) == cs@);
    r
}

/// The concatenation of two strings.
pub fn concat_str(a: &str, b: &str) -> (r: String)
    ensures
        r@ == a@ + b@,
{
    let mut r = a.to_owned();
    r.append(b);
    r
}

/// `s` begins with `p`.
pub open spec fn has_prefix(s: Seq<char>, p: Seq<char>) -> bool {
    p.len() <= s.len() && s.subrange(0, p.len() as int) == p
}

/// `n` occurs in `h` as a contiguous run starting at `i`.
pub open spec fn occurs_at(h: Seq<char>, n: Seq<char>, i: int) -> bool {
    0 <= i && i + n.len() <= h.len() && h.subrange(i, i + n.len()) == n
}

/// `n` occurs somewhere in `h` (the empty string occurs everywhere).
pub open spec fn contains_seq(h: Seq<char>, n: Seq<char>) -> bool {
    exists|i: int| #[trigger] occurs_at(h, n, i)
}

/// Whether `n` occurs in `h` starting at position `i`.
fn occurs_at_exec(h: &Vec<char>, n: &Vec<char>, i: usize) -> (r: bool)
    requires
        i + n@.len() <= h@.len(),
    ensures
        r == occurs_at(h@, n@, i as int),
{
    let m = n.len();
    let mut k: usize = 0;
    while k < m
        invariant
            m == n@.len(),
            i + m <= h@.len(),
            h@.len() == h.len(),
            k <= m,
            forall|j: int| 0 <= j < k ==> h@[i + j] == n@[j],
        decreases m - k,
    {
        if h[i + k] != n[k] {
            assert(h@.subrange(i as int, i + m)[k as int] != n@[k as int]);
            return false;
        }
        k += 1;
    }
    assert(h@.subrange(i as int, i + m) =~= n@);
    true
}

/// `str::contains` on character sequences: whether `n` occurs in `h`.
pub fn contains(h: &Vec<char>, n: &Vec<char>) -> (r: bool)
    ensures
        r == contains_seq(h@, n@),
{
    if n.len() > h.len() {
        assert forall|i: int| !occurs_at(h@, n@, i) by {}
        return false;
    }
    let last = h.len() - n.len();
    let mut i: usize = 0;
    while i <= last
        invariant
            last + n@.len() == h@.len(),
            forall|j: int| 0 <= j < i ==> !occurs_at(h@, n@, j),
        decreases last + 1 - i,
    {
        if occurs_at_exec(h, n, i) {
            return true;
        }
        if i == last {
            assert forall|j: int| !occurs_at(h@, n@, j) by {
                if 0 <= j && j + n@.len() <= h@.len() {
                    assert(j < i + 1);
                }
            }
            return false;
        }
        i += 1;
    }
    false
}

/// `s` with `p` removed from its front, where it starts with `p`.
pub fn strip_prefix(s: &str, p: &str) -> (r: Option<String>)
    ensures
        r matches Some(t) ==> has_prefix(s@, p@) && t@ == s@.skip(p@.len() as int),
        r is None ==> !has_prefix(s@, p@),
{
    let sc = chars_of(s);
    let pc = chars_of(p);
    if pc.len() > sc.len() {
        return None;
    }
    if !occurs_at_exec(&sc, &pc, 0) {
        return None;
    }
    let mut rest: Vec<char> = Vec::new();
    let n = sc.len();
    let mut i = pc.len();
    while i < n
        invariant
            pc@.len() <= i <= n,
            n == sc@.len(),
            rest@ == sc@.subrange(pc@.len() as int, i as int),
        decreases n - i,
    {
        rest.push(sc[i]);
        i += 1;
    }
    Some(string_of(rest.as_slice()))
}

/// The digit character for a value below 16: `0`-`9`, then `a`-`f`.
pub open spec fn digit_char(d: nat) -> char {
    if d < 10 {
        (d + 48) as char
    } else {
        (d + 87) as char
    }
}

/// The value of a digit character.
pub open spec fn digit_value(c: char) -> int {
    if c <= '9' {
        c as int - 48
    } else {
        c as int - 87
    }
}

/// The numeral of `n` in base `base` (2 to 16), most significant digit
/// first, without leading zeros (`format!("{}", n)` in base 10,
/// `format!("{:x}", n)` in base 16).
pub open spec fn numeral(n: nat, base: nat) -> Seq<char>
    decreases n,
{
    if base < 2 || n < base {
        seq![digit_char(n)]
    } else {
        proof {
            lemma_quotient_smaller(n, base);
        }
        numeral(n / base, base) + seq![digit_char(n % base)]
    }
}

/// The number a numeral in base `base` denotes.
pub open spec fn numeral_value(s: Seq<char>, base: nat) -> int
    decreases s.len(),
{
    if s.len() == 0 {
        0
    } else {
        numeral_value(s.drop_last(), base) * base + digit_value(s.last())
    }
}

/// Division by a base of at least 2 makes a positive number smaller.
pub proof fn lemma_quotient_smaller(n: nat, base: nat)
    requires
        base >= 2,
        n >= base,
    ensures
        n / base < n,
{
    assert(n / base < n) by (nonlinear_arith)
        requires
            base >= 2,
            n >= base,
    ;
}

/// A digit reads back as its value.
pub proof fn lemma_digit_value(d: nat)
    requires
        d < 16,
    ensures
        digit_value(digit_char(d)) == d,
{
    assert(((d + 48) as char) as int == d + 48);
    assert(((d + 87) as char) as int == d + 87);
}

/// Reading a numeral back gives its number.
pub proof fn lemma_numeral_value(n: nat, base: nat)
    requires
        2 <= base <= 16,
    ensures
        numeral_value(numeral(n, base), base) == n,
    decreases n,
{
    let s = numeral(n, base);
    if n < base {
        lemma_digit_value(n);
        assert(s.drop_last() =~= Seq::<char>::empty());
        assert(numeral_value(s, base) == numeral_value(s.drop_last(), base) * base + digit_value(
            s.last(),
        ));
        assert(numeral_value(Seq::<char>::empty(), base) == 0);
    } else {
        lemma_quotient_smaller(n, base);
        assert(n % base < base) by (nonlinear_arith)
            requires
                base >= 2,
        ;
        assert(n == (n / base) * base + n % base) by (nonlinear_arith)
            requires
                base >= 2,
        ;
        lemma_digit_value(n % base);
        lemma_numeral_value(n / base, base);
        assert(s.drop_last() =~= numeral(n / base, base));
        assert(numeral_value(s, base) == numeral_value(s.drop_last(), base) * base + digit_value(
            s.last(),
        ));
    }
}

/// A numeral is made of digit characters `0`-`9`, `a`-`f`.
pub proof fn lemma_numeral_digits(n: nat, base: nat)
    requires
        2 <= base <= 16,
    ensures
        forall|i: int|
            0 <= i < numeral(n, base).len() ==> {
                let c = #[trigger] numeral(n, base)[i];
                ('0' <= c <= '9') || ('a' <= c <= 'f')
            },
        !numeral(n, base).contains('/'),
    decreases n,
{
    let s = numeral(n, base);
    if n >= base {
        lemma_quotient_smaller(n, base);
        lemma_numeral_digits(n / base, base);
        assert(n % base < base) by (nonlinear_arith)
            requires
                base >= 2,
        ;
        assert(s =~= numeral(n / base, base) + seq![digit_char(n % base)]);
        lemma_digit_char_range(n % base);
        assert forall|i: int| 0 <= i < s.len() implies {
            let c = #[trigger] s[i];
            ('0' <= c <= '9') || ('a' <= c <= 'f')
        } by {
            if i < s.len() - 1 {
                assert(s[i] == numeral(n / base, base)[i]);
            }
        }
    } else {
        lemma_digit_char_range(n);
    }
    assert forall|i: int| 0 <= i < s.len() implies s[i] != '/' by {
        let c = s[i];
        assert(('0' <= c <= '9') || ('a' <= c <= 'f'));
    }
}

/// Digit characters are `0`-`9` and `a`-`f`.
pub proof fn lemma_digit_char_range(d: nat)
    requires
        d < 16,
    ensures
        ('0' <= digit_char(d) <= '9') || ('a' <= digit_char(d) <= 'f'),
{
    assert(((d + 48) as char) as int == d + 48);
    assert(((d + 87) as char) as int == d + 87);
}

/// The digit character for `d`.
fn digit_char_exec(d: u8) -> (c: char)
    requires
        d < 16,
    ensures
        c == digit_char(d as nat),
{
    if d < 10 {
        (d + 48) as char
    } else {
        (d + 87) as char
    }
}

/// Appends the numeral of `n` in base `base`.
fn push_numeral(out: &mut Vec<char>, n: u128, base: u128)
    requires
        2 <= base <= 16,
    ensures
        final(out)@ == old(out)@ + numeral(n as nat, base as nat),
    decreases n,
{
    let ghost start = out@;
    if n >= base {
        proof {
            lemma_quotient_smaller(n as nat, base as nat);
        }
        push_numeral(out, n / base, base);
    } else {
        assert(n % base == n) by (nonlinear_arith)
            requires
                n < base,
        ;
    }
    let d = (n % base) as u8;
    out.push(digit_char_exec(d));
    assert(out@ =~= start + numeral(n as nat, base as nat));
}

/// The numeral of `n` in base `base` as a string.
pub fn numeral_string(n: u128, base: u128) -> (r: String)
    requires
        2 <= base <= 16,
    ensures
        r@ == numeral(n as nat, base as nat),
{
    let mut digits: Vec<char> = Vec::new();
    push_numeral(&mut digits, n, base);
    assert(digits@ =~= numeral(n as nat, base as nat));
    string_of(digits.as_slice())
}

} // verus!
