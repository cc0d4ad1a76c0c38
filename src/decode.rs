//! Decoding of decimal and `0x`-prefixed hexadecimal integer strings.

use crate::error::ProofParseError;
use crate::field::{be_value, Fq, Fr, fq_modulus, fr_modulus};
use vstd::prelude::*;
use vstd::string::StringSliceAdditionalSpecFns;

verus! {

broadcast use vstd::string::is_ascii_spec_bytes;

/// The character codes of a string.
pub open spec fn codes(s: Seq<char>) -> Seq<nat> {
    s.map_values(|c: char| c as nat)
}

/// The byte values of a byte string.
pub open spec fn byte_codes(b: Seq<u8>) -> Seq<nat> {
    b.map_values(|x: u8| x as nat)
}

pub open spec fn is_decimal_code(v: nat) -> bool {
    48 <= v <= 57
}

pub open spec fn is_hex_code(v: nat) -> bool {
    (48 <= v <= 57) || (65 <= v <= 70) || (97 <= v <= 102)
}

/// The value of a hexadecimal digit, in either case.
pub open spec fn hex_code_value(v: nat) -> nat {
    if 48 <= v <= 57 {
        (v - 48) as nat
    } else if 65 <= v <= 70 {
        (v - 55) as nat
    } else {
        (v - 87) as nat
    }
}

/// A non-empty string of decimal digits.
pub open spec fn is_decimal(d: Seq<nat>) -> bool {
    d.len() > 0 && forall|i: int| 0 <= i < d.len() ==> is_decimal_code(#[trigger] d[i])
}

/// An even number of hexadecimal digits, as the hex codec accepts them.
pub open spec fn is_hex_pairs(d: Seq<nat>) -> bool {
    d.len() % 2 == 0 && forall|i: int| 0 <= i < d.len() ==> is_hex_code(#[trigger] d[i])
}

/// The integer written by decimal digits.
pub open spec fn decimal_value(d: Seq<nat>) -> nat
    decreases d.len(),
{
    if d.len() == 0 {
        0
    } else {
        decimal_value(d.drop_last()) * 10 + (d.last() - 48) as nat
    }
}

/// The integer written by hexadecimal digits.
pub open spec fn hex_value(d: Seq<nat>) -> nat
    decreases d.len(),
{
    if d.len() == 0 {
        0
    } else {
        hex_value(d.drop_last()) * 16 + hex_code_value(d.last())
    }
}

/// The string with one pair of surrounding double quotes removed, if it has one.
pub open spec fn trim_quotes(s: Seq<char>) -> Seq<char> {
    if s.len() >= 2 && s[0] == '"' && s.last() == '"' {
        s.subrange(1, s.len() - 1)
    } else {
        s
    }
}

pub open spec fn has_hex_prefix(t: Seq<char>) -> bool {
    t.len() >= 2 && t[0] == '0' && (t[1] == 'x' || t[1] == 'X')
}

/// The unsigned integer that a proof string denotes, if any: after one pair of
/// quotes is removed, `0x`/`0X` and an even number of hex digits, or a
/// non-empty run of decimal digits.
pub open spec fn decoded_integer(s: Seq<char>) -> Option<nat> {
    let t = trim_quotes(s);
    if has_hex_prefix(t) && is_hex_pairs(codes(t.skip(2))) {
        Some(hex_value(codes(t.skip(2))))
    } else if is_decimal(codes(t)) {
        Some(decimal_value(codes(t)))
    } else {
        None
    }
}

/// The outcome that decoding `s` must have: the integer, or the error naming
/// the trimmed string.
pub open spec fn decode_outcome(s: Seq<char>, r: Result<Vec<u8>, ProofParseError>) -> bool {
    match decoded_integer(s) {
        Some(n) => r is Ok && be_value(r->Ok_0@) == n,
        None => r matches Err(ProofParseError::InvalidFieldElement(m)) && m@ == trim_quotes(s),
    }
}

/// Relies on `str::strip_prefix` with a `char` pattern: the rest of the string when
/// it starts with `c`.
#[verifier::external_body]
fn strip_prefix_char<'a>(s: &'a str, c: char) -> (r: Option<&'a str>)
    ensures
        r is Some <==> (s@.len() > 0 && s@[0] == c),
        r is Some ==> r->0@ == s@.drop_first(),
{
    s.strip_prefix(c)
}

/// Relies on `str::strip_suffix` with a `char` pattern: the string without its last
/// character when that character is `c`.
#[verifier::external_body]
fn strip_suffix_char<'a>(s: &'a str, c: char) -> (r: Option<&'a str>)
    ensures
        r is Some <==> (s@.len() > 0 && s@.last() == c),
        r is Some ==> r->0@ == s@.drop_last(),
{
    s.strip_suffix(c)
}

/// Relies on `hex::decode`: it accepts an even number of hex digits of either case
/// and turns each pair into one byte, high digit first.
#[verifier::external_body]
fn hex_decode(data: &Vec<u8>) -> (r: Option<Vec<u8>>)
    ensures
        r is Some <==> is_hex_pairs(byte_codes(data@)),
        r is Some ==> r->0@.len() * 2 == data@.len(),
        r is Some ==> forall|i: int|
            0 <= i < r->0@.len() ==> #[trigger] r->0@[i] as nat == hex_code_value(
                data@[2 * i] as nat,
            ) * 16 + hex_code_value(data@[2 * i + 1] as nat),
{
    hex::decode(data).ok()
}

/// Relies on `num_bigint::BigUint::from_str`, which reads a non-empty run of decimal
/// digits as a base-10 integer, and on `BigUint::to_bytes_be`, which gives that
/// integer most significant byte first.
#[verifier::external_body]
fn decimal_be_bytes(s: &str) -> (r: Option<Vec<u8>>)
    requires
        is_decimal(codes(s@)),
    ensures
        r is Some,
        be_value(r->0@) == decimal_value(codes(s@)),
{
    match <num_bigint::BigUint as std::str::FromStr>::from_str(s) {
        Ok(v) => Some(v.to_bytes_be()),
        Err(_) => None,
    }
}

/// Removes one pair of surrounding double quotes, if present.
pub fn trim_quotes_str(s: &str) -> (r: &str)
    ensures
        r@ == trim_quotes(s@),
{
    match strip_prefix_char(s, '"') {
        Some(inner) => match strip_suffix_char(inner, '"') {
            Some(t) => {
                assert(t@ =~= s@.subrange(1, s@.len() - 1));
                t
            },
            None => s,
        },
        None => s,
    }
}

proof fn lemma_hex_pairs_value(d: Seq<nat>, out: Seq<u8>)
    requires
        out.len() * 2 == d.len(),
        forall|i: int|
            0 <= i < out.len() ==> #[trigger] out[i] as nat == hex_code_value(d[2 * i]) * 16
                + hex_code_value(d[2 * i + 1]),
    ensures
        be_value(out) == hex_value(d),
    decreases out.len(),
{
    if out.len() > 0 {
        let n = out.len() as int;
        let d2 = d.subrange(0, 2 * n - 2);
        let o2 = out.drop_last();
        assert forall|i: int| 0 <= i < o2.len() implies #[trigger] o2[i] as nat == hex_code_value(
            d2[2 * i],
        ) * 16 + hex_code_value(d2[2 * i + 1]) by {
            assert(out[i] as nat == hex_code_value(d[2 * i]) * 16 + hex_code_value(d[2 * i + 1]));
        }
        lemma_hex_pairs_value(d2, o2);
        assert(d.drop_last().drop_last() =~= d2);
        assert(out[n - 1] as nat == hex_code_value(d[2 * (n - 1)]) * 16 + hex_code_value(
            d[2 * (n - 1) + 1],
        ));
        let x = hex_value(d2);
        let a = hex_code_value(d[2 * n - 2]);
        let c = hex_code_value(d[2 * n - 1]);
        assert(hex_value(d.drop_last()) == x * 16 + a);
        assert(hex_value(d) == (x * 16 + a) * 16 + c);
        assert((x * 16 + a) * 16 + c == x * 256 + a * 16 + c) by (nonlinear_arith);
    }
}

/// For an ASCII string, its bytes and its characters carry the same codes.
proof fn lemma_ascii_codes(t: &str)
    requires
        vstd::string::is_ascii(t),
    ensures
        byte_codes(t.spec_bytes()) == codes(t@),
{
    vstd::utf8::is_ascii_chars_nat_bound(t@);
    assert(byte_codes(t.spec_bytes()) =~= codes(t@));
}

proof fn lemma_char_order(c: char)
    ensures
        '\0' <= c,
        (c <= '\u{7f}') == ((c as nat) < 128),
{
}

/// A string with a character outside ASCII decodes to nothing.
proof fn lemma_non_ascii_undecodable(s: Seq<char>)
    requires
        !vstd::utf8::is_ascii_chars(trim_quotes(s)),
    ensures
        decoded_integer(s) is None,
{
    let t = trim_quotes(s);
    assert(exists|i: int| 0 <= i < t.len() && !('\0' <= #[trigger] t[i] && t[i] <= '\u{7f}'));
    let i = choose|i: int| 0 <= i < t.len() && !('\0' <= #[trigger] t[i] && t[i] <= '\u{7f}');
    lemma_char_order(t[i]);
    assert(t[i] as nat >= 128);
    assert(codes(t)[i] == t[i] as nat);
    assert(!is_decimal(codes(t)));
    if i >= 2 {
        assert(codes(t.skip(2))[i - 2] == t[i] as nat);
        assert(!is_hex_pairs(codes(t.skip(2))));
    } else {
        assert(!has_hex_prefix(t));
    }
}

/// Whether `b` is a non-empty run of decimal digits.
fn is_decimal_bytes(b: &[u8]) -> (r: bool)
    ensures
        r == is_decimal(byte_codes(b@)),
{
    let n = b.len();
    if n == 0 {
        return false;
    }
    let mut i: usize = 0;
    while i < n
        invariant
            n == b@.len(),
            i <= n,
            forall|j: int| 0 <= j < i ==> is_decimal_code(#[trigger] byte_codes(b@)[j]),
        decreases n - i,
    {
        if b[i] < 48 || b[i] > 57 {
            assert(byte_codes(b@)[i as int] == b@[i as int] as nat);
            return false;
        }
        assert(byte_codes(b@)[i as int] == b@[i as int] as nat);
        i += 1;
    }
    true
}

/// Decodes a decimal or `0x`/`0X`-prefixed hexadecimal string, optionally wrapped
/// in one pair of double quotes, into its integer as big-endian bytes.
pub fn decode_integer(s: &str) -> (r: Result<Vec<u8>, ProofParseError>)
    ensures
        decode_outcome(s@, r),
{
    let t = trim_quotes_str(s);
    if t.is_ascii() {
        let b = t.as_bytes();
        proof {
            lemma_ascii_codes(t);
        }
        let n = b.len();
        if n >= 2 && b[0] == 48 && (b[1] == 120 || b[1] == 88) {
            assert(b@[0] as nat == codes(t@)[0] && b@[1] as nat == codes(t@)[1]);
            let mut digits: Vec<u8> = Vec::new();
            let mut i: usize = 2;
            while i < n
                invariant
                    2 <= i <= n,
                    n == b@.len(),
                    digits@ =~= b@.subrange(2, i as int),
                decreases n - i,
            {
                digits.push(b[i]);
                i += 1;
            }
            assert(byte_codes(digits@) =~= codes(t@.skip(2)));
            match hex_decode(&digits) {
                Some(v) => {
                    proof {
                        lemma_hex_pairs_value(byte_codes(digits@), v@);
                    }
                    return Ok(v);
                },
                None => {},
            }
        } else {
            assert(!has_hex_prefix(t@)) by {
                if t@.len() >= 2 {
                    assert(b@[0] as nat == codes(t@)[0] && b@[1] as nat == codes(t@)[1]);
                }
            }
        }
        if is_decimal_bytes(b) {
            if let Some(v) = decimal_be_bytes(t) {
                return Ok(v);
            }
        }
    } else {
        proof {
            lemma_non_ascii_undecodable(s@);
        }
    }
    Err(ProofParseError::InvalidFieldElement(t.to_owned()))
}

/// Decodes a proof string and reduces it into the base field.
pub fn parse_fq_element(s: &str) -> (r: Result<Fq, ProofParseError>)
    ensures
        match decoded_integer(s@) {
            Some(n) => r matches Ok(e) && e.value() == n % fq_modulus(),
            None => r matches Err(ProofParseError::InvalidFieldElement(m)) && m@ == trim_quotes(s@),
        },
{
    match decode_integer(s) {
        Ok(b) => Ok(Fq::from_be_bytes_mod_order(b.as_slice())),
        Err(e) => Err(e),
    }
}

/// Decodes a proof string and reduces it into the scalar field.
pub fn parse_fr_element(s: &str) -> (r: Result<Fr, ProofParseError>)
    ensures
        match decoded_integer(s@) {
            Some(n) => r matches Ok(e) && e.value() == n % fr_modulus(),
            None => r matches Err(ProofParseError::InvalidFieldElement(m)) && m@ == trim_quotes(s@),
        },
{
    match decode_integer(s) {
        Ok(b) => Ok(Fr::from_be_bytes_mod_order(b.as_slice())),
        Err(e) => Err(e),
    }
}

/// A decimal string and `0x` followed by an even number of hexadecimal digits
/// that write the same integer decode to that same integer.
pub proof fn lemma_decimal_hex_agree(d: Seq<char>, h: Seq<char>)
    requires
        is_decimal(codes(d)),
        is_hex_pairs(codes(h)),
        decimal_value(codes(d)) == hex_value(codes(h)),
    ensures
        decoded_integer(d) == Some(decimal_value(codes(d))),
        decoded_integer(seq!['0', 'x'] + h) == decoded_integer(d),
{
    let x = seq!['0', 'x'] + h;
    assert(codes(d)[0] == d[0] as nat);
    assert(trim_quotes(d) == d);
    if d.len() >= 2 {
        assert(codes(d)[1] == d[1] as nat);
    }
    assert(!has_hex_prefix(d));
    assert(x[0] == '0' && x[1] == 'x');
    assert(trim_quotes(x) == x);
    assert(x.skip(2) =~= h);
}

} // verus!
