//! Base64 and base32 as RFC 4648 defines them: what an encoding is, and that base64 can
//! be read back.
use base64::engine::general_purpose::{STANDARD, URL_SAFE_NO_PAD};
use base64::Engine as _;
use vstd::prelude::*;

verus! {

/// Byte `i` of `bytes`, or zero past the end.
pub open spec fn byte_or_zero(bytes: Seq<u8>, i: int) -> int {
    if 0 <= i < bytes.len() {
        bytes[i] as int
    } else {
        0
    }
}

/// The `k`th group of six bits of `bytes`, the high bits first, filled up with zero bits.
#[verifier::opaque]
pub open spec fn sextet(bytes: Seq<u8>, k: int) -> int {
    let first = byte_or_zero(bytes, 3 * (k / 4));
    let second = byte_or_zero(bytes, 3 * (k / 4) + 1);
    let third = byte_or_zero(bytes, 3 * (k / 4) + 2);
    if k % 4 == 0 {
        first / 4
    } else if k % 4 == 1 {
        16 * (first % 4) + second / 16
    } else if k % 4 == 2 {
        4 * (second % 16) + third / 64
    } else {
        third % 64
    }
}

/// How many groups of six bits `n` bytes fill, the last one perhaps in part.
pub open spec fn sextet_count(n: nat) -> nat {
    (4 * n + 2) / 3
}

/// The character for the six-bit value `v`; the last two depend on the alphabet.
pub open spec fn base64_char(v: int, url_safe: bool) -> char {
    if v < 26 {
        (65 + v) as char
    } else if v < 52 {
        (97 + v - 26) as char
    } else if v < 62 {
        (48 + v - 52) as char
    } else if v == 62 {
        if url_safe {
            '-'
        } else {
            '+'
        }
    } else {
        if url_safe {
            '_'
        } else {
            '/'
        }
    }
}

/// The characters for the groups of six bits of `bytes`.
pub open spec fn base64_digits(bytes: Seq<u8>, url_safe: bool) -> Seq<char> {
    Seq::new(sextet_count(bytes.len()), |k: int| base64_char(sextet(bytes, k), url_safe))
}

/// Base64 of `bytes` with the URL-safe alphabet and no padding.
pub open spec fn base64url(bytes: Seq<u8>) -> Seq<char> {
    base64_digits(bytes, true)
}

/// Base64 of `bytes` with the standard alphabet, padded to a multiple of four characters.
pub open spec fn base64(bytes: Seq<u8>) -> Seq<char> {
    base64_digits(bytes, false) + (if bytes.len() % 3 == 1 {
        seq!['=', '=']
    } else if bytes.len() % 3 == 2 {
        seq!['=']
    } else {
        Seq::empty()
    })
}

/// The bytes that `text` is the URL-safe encoding of, if it is one.
pub open spec fn base64url_bytes(text: Seq<char>) -> Option<Seq<u8>> {
    if exists|bytes: Seq<u8>| text == base64url(bytes) {
        Some(choose|bytes: Seq<u8>| text == base64url(bytes))
    } else {
        None
    }
}

/// The bytes that `text` is the standard, padded encoding of, if it is one.
pub open spec fn base64_bytes(text: Seq<char>) -> Option<Seq<u8>> {
    if exists|bytes: Seq<u8>| text == base64(bytes) {
        Some(choose|bytes: Seq<u8>| text == base64(bytes))
    } else {
        None
    }
}

/// The URL-safe alphabet: letters, digits, `-` and `_`.
pub open spec fn is_url_safe(c: char) -> bool {
    'A' <= c <= 'Z' || 'a' <= c <= 'z' || '0' <= c <= '9' || c == '-' || c == '_'
}

/// The characters of a padded standard encoding: letters, digits, `+`, `/` and `=`.
pub open spec fn is_standard(c: char) -> bool {
    'A' <= c <= 'Z' || 'a' <= c <= 'z' || '0' <= c <= '9' || c == '+' || c == '/' || c == '='
}

/// The `k`th group of five bits of `bytes`, the high bits first, filled up with zero bits.
pub open spec fn quintet(bytes: Seq<u8>, k: int) -> int {
    let b0 = byte_or_zero(bytes, 5 * (k / 8));
    let b1 = byte_or_zero(bytes, 5 * (k / 8) + 1);
    let b2 = byte_or_zero(bytes, 5 * (k / 8) + 2);
    let b3 = byte_or_zero(bytes, 5 * (k / 8) + 3);
    let b4 = byte_or_zero(bytes, 5 * (k / 8) + 4);
    if k % 8 == 0 {
        b0 / 8
    } else if k % 8 == 1 {
        4 * (b0 % 8) + b1 / 64
    } else if k % 8 == 2 {
        (b1 / 2) % 32
    } else if k % 8 == 3 {
        16 * (b1 % 2) + b2 / 16
    } else if k % 8 == 4 {
        2 * (b2 % 16) + b3 / 128
    } else if k % 8 == 5 {
        (b3 / 4) % 32
    } else if k % 8 == 6 {
        8 * (b3 % 4) + b4 / 32
    } else {
        b4 % 32
    }
}

/// Base32 of `bytes` as RFC 4648 defines it, without padding.
pub open spec fn base32(bytes: Seq<u8>) -> Seq<char> {
    Seq::new(
        (8 * bytes.len() + 4) / 5,
        |k: int|
            if quintet(bytes, k) < 26 {
                (65 + quintet(bytes, k)) as char
            } else {
                (50 + quintet(bytes, k) - 26) as char
            },
    )
}

proof fn lemma_sextet_range(bytes: Seq<u8>, k: int)
    requires
        0 <= k,
    ensures
        0 <= sextet(bytes, k) < 64,
{
    reveal(sextet);
}

proof fn lemma_base64_char_injective(a: int, b: int, url_safe: bool)
    requires
        0 <= a < 64,
        0 <= b < 64,
        base64_char(a, url_safe) == base64_char(b, url_safe),
    ensures
        a == b,
{
    assert(base64_char(a, url_safe) as int == base64_char(b, url_safe) as int);
}

/// Different byte sequences have different groups of six bits.
proof fn lemma_digits_injective(a: Seq<u8>, b: Seq<u8>, url_safe: bool)
    requires
        base64_digits(a, url_safe) == base64_digits(b, url_safe),
    ensures
        a == b,
{
    assert(base64_digits(a, url_safe).len() == sextet_count(a.len()));
    assert(base64_digits(b, url_safe).len() == sextet_count(b.len()));
    assert(a.len() == b.len());
    assert forall|k: int| 0 <= k < sextet_count(a.len()) implies #[trigger] sextet(a, k) == sextet(
        b,
        k,
    ) by {
        assert(base64_digits(a, url_safe)[k] == base64_char(sextet(a, k), url_safe));
        assert(base64_digits(b, url_safe)[k] == base64_char(sextet(b, k), url_safe));
        lemma_sextet_range(a, k);
        lemma_sextet_range(b, k);
        lemma_base64_char_injective(sextet(a, k), sextet(b, k), url_safe);
    }
    assert forall|i: int| 0 <= i < a.len() implies a[i] == b[i] by {
        reveal(sextet);
        let q = i / 3;
        if i % 3 == 0 {
            assert(i == 3 * q);
            assert((4 * q) / 4 == q && (4 * q) % 4 == 0);
            assert((4 * q + 1) / 4 == q && (4 * q + 1) % 4 == 1);
            assert(sextet(a, 4 * q) == sextet(b, 4 * q));
            assert(sextet(a, 4 * q + 1) == sextet(b, 4 * q + 1));
        } else if i % 3 == 1 {
            assert(i == 3 * q + 1);
            assert((4 * q + 1) / 4 == q && (4 * q + 1) % 4 == 1);
            assert((4 * q + 2) / 4 == q && (4 * q + 2) % 4 == 2);
            assert(sextet(a, 4 * q + 1) == sextet(b, 4 * q + 1));
            assert(sextet(a, 4 * q + 2) == sextet(b, 4 * q + 2));
        } else {
            assert(i == 3 * q + 2);
            assert((4 * q + 2) / 4 == q && (4 * q + 2) % 4 == 2);
            assert((4 * q + 3) / 4 == q && (4 * q + 3) % 4 == 3);
            assert(sextet(a, 4 * q + 2) == sextet(b, 4 * q + 2));
            assert(sextet(a, 4 * q + 3) == sextet(b, 4 * q + 3));
        }
    }
    assert(a =~= b);
}

/// The URL-safe encoding is made of its alphabet alone, has the length RFC 4648 gives
/// it, and reads back as the bytes that were encoded.
pub proof fn lemma_base64url(bytes: Seq<u8>)
    ensures
        base64url(bytes).len() == sextet_count(bytes.len()),
        forall|i: int| 0 <= i < base64url(bytes).len() ==> is_url_safe(#[trigger] base64url(bytes)[i]),
        base64url_bytes(base64url(bytes)) == Some(bytes),
{
    assert forall|i: int| 0 <= i < base64url(bytes).len() implies is_url_safe(
        #[trigger] base64url(bytes)[i],
    ) by {
        lemma_sextet_range(bytes, i);
    }
    let read = choose|b: Seq<u8>| base64url(bytes) == base64url(b);
    lemma_digits_injective(bytes, read, true);
}

/// The standard encoding is made of its alphabet and the padding sign alone, has a
/// length that is a multiple of four, and reads back as the bytes that were encoded.
pub proof fn lemma_base64(bytes: Seq<u8>)
    ensures
        base64(bytes).len() == 4 * ((bytes.len() + 2) / 3),
        forall|i: int| 0 <= i < base64(bytes).len() ==> is_standard(#[trigger] base64(bytes)[i]),
        base64_bytes(base64(bytes)) == Some(bytes),
{
    assert forall|i: int| 0 <= i < base64(bytes).len() implies is_standard(
        #[trigger] base64(bytes)[i],
    ) by {
        let digits = base64_digits(bytes, false);
        if i < digits.len() {
            lemma_sextet_range(bytes, i);
            assert(base64(bytes)[i] == digits[i]);
        } else {
            assert(base64(bytes)[i] == '=');
        }
    }
    let read = choose|b: Seq<u8>| base64(bytes) == base64(b);
    lemma_base64_injective(bytes, read);
}

proof fn lemma_base64_injective(a: Seq<u8>, b: Seq<u8>)
    requires
        base64(a) == base64(b),
    ensures
        a == b,
{
    let da = base64_digits(a, false);
    let db = base64_digits(b, false);
    assert(base64(a).len() == 4 * ((a.len() + 2) / 3));
    assert(base64(b).len() == 4 * ((b.len() + 2) / 3));
    assert forall|i: int| 0 <= i < da.len() implies da[i] != '=' by {
        lemma_sextet_range(a, i);
    }
    assert forall|i: int| 0 <= i < db.len() implies db[i] != '=' by {
        lemma_sextet_range(b, i);
    }
    assert(da.len() == db.len()) by {
        if da.len() < db.len() {
            assert(base64(a)[da.len() as int] == '=');
            assert(base64(b)[da.len() as int] == db[da.len() as int]);
        }
        if db.len() < da.len() {
            assert(base64(b)[db.len() as int] == '=');
            assert(base64(a)[db.len() as int] == da[db.len() as int]);
        }
    }
    assert(da =~= base64(a).take(da.len() as int));
    assert(db =~= base64(b).take(db.len() as int));
    lemma_digits_injective(a, b, false);
}

/// A text is read as some bytes if and only if it is what those bytes are written as.
pub proof fn law_base64_is_canonical(text: Seq<char>, bytes: Seq<u8>)
    ensures
        base64_bytes(text) == Some(bytes) <==> text == base64(bytes),
        base64url_bytes(text) == Some(bytes) <==> text == base64url(bytes),
        base64_bytes(text) is None <==> forall|any: Seq<u8>| text != #[trigger] base64(any),
        base64url_bytes(text) is None <==> forall|any: Seq<u8>| text != #[trigger] base64url(any),
{
    lemma_base64(bytes);
    lemma_base64url(bytes);
}

/// `URL_SAFE_NO_PAD.encode` of the `base64` crate: RFC 4648 with the URL-safe alphabet,
/// without padding.
#[verifier::external_body]
pub(crate) fn encode_url(bytes: &[u8]) -> (text: String)
    ensures
        text@ == base64url(bytes@),
{
    URL_SAFE_NO_PAD.encode(bytes)
}

/// `URL_SAFE_NO_PAD.decode` of the `base64` crate: it accepts exactly what the encoder
/// produces (no padding, no stray trailing bits) and gives back the encoded bytes.
#[verifier::external_body]
pub(crate) fn decode_url(text: &str) -> (r: Option<Vec<u8>>)
    ensures
        match r {
            Some(bytes) => text@ == base64url(bytes@),
            None => forall|bytes: Seq<u8>| text@ != #[trigger] base64url(bytes),
        },
{
    URL_SAFE_NO_PAD.decode(text).ok()
}

/// `STANDARD.encode` of the `base64` crate: RFC 4648 with the standard alphabet, padded.
#[verifier::external_body]
pub(crate) fn encode_standard(bytes: &[u8]) -> (text: String)
    ensures
        text@ == base64(bytes@),
{
    STANDARD.encode(bytes)
}

/// `STANDARD.decode` of the `base64` crate: it accepts exactly what the encoder produces
/// (canonical padding, no stray trailing bits) and gives back the encoded bytes.
#[verifier::external_body]
pub(crate) fn decode_standard(text: &str) -> (r: Option<Vec<u8>>)
    ensures
        match r {
            Some(bytes) => text@ == base64(bytes@),
            None => forall|bytes: Seq<u8>| text@ != #[trigger] base64(bytes),
        },
{
    STANDARD.decode(text).ok()
}

/// The bytes that `text` encodes with the URL-safe alphabet, if it is an encoding.
pub fn read_base64url(text: &str) -> (r: Option<Vec<u8>>)
    ensures
        match r {
            Some(bytes) => base64url_bytes(text@) == Some(bytes@),
            None => base64url_bytes(text@) is None,
        },
{
    let r = decode_url(text);
    proof {
        if r is Some {
            lemma_base64url(r->0@);
        }
    }
    r
}

/// The bytes that `text` encodes with the standard alphabet and padding, if it is an encoding.
pub fn read_base64(text: &str) -> (r: Option<Vec<u8>>)
    ensures
        match r {
            Some(bytes) => base64_bytes(text@) == Some(bytes@),
            None => base64_bytes(text@) is None,
        },
{
    let r = decode_standard(text);
    proof {
        if r is Some {
            lemma_base64(r->0@);
        }
    }
    r
}

} // verus!
