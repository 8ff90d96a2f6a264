//! Opaque tokens: random bytes, written in the URL-safe alphabet of Base64.

use base64::engine::general_purpose::URL_SAFE_NO_PAD;
use base64::Engine;
use rand::rngs::OsRng;
use rand::RngCore;
use vstd::prelude::*;

verus! {

/// How many random bytes a token stands for.
pub const TOKEN_BYTES: usize = 32;

/// How many characters a token has.
pub const TOKEN_CHARS: usize = 43;

/// Byte `k` of `bytes`, and zero past their end.
pub open spec fn byte_at(bytes: Seq<u8>, k: int) -> int {
    if 0 <= k < bytes.len() {
        bytes[k] as int
    } else {
        0
    }
}

/// The number in the `i`th group of six bits of `bytes`.
pub open spec fn sextet(bytes: Seq<u8>, i: int) -> int {
    let k = 3 * (i / 4);
    if i % 4 == 0 {
        byte_at(bytes, k) / 4
    } else if i % 4 == 1 {
        byte_at(bytes, k) % 4 * 16 + byte_at(bytes, k + 1) / 16
    } else if i % 4 == 2 {
        byte_at(bytes, k + 1) % 16 * 4 + byte_at(bytes, k + 2) / 64
    } else {
        byte_at(bytes, k + 2) % 64
    }
}

/// The character that stands for a number below 64 in the URL-safe alphabet.
pub open spec fn url_safe_char(v: int) -> char {
    if v < 26 {
        ('A' as u32 + v) as char
    } else if v < 52 {
        ('a' as u32 + v - 26) as char
    } else if v < 62 {
        ('0' as u32 + v - 52) as char
    } else if v == 62 {
        '-'
    } else {
        '_'
    }
}

/// The characters of the URL-safe alphabet.
pub open spec fn is_url_safe(c: char) -> bool {
    'A' <= c <= 'Z' || 'a' <= c <= 'z' || '0' <= c <= '9' || c == '-' || c == '_'
}

/// `bytes` in URL-safe Base64 without padding: a character for each group of
/// six bits, the last group filled up with zeros.
pub open spec fn base64_url(bytes: Seq<u8>) -> Seq<char> {
    Seq::new(((bytes.len() * 8 + 5) / 6) as nat, |i: int| url_safe_char(sextet(bytes, i)))
}

/// Text that can be a token: as long as one, and of its alphabet.
pub open spec fn is_token(t: Seq<char>) -> bool {
    t.len() == TOKEN_CHARS && forall|i: int| 0 <= i < t.len() ==> is_url_safe(#[trigger] t[i])
}

/// Calls `OsRng::fill_bytes` for `len` bytes. Not proved: anything of what they
/// are. Panics if the system has no random bytes to give.
#[verifier::external_body]
pub(crate) fn random_bytes(len: usize) -> (bytes: Vec<u8>)
    ensures
        bytes@.len() == len,
{
    let mut bytes = vec![0u8; len];
    OsRng.fill_bytes(&mut bytes);
    bytes
}

/// The system's random source gave these bytes, all of them and in this order.
pub closed spec fn drawn(bytes: Seq<u8>) -> bool {
    exists|n: usize, v: Vec<u8>| #[trigger] call_ensures(random_bytes, (n,), v) && v@ == bytes
}

/// Bytes are drawn only by asking the random source for them.
pub(crate) proof fn bytes_are_drawn_from_the_source(bytes: Seq<u8>)
    requires
        drawn(bytes),
    ensures
        exists|n: usize, v: Vec<u8>| #[trigger]
            call_ensures(random_bytes, (n,), v) && v@ == bytes,
{
}

/// Draws `len` bytes from the system's random source.
pub(crate) fn draw(len: usize) -> (bytes: Vec<u8>)
    ensures
        bytes@.len() == len,
        drawn(bytes@),
{
    let bytes = random_bytes(len);
    assert(call_ensures(random_bytes, (len,), bytes));
    bytes
}

/// Calls `Engine::encode` of the `base64` crate's `URL_SAFE_NO_PAD` engine.
/// Taken on trust: that it writes the Base64 of RFC 4648, in the URL-safe
/// alphabet and without padding.
#[verifier::external_body]
fn base64_encode(bytes: &[u8]) -> (text: String)
    requires
        bytes@.len() <= 0xffff,
    ensures
        text@ == base64_url(bytes@),
{
    URL_SAFE_NO_PAD.encode(bytes)
}

/// The numbers below 64 have different characters, all of the alphabet.
proof fn lemma_url_safe_char(v: int, w: int)
    requires
        0 <= v < 64,
        0 <= w < 64,
    ensures
        is_url_safe(url_safe_char(v)),
        url_safe_char(v) == url_safe_char(w) ==> v == w,
{
}

proof fn lemma_sextet_range(bytes: Seq<u8>, i: int)
    requires
        0 <= i,
    ensures
        0 <= sextet(bytes, i) < 64,
{
}

/// Thirty-two bytes make a token.
pub proof fn lemma_token_shape(bytes: Seq<u8>)
    requires
        bytes.len() == TOKEN_BYTES,
    ensures
        is_token(base64_url(bytes)),
{
    let t = base64_url(bytes);
    assert forall|i: int| 0 <= i < t.len() implies is_url_safe(#[trigger] t[i]) by {
        lemma_sextet_range(bytes, i);
        lemma_url_safe_char(sextet(bytes, i), 0);
    }
}

/// Different bytes make different tokens.
pub proof fn distinct_bytes_make_distinct_tokens(a: Seq<u8>, b: Seq<u8>)
    requires
        a.len() == TOKEN_BYTES,
        b.len() == TOKEN_BYTES,
        a != b,
    ensures
        base64_url(a) != base64_url(b),
{
    if base64_url(a) == base64_url(b) {
        assert forall|i: int| 0 <= i < TOKEN_CHARS implies sextet(a, i) == sextet(b, i) by {
            assert(base64_url(a)[i] == base64_url(b)[i]);
            lemma_sextet_range(a, i);
            lemma_sextet_range(b, i);
            lemma_url_safe_char(sextet(a, i), sextet(b, i));
        }
        assert forall|k: int| 0 <= k < TOKEN_BYTES implies a[k] == b[k] by {
            let i = k / 3 * 4 + k % 3;
            assert(sextet(a, i) == sextet(b, i));
            assert(sextet(a, i + 1) == sextet(b, i + 1));
        }
        assert(a =~= b);
    }
}

/// The token that stands for these bytes.
pub fn token_of(bytes: &[u8]) -> (token: String)
    requires
        bytes@.len() == TOKEN_BYTES,
    ensures
        token@ == base64_url(bytes@),
        is_token(token@),
{
    proof {
        lemma_token_shape(bytes@);
    }
    base64_encode(bytes)
}

} // verus!
