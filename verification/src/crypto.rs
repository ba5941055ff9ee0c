//! Digests, random bytes, base64 and comparison in constant time.

use base64::Engine;
use rand::RngCore;
use sha2::Digest;
use subtle::ConstantTimeEq;
use vstd::prelude::*;
use vstd::utf8::encode_utf8_decode_utf8;

use crate::text::is_ascii_alphanumeric;

verus! {

/// The SHA-256 digest of bytes.
pub uninterp spec fn sha256(bytes: Seq<u8>) -> Seq<u8>;

/// The base64 character for six bits. The alphabets differ in the last two.
pub open spec fn base64_char(n: int, next_to_last: char, last: char) -> char {
    if n < 26 {
        (('A' as u32 + n) as u32) as char
    } else if n < 52 {
        (('a' as u32 + n - 26) as u32) as char
    } else if n < 62 {
        (('0' as u32 + n - 52) as u32) as char
    } else if n == 62 {
        next_to_last
    } else {
        last
    }
}

/// Base64 of bytes: four characters for three bytes, six bits each, the highest
/// first. What one or two bytes at the end lack is filled up with zero bits, and
/// with `=` where the text is padded.
pub open spec fn base64_text(
    bytes: Seq<u8>,
    next_to_last: char,
    last: char,
    padded: bool,
) -> Seq<char>
    decreases bytes.len(),
{
    let c = |n: int| base64_char(n, next_to_last, last);
    if bytes.len() == 0 {
        Seq::empty()
    } else if bytes.len() == 1 {
        let x = bytes[0] as int;
        let text = seq![c(x / 4), c(x % 4 * 16)];
        if padded {
            text + seq!['=', '=']
        } else {
            text
        }
    } else if bytes.len() == 2 {
        let (x, y) = (bytes[0] as int, bytes[1] as int);
        let text = seq![c(x / 4), c(x % 4 * 16 + y / 16), c(y % 16 * 4)];
        if padded {
            text + seq!['=']
        } else {
            text
        }
    } else {
        let (x, y, z) = (bytes[0] as int, bytes[1] as int, bytes[2] as int);
        seq![c(x / 4), c(x % 4 * 16 + y / 16), c(y % 16 * 4 + z / 64), c(z % 64)] + base64_text(
            bytes.skip(3),
            next_to_last,
            last,
            padded,
        )
    }
}

/// Base64 of bytes in the alphabet for URLs, without padding.
pub open spec fn base64_url(bytes: Seq<u8>) -> Seq<char> {
    base64_text(bytes, '-', '_', false)
}

/// The number of base64 characters for a number of bytes, without padding.
pub open spec fn base64_url_len(bytes: nat) -> nat {
    (bytes * 4 + 2) / 3
}

/// Base64 of bytes in the standard alphabet, with padding.
pub open spec fn base64_standard(bytes: Seq<u8>) -> Seq<char> {
    base64_text(bytes, '+', '/', true)
}

/// The number of base64 characters for a number of bytes, with padding.
pub open spec fn base64_standard_len(bytes: nat) -> nat {
    (bytes + 2) / 3 * 4
}

/// The characters that need no escape in a URL: letters, digits, `-` and `_`.
pub open spec fn is_url_safe(c: char) -> bool {
    is_ascii_alphanumeric(c) || c == '-' || c == '_'
}

/// Every character needs no escape in a URL.
pub open spec fn is_url_safe_text(s: Seq<char>) -> bool {
    forall|i: int| 0 <= i < s.len() ==> is_url_safe(#[trigger] s[i])
}

/// `sha2::Sha256::digest`: the digest depends on the bytes alone and has 32 bytes.
#[verifier::external_body]
pub(crate) fn sha256_digest(bytes: &[u8]) -> (r: Vec<u8>)
    ensures
        r@ == sha256(bytes@),
        r@.len() == 32,
{
    sha2::Sha256::digest(bytes).to_vec()
}

/// `encode` of `base64`'s `URL_SAFE_NO_PAD`: base64 in the alphabet for URLs,
/// without padding. A text too long for any allocation is not asked for.
#[verifier::external_body]
pub(crate) fn encode_base64_url(bytes: &[u8]) -> (r: String)
    requires
        base64_url_len(bytes@.len()) <= isize::MAX,
    ensures
        r@ == base64_url(bytes@),
{
    base64::engine::general_purpose::URL_SAFE_NO_PAD.encode(bytes)
}

/// `encode` of `base64`'s `STANDARD`: base64 in the standard alphabet, with
/// padding. A text too long for any allocation is not asked for.
#[verifier::external_body]
pub(crate) fn encode_base64_standard(bytes: &[u8]) -> (r: String)
    requires
        base64_standard_len(bytes@.len()) <= isize::MAX,
    ensures
        r@ == base64_standard(bytes@),
{
    base64::engine::general_purpose::STANDARD.encode(bytes)
}

/// `fill_bytes` of `rand`'s `OsRng`: which bytes come is up to the operating
/// system; only their number is known. Where the operating system has no random
/// bytes to give, the call panics.
#[verifier::external_body]
pub(crate) fn random_bytes(count: usize) -> (r: Vec<u8>)
    requires
        count <= isize::MAX,
    ensures
        r@.len() == count,
{
    let mut value = vec![0u8; count];
    rand::rngs::OsRng.fill_bytes(&mut value);
    value
}

/// `subtle`'s `ct_eq` on byte slices: whether they have the same length and bytes.
#[verifier::external_body]
fn bytes_equal(left: &[u8], right: &[u8]) -> (r: bool)
    ensures
        r == (left@ == right@),
{
    left.ct_eq(right).into()
}

/// Whether two texts are the same, found in a time that does not depend on where they differ.
pub fn constant_time_equal(left: &str, right: &str) -> (r: bool)
    ensures
        r == (left@ == right@),
{
    proof {
        encode_utf8_decode_utf8(left@);
        encode_utf8_decode_utf8(right@);
    }
    bytes_equal(left.as_bytes(), right.as_bytes())
}

/// What base64 for URLs looks like: its length follows from the number of bytes,
/// and no character needs an escape.
pub proof fn lemma_base64_url(bytes: Seq<u8>)
    ensures
        base64_url(bytes).len() == base64_url_len(bytes.len()),
        is_url_safe_text(base64_url(bytes)),
    decreases bytes.len(),
{
    if bytes.len() >= 3 {
        lemma_base64_url(bytes.skip(3));
        let rest = base64_url(bytes.skip(3));
        let text = base64_url(bytes);
        assert forall|i: int| 0 <= i < text.len() implies is_url_safe(#[trigger] text[i]) by {
            if i >= 4 {
                assert(text[i] == rest[i - 4]);
            }
        }
    }
}

proof fn lemma_base64_char_injective(n: int, m: int)
    requires
        0 <= n < 64,
        0 <= m < 64,
        base64_char(n, '-', '_') == base64_char(m, '-', '_'),
    ensures
        n == m,
{
}

/// Different bytes have different texts: base64 for URLs loses nothing.
pub proof fn law_base64_url_is_injective(one: Seq<u8>, other: Seq<u8>)
    requires
        base64_url(one) == base64_url(other),
    ensures
        one == other,
    decreases one.len(),
{
    lemma_base64_url(one);
    lemma_base64_url(other);
    assert(one.len() == other.len());
    let text = base64_url(one);
    if one.len() == 1 {
        let (x, u) = (one[0] as int, other[0] as int);
        assert(text[0] == base64_char(x / 4, '-', '_'));
        lemma_base64_char_injective(x / 4, u / 4);
        assert(text[1] == base64_char(x % 4 * 16, '-', '_'));
        lemma_base64_char_injective(x % 4 * 16, u % 4 * 16);
    } else if one.len() == 2 {
        let (x, y) = (one[0] as int, one[1] as int);
        let (u, v) = (other[0] as int, other[1] as int);
        assert(text[0] == base64_char(x / 4, '-', '_'));
        lemma_base64_char_injective(x / 4, u / 4);
        assert(text[1] == base64_char(x % 4 * 16 + y / 16, '-', '_'));
        lemma_base64_char_injective(x % 4 * 16 + y / 16, u % 4 * 16 + v / 16);
        assert(text[2] == base64_char(y % 16 * 4, '-', '_'));
        lemma_base64_char_injective(y % 16 * 4, v % 16 * 4);
    } else if one.len() >= 3 {
        let (x, y, z) = (one[0] as int, one[1] as int, one[2] as int);
        let (u, v, w) = (other[0] as int, other[1] as int, other[2] as int);
        assert(text[0] == base64_char(x / 4, '-', '_'));
        lemma_base64_char_injective(x / 4, u / 4);
        assert(text[1] == base64_char(x % 4 * 16 + y / 16, '-', '_'));
        lemma_base64_char_injective(x % 4 * 16 + y / 16, u % 4 * 16 + v / 16);
        assert(text[2] == base64_char(y % 16 * 4 + z / 64, '-', '_'));
        lemma_base64_char_injective(y % 16 * 4 + z / 64, v % 16 * 4 + w / 64);
        assert(text[3] == base64_char(z % 64, '-', '_'));
        lemma_base64_char_injective(z % 64, w % 64);
        assert(text.skip(4) =~= base64_url(one.skip(3)));
        assert(text.skip(4) =~= base64_url(other.skip(3)));
        law_base64_url_is_injective(one.skip(3), other.skip(3));
        assert forall|i: int| 0 <= i < one.len() implies one[i] == other[i] by {
            if i >= 3 {
                assert(one[i] == one.skip(3)[i - 3]);
                assert(other[i] == other.skip(3)[i - 3]);
            }
        }
    }
    assert(one =~= other);
}

} // verus!
