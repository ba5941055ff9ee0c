//! Proof Key for Code Exchange: the secrets of one authorisation.

use vstd::prelude::*;
use vstd::utf8::encode_utf8;

use crate::crypto::base64_url;
use crate::crypto::base64_url_len;
use crate::crypto::encode_base64_url;
use crate::crypto::is_url_safe_text;
use crate::crypto::law_base64_url_is_injective;
use crate::crypto::lemma_base64_url;
use crate::crypto::random_bytes;
use crate::crypto::sha256;
use crate::crypto::sha256_digest;

verus! {

/// The secrets of one authorisation: the state that the callback must repeat, the
/// verifier that redeems the code, and the challenge that commits to the verifier.
#[derive(Debug, PartialEq)]
pub struct PkceMaterial {
    pub state: String,
    pub verifier: String,
    pub challenge: String,
}

/// The challenge of the method `S256`.
pub open spec fn s256_challenge(verifier: Seq<char>) -> Seq<char> {
    base64_url(sha256(encode_utf8(verifier)))
}

/// The challenge commits to the verifier by the method `S256`.
pub open spec fn is_s256(pkce: PkceMaterial) -> bool {
    pkce.challenge@ == s256_challenge(pkce.verifier@)
}

/// The state stands for one block of bytes, the verifier for another, and the
/// challenge commits to the verifier.
pub open spec fn is_made_from(
    pkce: PkceMaterial,
    state_bytes: Seq<u8>,
    verifier_bytes: Seq<u8>,
) -> bool {
    &&& pkce.state@ == base64_url(state_bytes)
    &&& pkce.verifier@ == base64_url(verifier_bytes)
    &&& is_s256(pkce)
}

/// The secrets are as they are drawn: the state stands for 32 bytes, the verifier for
/// 64 others, the challenge commits to the verifier, and none needs an escape in a URL.
pub open spec fn is_drawn(pkce: PkceMaterial) -> bool {
    &&& exists|state_bytes: Seq<u8>, verifier_bytes: Seq<u8>|
        state_bytes.len() == 32 && verifier_bytes.len() == 64 && #[trigger] is_made_from(
            pkce,
            state_bytes,
            verifier_bytes,
        )
    &&& pkce.state@.len() == 43
    &&& is_url_safe_text(pkce.state@)
    &&& pkce.verifier@.len() == 86
    &&& is_url_safe_text(pkce.verifier@)
    &&& pkce.challenge@.len() == 43
    &&& is_url_safe_text(pkce.challenge@)
}

/// The text stands for some bytes of the given number.
pub open spec fn stands_for_bytes(text: Seq<char>, count: nat) -> bool {
    exists|drawn: Seq<u8>| drawn.len() == count && text == #[trigger] base64_url(drawn)
}

/// Bytes, as a text for URLs.
pub fn urlsafe_text(bytes: &[u8]) -> (r: String)
    requires
        base64_url_len(bytes@.len()) <= isize::MAX,
    ensures
        r@ == base64_url(bytes@),
        r@.len() == base64_url_len(bytes@.len()),
        is_url_safe_text(r@),
{
    proof {
        lemma_base64_url(bytes@);
    }
    encode_base64_url(bytes)
}

/// Random bytes, as a text for URLs. Which bytes come is left open.
pub fn random_urlsafe(bytes: usize) -> (r: Result<String, String>)
    requires
        base64_url_len(bytes as nat) <= isize::MAX,
    ensures
        r matches Ok(text) && text@.len() == base64_url_len(bytes as nat) && is_url_safe_text(
            text@,
        ),
        r matches Ok(text) && stands_for_bytes(text@, bytes as nat),
{
    let drawn: Vec<u8> = random_bytes(bytes);
    let text: String = urlsafe_text(drawn.as_slice());
    assert(stands_for_bytes(text@, bytes as nat));
    Ok(text)
}

/// The challenge that commits to a verifier.
pub fn pkce_challenge(verifier: &str) -> (r: String)
    ensures
        r@ == s256_challenge(verifier@),
        r@.len() == 43,
        is_url_safe_text(r@),
{
    urlsafe_text(sha256_digest(verifier.as_bytes()).as_slice())
}

/// The secrets of an authorisation with the given state and verifier.
pub fn pkce_material(state: String, verifier: String) -> (r: PkceMaterial)
    ensures
        r.state == state,
        r.verifier == verifier,
        is_s256(r),
        r.challenge@.len() == 43,
        is_url_safe_text(r.challenge@),
{
    let challenge: String = pkce_challenge(verifier.as_str());
    PkceMaterial { state, verifier, challenge }
}

/// The secrets of an authorisation that two blocks of bytes make: the first the
/// state, and the second the verifier.
pub fn pkce_from_bytes(state_bytes: &[u8], verifier_bytes: &[u8]) -> (r: PkceMaterial)
    requires
        base64_url_len(state_bytes@.len()) <= isize::MAX,
        base64_url_len(verifier_bytes@.len()) <= isize::MAX,
    ensures
        is_made_from(r, state_bytes@, verifier_bytes@),
        r.state@.len() == base64_url_len(state_bytes@.len()),
        is_url_safe_text(r.state@),
        r.verifier@.len() == base64_url_len(verifier_bytes@.len()),
        is_url_safe_text(r.verifier@),
        r.challenge@.len() == 43,
        is_url_safe_text(r.challenge@),
{
    pkce_material(urlsafe_text(state_bytes), urlsafe_text(verifier_bytes))
}

/// Fresh secrets: a state of 32 random bytes and a verifier of 64 others.
pub fn generate_pkce() -> (r: Result<PkceMaterial, String>)
    ensures
        r matches Ok(pkce) && is_drawn(pkce),
{
    let state_bytes: Vec<u8> = random_bytes(32);
    let verifier_bytes: Vec<u8> = random_bytes(64);
    let pkce: PkceMaterial = pkce_from_bytes(state_bytes.as_slice(), verifier_bytes.as_slice());
    assert(is_made_from(pkce, state_bytes@, verifier_bytes@));
    Ok(pkce)
}

/// Different random bytes make different secrets: the state tells the bytes that it
/// was made from, and so does the verifier.
pub proof fn law_different_bytes_make_different_secrets(
    first: PkceMaterial,
    first_state: Seq<u8>,
    first_verifier: Seq<u8>,
    second: PkceMaterial,
    second_state: Seq<u8>,
    second_verifier: Seq<u8>,
)
    requires
        is_made_from(first, first_state, first_verifier),
        is_made_from(second, second_state, second_verifier),
    ensures
        first_state != second_state ==> first.state@ != second.state@,
        first_verifier != second_verifier ==> first.verifier@ != second.verifier@,
{
    if first.state@ == second.state@ {
        law_base64_url_is_injective(first_state, second_state);
    }
    if first.verifier@ == second.verifier@ {
        law_base64_url_is_injective(first_verifier, second_verifier);
    }
}

/// The challenge is the base64 for URLs of the SHA-256 digest of the verifier's bytes.
pub proof fn law_challenges_are_digests(pkce: PkceMaterial)
    ensures
        is_s256(pkce) <==> pkce.challenge@ == base64_url(sha256(encode_utf8(pkce.verifier@))),
{
}

} // verus!
