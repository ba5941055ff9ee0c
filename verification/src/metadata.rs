//! The OAuth metadata of the service and what it must promise.

use vstd::prelude::*;

use crate::endpoint::endpoint_refusal;
use crate::endpoint::is_pinned;
use crate::endpoint::pinned_endpoint;
use crate::endpoint::url_parts;
use crate::text::text_eq;
use crate::text::trim_trailing;
use crate::text::without_trailing;

verus! {

/// The issuer that the metadata must name.
pub const ISSUER: &'static str = "https://aipass.one";

/// Where the service publishes its metadata.
pub const METADATA_URL: &'static str = "https://aipass.one/.well-known/oauth-authorization-server";

/// What the service says of its OAuth endpoints.
#[derive(Debug, PartialEq)]
pub struct OAuthMetadata {
    pub issuer: String,
    pub authorization_endpoint: String,
    pub token_endpoint: String,
    pub userinfo_endpoint: String,
    pub revocation_endpoint: String,
    pub scopes_supported: Vec<String>,
    pub response_types_supported: Vec<String>,
    pub grant_types_supported: Vec<String>,
    pub code_challenge_methods_supported: Vec<String>,
    pub token_endpoint_auth_methods_supported: Vec<String>,
}

/// A list names an item.
pub open spec fn advertises(list: Seq<String>, item: Seq<char>) -> bool {
    exists|i: int| 0 <= i < list.len() && (#[trigger] list[i])@ == item
}

/// Whether a list names an item.
fn is_advertised(list: &Vec<String>, item: &str) -> (r: bool)
    ensures
        r == advertises(list@, item@),
{
    let mut i: usize = 0;
    while i < list.len()
        invariant
            i <= list.len(),
            forall|k: int| 0 <= k < i ==> (#[trigger] list@[k])@ != item@,
        decreases list.len() - i,
    {
        if text_eq(list[i].as_str(), item) {
            assert(list@[i as int]@ == item@);
            return true;
        }
        i += 1;
    }
    false
}

/// Why the first endpoint that is refused is refused.
pub open spec fn endpoints_refusal(metadata: OAuthMetadata) -> Option<Seq<char>> {
    if endpoint_refusal(metadata.authorization_endpoint@) is Some {
        endpoint_refusal(metadata.authorization_endpoint@)
    } else if endpoint_refusal(metadata.token_endpoint@) is Some {
        endpoint_refusal(metadata.token_endpoint@)
    } else if endpoint_refusal(metadata.userinfo_endpoint@) is Some {
        endpoint_refusal(metadata.userinfo_endpoint@)
    } else {
        endpoint_refusal(metadata.revocation_endpoint@)
    }
}

/// Why metadata is refused, if it is.
pub open spec fn metadata_refusal(metadata: OAuthMetadata) -> Option<Seq<char>> {
    if without_trailing(metadata.issuer@, '/') != ISSUER@ {
        Some("AI Pass OAuth metadata issuer mismatch."@)
    } else if endpoints_refusal(metadata) is Some {
        endpoints_refusal(metadata)
    } else if !advertises(metadata.code_challenge_methods_supported@, "S256"@) {
        Some("AI Pass does not advertise PKCE S256."@)
    } else if !advertises(metadata.token_endpoint_auth_methods_supported@, "none"@) {
        Some("AI Pass does not advertise public-client token exchange."@)
    } else if !advertises(metadata.response_types_supported@, "code"@) || !advertises(
        metadata.grant_types_supported@,
        "authorization_code"@,
    ) || !advertises(metadata.grant_types_supported@, "refresh_token"@) {
        Some("AI Pass OAuth metadata does not support the required grants."@)
    } else if !advertises(metadata.scopes_supported@, "api:access"@) || !advertises(
        metadata.scopes_supported@,
        "profile:read"@,
    ) {
        Some("AI Pass OAuth metadata does not support the required scopes."@)
    } else {
        None
    }
}

/// Refuses metadata that lacks what the client relies on.
pub fn validate_metadata(metadata: &OAuthMetadata) -> (r: Result<(), String>)
    ensures
        match r {
            Ok(_) => metadata_refusal(*metadata) is None,
            Err(reason) => metadata_refusal(*metadata) == Some(reason@),
        },
{
    let issuer: String = trim_trailing(metadata.issuer.as_str(), '/');
    if !text_eq(issuer.as_str(), ISSUER) {
        return Err("AI Pass OAuth metadata issuer mismatch.".to_owned());
    }
    if let Err(reason) = pinned_endpoint(metadata.authorization_endpoint.as_str()) {
        return Err(reason);
    }
    if let Err(reason) = pinned_endpoint(metadata.token_endpoint.as_str()) {
        return Err(reason);
    }
    if let Err(reason) = pinned_endpoint(metadata.userinfo_endpoint.as_str()) {
        return Err(reason);
    }
    if let Err(reason) = pinned_endpoint(metadata.revocation_endpoint.as_str()) {
        return Err(reason);
    }
    if !is_advertised(&metadata.code_challenge_methods_supported, "S256") {
        return Err("AI Pass does not advertise PKCE S256.".to_owned());
    }
    if !is_advertised(&metadata.token_endpoint_auth_methods_supported, "none") {
        return Err("AI Pass does not advertise public-client token exchange.".to_owned());
    }
    if !is_advertised(&metadata.response_types_supported, "code") || !is_advertised(
        &metadata.grant_types_supported,
        "authorization_code",
    ) || !is_advertised(&metadata.grant_types_supported, "refresh_token") {
        return Err("AI Pass OAuth metadata does not support the required grants.".to_owned());
    }
    if !is_advertised(&metadata.scopes_supported, "api:access") || !is_advertised(
        &metadata.scopes_supported,
        "profile:read",
    ) {
        return Err("AI Pass OAuth metadata does not support the required scopes.".to_owned());
    }
    Ok(())
}

/// Why a reply brings no usable metadata, if it brings none.
pub open spec fn reply_refusal(reply: Result<OAuthMetadata, String>) -> Option<Seq<char>> {
    match reply {
        Err(reason) => Some(reason@),
        Ok(metadata) => metadata_refusal(metadata),
    }
}

/// The metadata that a reply brings, once it is found to promise what the client relies on.
pub fn accept_metadata(reply: Result<OAuthMetadata, String>) -> (r: Result<OAuthMetadata, String>)
    ensures
        match r {
            Ok(metadata) => reply == Ok::<OAuthMetadata, String>(metadata) && metadata_refusal(
                metadata,
            ) is None,
            Err(reason) => reply_refusal(reply) == Some(reason@),
        },
{
    match reply {
        Err(reason) => Err(reason),
        Ok(metadata) => match validate_metadata(&metadata) {
            Err(reason) => Err(reason),
            Ok(_) => Ok(metadata),
        },
    }
}

/// Metadata that is accepted names the pinned issuer, keeps every endpoint on the
/// pinned origin, and offers the code flow with PKCE for public clients.
pub proof fn law_accepted_metadata_keeps_its_promises(metadata: OAuthMetadata)
    requires
        metadata_refusal(metadata) is None,
    ensures
        without_trailing(metadata.issuer@, '/') == ISSUER@,
        url_parts(metadata.authorization_endpoint@) matches Some(url) && is_pinned(url),
        url_parts(metadata.token_endpoint@) matches Some(url) && is_pinned(url),
        url_parts(metadata.userinfo_endpoint@) matches Some(url) && is_pinned(url),
        url_parts(metadata.revocation_endpoint@) matches Some(url) && is_pinned(url),
        advertises(metadata.code_challenge_methods_supported@, "S256"@),
        advertises(metadata.token_endpoint_auth_methods_supported@, "none"@),
        advertises(metadata.response_types_supported@, "code"@),
        advertises(metadata.grant_types_supported@, "authorization_code"@),
        advertises(metadata.grant_types_supported@, "refresh_token"@),
        advertises(metadata.scopes_supported@, "api:access"@),
        advertises(metadata.scopes_supported@, "profile:read"@),
{
}

/// The URL is on the pinned origin: `https`, the host `aipass.one`, the port 443, and
/// neither credentials nor a fragment.
pub open spec fn lies_on_origin(endpoint: Seq<char>) -> bool {
    url_parts(endpoint) matches Some(url) && {
        &&& url.scheme == "https"@
        &&& url.host == Some("aipass.one"@)
        &&& url.effective_port == Some(443u16)
        &&& url.username.len() == 0
        &&& url.password == None::<Seq<char>>
        &&& url.fragment == None::<Seq<char>>
    }
}

/// Some item of the list is the text, at whatever place.
pub open spec fn offers(list: Seq<String>, item: Seq<char>) -> bool {
    list.map_values(|text: String| text@).contains(item)
}

proof fn lemma_offers(list: Seq<String>, item: Seq<char>)
    ensures
        offers(list, item) == advertises(list, item),
{
    let texts = list.map_values(|text: String| text@);
    if advertises(list, item) {
        let i = choose|i: int| 0 <= i < list.len() && (#[trigger] list[i])@ == item;
        assert(texts[i] == item);
    }
    if offers(list, item) {
        let i = choose|i: int| 0 <= i < texts.len() && texts[i] == item;
        assert(list[i]@ == item);
    }
}

/// Metadata is accepted exactly where it names the pinned issuer, all four endpoints
/// lie on the pinned origin, and it offers what the client uses, in whatever order
/// and whatever else it offers.
pub proof fn law_metadata_is_accepted_for_what_it_offers(metadata: OAuthMetadata)
    ensures
        metadata_refusal(metadata) is None <==> {
            &&& without_trailing(metadata.issuer@, '/') == "https://aipass.one"@
            &&& lies_on_origin(metadata.authorization_endpoint@)
            &&& lies_on_origin(metadata.token_endpoint@)
            &&& lies_on_origin(metadata.userinfo_endpoint@)
            &&& lies_on_origin(metadata.revocation_endpoint@)
            &&& offers(metadata.code_challenge_methods_supported@, "S256"@)
            &&& offers(metadata.token_endpoint_auth_methods_supported@, "none"@)
            &&& offers(metadata.response_types_supported@, "code"@)
            &&& offers(metadata.grant_types_supported@, "authorization_code"@)
            &&& offers(metadata.grant_types_supported@, "refresh_token"@)
            &&& offers(metadata.scopes_supported@, "api:access"@)
            &&& offers(metadata.scopes_supported@, "profile:read"@)
        },
{
    lemma_offers(metadata.code_challenge_methods_supported@, "S256"@);
    lemma_offers(metadata.token_endpoint_auth_methods_supported@, "none"@);
    lemma_offers(metadata.response_types_supported@, "code"@);
    lemma_offers(metadata.grant_types_supported@, "authorization_code"@);
    lemma_offers(metadata.grant_types_supported@, "refresh_token"@);
    lemma_offers(metadata.scopes_supported@, "api:access"@);
    lemma_offers(metadata.scopes_supported@, "profile:read"@);
}

/// The first thing that is wrong with metadata is the reason why it is refused.
pub proof fn law_refused_metadata_says_what_is_wrong(metadata: OAuthMetadata)
    ensures
        ({
            let issuer = without_trailing(metadata.issuer@, '/') == "https://aipass.one"@;
            let all = seq![
                metadata.authorization_endpoint@,
                metadata.token_endpoint@,
                metadata.userinfo_endpoint@,
                metadata.revocation_endpoint@,
            ];
            let endpoints = forall|i: int| 0 <= i < 4 ==> lies_on_origin(#[trigger] all[i]);
            let challenge = offers(metadata.code_challenge_methods_supported@, "S256"@);
            let public = offers(metadata.token_endpoint_auth_methods_supported@, "none"@);
            let grants = offers(metadata.response_types_supported@, "code"@) && offers(
                metadata.grant_types_supported@,
                "authorization_code"@,
            ) && offers(metadata.grant_types_supported@, "refresh_token"@);
            let refusal = metadata_refusal(metadata);
            &&& !issuer ==> refusal == Some("AI Pass OAuth metadata issuer mismatch."@)
            &&& issuer && !endpoints ==> exists|i: int|
                {
                    &&& 0 <= i < 4
                    &&& !lies_on_origin(#[trigger] all[i])
                    &&& forall|k: int| 0 <= k < i ==> lies_on_origin(#[trigger] all[k])
                    &&& refusal == (if url_parts(all[i]) is None {
                        Some("AI Pass OAuth metadata contains an invalid endpoint."@)
                    } else {
                        Some("AI Pass OAuth metadata endpoint is outside the pinned origin."@)
                    })
                }
            &&& issuer && endpoints && !challenge ==> refusal == Some(
                "AI Pass does not advertise PKCE S256."@,
            )
            &&& issuer && endpoints && challenge && !public ==> refusal == Some(
                "AI Pass does not advertise public-client token exchange."@,
            )
            &&& issuer && endpoints && challenge && public && !grants ==> refusal == Some(
                "AI Pass OAuth metadata does not support the required grants."@,
            )
            &&& issuer && endpoints && challenge && public && grants && refusal is Some ==> refusal
                == Some("AI Pass OAuth metadata does not support the required scopes."@)
        }),
{
    lemma_offers(metadata.code_challenge_methods_supported@, "S256"@);
    lemma_offers(metadata.token_endpoint_auth_methods_supported@, "none"@);
    lemma_offers(metadata.response_types_supported@, "code"@);
    lemma_offers(metadata.grant_types_supported@, "authorization_code"@);
    lemma_offers(metadata.grant_types_supported@, "refresh_token"@);
    let all = seq![
        metadata.authorization_endpoint@,
        metadata.token_endpoint@,
        metadata.userinfo_endpoint@,
        metadata.revocation_endpoint@,
    ];
    assert(all[0] == metadata.authorization_endpoint@);
    assert(all[1] == metadata.token_endpoint@);
    assert(all[2] == metadata.userinfo_endpoint@);
    assert(all[3] == metadata.revocation_endpoint@);
}

/// The metadata is where the issuer publishes it.
pub proof fn law_metadata_is_where_the_issuer_publishes_it()
    ensures
        METADATA_URL@ == ISSUER@ + "/.well-known/oauth-authorization-server"@,
{
    reveal_strlit("https://aipass.one/.well-known/oauth-authorization-server");
    reveal_strlit("https://aipass.one");
    reveal_strlit("/.well-known/oauth-authorization-server");
    assert(METADATA_URL@ =~= ISSUER@ + "/.well-known/oauth-authorization-server"@);
}

} // verus!
