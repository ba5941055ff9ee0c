//! Forms that are posted to the token and revocation endpoints.

use vstd::prelude::*;

use crate::authorize::pair;
use crate::config::ClientConfig;
use crate::config::ClientView;
use crate::endpoint::endpoint_refusal;
use crate::endpoint::optional_text;
use crate::endpoint::pair_views;
use crate::endpoint::pinned_endpoint;
use crate::endpoint::url_parts;
use crate::metadata::lies_on_origin;
use crate::metadata::OAuthMetadata;
use crate::session::merge_token_response;
use crate::session::renewed_session;
use crate::session::StoredTokens;
use crate::session::TokenResponse;
use crate::session::TokensView;
use crate::session::OAUTH_SCOPE;

verus! {

/// A form and where to post it.
#[derive(Debug, PartialEq)]
pub struct FormRequest {
    pub url: String,
    pub fields: Vec<(String, String)>,
}

/// What a form says and where it goes.
pub struct FormView {
    pub url: Seq<char>,
    pub fields: Seq<(Seq<char>, Seq<char>)>,
}

impl View for FormRequest {
    type V = FormView;

    open spec fn view(&self) -> FormView {
        FormView { url: self.url@, fields: pair_views(self.fields@) }
    }
}

/// What a form says that may be missing.
pub open spec fn optional_form(form: Option<FormRequest>) -> Option<FormView> {
    match form {
        Some(form) => Some(form@),
        None => None,
    }
}

/// What some forms say.
pub open spec fn form_views(forms: Seq<FormRequest>) -> Seq<FormView> {
    forms.map_values(|form: FormRequest| form@)
}

/// What redeems an authorisation code.
pub open spec fn exchange_fields(
    client: ClientView,
    code: Seq<char>,
    verifier: Seq<char>,
) -> Seq<(Seq<char>, Seq<char>)> {
    seq![
        ("grant_type"@, "authorization_code"@),
        ("client_id"@, client.client_id),
        ("code"@, code),
        ("redirect_uri"@, client.callback.redirect_uri),
        ("code_verifier"@, verifier),
    ]
}

/// What renews a session.
pub open spec fn refresh_fields(client_id: Seq<char>, refresh_token: Seq<char>) -> Seq<
    (Seq<char>, Seq<char>),
> {
    seq![
        ("grant_type"@, "refresh_token"@),
        ("client_id"@, client_id),
        ("refresh_token"@, refresh_token),
    ]
}

/// What revokes a token.
pub open spec fn revocation_fields(
    client_id: Option<Seq<char>>,
    token: Seq<char>,
    hint: Seq<char>,
) -> Seq<(Seq<char>, Seq<char>)> {
    let fields = seq![("token"@, token), ("token_type_hint"@, hint)];
    match client_id {
        Some(client_id) => fields.push(("client_id"@, client_id)),
        None => fields,
    }
}

/// The form for the token endpoint, or why the endpoint is refused.
pub open spec fn token_form(
    metadata: OAuthMetadata,
    fields: Seq<(Seq<char>, Seq<char>)>,
) -> Result<FormView, Seq<char>> {
    match endpoint_refusal(metadata.token_endpoint@) {
        Some(reason) => Err(reason),
        None => Ok(FormView { url: url_parts(metadata.token_endpoint@)->0.href, fields }),
    }
}

/// The form that revokes a token, unless the endpoint is refused.
pub open spec fn revocation_form(
    metadata: OAuthMetadata,
    client_id: Option<Seq<char>>,
    token: Seq<char>,
    hint: Seq<char>,
) -> Option<FormView> {
    match endpoint_refusal(metadata.revocation_endpoint@) {
        Some(_) => None,
        None => Some(
            FormView {
                url: url_parts(metadata.revocation_endpoint@)->0.href,
                fields: revocation_fields(client_id, token, hint),
            },
        ),
    }
}

fn request_tokens(metadata: &OAuthMetadata, fields: Vec<(String, String)>) -> (r: Result<
    FormRequest,
    String,
>)
    ensures
        match r {
            Ok(form) => token_form(*metadata, pair_views(fields@)) == Ok::<FormView, Seq<char>>(
                form@,
            ),
            Err(reason) => token_form(*metadata, pair_views(fields@)) == Err::<FormView, Seq<char>>(
                reason@,
            ),
        },
{
    match pinned_endpoint(metadata.token_endpoint.as_str()) {
        Err(reason) => Err(reason),
        Ok(url) => Ok(FormRequest { url: url.href, fields }),
    }
}

/// The form that redeems an authorisation code.
pub fn exchange_request(
    metadata: &OAuthMetadata,
    client: &ClientConfig,
    code: &str,
    verifier: &str,
) -> (r: Result<FormRequest, String>)
    ensures
        match r {
            Ok(form) => token_form(*metadata, exchange_fields(client@, code@, verifier@)) == Ok::<
                FormView,
                Seq<char>,
            >(form@),
            Err(reason) => token_form(*metadata, exchange_fields(client@, code@, verifier@))
                == Err::<FormView, Seq<char>>(reason@),
        },
{
    let mut fields: Vec<(String, String)> = Vec::new();
    fields.push(pair("grant_type", "authorization_code"));
    fields.push(pair("client_id", client.client_id.as_str()));
    fields.push(pair("code", code));
    fields.push(pair("redirect_uri", client.callback.redirect_uri.as_str()));
    fields.push(pair("code_verifier", verifier));
    assert(pair_views(fields@) =~= exchange_fields(client@, code@, verifier@));
    request_tokens(metadata, fields)
}

/// The form that renews a session.
pub fn refresh_request(metadata: &OAuthMetadata, client_id: &str, refresh_token: &str) -> (r:
    Result<FormRequest, String>)
    ensures
        match r {
            Ok(form) => token_form(*metadata, refresh_fields(client_id@, refresh_token@)) == Ok::<
                FormView,
                Seq<char>,
            >(form@),
            Err(reason) => token_form(*metadata, refresh_fields(client_id@, refresh_token@))
                == Err::<FormView, Seq<char>>(reason@),
        },
{
    let mut fields: Vec<(String, String)> = Vec::new();
    fields.push(pair("grant_type", "refresh_token"));
    fields.push(pair("client_id", client_id));
    fields.push(pair("refresh_token", refresh_token));
    assert(pair_views(fields@) =~= refresh_fields(client_id@, refresh_token@));
    request_tokens(metadata, fields)
}

/// The form that revokes a token.
pub fn revoke_request(
    metadata: &OAuthMetadata,
    client_id: &Option<String>,
    token: &str,
    hint: &str,
) -> (r: Option<FormRequest>)
    ensures
        optional_form(r) == revocation_form(*metadata, optional_text(*client_id), token@, hint@),
{
    match pinned_endpoint(metadata.revocation_endpoint.as_str()) {
        Err(_) => None,
        Ok(url) => {
            let mut fields: Vec<(String, String)> = Vec::new();
            fields.push(pair("token", token));
            fields.push(pair("token_type_hint", hint));
            if let Some(client_id) = client_id {
                fields.push(pair("client_id", client_id.as_str()));
            }
            assert(pair_views(fields@) =~= revocation_fields(
                optional_text(*client_id),
                token@,
                hint@,
            ));
            Some(FormRequest { url: url.href, fields })
        },
    }
}

/// The session before an authorisation: no tokens, the scopes that are asked for, nobody.
pub open spec fn no_session() -> TokensView {
    TokensView {
        access_token: Seq::empty(),
        refresh_token: Seq::empty(),
        expires_at: 0,
        scope: OAUTH_SCOPE@,
        profile: None,
    }
}

/// The session that the redemption of a code begins.
pub fn exchange_code(response: TokenResponse, now: u64) -> (r: Result<StoredTokens, String>)
    ensures
        match r {
            Ok(tokens) => renewed_session(no_session(), response, now) == Ok::<
                TokensView,
                Seq<char>,
            >(tokens@),
            Err(reason) => renewed_session(no_session(), response, now) == Err::<
                TokensView,
                Seq<char>,
            >(reason@),
        },
{
    let empty: StoredTokens = StoredTokens {
        access_token: String::new(),
        refresh_token: String::new(),
        expires_at: 0,
        scope: OAUTH_SCOPE.to_owned(),
        profile: None,
    };
    assert(empty@ == no_session());
    merge_token_response(&empty, response, now)
}

/// A code is redeemed with what it was asked for with: the client, its redirect URI,
/// and the verifier.
pub proof fn law_redemptions_name_code_and_verifier(
    client: ClientView,
    code: Seq<char>,
    verifier: Seq<char>,
)
    ensures
        ({
            let fields = exchange_fields(client, code, verifier);
            &&& fields.len() == 5
            &&& fields[0] == ("grant_type"@, "authorization_code"@)
            &&& fields[1] == ("client_id"@, client.client_id)
            &&& fields[2] == ("code"@, code)
            &&& fields[3] == ("redirect_uri"@, client.callback.redirect_uri)
            &&& fields[4] == ("code_verifier"@, verifier)
        }),
{
}

/// A session is renewed with its refresh token, in the name of the client.
pub proof fn law_renewals_name_the_refresh_token(client_id: Seq<char>, refresh_token: Seq<char>)
    ensures
        ({
            let fields = refresh_fields(client_id, refresh_token);
            &&& fields.len() == 3
            &&& fields[0] == ("grant_type"@, "refresh_token"@)
            &&& fields[1] == ("client_id"@, client_id)
            &&& fields[2] == ("refresh_token"@, refresh_token)
        }),
{
}

/// A form for the token endpoint goes there with its fields as they are, exactly where
/// the endpoint lies on the pinned origin.
pub proof fn law_token_forms_go_to_the_token_endpoint(
    metadata: OAuthMetadata,
    fields: Seq<(Seq<char>, Seq<char>)>,
)
    ensures
        lies_on_origin(metadata.token_endpoint@) <==> token_form(metadata, fields) is Ok,
        token_form(metadata, fields) matches Ok(form) ==> form.url == url_parts(
            metadata.token_endpoint@,
        )->0.href && form.fields == fields,
{
}

/// A token is revoked at the revocation endpoint, with what it is, and in the name of
/// the client where there is one; exactly where the endpoint lies on the pinned origin.
pub proof fn law_revocations_name_the_token(
    metadata: OAuthMetadata,
    client_id: Option<Seq<char>>,
    token: Seq<char>,
    hint: Seq<char>,
)
    ensures
        lies_on_origin(metadata.revocation_endpoint@) <==> revocation_form(
            metadata,
            client_id,
            token,
            hint,
        ) is Some,
        revocation_form(metadata, client_id, token, hint) matches Some(form) ==> {
            &&& form.url == url_parts(metadata.revocation_endpoint@)->0.href
            &&& form.fields[0] == ("token"@, token)
            &&& form.fields[1] == ("token_type_hint"@, hint)
            &&& client_id is None ==> form.fields.len() == 2
            &&& client_id matches Some(id) ==> form.fields.len() == 3 && form.fields[2] == (
                "client_id"@,
                id,
            )
        },
{
}

/// Before an authorisation there are no tokens and nobody, and the scopes are the two
/// that are asked for.
pub proof fn law_nothing_is_there_before_an_authorization()
    ensures
        no_session().access_token.len() == 0,
        no_session().refresh_token.len() == 0,
        no_session().scope == "api:access profile:read"@,
        no_session().profile is None,
{
}

/// What a form says is all that it holds.
pub proof fn law_forms_show_every_field(form: FormRequest, forms: Seq<FormRequest>)
    ensures
        form@.url == form.url@,
        form@.fields == pair_views(form.fields@),
        form_views(forms).len() == forms.len(),
        forall|i: int| 0 <= i < forms.len() ==> #[trigger] form_views(forms)[i] == forms[i]@,
        optional_form(Some(form)) == Some(form@),
        optional_form(None) is None,
{
}

} // verus!
