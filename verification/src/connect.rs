//! Signing in: from the browser's authorisation to a stored session.

use vstd::prelude::*;

use crate::authorize::authorization_outcome;
use crate::authorize::authorization_query;
use crate::authorize::authorization_url;
use crate::authorize::wait_outcome;
use crate::authorize::CallbackWait;
use crate::config::client_config;
use crate::config::configured_client;
use crate::config::ClientConfig;
use crate::config::Settings;
use crate::endpoint::endpoint_refusal;
use crate::endpoint::extends_pinned_url;
use crate::endpoint::has_room_for_pairs;
use crate::endpoint::is_pinned_url;
use crate::endpoint::lemma_pairs_extend_url;
use crate::endpoint::pinned_endpoint;
use crate::endpoint::takes_pairs;
use crate::endpoint::url_parts;
use crate::endpoint::url_with_pairs;
use crate::endpoint::CallbackConfig;
use crate::forms::exchange_code;
use crate::forms::exchange_fields;
use crate::forms::exchange_request;
use crate::forms::form_views;
use crate::forms::no_session;
use crate::forms::revocation_form;
use crate::forms::revoke_request;
use crate::forms::token_form;
use crate::forms::FormRequest;
use crate::forms::FormView;
use crate::metadata::accept_metadata;
use crate::metadata::lies_on_origin;
use crate::metadata::metadata_refusal;
use crate::metadata::reply_refusal;
use crate::metadata::OAuthMetadata;
use crate::pkce::generate_pkce;
use crate::pkce::is_drawn;
use crate::pkce::s256_challenge;
use crate::pkce::PkceMaterial;
use crate::session::lasts;
use crate::session::law_refused_replies_show_no_token;
use crate::session::renewed_session;
use crate::session::renews;
use crate::session::replies_alike;
use crate::session::same_person;
use crate::session::AiPassProfile;
use crate::session::StoredTokens;
use crate::session::TokenResponse;
use crate::session::TokensView;
use crate::text::text_eq;

verus! {

/// One authorisation: the client, the service and the secrets.
pub struct Attempt {
    pub client: ClientConfig,
    pub metadata: OAuthMetadata,
    pub pkce: PkceMaterial,
}

/// How far signing in has come.
pub enum ConnectFlow {
    /// The metadata is being loaded.
    LoadingMetadata { client: ClientConfig },
    /// The callback's address is being bound.
    Binding { attempt: Attempt },
    /// The callback is served, and the browser is being opened.
    OpeningBrowser { attempt: Attempt },
    /// The callback is awaited.
    AwaitingCallback { attempt: Attempt },
    /// The code is being redeemed.
    Exchanging { client: ClientConfig, metadata: OAuthMetadata },
    /// The profile is being fetched.
    FetchingProfile { client: ClientConfig, metadata: OAuthMetadata, tokens: StoredTokens },
    /// The session is being stored.
    Persisting { client: ClientConfig, metadata: OAuthMetadata, tokens: StoredTokens },
    /// Tokens that are not kept are being revoked; then a failure is reported, if there was one.
    Revoking { failure: Option<String> },
    /// Signing in is over.
    Finished,
}

/// What signing in learns.
pub enum ConnectEvent {
    /// The metadata of the service.
    Metadata { reply: Result<OAuthMetadata, String> },
    /// Whether the callback's address was bound.
    Bound { bound: bool },
    /// Whether the browser was opened.
    Opened { opened: Result<(), String> },
    /// How the wait for the callback ended.
    Callback { wait: CallbackWait },
    /// The reply of the token endpoint, and the time.
    Tokens { response: Result<TokenResponse, String>, now: u64 },
    /// The profile, or why it could not be fetched.
    Profile { profile: Result<Option<AiPassProfile>, String> },
    /// The session that was there before the new one was stored, or why it was not stored.
    Persisted { previous: Result<Option<StoredTokens>, String> },
    /// The revocations were tried.
    Revoked,
}

/// What signing in asks for.
pub enum ConnectAction {
    /// Load the metadata of the service.
    LoadMetadata,
    /// Bind the callback's address.
    Bind { callback: CallbackConfig },
    /// Serve the callback for this state, and open the browser at this URL.
    Authorize { url: String, expected_state: String },
    /// Wait for the callback, and serve it no longer.
    AwaitCallback,
    /// Post a form to the token endpoint.
    RequestTokens { form: FormRequest },
    /// Get the profile at this URL with this access token.
    FetchProfile { url: String, access_token: String },
    /// Store a session and say which one was there before.
    Persist { tokens: StoredTokens },
    /// Post forms to the revocation endpoint, whatever comes of it.
    Revoke { forms: Vec<FormRequest> },
    /// Report the status: the session is stored.
    ReportStatus,
    /// Report why signing in failed.
    Fail { reason: String },
    /// Nothing: what was learnt does not belong here.
    Ignore,
}

/// Signing in ends with a failure.
pub open spec fn fails_with(flow: ConnectFlow, action: ConnectAction, reason: Seq<char>) -> bool {
    &&& flow is Finished
    &&& action matches ConnectAction::Fail { reason: given } && given@ == reason
}

/// The forms that revoke both tokens of a session.
pub open spec fn session_revocations(
    metadata: OAuthMetadata,
    client_id: Seq<char>,
    tokens: TokensView,
) -> Seq<FormView> {
    match (
        revocation_form(metadata, Some(client_id), tokens.access_token, "access_token"@),
        revocation_form(metadata, Some(client_id), tokens.refresh_token, "refresh_token"@),
    ) {
        (Some(access), Some(refresh)) => seq![access, refresh],
        _ => Seq::empty(),
    }
}

/// Two sessions have not both tokens in common.
pub open spec fn tokens_differ(one: TokensView, other: TokensView) -> bool {
    one.access_token != other.access_token || one.refresh_token != other.refresh_token
}

/// Why the browser cannot be sent to the service, if it cannot. An endpoint that
/// leaves no room for a query is as good as none.
pub open spec fn authorization_refusal(endpoint: Seq<char>) -> Option<Seq<char>> {
    if endpoint_refusal(endpoint) is Some {
        endpoint_refusal(endpoint)
    } else if !takes_pairs(url_parts(endpoint)->0) {
        Some("AI Pass OAuth metadata contains an invalid endpoint."@)
    } else {
        None
    }
}

/// What the browser is asked for in an attempt.
pub open spec fn asks_browser(action: ConnectAction, attempt: Attempt) -> bool {
    action matches ConnectAction::Authorize { url, expected_state } && {
        &&& expected_state@ == attempt.pkce.state@
        &&& url@ == url_with_pairs(
            url_parts(attempt.metadata.authorization_endpoint@)->0,
            authorization_query(
                attempt.client@,
                attempt.pkce.state@,
                attempt.pkce.challenge@,
            ),
        )
    }
}

/// What follows from what signing in learns.
pub open spec fn connect_step(
    flow: ConnectFlow,
    event: ConnectEvent,
    next: ConnectFlow,
    action: ConnectAction,
) -> bool {
    match (flow, event) {
        (ConnectFlow::LoadingMetadata { client }, ConnectEvent::Metadata { reply }) => {
            match reply_refusal(reply) {
                Some(reason) => fails_with(next, action, reason),
                None => {
                    &&& next matches ConnectFlow::Binding { attempt } && attempt.client == client
                        && attempt.metadata == reply->Ok_0 && is_drawn(attempt.pkce)
                    &&& action == (ConnectAction::Bind { callback: client.callback })
                },
            }
        },
        (ConnectFlow::Binding { attempt }, ConnectEvent::Bound { bound }) => if !bound {
            fails_with(
                next,
                action,
                "Could not bind the configured AI Pass loopback callback."@,
            )
        } else {
            match authorization_refusal(attempt.metadata.authorization_endpoint@) {
                Some(reason) => fails_with(next, action, reason),
                None => next == (ConnectFlow::OpeningBrowser { attempt }) && asks_browser(
                    action,
                    attempt,
                ),
            }
        },
        (ConnectFlow::OpeningBrowser { attempt }, ConnectEvent::Opened { opened }) => {
            match opened {
                Err(reason) => fails_with(next, action, reason@),
                Ok(_) => next == (ConnectFlow::AwaitingCallback { attempt })
                    && action is AwaitCallback,
            }
        },
        (ConnectFlow::AwaitingCallback { attempt }, ConnectEvent::Callback { wait }) => {
            match wait_outcome(wait) {
                Err(reason) => fails_with(next, action, reason),
                Ok(code) => match token_form(
                    attempt.metadata,
                    exchange_fields(attempt.client@, code, attempt.pkce.verifier@),
                ) {
                    Err(reason) => fails_with(next, action, reason),
                    Ok(form) => {
                        &&& next == (ConnectFlow::Exchanging {
                            client: attempt.client,
                            metadata: attempt.metadata,
                        })
                        &&& action matches ConnectAction::RequestTokens { form: asked } && asked@
                            == form
                    },
                },
            }
        },
        (ConnectFlow::Exchanging { client, metadata }, ConnectEvent::Tokens { response, now }) => {
            match response {
                Err(reason) => fails_with(next, action, reason@),
                Ok(response) => match renewed_session(no_session(), response, now) {
                    Err(reason) => fails_with(next, action, reason),
                    Ok(begun) => if endpoint_refusal(metadata.userinfo_endpoint@) is None {
                        &&& next matches ConnectFlow::FetchingProfile {
                            client: kept_client,
                            metadata: kept_metadata,
                            tokens,
                        } && kept_client == client && kept_metadata == metadata && tokens@ == begun
                        &&& action matches ConnectAction::FetchProfile { url, access_token } && url@
                            == url_parts(metadata.userinfo_endpoint@)->0.href && access_token@
                            == begun.access_token
                    } else {
                        keeps(next, action, client, metadata, begun)
                    },
                },
            }
        },
        (
            ConnectFlow::FetchingProfile { client, metadata, tokens },
            ConnectEvent::Profile { profile },
        ) => {
            let profile = match profile {
                Ok(Some(profile)) => Some(profile@),
                _ => None,
            };
            keeps(next, action, client, metadata, TokensView { profile, ..tokens@ })
        },
        (
            ConnectFlow::Persisting { client, metadata, tokens },
            ConnectEvent::Persisted { previous },
        ) => match previous {
            Err(reason) => {
                &&& next == (ConnectFlow::Revoking { failure: Some(reason) })
                &&& action matches ConnectAction::Revoke { forms } && form_views(forms@)
                    == session_revocations(metadata, client.client_id@, tokens@)
            },
            Ok(previous) => if previous is Some && tokens_differ(previous->0@, tokens@) {
                &&& next == (ConnectFlow::Revoking { failure: None })
                &&& action matches ConnectAction::Revoke { forms } && form_views(forms@)
                    == session_revocations(metadata, client.client_id@, previous->0@)
            } else {
                next is Finished && action is ReportStatus
            },
        },
        (ConnectFlow::Revoking { failure }, ConnectEvent::Revoked) => match failure {
            Some(reason) => fails_with(next, action, reason@),
            None => next is Finished && action is ReportStatus,
        },
        _ => next == flow && action is Ignore,
    }
}

/// The session is to be stored.
pub open spec fn keeps(
    flow: ConnectFlow,
    action: ConnectAction,
    client: ClientConfig,
    metadata: OAuthMetadata,
    session: TokensView,
) -> bool {
    &&& flow matches ConnectFlow::Persisting { client: kept_client, metadata: kept_metadata, tokens }
        && kept_client == client && kept_metadata == metadata && tokens@ == session
    &&& action matches ConnectAction::Persist { tokens: stored } && stored@ == session
}

/// The forms that revoke both tokens of a session.
fn revocations(metadata: &OAuthMetadata, client_id: &String, tokens: &StoredTokens) -> (r: Vec<
    FormRequest,
>)
    ensures
        form_views(r@) == session_revocations(*metadata, client_id@, tokens@),
{
    let client_id: Option<String> = Some(client_id.clone());
    let access: Option<FormRequest> = revoke_request(
        metadata,
        &client_id,
        tokens.access_token.as_str(),
        "access_token",
    );
    let refresh: Option<FormRequest> = revoke_request(
        metadata,
        &client_id,
        tokens.refresh_token.as_str(),
        "refresh_token",
    );
    let mut r: Vec<FormRequest> = Vec::new();
    if let Some(access) = access {
        if let Some(refresh) = refresh {
            r.push(access);
            r.push(refresh);
        }
    }
    assert(form_views(r@) =~= session_revocations(*metadata, client_id->0@, tokens@));
    r
}

/// How signing in begins: with the configured client, or with why there is none.
pub open spec fn begins_with(settings: Settings, flow: ConnectFlow, action: ConnectAction) -> bool {
    match configured_client(settings) {
        Err(reason) => fails_with(flow, action, reason),
        Ok(client) => (flow matches ConnectFlow::LoadingMetadata { client: kept } && kept@
            == client) && action is LoadMetadata,
    }
}

impl ConnectFlow {
    /// Begins to sign in, if a client is configured.
    pub fn begin(settings: &Settings) -> (r: (ConnectFlow, ConnectAction))
        ensures
            match configured_client(*settings) {
                Err(reason) => fails_with(r.0, r.1, reason),
                Ok(client) => (r.0 matches ConnectFlow::LoadingMetadata { client: kept } && kept@
                    == client) && r.1 is LoadMetadata,
            },
            begins_with(*settings, r.0, r.1),
    {
        match client_config(settings) {
            Err(reason) => ConnectFlow::fail(reason),
            Ok(client) => (ConnectFlow::LoadingMetadata { client }, ConnectAction::LoadMetadata),
        }
    }

    /// Begins an authorisation with some secrets.
    pub fn begin_attempt(client: ClientConfig, metadata: OAuthMetadata, pkce: PkceMaterial) -> (r: (
        ConnectFlow,
        ConnectAction,
    ))
        ensures
            r.0 == (ConnectFlow::Binding { attempt: Attempt { client, metadata, pkce } }),
            r.1 == (ConnectAction::Bind { callback: client.callback }),
    {
        let callback: CallbackConfig = client.callback.clone();
        (
            ConnectFlow::Binding { attempt: Attempt { client, metadata, pkce } },
            ConnectAction::Bind { callback },
        )
    }

    fn fail(reason: String) -> (r: (ConnectFlow, ConnectAction))
        ensures
            fails_with(r.0, r.1, reason@),
    {
        (ConnectFlow::Finished, ConnectAction::Fail { reason })
    }

    fn on_bound(attempt: Attempt, bound: bool) -> (r: (ConnectFlow, ConnectAction))
        ensures
            connect_step(
                ConnectFlow::Binding { attempt },
                ConnectEvent::Bound { bound },
                r.0,
                r.1,
            ),
    {
        if !bound {
            return ConnectFlow::fail(
                "Could not bind the configured AI Pass loopback callback.".to_owned(),
            );
        }
        match pinned_endpoint(attempt.metadata.authorization_endpoint.as_str()) {
            Err(reason) => {
                return ConnectFlow::fail(reason);
            },
            Ok(url) => {
                if !has_room_for_pairs(&url) {
                    return ConnectFlow::fail(
                        "AI Pass OAuth metadata contains an invalid endpoint.".to_owned(),
                    );
                }
            },
        }
        match authorization_url(&attempt.metadata, &attempt.client, &attempt.pkce) {
            Err(reason) => ConnectFlow::fail(reason),
            Ok(url) => {
                let expected_state: String = attempt.pkce.state.clone();
                (
                    ConnectFlow::OpeningBrowser { attempt },
                    ConnectAction::Authorize { url, expected_state },
                )
            },
        }
    }

    fn on_callback(attempt: Attempt, wait: CallbackWait) -> (r: (ConnectFlow, ConnectAction))
        ensures
            connect_step(
                ConnectFlow::AwaitingCallback { attempt },
                ConnectEvent::Callback { wait },
                r.0,
                r.1,
            ),
    {
        match authorization_outcome(wait) {
            Err(reason) => ConnectFlow::fail(reason),
            Ok(code) => match exchange_request(
                &attempt.metadata,
                &attempt.client,
                code.as_str(),
                attempt.pkce.verifier.as_str(),
            ) {
                Err(reason) => ConnectFlow::fail(reason),
                Ok(form) => (
                    ConnectFlow::Exchanging { client: attempt.client, metadata: attempt.metadata },
                    ConnectAction::RequestTokens { form },
                ),
            },
        }
    }

    fn keep(client: ClientConfig, metadata: OAuthMetadata, tokens: StoredTokens) -> (r: (
        ConnectFlow,
        ConnectAction,
    ))
        ensures
            keeps(r.0, r.1, client, metadata, tokens@),
    {
        let stored: StoredTokens = tokens.clone();
        (
            ConnectFlow::Persisting { client, metadata, tokens },
            ConnectAction::Persist { tokens: stored },
        )
    }

    fn on_tokens(
        client: ClientConfig,
        metadata: OAuthMetadata,
        response: Result<TokenResponse, String>,
        now: u64,
    ) -> (r: (ConnectFlow, ConnectAction))
        ensures
            connect_step(
                ConnectFlow::Exchanging { client, metadata },
                ConnectEvent::Tokens { response, now },
                r.0,
                r.1,
            ),
    {
        match response {
            Err(reason) => ConnectFlow::fail(reason),
            Ok(response) => match exchange_code(response, now) {
                Err(reason) => ConnectFlow::fail(reason),
                Ok(tokens) => match pinned_endpoint(metadata.userinfo_endpoint.as_str()) {
                    Err(_) => ConnectFlow::keep(client, metadata, tokens),
                    Ok(url) => {
                        let access_token: String = tokens.access_token.clone();
                        (
                            ConnectFlow::FetchingProfile { client, metadata, tokens },
                            ConnectAction::FetchProfile { url: url.href, access_token },
                        )
                    },
                },
            },
        }
    }

    fn on_persisted(
        client: ClientConfig,
        metadata: OAuthMetadata,
        tokens: StoredTokens,
        previous: Result<Option<StoredTokens>, String>,
    ) -> (r: (ConnectFlow, ConnectAction))
        ensures
            connect_step(
                ConnectFlow::Persisting { client, metadata, tokens },
                ConnectEvent::Persisted { previous },
                r.0,
                r.1,
            ),
    {
        match previous {
            Err(reason) => {
                let forms: Vec<FormRequest> = revocations(&metadata, &client.client_id, &tokens);
                (
                    ConnectFlow::Revoking { failure: Some(reason) },
                    ConnectAction::Revoke { forms },
                )
            },
            Ok(Some(previous)) => {
                if text_eq(previous.access_token.as_str(), tokens.access_token.as_str())
                    && text_eq(previous.refresh_token.as_str(), tokens.refresh_token.as_str()) {
                    (ConnectFlow::Finished, ConnectAction::ReportStatus)
                } else {
                    let forms: Vec<FormRequest> = revocations(
                        &metadata,
                        &client.client_id,
                        &previous,
                    );
                    (ConnectFlow::Revoking { failure: None }, ConnectAction::Revoke { forms })
                }
            },
            Ok(None) => (ConnectFlow::Finished, ConnectAction::ReportStatus),
        }
    }

    /// Goes on with what was learnt.
    pub fn step(self, event: ConnectEvent) -> (r: (ConnectFlow, ConnectAction))
        ensures
            connect_step(self, event, r.0, r.1),
    {
        match (self, event) {
            (ConnectFlow::LoadingMetadata { client }, ConnectEvent::Metadata { reply }) => {
                match accept_metadata(reply) {
                    Err(reason) => ConnectFlow::fail(reason),
                    Ok(metadata) => match generate_pkce() {
                        Err(reason) => ConnectFlow::fail(reason),
                        Ok(pkce) => ConnectFlow::begin_attempt(client, metadata, pkce),
                    },
                }
            },
            (ConnectFlow::Binding { attempt }, ConnectEvent::Bound { bound }) => {
                ConnectFlow::on_bound(attempt, bound)
            },
            (ConnectFlow::OpeningBrowser { attempt }, ConnectEvent::Opened { opened }) => {
                match opened {
                    Err(reason) => ConnectFlow::fail(reason),
                    Ok(_) => (
                        ConnectFlow::AwaitingCallback { attempt },
                        ConnectAction::AwaitCallback,
                    ),
                }
            },
            (ConnectFlow::AwaitingCallback { attempt }, ConnectEvent::Callback { wait }) => {
                ConnectFlow::on_callback(attempt, wait)
            },
            (ConnectFlow::Exchanging { client, metadata }, ConnectEvent::Tokens { response, now }) => {
                ConnectFlow::on_tokens(client, metadata, response, now)
            },
            (
                ConnectFlow::FetchingProfile { client, metadata, tokens },
                ConnectEvent::Profile { profile },
            ) => {
                let profile: Option<AiPassProfile> = match profile {
                    Ok(profile) => profile,
                    Err(_) => None,
                };
                let tokens: StoredTokens = StoredTokens {
                    access_token: tokens.access_token,
                    refresh_token: tokens.refresh_token,
                    expires_at: tokens.expires_at,
                    scope: tokens.scope,
                    profile,
                };
                ConnectFlow::keep(client, metadata, tokens)
            },
            (
                ConnectFlow::Persisting { client, metadata, tokens },
                ConnectEvent::Persisted { previous },
            ) => ConnectFlow::on_persisted(client, metadata, tokens, previous),
            (ConnectFlow::Revoking { failure }, ConnectEvent::Revoked) => match failure {
                Some(reason) => ConnectFlow::fail(reason),
                None => (ConnectFlow::Finished, ConnectAction::ReportStatus),
            },
            (flow, _) => (flow, ConnectAction::Ignore),
        }
    }
}

/// A course of signing in, from its beginning: before and after each event, and
/// what was asked for.
pub open spec fn connect_run(
    flows: Seq<ConnectFlow>,
    events: Seq<ConnectEvent>,
    actions: Seq<ConnectAction>,
) -> bool {
    &&& flows.len() == events.len() + 1
    &&& actions.len() == events.len()
    &&& flows[0] is LoadingMetadata
    &&& forall|i: int|
        0 <= i < events.len() ==> #[trigger] connect_step(
            flows[i],
            events[i],
            flows[i + 1],
            actions[i],
        )
}

/// The action stores a session with the given content.
pub open spec fn stores(action: ConnectAction, tokens: TokensView) -> bool {
    action matches ConnectAction::Persist { tokens: kept } && kept@ == tokens
}

/// The event says that a session was stored.
pub open spec fn is_stored(event: ConnectEvent) -> bool {
    event matches ConnectEvent::Persisted { previous: Ok(_) }
}

/// What must have happened for signing in to have come this far by step `i`.
spec fn has_come_by(
    flow: ConnectFlow,
    events: Seq<ConnectEvent>,
    actions: Seq<ConnectAction>,
    i: int,
) -> bool {
    match flow {
        ConnectFlow::OpeningBrowser { attempt } => exists|j: int|
            0 <= j < i && asks_browser(#[trigger] actions[j], attempt),
        ConnectFlow::AwaitingCallback { attempt } => exists|j: int|
            0 <= j < i && asks_browser(#[trigger] actions[j], attempt),
        ConnectFlow::Persisting { tokens, .. } => exists|j: int|
            0 <= j < i && stores(#[trigger] actions[j], tokens@),
        ConnectFlow::Revoking { failure: None } => exists|j: int|
            0 <= j < i && is_stored(#[trigger] events[j]),
        _ => true,
    }
}

proof fn lemma_has_come(
    flows: Seq<ConnectFlow>,
    events: Seq<ConnectEvent>,
    actions: Seq<ConnectAction>,
    i: int,
)
    requires
        connect_run(flows, events, actions),
        0 <= i < flows.len(),
    ensures
        has_come_by(flows[i], events, actions, i),
    decreases i,
{
    if i > 0 {
        lemma_has_come(flows, events, actions, i - 1);
        assert(connect_step(flows[i - 1], events[i - 1], flows[i - 1 + 1], actions[i - 1]));
        let before = flows[i - 1];
        match flows[i] {
            ConnectFlow::OpeningBrowser { attempt } => {
                if before is OpeningBrowser {
                    let j = choose|j: int|
                        0 <= j < i - 1 && asks_browser(#[trigger] actions[j], attempt);
                    assert(asks_browser(actions[j], attempt));
                } else {
                    assert(asks_browser(actions[i - 1], attempt));
                }
            },
            ConnectFlow::AwaitingCallback { attempt } => {
                let j = choose|j: int|
                    0 <= j < i - 1 && asks_browser(#[trigger] actions[j], attempt);
                assert(asks_browser(actions[j], attempt));
            },
            ConnectFlow::Persisting { tokens, .. } => {
                if before is Persisting {
                    let j = choose|j: int|
                        0 <= j < i - 1 && stores(#[trigger] actions[j], tokens@);
                    assert(stores(actions[j], tokens@));
                } else {
                    assert(stores(actions[i - 1], tokens@));
                }
            },
            ConnectFlow::Revoking { failure: None } => {
                if before is Revoking {
                    let j = choose|j: int| 0 <= j < i - 1 && is_stored(#[trigger] events[j]);
                    assert(is_stored(events[j]));
                } else {
                    assert(is_stored(events[i - 1]));
                }
            },
            _ => {},
        }
    }
}

/// Success is reported only once the session is stored.
pub proof fn law_success_is_reported_after_storing(
    flows: Seq<ConnectFlow>,
    events: Seq<ConnectEvent>,
    actions: Seq<ConnectAction>,
    i: int,
)
    requires
        connect_run(flows, events, actions),
        0 <= i < events.len(),
        actions[i] is ReportStatus,
    ensures
        exists|j: int| 0 <= j <= i && is_stored(#[trigger] events[j]),
{
    assert(connect_step(flows[i], events[i], flows[i + 1], actions[i]));
    lemma_has_come(flows, events, actions, i);
    if flows[i] is Persisting {
        assert(is_stored(events[i]));
    }
}

/// A code is redeemed only if the callback brought it, and with the verifier of
/// the attempt whose state and challenge the browser was sent out with.
pub proof fn law_codes_are_redeemed_in_their_attempt(
    flows: Seq<ConnectFlow>,
    events: Seq<ConnectEvent>,
    actions: Seq<ConnectAction>,
    i: int,
)
    requires
        connect_run(flows, events, actions),
        0 <= i < events.len(),
        actions[i] is RequestTokens,
    ensures
        events[i] matches ConnectEvent::Callback { wait: CallbackWait::Settled(Ok(code)) }
            && flows[i] matches ConnectFlow::AwaitingCallback { attempt } && {
            &&& actions[i]->form@.fields == exchange_fields(
                attempt.client@,
                code@,
                attempt.pkce.verifier@,
            )
            &&& exists|j: int| 0 <= j < i && asks_browser(#[trigger] actions[j], attempt)
        },
{
    assert(connect_step(flows[i], events[i], flows[i + 1], actions[i]));
    lemma_has_come(flows, events, actions, i);
}

/// The metadata was accepted, and the secrets were drawn for the attempt.
spec fn is_sound(attempt: Attempt) -> bool {
    metadata_refusal(attempt.metadata) is None && is_drawn(attempt.pkce)
}

/// The metadata that signing in goes by was accepted, and the secrets were drawn.
spec fn goes_by_sound_attempt(flow: ConnectFlow) -> bool {
    match flow {
        ConnectFlow::Binding { attempt } => is_sound(attempt),
        ConnectFlow::OpeningBrowser { attempt } => is_sound(attempt),
        ConnectFlow::AwaitingCallback { attempt } => is_sound(attempt),
        ConnectFlow::Exchanging { metadata, .. } => metadata_refusal(metadata) is None,
        ConnectFlow::FetchingProfile { metadata, .. } => metadata_refusal(metadata) is None,
        ConnectFlow::Persisting { metadata, .. } => metadata_refusal(metadata) is None,
        _ => true,
    }
}

proof fn lemma_attempt_is_sound(
    flows: Seq<ConnectFlow>,
    events: Seq<ConnectEvent>,
    actions: Seq<ConnectAction>,
    i: int,
)
    requires
        connect_run(flows, events, actions),
        0 <= i < flows.len(),
    ensures
        goes_by_sound_attempt(flows[i]),
    decreases i,
{
    if i > 0 {
        lemma_attempt_is_sound(flows, events, actions, i - 1);
        assert(connect_step(flows[i - 1], events[i - 1], flows[i - 1 + 1], actions[i - 1]));
    }
}

/// The redemption of a code fits the authorisation that the browser was sent out
/// with: it names the same client and redirect URI, and the verifier that the
/// challenge committed to. Both rest on secrets that were drawn for the attempt.
pub proof fn law_redemption_fits_the_authorization(
    flows: Seq<ConnectFlow>,
    events: Seq<ConnectEvent>,
    actions: Seq<ConnectAction>,
    i: int,
)
    requires
        connect_run(flows, events, actions),
        0 <= i < events.len(),
        actions[i] is RequestTokens,
    ensures
        flows[i] matches ConnectFlow::AwaitingCallback { attempt } && {
            let query = authorization_query(
                attempt.client@,
                attempt.pkce.state@,
                attempt.pkce.challenge@,
            );
            let fields = actions[i]->form@.fields;
            &&& is_drawn(attempt.pkce)
            &&& exists|j: int| 0 <= j < i && asks_browser(#[trigger] actions[j], attempt)
            &&& query[1] == fields[1] && fields[1].0 == "client_id"@
            &&& query[2] == fields[3] && fields[3].0 == "redirect_uri"@
            &&& query[5].0 == "code_challenge"@ && fields[4].0 == "code_verifier"@
            &&& query[5].1 == s256_challenge(fields[4].1)
            &&& query[6] == ("code_challenge_method"@, "S256"@)
        },
{
    assert(connect_step(flows[i], events[i], flows[i + 1], actions[i]));
    lemma_has_come(flows, events, actions, i);
    lemma_attempt_is_sound(flows, events, actions, i);
}

/// When the session could not be stored, both of its tokens are revoked, and once
/// that was tried the reason is reported.
pub proof fn law_unstored_tokens_are_revoked(
    flows: Seq<ConnectFlow>,
    events: Seq<ConnectEvent>,
    actions: Seq<ConnectAction>,
    i: int,
    reason: String,
)
    requires
        connect_run(flows, events, actions),
        0 <= i < events.len(),
        flows[i] is Persisting,
        events[i] == (ConnectEvent::Persisted { previous: Err(reason) }),
    ensures
        flows[i] matches ConnectFlow::Persisting { client, metadata, tokens }
            && actions[i] matches ConnectAction::Revoke { forms } && form_views(forms@) == seq![
            revocation_form(
                metadata,
                Some(client.client_id@),
                tokens.access_token@,
                "access_token"@,
            )->0,
            revocation_form(
                metadata,
                Some(client.client_id@),
                tokens.refresh_token@,
                "refresh_token"@,
            )->0,
        ],
        i + 1 < events.len() && events[i + 1] is Revoked ==> fails_with(
            flows[i + 2],
            actions[i + 1],
            reason@,
        ),
{
    lemma_attempt_is_sound(flows, events, actions, i);
    assert(connect_step(flows[i], events[i], flows[i + 1], actions[i]));
    if i + 1 < events.len() {
        assert(connect_step(flows[i + 1], events[i + 1], flows[i + 1 + 1], actions[i + 1]));
    }
}

/// Both tokens of a session that is replaced are revoked, unless the new session
/// has the same ones.
pub proof fn law_replaced_session_is_revoked(
    flows: Seq<ConnectFlow>,
    events: Seq<ConnectEvent>,
    actions: Seq<ConnectAction>,
    i: int,
    previous: StoredTokens,
)
    requires
        connect_run(flows, events, actions),
        0 <= i < events.len(),
        flows[i] is Persisting,
        events[i] == (ConnectEvent::Persisted { previous: Ok(Some(previous)) }),
    ensures
        flows[i] matches ConnectFlow::Persisting { client, metadata, tokens } && {
            if tokens_differ(previous@, tokens@) {
                actions[i] matches ConnectAction::Revoke { forms } && form_views(forms@) == seq![
                    revocation_form(
                        metadata,
                        Some(client.client_id@),
                        previous.access_token@,
                        "access_token"@,
                    )->0,
                    revocation_form(
                        metadata,
                        Some(client.client_id@),
                        previous.refresh_token@,
                        "refresh_token"@,
                    )->0,
                ]
            } else {
                actions[i] is ReportStatus
            }
        },
{
    lemma_attempt_is_sound(flows, events, actions, i);
    assert(connect_step(flows[i], events[i], flows[i + 1], actions[i]));
}

proof fn lemma_revocation_urls(
    metadata: OAuthMetadata,
    client_id: Seq<char>,
    tokens: TokensView,
    i: int,
)
    requires
        0 <= i < session_revocations(metadata, client_id, tokens).len(),
    ensures
        is_pinned_url(session_revocations(metadata, client_id, tokens)[i].url),
{
    let endpoint = metadata.revocation_endpoint@;
    assert(i == 0 || i == 1);
    assert(url_parts(endpoint)->0.href == session_revocations(metadata, client_id, tokens)[i].url);
}

/// Codes and tokens go to the pinned origin and nowhere else, and the browser is
/// sent there too.
pub proof fn law_secrets_stay_on_the_pinned_origin(
    flow: ConnectFlow,
    event: ConnectEvent,
    next: ConnectFlow,
    action: ConnectAction,
)
    requires
        connect_step(flow, event, next, action),
    ensures
        action matches ConnectAction::Authorize { url, .. } ==> extends_pinned_url(url@),
        action matches ConnectAction::RequestTokens { form } ==> is_pinned_url(form@.url),
        action matches ConnectAction::FetchProfile { url, .. } ==> is_pinned_url(url@),
        action matches ConnectAction::Revoke { forms } ==> forall|i: int|
            0 <= i < forms@.len() ==> is_pinned_url((#[trigger] forms@[i])@.url),
{
    match action {
        ConnectAction::Authorize { url, .. } => {
            let endpoint = flow->Binding_attempt.metadata.authorization_endpoint@;
            assert(is_pinned_url(url_parts(endpoint)->0.href));
            lemma_pairs_extend_url(
                url_parts(endpoint)->0,
                authorization_query(
                    flow->Binding_attempt.client@,
                    flow->Binding_attempt.pkce.state@,
                    flow->Binding_attempt.pkce.challenge@,
                ),
            );
        },
        ConnectAction::RequestTokens { form } => {
            let endpoint = flow->AwaitingCallback_attempt.metadata.token_endpoint@;
            assert(url_parts(endpoint)->0.href == form@.url);
        },
        ConnectAction::FetchProfile { url, .. } => {
            let endpoint = flow->Exchanging_metadata.userinfo_endpoint@;
            assert(url_parts(endpoint)->0.href == url@);
        },
        ConnectAction::Revoke { forms } => {
            assert forall|i: int| 0 <= i < forms@.len() implies is_pinned_url(
                (#[trigger] forms@[i])@.url,
            ) by {
                assert(form_views(forms@)[i] == forms@[i]@);
                match event {
                    ConnectEvent::Persisted { previous: Ok(Some(previous)) } => {
                        lemma_revocation_urls(
                            flow->Persisting_metadata,
                            flow->Persisting_client.client_id@,
                            previous@,
                            i,
                        );
                    },
                    _ => {
                        lemma_revocation_urls(
                            flow->Persisting_metadata,
                            flow->Persisting_client.client_id@,
                            flow->Persisting_tokens@,
                            i,
                        );
                    },
                }
            }
        },
        _ => {},
    }
}

/// Two ends of the wait for the callback differ at most in the code.
pub open spec fn waits_alike(one: CallbackWait, other: CallbackWait) -> bool {
    match (one, other) {
        (CallbackWait::Settled(Ok(_)), CallbackWait::Settled(Ok(_))) => true,
        (CallbackWait::Settled(Err(one)), CallbackWait::Settled(Err(other))) => one@ == other@,
        (CallbackWait::Closed, CallbackWait::Closed) => true,
        (CallbackWait::TimedOut, CallbackWait::TimedOut) => true,
        _ => false,
    }
}

/// Signing in has come equally far in two attempts, up to the secrets of the
/// authorisation and the tokens.
pub open spec fn flows_alike(one: ConnectFlow, other: ConnectFlow) -> bool {
    match (one, other) {
        (
            ConnectFlow::LoadingMetadata { client: one },
            ConnectFlow::LoadingMetadata { client: other },
        ) => one == other,
        (ConnectFlow::Binding { attempt: one }, ConnectFlow::Binding { attempt: other }) => {
            one.client == other.client && one.metadata == other.metadata
        },
        (
            ConnectFlow::OpeningBrowser { attempt: one },
            ConnectFlow::OpeningBrowser { attempt: other },
        ) => one.client == other.client && one.metadata == other.metadata,
        (
            ConnectFlow::AwaitingCallback { attempt: one },
            ConnectFlow::AwaitingCallback { attempt: other },
        ) => one.client == other.client && one.metadata == other.metadata,
        (
            ConnectFlow::Exchanging { client: one_client, metadata: one_metadata },
            ConnectFlow::Exchanging { client: other_client, metadata: other_metadata },
        ) => one_client == other_client && one_metadata == other_metadata,
        (
            ConnectFlow::FetchingProfile { client: one_client, metadata: one_metadata, .. },
            ConnectFlow::FetchingProfile { client: other_client, metadata: other_metadata, .. },
        ) => one_client == other_client && one_metadata == other_metadata,
        (
            ConnectFlow::Persisting { client: one_client, metadata: one_metadata, .. },
            ConnectFlow::Persisting { client: other_client, metadata: other_metadata, .. },
        ) => one_client == other_client && one_metadata == other_metadata,
        (ConnectFlow::Revoking { failure: one }, ConnectFlow::Revoking { failure: other }) => one
            == other,
        (ConnectFlow::Finished, ConnectFlow::Finished) => true,
        _ => false,
    }
}

/// Two attempts learn the same, up to the secrets of the authorisation, the code and
/// the tokens: these may differ, as long as each token is one in both or in neither.
pub open spec fn events_alike(one: ConnectEvent, other: ConnectEvent) -> bool {
    match (one, other) {
        (ConnectEvent::Metadata { reply: one }, ConnectEvent::Metadata { reply: other }) => one
            == other,
        (ConnectEvent::Bound { bound: one }, ConnectEvent::Bound { bound: other }) => one == other,
        (ConnectEvent::Opened { opened: one }, ConnectEvent::Opened { opened: other }) => one
            == other,
        (ConnectEvent::Callback { wait: one }, ConnectEvent::Callback { wait: other }) => {
            waits_alike(one, other)
        },
        (
            ConnectEvent::Tokens { response: one, now: one_now },
            ConnectEvent::Tokens { response: other, now: other_now },
        ) => one_now == other_now && match (one, other) {
            (Err(one), Err(other)) => one@ == other@,
            (Ok(one), Ok(other)) => replies_alike(one, other),
            _ => false,
        },
        (ConnectEvent::Profile { profile: one }, ConnectEvent::Profile { profile: other }) => one
            == other,
        (
            ConnectEvent::Persisted { previous: one },
            ConnectEvent::Persisted { previous: other },
        ) => match (one, other) {
            (Err(one), Err(other)) => one@ == other@,
            (Ok(_), Ok(_)) => true,
            _ => false,
        },
        (ConnectEvent::Revoked, ConnectEvent::Revoked) => true,
        _ => false,
    }
}

/// A failure shows no secret: two attempts that differ in states, verifiers,
/// challenges, codes and tokens alone fail together, and for the same reason.
pub proof fn law_failures_show_no_secret(
    one: ConnectFlow,
    one_event: ConnectEvent,
    one_next: ConnectFlow,
    one_action: ConnectAction,
    other: ConnectFlow,
    other_event: ConnectEvent,
    other_next: ConnectFlow,
    other_action: ConnectAction,
    reason: Seq<char>,
)
    requires
        connect_step(one, one_event, one_next, one_action),
        connect_step(other, other_event, other_next, other_action),
        flows_alike(one, other),
        events_alike(one_event, other_event),
    ensures
        fails_with(one_next, one_action, reason) <==> fails_with(other_next, other_action, reason),
{
    if let (
        ConnectEvent::Tokens { response: Ok(one_reply), now },
        ConnectEvent::Tokens { response: Ok(other_reply), .. },
    ) = (one_event, other_event) {
        law_refused_replies_show_no_token(no_session(), one_reply, no_session(), other_reply, now);
    }
}

/// The reply began the session: its tokens and its time are those of the reply, and
/// its scopes are too, or else the two that were asked for.
pub open spec fn began(event: ConnectEvent, tokens: StoredTokens) -> bool {
    event matches ConnectEvent::Tokens { response: Ok(reply), now } && {
        &&& tokens.access_token@ == reply.access_token@
        &&& reply.refresh_token matches Some(token) && tokens.refresh_token@ == token@
        &&& tokens.scope@ == (match reply.scope {
            Some(scope) => scope@,
            None => "api:access profile:read"@,
        })
        &&& lasts(tokens, reply, now)
    }
}

proof fn lemma_session_was_begun(
    flows: Seq<ConnectFlow>,
    events: Seq<ConnectEvent>,
    actions: Seq<ConnectAction>,
    i: int,
)
    requires
        connect_run(flows, events, actions),
        0 <= i < flows.len(),
    ensures
        flows[i] matches ConnectFlow::FetchingProfile { tokens, .. } ==> exists|j: int|
            0 <= j < i && began(#[trigger] events[j], tokens),
        flows[i] matches ConnectFlow::Persisting { tokens, .. } ==> exists|j: int|
            0 <= j < i && began(#[trigger] events[j], tokens),
    decreases i,
{
    if i > 0 {
        lemma_session_was_begun(flows, events, actions, i - 1);
        lemma_attempt_is_sound(flows, events, actions, i - 1);
        assert(connect_step(flows[i - 1], events[i - 1], flows[i - 1 + 1], actions[i - 1]));
        match flows[i] {
            ConnectFlow::FetchingProfile { tokens, .. } => {
                if flows[i - 1] is Exchanging {
                    assert(began(events[i - 1], tokens));
                } else {
                    let j = choose|j: int| 0 <= j < i - 1 && began(#[trigger] events[j], tokens);
                    assert(began(events[j], tokens));
                }
            },
            ConnectFlow::Persisting { tokens, .. } => {
                let before = if flows[i - 1] is FetchingProfile {
                    flows[i - 1]->FetchingProfile_tokens
                } else {
                    flows[i - 1]->Persisting_tokens
                };
                let j = choose|j: int| 0 <= j < i - 1 && began(#[trigger] events[j], before);
                assert(began(events[j], tokens));
            },
            _ => {},
        }
    }
}

/// The session that is stored is the one that the reply to the code began, and it is
/// that of whoever the user information describes, or of nobody known where it could
/// not be fetched.
pub proof fn law_the_session_begun_is_the_one_stored(
    flows: Seq<ConnectFlow>,
    events: Seq<ConnectEvent>,
    actions: Seq<ConnectAction>,
    i: int,
)
    requires
        connect_run(flows, events, actions),
        0 <= i < events.len(),
        actions[i] is Persist,
    ensures
        actions[i] matches ConnectAction::Persist { tokens } && {
            &&& exists|j: int| 0 <= j < i && began(#[trigger] events[j], tokens)
            &&& events[i] matches ConnectEvent::Profile { profile } && match profile {
                Ok(profile) => same_person(tokens.profile, profile),
                Err(_) => tokens.profile is None,
            }
        },
{
    assert(connect_step(flows[i], events[i], flows[i + 1], actions[i]));
    lemma_session_was_begun(flows, events, actions, i);
    lemma_attempt_is_sound(flows, events, actions, i);
    let tokens = actions[i]->Persist_tokens;
    let before = flows[i]->FetchingProfile_tokens;
    let j = choose|j: int| 0 <= j < i && began(#[trigger] events[j], before);
    assert(began(events[j], tokens));
}

/// Each thing that signing in waits for leads on where it is as it should be: accepted
/// metadata to the callback's address, the address to the browser, the browser to the
/// wait, a code to its redemption, and a reply to the profile of whoever signed in.
pub proof fn law_signing_in_goes_through(
    client: ClientConfig,
    metadata: OAuthMetadata,
    attempt: Attempt,
    event: ConnectEvent,
    next: ConnectFlow,
    action: ConnectAction,
)
    ensures
        connect_step(ConnectFlow::LoadingMetadata { client }, event, next, action) ==> {
            &&& event matches ConnectEvent::Metadata { reply: Ok(metadata) } ==> match metadata_refusal(
                metadata,
            ) {
                None => action == (ConnectAction::Bind { callback: client.callback }) && (
                next matches ConnectFlow::Binding { attempt } && attempt.client == client
                    && attempt.metadata == metadata),
                Some(refusal) => fails_with(next, action, refusal),
            }
            &&& event matches ConnectEvent::Metadata { reply: Err(reason) } ==> fails_with(
                next,
                action,
                reason@,
            )
        },
        lies_on_origin(attempt.metadata.authorization_endpoint@) && takes_pairs(
            url_parts(attempt.metadata.authorization_endpoint@)->0,
        ) && connect_step(ConnectFlow::Binding { attempt }, event, next, action) ==> {
            &&& event == (ConnectEvent::Bound { bound: true }) ==> (
            action matches ConnectAction::Authorize { url, expected_state } && expected_state@
                == attempt.pkce.state@ && url@ == url_with_pairs(
                url_parts(attempt.metadata.authorization_endpoint@)->0,
                authorization_query(
                    attempt.client@,
                    attempt.pkce.state@,
                    attempt.pkce.challenge@,
                ),
            )) && next == (ConnectFlow::OpeningBrowser { attempt })
            &&& event == (ConnectEvent::Bound { bound: false }) ==> fails_with(
                next,
                action,
                "Could not bind the configured AI Pass loopback callback."@,
            )
        },
        connect_step(ConnectFlow::OpeningBrowser { attempt }, event, next, action) ==> {
            &&& event == (ConnectEvent::Opened { opened: Ok(()) }) ==> action is AwaitCallback
                && next == (ConnectFlow::AwaitingCallback { attempt })
            &&& event matches ConnectEvent::Opened { opened: Err(reason) } ==> fails_with(
                next,
                action,
                reason@,
            )
        },
        lies_on_origin(attempt.metadata.token_endpoint@) && connect_step(
            ConnectFlow::AwaitingCallback { attempt },
            event,
            next,
            action,
        ) ==> {
            &&& event matches ConnectEvent::Callback { wait: CallbackWait::Settled(Ok(code)) } ==> (
            action matches ConnectAction::RequestTokens { form } && form@.fields == exchange_fields(
                attempt.client@,
                code@,
                attempt.pkce.verifier@,
            ) && form@.url == url_parts(attempt.metadata.token_endpoint@)->0.href) && next == (
            ConnectFlow::Exchanging { client: attempt.client, metadata: attempt.metadata })
            &&& event matches ConnectEvent::Callback {
                wait: CallbackWait::Settled(Err(reason)),
            } ==> fails_with(next, action, reason@)
            &&& event == (ConnectEvent::Callback { wait: CallbackWait::Closed }) ==> fails_with(
                next,
                action,
                "AI Pass callback closed before completion."@,
            )
            &&& event == (ConnectEvent::Callback { wait: CallbackWait::TimedOut }) ==> fails_with(
                next,
                action,
                "AI Pass authorization timed out."@,
            )
        },
        lies_on_origin(metadata.userinfo_endpoint@) && connect_step(
            ConnectFlow::Exchanging { client, metadata },
            event,
            next,
            action,
        ) ==> {
            &&& event matches ConnectEvent::Tokens { response: Ok(reply), now } ==> if renews(
                no_session(),
                reply,
            ) {
                &&& action matches ConnectAction::FetchProfile { url, access_token } && url@
                    == url_parts(metadata.userinfo_endpoint@)->0.href && access_token@
                    == reply.access_token@
                &&& next matches ConnectFlow::FetchingProfile {
                    client: kept,
                    metadata: used,
                    ..
                } && kept == client && used == metadata
            } else {
                renewed_session(no_session(), reply, now) matches Err(refusal) && fails_with(
                    next,
                    action,
                    refusal,
                )
            }
            &&& event matches ConnectEvent::Tokens { response: Err(reason), .. } ==> fails_with(
                next,
                action,
                reason@,
            )
        },
{
}

/// Once the session is begun, signing in ends with it stored: without a previous
/// session the status is reported at once, and otherwise once revocation was tried. A
/// failure to store is reported, and nothing else is, once revocation was tried.
pub proof fn law_signing_in_ends_as_storing_did(
    client: ClientConfig,
    metadata: OAuthMetadata,
    tokens: StoredTokens,
    event: ConnectEvent,
    next: ConnectFlow,
    action: ConnectAction,
    failure: Option<String>,
)
    ensures
        connect_step(
            ConnectFlow::FetchingProfile { client, metadata, tokens },
            event,
            next,
            action,
        ) && event is Profile ==> action is Persist && (next matches ConnectFlow::Persisting {
            client: kept,
            metadata: used,
            tokens: stored,
        } && kept == client && used == metadata && stored@ == (action->Persist_tokens)@),
        connect_step(
            ConnectFlow::Persisting { client, metadata, tokens },
            event,
            next,
            action,
        ) ==> {
            &&& event == (ConnectEvent::Persisted { previous: Ok(None) }) ==> action is ReportStatus
            &&& event matches ConnectEvent::Persisted { previous: Ok(Some(previous)) } ==> if
                previous.access_token@ == tokens.access_token@ && previous.refresh_token@
                == tokens.refresh_token@ {
                action is ReportStatus
            } else {
                action is Revoke && next == (ConnectFlow::Revoking { failure: None })
            }
            &&& event matches ConnectEvent::Persisted { previous: Err(reason) } ==> action is Revoke
                && next == (ConnectFlow::Revoking { failure: Some(reason) })
        },
        connect_step(ConnectFlow::Revoking { failure }, event, next, action) && event is Revoked
            ==> match failure {
            None => action is ReportStatus,
            Some(reason) => fails_with(next, action, reason@),
        },
{
}

/// A failure is reported for the reason that is meant.
pub proof fn law_failures_are_reported_as_they_are(
    flow: ConnectFlow,
    action: ConnectAction,
    text: Seq<char>,
)
    ensures
        fails_with(flow, action, text) <==> flow is Finished && (
        action matches ConnectAction::Fail { reason } && reason@ == text),
{
}

/// Signing in begins by loading the metadata exactly where a client is configured, and
/// goes on in the name of that client.
pub proof fn law_signing_in_begins_with_the_client(
    settings: Settings,
    flow: ConnectFlow,
    action: ConnectAction,
)
    requires
        begins_with(settings, flow, action),
    ensures
        configured_client(settings) is Ok <==> action is LoadMetadata,
        configured_client(settings) matches Ok(client) ==> (
        flow matches ConnectFlow::LoadingMetadata { client: kept } && kept.client_id@
            == client.client_id && kept.callback@ == client.callback),
        configured_client(settings) matches Err(reason) ==> (
        action matches ConnectAction::Fail { reason: given } && given@ == reason),
{
}

} // verus!
