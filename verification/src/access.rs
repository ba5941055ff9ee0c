//! How a request gets an access token: from the stored session while it is fresh,
//! and by renewing the session otherwise.

use vstd::prelude::*;

use crate::config::client_config;
use crate::config::configured_client;
use crate::config::setting_value;
use crate::config::Settings;
use crate::endpoint::is_pinned_url;
use crate::endpoint::pair_views;
use crate::endpoint::url_parts;
use crate::forms::refresh_fields;
use crate::forms::refresh_request;
use crate::forms::token_form;
use crate::forms::FormRequest;
use crate::metadata::accept_metadata;
use crate::metadata::metadata_refusal;
use crate::metadata::reply_refusal;
use crate::metadata::OAuthMetadata;
use crate::session::is_fresh;
use crate::session::lasts;
use crate::session::merge_token_response;
use crate::session::read_tokens;
use crate::session::renewed_session;
use crate::session::renews;
use crate::session::replies_alike;
use crate::session::same_person;
use crate::session::session_in;
use crate::session::sessions_alike;
use crate::session::slots_alike;
use crate::session::token_is_fresh;
use crate::session::SessionSlot;
use crate::session::StoredTokens;
use crate::session::TokenResponse;
use crate::session::TokensView;
use crate::text::fits;
use crate::text::text_eq;

verus! {

/// How far the search for an access token has come.
pub enum AccessFlow {
    /// The stored session is being read. A token that the service has refused is not used again.
    Reading { refused: Option<String> },
    /// The session must be renewed, and the metadata is being loaded for that.
    LoadingMetadata { client_id: String, existing: StoredTokens },
    /// The service is being asked for new tokens.
    Renewing { existing: StoredTokens },
    /// The renewed session is being stored.
    Persisting { renewed: StoredTokens },
    /// The search is over.
    Finished,
}

/// What the search learns.
pub enum AccessEvent {
    /// What the secret store keeps, how the client is configured, and the time.
    Session { slot: Result<SessionSlot, String>, settings: Settings, now: u64 },
    /// The metadata of the service.
    Metadata { reply: Result<OAuthMetadata, String> },
    /// The reply of the token endpoint, and the time.
    Tokens { response: Result<TokenResponse, String>, now: u64 },
    /// Whether the session was stored.
    Persisted { outcome: Result<(), String> },
}

/// What the search asks for.
pub enum AccessAction {
    /// Read the secret store.
    ReadSession,
    /// Load the metadata of the service.
    LoadMetadata,
    /// Post a form to the token endpoint.
    RequestTokens { form: FormRequest },
    /// Store a session in place of the one that is there.
    Persist { tokens: StoredTokens },
    /// Use this access token, or report why there is none.
    Finish { outcome: Result<String, String> },
    /// Nothing: what was learnt does not belong here.
    Ignore,
}

/// The search ends with this access token.
pub open spec fn ends_with(flow: AccessFlow, action: AccessAction, token: Seq<char>) -> bool {
    &&& flow is Finished
    &&& action matches AccessAction::Finish { outcome: Ok(given) } && given@ == token
}

/// The search ends without an access token.
pub open spec fn fails_with(flow: AccessFlow, action: AccessAction, reason: Seq<char>) -> bool {
    &&& flow is Finished
    &&& action matches AccessAction::Finish { outcome: Err(given) } && given@ == reason
}

/// The service has refused the access token of a session.
pub open spec fn is_refused(tokens: TokensView, refused: Option<String>) -> bool {
    refused matches Some(token) && token@ == tokens.access_token
}

/// The stored access token can be used: it is fresh and was not refused.
pub open spec fn is_usable(tokens: TokensView, refused: Option<String>, now: u64) -> bool {
    is_fresh(tokens, now) && !is_refused(tokens, refused)
}

/// What follows from what the search learns.
pub open spec fn access_step(
    flow: AccessFlow,
    event: AccessEvent,
    next: AccessFlow,
    action: AccessAction,
) -> bool {
    match (flow, event) {
        (AccessFlow::Reading { refused }, AccessEvent::Session { slot, settings, now }) => match slot {
            Err(reason) => fails_with(next, action, reason@),
            Ok(slot) => match session_in(slot@) {
                Err(reason) => fails_with(next, action, reason),
                Ok(None) => fails_with(next, action, "Connect AI Pass in Settings first."@),
                Ok(Some(tokens)) => if is_usable(tokens, refused, now) {
                    ends_with(next, action, tokens.access_token)
                } else {
                    match configured_client(settings) {
                        Err(reason) => fails_with(next, action, reason),
                        Ok(client) => {
                            &&& next matches AccessFlow::LoadingMetadata { client_id, existing }
                                && client_id@ == client.client_id && existing@ == tokens
                            &&& action is LoadMetadata
                        },
                    }
                },
            },
        },
        (
            AccessFlow::LoadingMetadata { client_id, existing },
            AccessEvent::Metadata { reply },
        ) => match reply_refusal(reply) {
            Some(reason) => fails_with(next, action, reason),
            None => match token_form(
                reply->Ok_0,
                refresh_fields(client_id@, existing.refresh_token@),
            ) {
                Err(reason) => fails_with(next, action, reason),
                Ok(form) => {
                    &&& next == AccessFlow::Renewing { existing }
                    &&& action matches AccessAction::RequestTokens { form: asked } && asked@ == form
                },
            },
        },
        (AccessFlow::Renewing { existing }, AccessEvent::Tokens { response, now }) => match response {
            Err(reason) => fails_with(next, action, reason@),
            Ok(response) => match renewed_session(existing@, response, now) {
                Err(reason) => fails_with(next, action, reason),
                Ok(tokens) => {
                    &&& next matches AccessFlow::Persisting { renewed } && renewed@ == tokens
                    &&& action matches AccessAction::Persist { tokens: kept } && kept@ == tokens
                },
            },
        },
        (AccessFlow::Persisting { renewed }, AccessEvent::Persisted { outcome }) => match outcome {
            Err(reason) => fails_with(next, action, reason@),
            Ok(_) => ends_with(next, action, renewed.access_token@),
        },
        _ => next == flow && action is Ignore,
    }
}

impl AccessFlow {
    /// Begins to look for an access token.
    pub fn valid_access_token() -> (r: (AccessFlow, AccessAction))
        ensures
            r.0 == (AccessFlow::Reading { refused: None }),
            r.1 is ReadSession,
    {
        (AccessFlow::Reading { refused: None }, AccessAction::ReadSession)
    }

    /// Begins to look for an access token after the service has refused one.
    pub fn refresh_after_unauthorized(failed_access_token: String) -> (r: (
        AccessFlow,
        AccessAction,
    ))
        ensures
            r.0 == (AccessFlow::Reading { refused: Some(failed_access_token) }),
            r.1 is ReadSession,
    {
        (AccessFlow::Reading { refused: Some(failed_access_token) }, AccessAction::ReadSession)
    }

    fn fail(reason: String) -> (r: (AccessFlow, AccessAction))
        ensures
            fails_with(r.0, r.1, reason@),
    {
        (AccessFlow::Finished, AccessAction::Finish { outcome: Err(reason) })
    }

    fn on_session(
        refused: Option<String>,
        slot: Result<SessionSlot, String>,
        settings: Settings,
        now: u64,
    ) -> (r: (AccessFlow, AccessAction))
        ensures
            access_step(
                AccessFlow::Reading { refused },
                AccessEvent::Session { slot, settings, now },
                r.0,
                r.1,
            ),
    {
        let slot: SessionSlot = match slot {
            Err(reason) => {
                return AccessFlow::fail(reason);
            },
            Ok(slot) => slot,
        };
        let tokens: StoredTokens = match read_tokens(&slot) {
            Err(reason) => {
                return AccessFlow::fail(reason);
            },
            Ok(None) => {
                return AccessFlow::fail("Connect AI Pass in Settings first.".to_owned());
            },
            Ok(Some(tokens)) => tokens,
        };
        let refused_now: bool = match &refused {
            Some(token) => text_eq(token.as_str(), tokens.access_token.as_str()),
            None => false,
        };
        if !refused_now && token_is_fresh(&tokens, now) {
            return (
                AccessFlow::Finished,
                AccessAction::Finish { outcome: Ok(tokens.access_token) },
            );
        }
        match client_config(&settings) {
            Err(reason) => AccessFlow::fail(reason),
            Ok(client) => (
                AccessFlow::LoadingMetadata { client_id: client.client_id, existing: tokens },
                AccessAction::LoadMetadata,
            ),
        }
    }

    /// Goes on with what was learnt.
    pub fn step(self, event: AccessEvent) -> (r: (AccessFlow, AccessAction))
        ensures
            access_step(self, event, r.0, r.1),
    {
        match (self, event) {
            (AccessFlow::Reading { refused }, AccessEvent::Session { slot, settings, now }) => {
                AccessFlow::on_session(refused, slot, settings, now)
            },
            (
                AccessFlow::LoadingMetadata { client_id, existing },
                AccessEvent::Metadata { reply },
            ) => match accept_metadata(reply) {
                Err(reason) => AccessFlow::fail(reason),
                Ok(metadata) => match refresh_request(
                    &metadata,
                    client_id.as_str(),
                    existing.refresh_token.as_str(),
                ) {
                    Err(reason) => AccessFlow::fail(reason),
                    Ok(form) => (
                        AccessFlow::Renewing { existing },
                        AccessAction::RequestTokens { form },
                    ),
                },
            },
            (AccessFlow::Renewing { existing }, AccessEvent::Tokens { response, now }) => match response {
                Err(reason) => AccessFlow::fail(reason),
                Ok(response) => match merge_token_response(&existing, response, now) {
                    Err(reason) => AccessFlow::fail(reason),
                    Ok(renewed) => {
                        let tokens: StoredTokens = renewed.clone();
                        (AccessFlow::Persisting { renewed }, AccessAction::Persist { tokens })
                    },
                },
            },
            (AccessFlow::Persisting { renewed }, AccessEvent::Persisted { outcome }) => match outcome {
                Err(reason) => AccessFlow::fail(reason),
                Ok(_) => (
                    AccessFlow::Finished,
                    AccessAction::Finish { outcome: Ok(renewed.access_token) },
                ),
            },
            (flow, _) => (flow, AccessAction::Ignore),
        }
    }
}

/// A course of the search, from its beginning: before and after each event, and
/// what was asked for.
pub open spec fn access_run(
    flows: Seq<AccessFlow>,
    events: Seq<AccessEvent>,
    actions: Seq<AccessAction>,
) -> bool {
    &&& flows.len() == events.len() + 1
    &&& actions.len() == events.len()
    &&& flows[0] is Reading
    &&& forall|i: int|
        0 <= i < events.len() ==> #[trigger] access_step(
            flows[i],
            events[i],
            flows[i + 1],
            actions[i],
        )
}

/// The action stores a session with the given content.
pub open spec fn stores(action: AccessAction, tokens: TokensView) -> bool {
    action matches AccessAction::Persist { tokens: kept } && kept@ == tokens
}

proof fn lemma_persisting_was_asked(
    flows: Seq<AccessFlow>,
    events: Seq<AccessEvent>,
    actions: Seq<AccessAction>,
    i: int,
)
    requires
        access_run(flows, events, actions),
        0 <= i < flows.len(),
        flows[i] is Persisting,
    ensures
        exists|j: int| 0 <= j < i && stores(#[trigger] actions[j], flows[i]->renewed@),
    decreases i,
{
    assert(i > 0);
    assert(access_step(flows[i - 1], events[i - 1], flows[i - 1 + 1], actions[i - 1]));
    if flows[i - 1] is Persisting {
        lemma_persisting_was_asked(flows, events, actions, i - 1);
        let j = choose|j: int| 0 <= j < i - 1 && stores(#[trigger] actions[j], flows[i - 1]->renewed@);
        assert(stores(actions[j], flows[i]->renewed@));
    } else {
        assert(stores(actions[i - 1], flows[i]->renewed@));
    }
}

/// An access token is handed out only if it is the one of the stored session,
/// fresh and not refused before, or if the renewed session that it belongs to was
/// stored first: a token whose session could not be stored is never used.
pub proof fn law_no_token_is_used_before_it_is_stored(
    flows: Seq<AccessFlow>,
    events: Seq<AccessEvent>,
    actions: Seq<AccessAction>,
    i: int,
    token: String,
)
    requires
        access_run(flows, events, actions),
        0 <= i < events.len(),
        actions[i] == (AccessAction::Finish { outcome: Ok(token) }),
    ensures
        ({
            ||| {
                &&& events[i] matches AccessEvent::Session { slot: Ok(slot), now, .. }
                    && session_in(slot@) matches Ok(Some(tokens)) && tokens.access_token == token@
                    && is_usable(tokens, flows[i]->refused, now)
            }
            ||| {
                &&& events[i] matches AccessEvent::Persisted { outcome: Ok(_) }
                &&& exists|j: int, tokens: TokensView|
                    0 <= j < i && #[trigger] stores(actions[j], tokens) && tokens.access_token
                        == token@
            }
        }),
{
    assert(access_step(flows[i], events[i], flows[i + 1], actions[i]));
    if flows[i] is Persisting {
        lemma_persisting_was_asked(flows, events, actions, i);
        let j = choose|j: int| 0 <= j < i && stores(#[trigger] actions[j], flows[i]->renewed@);
        assert(stores(actions[j], flows[i]->renewed@));
    }
}

/// The search ends once: nothing is asked for after it has ended.
pub proof fn law_access_ends_once(
    flows: Seq<AccessFlow>,
    events: Seq<AccessEvent>,
    actions: Seq<AccessAction>,
    i: int,
    k: int,
)
    requires
        access_run(flows, events, actions),
        0 <= i < k < events.len(),
        actions[i] is Finish,
    ensures
        actions[k] is Ignore,
        flows[k] is Finished,
    decreases k,
{
    assert(access_step(flows[i], events[i], flows[i + 1], actions[i]));
    if k > i + 1 {
        law_access_ends_once(flows, events, actions, i, k - 1);
        assert(access_step(flows[k - 1], events[k - 1], flows[k - 1 + 1], actions[k - 1]));
    }
    assert(access_step(flows[k], events[k], flows[k + 1], actions[k]));
}

/// Once the session is out of the secret store, the search fails at once: the
/// service is not asked, and no token is used.
pub proof fn law_nothing_is_used_after_signing_out(
    refused: Option<String>,
    settings: Settings,
    now: u64,
    next: AccessFlow,
    action: AccessAction,
)
    requires
        access_step(
            AccessFlow::Reading { refused },
            AccessEvent::Session { slot: Ok(SessionSlot::Empty), settings, now },
            next,
            action,
        ),
    ensures
        fails_with(next, action, "Connect AI Pass in Settings first."@),
{
}

/// The refresh token goes to the pinned origin and nowhere else.
pub proof fn law_refresh_tokens_stay_on_the_pinned_origin(
    flow: AccessFlow,
    event: AccessEvent,
    next: AccessFlow,
    action: AccessAction,
)
    requires
        access_step(flow, event, next, action),
    ensures
        action matches AccessAction::RequestTokens { form } ==> is_pinned_url(form@.url),
{
    if let AccessAction::RequestTokens { form } = action {
        let endpoint = event->reply->Ok_0.token_endpoint@;
        assert(url_parts(endpoint)->0.href == form@.url);
    }
}

/// Two searches stand at the same place and learn the same, up to the tokens: these
/// may differ, as long as each is a token in both or in neither, and the stored
/// access token was refused in both or in neither.
pub open spec fn same_but_tokens(
    one: AccessFlow,
    one_event: AccessEvent,
    other: AccessFlow,
    other_event: AccessEvent,
) -> bool {
    match (one, one_event, other, other_event) {
        (
            AccessFlow::Reading { refused: one },
            AccessEvent::Session { slot: one_slot, settings: one_settings, now: one_now },
            AccessFlow::Reading { refused: other },
            AccessEvent::Session { slot: other_slot, settings: other_settings, now: other_now },
        ) => {
            &&& one_settings == other_settings
            &&& one_now == other_now
            &&& match (one_slot, other_slot) {
                (Err(one_reason), Err(other_reason)) => one_reason@ == other_reason@,
                (Ok(one_slot), Ok(other_slot)) => {
                    &&& slots_alike(one_slot@, other_slot@)
                    &&& one_slot is Stored ==> is_refused(one_slot->0@, one) == is_refused(
                        other_slot->0@,
                        other,
                    )
                },
                _ => false,
            }
        },
        (
            AccessFlow::LoadingMetadata { client_id: one_id, existing: one },
            AccessEvent::Metadata { reply: one_reply },
            AccessFlow::LoadingMetadata { client_id: other_id, existing: other },
            AccessEvent::Metadata { reply: other_reply },
        ) => one_id == other_id && sessions_alike(one@, other@) && one_reply == other_reply,
        (
            AccessFlow::Renewing { existing: one },
            AccessEvent::Tokens { response: one_response, now: one_now },
            AccessFlow::Renewing { existing: other },
            AccessEvent::Tokens { response: other_response, now: other_now },
        ) => {
            &&& sessions_alike(one@, other@)
            &&& one_now == other_now
            &&& match (one_response, other_response) {
                (Err(one_reason), Err(other_reason)) => one_reason@ == other_reason@,
                (Ok(one_reply), Ok(other_reply)) => replies_alike(one_reply, other_reply),
                _ => false,
            }
        },
        (
            AccessFlow::Persisting { renewed: one },
            AccessEvent::Persisted { outcome: one_outcome },
            AccessFlow::Persisting { renewed: other },
            AccessEvent::Persisted { outcome: other_outcome },
        ) => sessions_alike(one@, other@) && one_outcome == other_outcome,
        _ => false,
    }
}

/// A failure shows nothing of a token: two searches that differ in the tokens alone
/// fail together, and for the same reason.
pub proof fn law_failures_show_no_token(
    one: AccessFlow,
    one_event: AccessEvent,
    one_next: AccessFlow,
    one_action: AccessAction,
    other: AccessFlow,
    other_event: AccessEvent,
    other_next: AccessFlow,
    other_action: AccessAction,
    reason: Seq<char>,
)
    requires
        access_step(one, one_event, one_next, one_action),
        access_step(other, other_event, other_next, other_action),
        same_but_tokens(one, one_event, other, other_event),
    ensures
        fails_with(one_next, one_action, reason) <==> fails_with(other_next, other_action, reason),
{
}

/// The event brought the stored session that tokens are those of, and the client with
/// an identifier.
pub open spec fn brought(event: AccessEvent, tokens: StoredTokens, client_id: Seq<char>) -> bool {
    event matches AccessEvent::Session { slot: Ok(SessionSlot::Stored(read)), settings, .. } && {
        &&& read.access_token@ == tokens.access_token@
        &&& read.refresh_token@ == tokens.refresh_token@
        &&& read.expires_at == tokens.expires_at
        &&& read.scope@ == tokens.scope@
        &&& same_person(read.profile, tokens.profile)
        &&& setting_value(settings.client_id, 512) == Some(client_id)
    }
}

/// The session that is being renewed was read before, with the client that renews it.
spec fn goes_by_the_stored_session(flow: AccessFlow, events: Seq<AccessEvent>, i: int) -> bool {
    match flow {
        AccessFlow::LoadingMetadata { client_id, existing } => exists|j: int|
            0 <= j < i && brought(#[trigger] events[j], existing, client_id@),
        AccessFlow::Renewing { existing } => exists|j: int, client_id: Seq<char>|
            0 <= j < i && #[trigger] brought(events[j], existing, client_id),
        _ => true,
    }
}

proof fn lemma_goes_by_the_stored_session(
    flows: Seq<AccessFlow>,
    events: Seq<AccessEvent>,
    actions: Seq<AccessAction>,
    i: int,
)
    requires
        access_run(flows, events, actions),
        0 <= i < flows.len(),
    ensures
        goes_by_the_stored_session(flows[i], events, i),
    decreases i,
{
    if i > 0 {
        lemma_goes_by_the_stored_session(flows, events, actions, i - 1);
        assert(access_step(flows[i - 1], events[i - 1], flows[i - 1 + 1], actions[i - 1]));
        match flows[i] {
            AccessFlow::LoadingMetadata { client_id, existing } => {
                if flows[i - 1] is Reading {
                    assert(brought(events[i - 1], existing, client_id@));
                } else {
                    let j = choose|j: int|
                        0 <= j < i - 1 && brought(#[trigger] events[j], existing, client_id@);
                    assert(brought(events[j], existing, client_id@));
                }
            },
            AccessFlow::Renewing { existing } => {
                if flows[i - 1] is LoadingMetadata {
                    let client_id = flows[i - 1]->client_id@;
                    let j = choose|j: int|
                        0 <= j < i - 1 && brought(#[trigger] events[j], existing, client_id);
                    assert(brought(events[j], existing, client_id));
                } else {
                    let (j, client_id) = choose|j: int, client_id: Seq<char>|
                        0 <= j < i - 1 && #[trigger] brought(events[j], existing, client_id);
                    assert(brought(events[j], existing, client_id));
                }
            },
            _ => {},
        }
    }
}

/// A session is one that was read, renewed by a reply: the access token is that of the
/// reply, the refresh token and the scope are too where the reply names them and are
/// those that were read otherwise, and it is still the session of the same person.
pub open spec fn is_renewal(read: AccessEvent, reply: AccessEvent, action: AccessAction) -> bool {
    match (read, reply, action) {
        (
            AccessEvent::Session { slot: Ok(SessionSlot::Stored(read)), .. },
            AccessEvent::Tokens { response: Ok(reply), now },
            AccessAction::Persist { tokens },
        ) => {
            &&& tokens.access_token@ == reply.access_token@
            &&& tokens.refresh_token@ == (match reply.refresh_token {
                Some(token) => token@,
                None => read.refresh_token@,
            })
            &&& tokens.scope@ == (match reply.scope {
                Some(scope) => scope@,
                None => read.scope@,
            })
            &&& same_person(tokens.profile, read.profile)
            &&& lasts(tokens, reply, now)
        },
        _ => false,
    }
}

/// Whatever is stored in the course of the search is the very session that was read
/// before, renewed by the reply that came last: whoever was signed in still is.
pub proof fn law_the_stored_session_is_the_one_renewed(
    flows: Seq<AccessFlow>,
    events: Seq<AccessEvent>,
    actions: Seq<AccessAction>,
    i: int,
)
    requires
        access_run(flows, events, actions),
        0 <= i < events.len(),
        actions[i] is Persist,
    ensures
        exists|j: int| 0 <= j < i && is_renewal(#[trigger] events[j], events[i], actions[i]),
{
    assert(access_step(flows[i], events[i], flows[i + 1], actions[i]));
    lemma_goes_by_the_stored_session(flows, events, actions, i);
    let existing = flows[i]->Renewing_existing;
    let (j, client_id) = choose|j: int, client_id: Seq<char>|
        0 <= j < i && #[trigger] brought(events[j], existing, client_id);
    assert(is_renewal(events[j], events[i], actions[i]));
}

/// The form asks the token endpoint of the metadata to renew the session that was
/// read, with its refresh token, in the name of the client.
pub open spec fn asks_to_renew(read: AccessEvent, told: AccessEvent, action: AccessAction) -> bool {
    match (read, told, action) {
        (
            AccessEvent::Session { slot: Ok(SessionSlot::Stored(read)), settings, .. },
            AccessEvent::Metadata { reply: Ok(metadata) },
            AccessAction::RequestTokens { form },
        ) => {
            &&& url_parts(metadata.token_endpoint@) matches Some(url) && form.url@ == url.href
            &&& form.fields@.len() == 3
            &&& form.fields@[0].0@ == "grant_type"@ && form.fields@[0].1@ == "refresh_token"@
            &&& form.fields@[1].0@ == "client_id"@ && setting_value(settings.client_id, 512) == Some(
                form.fields@[1].1@,
            )
            &&& form.fields@[2].0@ == "refresh_token"@ && form.fields@[2].1@ == read.refresh_token@
        },
        _ => false,
    }
}

/// The service is asked to renew the very session that was read.
pub proof fn law_the_session_read_is_the_one_to_renew(
    flows: Seq<AccessFlow>,
    events: Seq<AccessEvent>,
    actions: Seq<AccessAction>,
    i: int,
)
    requires
        access_run(flows, events, actions),
        0 <= i < events.len(),
        actions[i] is RequestTokens,
    ensures
        exists|j: int| 0 <= j < i && asks_to_renew(#[trigger] events[j], events[i], actions[i]),
{
    assert(access_step(flows[i], events[i], flows[i + 1], actions[i]));
    lemma_goes_by_the_stored_session(flows, events, actions, i);
    let existing = flows[i]->LoadingMetadata_existing;
    let client_id = flows[i]->client_id@;
    let j = choose|j: int| 0 <= j < i && brought(#[trigger] events[j], existing, client_id);
    let form = actions[i]->form;
    let views = pair_views(form.fields@);
    assert(views == refresh_fields(client_id, existing.refresh_token@));
    assert(views.len() == form.fields@.len());
    assert(views[0] == (form.fields@[0].0@, form.fields@[0].1@));
    assert(views[1] == (form.fields@[1].0@, form.fields@[1].1@));
    assert(views[2] == (form.fields@[2].0@, form.fields@[2].1@));
    assert(asks_to_renew(events[j], events[i], actions[i]));
}

/// A stored token with more than a minute left, which the service has not refused, is
/// used as it is; any other stored session is renewed, if a client is configured.
pub proof fn law_stored_tokens_are_used_while_they_last(
    refused: Option<String>,
    tokens: StoredTokens,
    settings: Settings,
    now: u64,
    next: AccessFlow,
    action: AccessAction,
)
    requires
        access_step(
            AccessFlow::Reading { refused },
            AccessEvent::Session { slot: Ok(SessionSlot::Stored(tokens)), settings, now },
            next,
            action,
        ),
        fits(tokens.access_token@, 16384),
        fits(tokens.refresh_token@, 16384),
    ensures
        ({
            let usable = tokens.expires_at - now > 60 && !(refused matches Some(token) && token@
                == tokens.access_token@);
            &&& usable ==> (action matches AccessAction::Finish { outcome: Ok(token) } && token@
                == tokens.access_token@)
            &&& !usable && configured_client(settings) is Ok ==> action is LoadMetadata
            &&& !usable ==> (configured_client(settings) matches Err(reason) ==> (
            action matches AccessAction::Finish { outcome: Err(given) } && given@ == reason))
        }),
{
}

/// Each thing that the search waits for leads on where it is as it should be: accepted
/// metadata to a request for tokens, a reply that renews the session to its storage,
/// and storage to the renewed token. Whatever goes wrong is the reason why the search
/// fails.
pub proof fn law_renewals_go_through(
    client_id: String,
    existing: StoredTokens,
    event: AccessEvent,
    next: AccessFlow,
    action: AccessAction,
    reason: String,
)
    ensures
        access_step(AccessFlow::LoadingMetadata { client_id, existing }, event, next, action) ==> {
            &&& event matches AccessEvent::Metadata { reply: Ok(metadata) } ==> (
            match metadata_refusal(metadata) {
                None => action is RequestTokens,
                Some(refusal) => fails_with(next, action, refusal),
            })
            &&& event == (AccessEvent::Metadata { reply: Err(reason) }) ==> fails_with(
                next,
                action,
                reason@,
            )
        },
        access_step(AccessFlow::Renewing { existing }, event, next, action) ==> {
            &&& event matches AccessEvent::Tokens { response: Ok(reply), now } ==> if renews(
                existing@,
                reply,
            ) {
                action is Persist
            } else {
                renewed_session(existing@, reply, now) matches Err(refusal) && fails_with(
                    next,
                    action,
                    refusal,
                )
            }
            &&& event matches AccessEvent::Tokens { response: Err(reason), .. } ==> fails_with(
                next,
                action,
                reason@,
            )
        },
        access_step(AccessFlow::Persisting { renewed: existing }, event, next, action) ==> {
            &&& event == (AccessEvent::Persisted { outcome: Ok(()) }) ==> (
            action matches AccessAction::Finish { outcome: Ok(token) } && token@
                == existing.access_token@)
            &&& event == (AccessEvent::Persisted { outcome: Err(reason) }) ==> fails_with(
                next,
                action,
                reason@,
            )
        },
{
}

/// Where no usable session is stored, the search fails for what is wrong with the
/// secret store or with what it holds.
pub proof fn law_unusable_sessions_end_the_search(
    refused: Option<String>,
    slot: Result<SessionSlot, String>,
    settings: Settings,
    now: u64,
    next: AccessFlow,
    action: AccessAction,
)
    requires
        access_step(
            AccessFlow::Reading { refused },
            AccessEvent::Session { slot, settings, now },
            next,
            action,
        ),
    ensures
        slot matches Err(reason) ==> fails_with(next, action, reason@),
        slot == Ok::<SessionSlot, String>(SessionSlot::Corrupt) ==> fails_with(
            next,
            action,
            "Stored AI Pass session is corrupt."@,
        ),
        slot matches Ok(SessionSlot::Stored(tokens)) ==> {
            &&& !fits(tokens.access_token@, 16384) ==> fails_with(
                next,
                action,
                "AI Pass returned an invalid "@ + "stored access token"@ + "."@,
            )
            &&& fits(tokens.access_token@, 16384) && !fits(tokens.refresh_token@, 16384)
                ==> fails_with(
                next,
                action,
                "AI Pass returned an invalid "@ + "stored refresh token"@ + "."@,
            )
        },
{
}

/// An outcome is reported as it is: the token that is meant, or the reason that is meant.
pub proof fn law_outcomes_are_reported_as_they_are(
    flow: AccessFlow,
    action: AccessAction,
    text: Seq<char>,
)
    ensures
        ends_with(flow, action, text) <==> flow is Finished && (
        action matches AccessAction::Finish { outcome: Ok(token) } && token@ == text),
        fails_with(flow, action, text) <==> flow is Finished && (
        action matches AccessAction::Finish { outcome: Err(reason) } && reason@ == text),
{
}

} // verus!
