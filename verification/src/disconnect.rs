//! Signing out: the session is removed here first and revoked at the service afterwards.

use vstd::prelude::*;

use crate::config::protected_client_id;
use crate::config::setting_value;
use crate::config::Settings;
use crate::endpoint::is_pinned_url;
use crate::endpoint::url_parts;
use crate::forms::revocation_fields;
use crate::forms::revocation_form;
use crate::forms::revoke_request;
use crate::forms::FormRequest;
use crate::metadata::accept_metadata;
use crate::metadata::metadata_refusal;
use crate::metadata::reply_refusal;
use crate::metadata::OAuthMetadata;
use crate::session::StoredTokens;

verus! {

/// Whether the service has confirmed that the session is revoked.
#[derive(Debug, PartialEq)]
pub struct DisconnectResult {
    pub revoked: bool,
}

/// How far signing out has come.
pub enum DisconnectFlow {
    /// The requests under way are being cancelled.
    Cancelling,
    /// The session is being taken out of the secret store.
    Taking,
    /// The session is gone from here, and the metadata is being loaded.
    LoadingMetadata { tokens: Option<StoredTokens> },
    /// The access token is being revoked; the refresh token comes next.
    RevokingAccess { refresh: FormRequest },
    /// The refresh token is being revoked.
    RevokingRefresh { access_revoked: bool },
    /// Signing out is over.
    Finished,
}

/// What signing out learns.
pub enum DisconnectEvent {
    /// The requests under way are cancelled.
    Cancelled,
    /// The session was taken out of the secret store, or why it was not.
    Taken { outcome: Result<Option<StoredTokens>, String> },
    /// The metadata of the service, and how the client is configured.
    Metadata { reply: Result<OAuthMetadata, String>, settings: Settings },
    /// Whether the service has confirmed the revocation.
    Revoked { confirmed: bool },
}

/// What signing out asks for.
pub enum DisconnectAction {
    /// Cancel the requests under way.
    CancelRequests,
    /// Take the session out of the secret store.
    TakeSession,
    /// Load the metadata of the service.
    LoadMetadata,
    /// Post a form to the revocation endpoint.
    Revoke { form: FormRequest },
    /// Report what has come of it.
    Finish { outcome: Result<DisconnectResult, String> },
    /// Nothing: what was learnt does not belong here.
    Ignore,
}

/// Signing out ends, and the session is revoked for certain or not.
pub open spec fn ends_revoked(
    flow: DisconnectFlow,
    action: DisconnectAction,
    revoked: bool,
) -> bool {
    &&& flow is Finished
    &&& action == (DisconnectAction::Finish { outcome: Ok(DisconnectResult { revoked }) })
}

/// What follows from what signing out learns.
pub open spec fn disconnect_step(
    flow: DisconnectFlow,
    event: DisconnectEvent,
    next: DisconnectFlow,
    action: DisconnectAction,
) -> bool {
    match (flow, event) {
        (DisconnectFlow::Cancelling, DisconnectEvent::Cancelled) => next is Taking
            && action is TakeSession,
        (DisconnectFlow::Taking, DisconnectEvent::Taken { outcome }) => match outcome {
            Err(reason) => next is Finished && action == (DisconnectAction::Finish {
                outcome: Err(reason),
            }),
            Ok(tokens) => next == (DisconnectFlow::LoadingMetadata { tokens })
                && action is LoadMetadata,
        },
        (
            DisconnectFlow::LoadingMetadata { tokens },
            DisconnectEvent::Metadata { reply, settings },
        ) => if tokens is None {
            ends_revoked(next, action, true)
        } else if reply_refusal(reply) is Some {
            ends_revoked(next, action, false)
        } else {
            let client_id = setting_value(settings.client_id, 512);
            match (
                revocation_form(
                    reply->Ok_0,
                    client_id,
                    tokens->0.access_token@,
                    "access_token"@,
                ),
                revocation_form(
                    reply->Ok_0,
                    client_id,
                    tokens->0.refresh_token@,
                    "refresh_token"@,
                ),
            ) {
                (Some(access_form), Some(refresh_form)) => {
                    &&& next matches DisconnectFlow::RevokingAccess { refresh } && refresh@
                        == refresh_form
                    &&& action matches DisconnectAction::Revoke { form } && form@ == access_form
                },
                _ => ends_revoked(next, action, false),
            }
        },
        (DisconnectFlow::RevokingAccess { refresh }, DisconnectEvent::Revoked { confirmed }) => next
            == (DisconnectFlow::RevokingRefresh { access_revoked: confirmed }) && action == (
        DisconnectAction::Revoke { form: refresh }),
        (
            DisconnectFlow::RevokingRefresh { access_revoked },
            DisconnectEvent::Revoked { confirmed },
        ) => ends_revoked(next, action, access_revoked && confirmed),
        _ => next == flow && action is Ignore,
    }
}

impl DisconnectFlow {
    /// Begins to sign out.
    pub fn begin() -> (r: (DisconnectFlow, DisconnectAction))
        ensures
            r.0 is Cancelling,
            r.1 is CancelRequests,
    {
        (DisconnectFlow::Cancelling, DisconnectAction::CancelRequests)
    }

    fn end(revoked: bool) -> (r: (DisconnectFlow, DisconnectAction))
        ensures
            ends_revoked(r.0, r.1, revoked),
    {
        (
            DisconnectFlow::Finished,
            DisconnectAction::Finish { outcome: Ok(DisconnectResult { revoked }) },
        )
    }

    /// Goes on with what was learnt.
    pub fn step(self, event: DisconnectEvent) -> (r: (DisconnectFlow, DisconnectAction))
        ensures
            disconnect_step(self, event, r.0, r.1),
    {
        match (self, event) {
            (DisconnectFlow::Cancelling, DisconnectEvent::Cancelled) => (
                DisconnectFlow::Taking,
                DisconnectAction::TakeSession,
            ),
            (DisconnectFlow::Taking, DisconnectEvent::Taken { outcome }) => match outcome {
                Err(reason) => (
                    DisconnectFlow::Finished,
                    DisconnectAction::Finish { outcome: Err(reason) },
                ),
                Ok(tokens) => (
                    DisconnectFlow::LoadingMetadata { tokens },
                    DisconnectAction::LoadMetadata,
                ),
            },
            (
                DisconnectFlow::LoadingMetadata { tokens },
                DisconnectEvent::Metadata { reply, settings },
            ) => match tokens {
                None => DisconnectFlow::end(true),
                Some(tokens) => match accept_metadata(reply) {
                    Err(_) => DisconnectFlow::end(false),
                    Ok(metadata) => {
                        let client_id: Option<String> = protected_client_id(&settings);
                        let access: Option<FormRequest> = revoke_request(
                            &metadata,
                            &client_id,
                            tokens.access_token.as_str(),
                            "access_token",
                        );
                        let refresh: Option<FormRequest> = revoke_request(
                            &metadata,
                            &client_id,
                            tokens.refresh_token.as_str(),
                            "refresh_token",
                        );
                        match (access, refresh) {
                            (Some(form), Some(refresh)) => (
                                DisconnectFlow::RevokingAccess { refresh },
                                DisconnectAction::Revoke { form },
                            ),
                            _ => DisconnectFlow::end(false),
                        }
                    },
                },
            },
            (DisconnectFlow::RevokingAccess { refresh }, DisconnectEvent::Revoked { confirmed }) => (
                DisconnectFlow::RevokingRefresh { access_revoked: confirmed },
                DisconnectAction::Revoke { form: refresh },
            ),
            (
                DisconnectFlow::RevokingRefresh { access_revoked },
                DisconnectEvent::Revoked { confirmed },
            ) => DisconnectFlow::end(access_revoked && confirmed),
            (flow, _) => (flow, DisconnectAction::Ignore),
        }
    }
}

/// A course of signing out, from its beginning: before and after each event, and
/// what was asked for.
pub open spec fn disconnect_run(
    flows: Seq<DisconnectFlow>,
    events: Seq<DisconnectEvent>,
    actions: Seq<DisconnectAction>,
) -> bool {
    &&& flows.len() == events.len() + 1
    &&& actions.len() == events.len()
    &&& flows[0] is Cancelling
    &&& forall|i: int|
        0 <= i < events.len() ==> #[trigger] disconnect_step(
            flows[i],
            events[i],
            flows[i + 1],
            actions[i],
        )
}

/// The event says that the session is out of the secret store.
pub open spec fn is_taken(event: DisconnectEvent) -> bool {
    event matches DisconnectEvent::Taken { outcome: Ok(_) }
}

/// The event says that no session was there.
pub open spec fn is_nothing_taken(event: DisconnectEvent) -> bool {
    event matches DisconnectEvent::Taken { outcome: Ok(None) }
}

/// Signing out has come past the secret store.
spec fn past_the_store(flow: DisconnectFlow) -> bool {
    flow is LoadingMetadata || flow is RevokingAccess || flow is RevokingRefresh
}

proof fn lemma_past_the_store(
    flows: Seq<DisconnectFlow>,
    events: Seq<DisconnectEvent>,
    actions: Seq<DisconnectAction>,
    i: int,
)
    requires
        disconnect_run(flows, events, actions),
        0 <= i < flows.len(),
        past_the_store(flows[i]),
    ensures
        exists|j: int| 0 <= j < i && is_taken(#[trigger] events[j]),
        flows[i] == (DisconnectFlow::LoadingMetadata { tokens: None }) ==> exists|j: int|
            0 <= j < i && is_nothing_taken(#[trigger] events[j]),
        flows[i] == (DisconnectFlow::RevokingRefresh { access_revoked: true }) ==> exists|j: int|
            0 <= j < i && #[trigger] events[j] == (DisconnectEvent::Revoked { confirmed: true }),
    decreases i,
{
    assert(i > 0);
    assert(disconnect_step(flows[i - 1], events[i - 1], flows[i - 1 + 1], actions[i - 1]));
    if past_the_store(flows[i - 1]) {
        lemma_past_the_store(flows, events, actions, i - 1);
    } else {
        assert(is_taken(events[i - 1]));
    }
    if flows[i] == (DisconnectFlow::RevokingRefresh { access_revoked: true })
        && flows[i - 1] is RevokingAccess {
        assert(events[i - 1] == (DisconnectEvent::Revoked { confirmed: true }));
    }
    if flows[i] == (DisconnectFlow::LoadingMetadata { tokens: None }) && flows[i - 1] is Taking {
        assert(is_nothing_taken(events[i - 1]));
    }
}

/// The service is not contacted before the session is out of the secret store:
/// however long it takes to answer, nothing that could be used stays behind.
pub proof fn law_session_is_gone_before_the_service_is_contacted(
    flows: Seq<DisconnectFlow>,
    events: Seq<DisconnectEvent>,
    actions: Seq<DisconnectAction>,
    i: int,
)
    requires
        disconnect_run(flows, events, actions),
        0 <= i < events.len(),
        actions[i] is LoadMetadata || actions[i] is Revoke,
    ensures
        exists|j: int| 0 <= j <= i && is_taken(#[trigger] events[j]),
{
    assert(disconnect_step(flows[i], events[i], flows[i + 1], actions[i]));
    if past_the_store(flows[i]) {
        lemma_past_the_store(flows, events, actions, i);
    } else {
        assert(is_taken(events[i]));
    }
}

/// Revocation is reported as certain only if there was no session, or if the
/// service has confirmed it for both tokens.
pub proof fn law_certain_revocation_was_confirmed_twice(
    flows: Seq<DisconnectFlow>,
    events: Seq<DisconnectEvent>,
    actions: Seq<DisconnectAction>,
    i: int,
)
    requires
        disconnect_run(flows, events, actions),
        0 <= i < events.len(),
        actions[i] == (DisconnectAction::Finish { outcome: Ok(DisconnectResult { revoked: true }) }),
    ensures
        (exists|j: int| 0 <= j < i && is_nothing_taken(#[trigger] events[j])) || {
            &&& events[i] == (DisconnectEvent::Revoked { confirmed: true })
            &&& exists|j: int|
                0 <= j < i && #[trigger] events[j] == (DisconnectEvent::Revoked { confirmed: true })
        },
{
    assert(disconnect_step(flows[i], events[i], flows[i + 1], actions[i]));
    lemma_past_the_store(flows, events, actions, i);
}

/// The tokens go to the pinned origin and nowhere else: both revocations do.
pub proof fn law_revocations_stay_on_the_pinned_origin(
    flows: Seq<DisconnectFlow>,
    events: Seq<DisconnectEvent>,
    actions: Seq<DisconnectAction>,
    i: int,
)
    requires
        disconnect_run(flows, events, actions),
        0 <= i < events.len(),
    ensures
        actions[i] matches DisconnectAction::Revoke { form } ==> is_pinned_url(form@.url),
{
    lemma_forms_are_pinned(flows, events, actions, i);
    assert(disconnect_step(flows[i], events[i], flows[i + 1], actions[i]));
    if actions[i] is Revoke && flows[i] is LoadingMetadata {
        let endpoint = events[i]->reply->Ok_0.revocation_endpoint@;
        assert(url_parts(endpoint)->0.href == actions[i]->form@.url);
    }
}

proof fn lemma_forms_are_pinned(
    flows: Seq<DisconnectFlow>,
    events: Seq<DisconnectEvent>,
    actions: Seq<DisconnectAction>,
    i: int,
)
    requires
        disconnect_run(flows, events, actions),
        0 <= i < flows.len(),
    ensures
        flows[i] matches DisconnectFlow::RevokingAccess { refresh } ==> is_pinned_url(refresh@.url),
    decreases i,
{
    if i > 0 {
        lemma_forms_are_pinned(flows, events, actions, i - 1);
        assert(disconnect_step(flows[i - 1], events[i - 1], flows[i - 1 + 1], actions[i - 1]));
        if flows[i] is RevokingAccess && flows[i - 1] is LoadingMetadata {
            let endpoint = events[i - 1]->reply->Ok_0.revocation_endpoint@;
            assert(url_parts(endpoint)->0.href == flows[i]->refresh@.url);
        }
    }
}

/// Signing out goes its whole way: requests are cancelled, then the session is taken,
/// then the metadata is loaded, and then, where there was a session and the metadata is
/// accepted, the access token is revoked and after it the refresh token, whatever the
/// service says to the first. Certain revocation takes both confirmations, or no session.
pub proof fn law_signing_out_goes_through(
    flow: DisconnectFlow,
    event: DisconnectEvent,
    next: DisconnectFlow,
    action: DisconnectAction,
)
    requires
        disconnect_step(flow, event, next, action),
    ensures
        flow is Cancelling && event is Cancelled ==> action is TakeSession && next is Taking,
        flow is Taking ==> match event {
            DisconnectEvent::Taken { outcome: Ok(tokens) } => action is LoadMetadata && next == (
            DisconnectFlow::LoadingMetadata { tokens }),
            DisconnectEvent::Taken { outcome: Err(reason) } => action == (DisconnectAction::Finish {
                outcome: Err(reason),
            }),
            _ => action is Ignore,
        },
        flow == (DisconnectFlow::LoadingMetadata { tokens: None }) && event is Metadata ==> action
            == (DisconnectAction::Finish { outcome: Ok(DisconnectResult { revoked: true }) }),
        flow matches DisconnectFlow::LoadingMetadata { tokens: Some(tokens) } ==> {
            &&& event matches DisconnectEvent::Metadata { reply: Err(_), .. } ==> action == (
            DisconnectAction::Finish { outcome: Ok(DisconnectResult { revoked: false }) })
            &&& event matches DisconnectEvent::Metadata { reply: Ok(metadata), settings } ==> if
                metadata_refusal(metadata) is Some {
                action == (DisconnectAction::Finish {
                    outcome: Ok(DisconnectResult { revoked: false }),
                })
            } else {
                let client_id = setting_value(settings.client_id, 512);
                &&& action matches DisconnectAction::Revoke { form } && form@.url == url_parts(
                    metadata.revocation_endpoint@,
                )->0.href && form@.fields == revocation_fields(
                    client_id,
                    tokens.access_token@,
                    "access_token"@,
                )
                &&& next matches DisconnectFlow::RevokingAccess { refresh } && refresh@.url
                    == url_parts(metadata.revocation_endpoint@)->0.href && refresh@.fields
                    == revocation_fields(client_id, tokens.refresh_token@, "refresh_token"@)
            }
        },
        flow matches DisconnectFlow::RevokingAccess { refresh } ==> (
        event matches DisconnectEvent::Revoked { confirmed } ==> action == (
        DisconnectAction::Revoke { form: refresh }) && next == (DisconnectFlow::RevokingRefresh {
            access_revoked: confirmed,
        })),
        flow matches DisconnectFlow::RevokingRefresh { access_revoked } ==> (
        event matches DisconnectEvent::Revoked { confirmed } ==> action == (
        DisconnectAction::Finish {
            outcome: Ok(DisconnectResult { revoked: access_revoked && confirmed }),
        })),
{
}

} // verus!
