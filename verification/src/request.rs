//! A request in the name of whoever is signed in. A request that the service
//! refuses as unauthorised is sent once more, with a renewed access token.

use vstd::prelude::*;

verus! {

/// How far a request has come.
pub enum RequestFlow {
    /// An access token is being looked for.
    Authorizing,
    /// The request is under way.
    Sent { token: String },
    /// The service has refused the access token, and another one is being looked for.
    Renewing,
    /// The request is under way again.
    Resent,
    /// The request is over.
    Finished,
}

/// What a request learns.
pub enum RequestEvent {
    /// The access token, or why there is none.
    Token { token: Result<String, String> },
    /// The status of the response, or why there is none.
    Response { status: Result<u16, String> },
}

/// What a request asks for.
pub enum RequestAction {
    /// Look for an access token.
    ObtainToken,
    /// Look for an access token other than the one that was refused.
    RenewToken { failed: String },
    /// Send the request with this access token.
    Send { token: String },
    /// The response that came last is the answer.
    UseResponse,
    /// There is no answer.
    Fail { reason: String },
    /// Nothing: what was learnt does not belong here.
    Ignore,
}

/// The status of a response to a request that is not authorised.
pub const UNAUTHORIZED: u16 = 401;

/// What follows from what a request learns: how far it comes, and what it asks for.
pub open spec fn request_after(flow: RequestFlow, event: RequestEvent) -> (
    RequestFlow,
    RequestAction,
) {
    match (flow, event) {
        (RequestFlow::Authorizing, RequestEvent::Token { token }) => match token {
            Err(reason) => (RequestFlow::Finished, RequestAction::Fail { reason }),
            Ok(token) => (RequestFlow::Sent { token }, RequestAction::Send { token }),
        },
        (RequestFlow::Sent { token }, RequestEvent::Response { status }) => match status {
            Err(reason) => (RequestFlow::Finished, RequestAction::Fail { reason }),
            Ok(status) => if status == UNAUTHORIZED {
                (RequestFlow::Renewing, RequestAction::RenewToken { failed: token })
            } else {
                (RequestFlow::Finished, RequestAction::UseResponse)
            },
        },
        (RequestFlow::Renewing, RequestEvent::Token { token }) => match token {
            Err(reason) => (RequestFlow::Finished, RequestAction::Fail { reason }),
            Ok(token) => (RequestFlow::Resent, RequestAction::Send { token }),
        },
        (RequestFlow::Resent, RequestEvent::Response { status }) => match status {
            Err(reason) => (RequestFlow::Finished, RequestAction::Fail { reason }),
            Ok(_) => (RequestFlow::Finished, RequestAction::UseResponse),
        },
        _ => (flow, RequestAction::Ignore),
    }
}

/// What follows from what a request learns.
pub open spec fn request_step(
    flow: RequestFlow,
    event: RequestEvent,
    next: RequestFlow,
    action: RequestAction,
) -> bool {
    (next, action) == request_after(flow, event)
}

impl RequestFlow {
    /// Begins a request.
    pub fn begin() -> (r: (RequestFlow, RequestAction))
        ensures
            r.0 is Authorizing,
            r.1 is ObtainToken,
    {
        (RequestFlow::Authorizing, RequestAction::ObtainToken)
    }

    /// Goes on with what was learnt.
    pub fn step(self, event: RequestEvent) -> (r: (RequestFlow, RequestAction))
        ensures
            request_step(self, event, r.0, r.1),
    {
        match (self, event) {
            (RequestFlow::Authorizing, RequestEvent::Token { token }) => match token {
                Err(reason) => (RequestFlow::Finished, RequestAction::Fail { reason }),
                Ok(token) => {
                    let sent: String = token.clone();
                    (RequestFlow::Sent { token }, RequestAction::Send { token: sent })
                },
            },
            (RequestFlow::Sent { token }, RequestEvent::Response { status }) => match status {
                Err(reason) => (RequestFlow::Finished, RequestAction::Fail { reason }),
                Ok(status) => if status == UNAUTHORIZED {
                    (RequestFlow::Renewing, RequestAction::RenewToken { failed: token })
                } else {
                    (RequestFlow::Finished, RequestAction::UseResponse)
                },
            },
            (RequestFlow::Renewing, RequestEvent::Token { token }) => match token {
                Err(reason) => (RequestFlow::Finished, RequestAction::Fail { reason }),
                Ok(token) => (RequestFlow::Resent, RequestAction::Send { token }),
            },
            (RequestFlow::Resent, RequestEvent::Response { status }) => match status {
                Err(reason) => (RequestFlow::Finished, RequestAction::Fail { reason }),
                Ok(_) => (RequestFlow::Finished, RequestAction::UseResponse),
            },
            (flow, _) => (flow, RequestAction::Ignore),
        }
    }
}

/// A course of a request, from its beginning: before and after each event, and
/// what was asked for.
pub open spec fn request_run(
    flows: Seq<RequestFlow>,
    events: Seq<RequestEvent>,
    actions: Seq<RequestAction>,
) -> bool {
    &&& flows.len() == events.len() + 1
    &&& actions.len() == events.len()
    &&& flows[0] is Authorizing
    &&& forall|i: int|
        0 <= i < events.len() ==> #[trigger] request_step(
            flows[i],
            events[i],
            flows[i + 1],
            actions[i],
        )
}

/// How often some actions send the request.
pub open spec fn sends(actions: Seq<RequestAction>) -> nat
    decreases actions.len(),
{
    if actions.len() == 0 {
        0
    } else {
        sends(actions.drop_last()) + if actions.last() is Send {
            1nat
        } else {
            0
        }
    }
}

/// How often a request has been sent, at least and at most, once it has come this far.
pub open spec fn sent_by(flow: RequestFlow) -> (nat, nat) {
    match flow {
        RequestFlow::Authorizing => (0, 0),
        RequestFlow::Sent { .. } => (1, 1),
        RequestFlow::Renewing => (1, 1),
        RequestFlow::Resent => (2, 2),
        RequestFlow::Finished => (0, 2),
    }
}

/// A request is sent twice at most, whatever the service answers.
pub proof fn law_requests_are_sent_twice_at_most(
    flows: Seq<RequestFlow>,
    events: Seq<RequestEvent>,
    actions: Seq<RequestAction>,
)
    requires
        request_run(flows, events, actions),
    ensures
        sends(actions) <= 2,
{
    lemma_sends(flows, events, actions);
}

proof fn lemma_sends(
    flows: Seq<RequestFlow>,
    events: Seq<RequestEvent>,
    actions: Seq<RequestAction>,
)
    requires
        request_run(flows, events, actions),
    ensures
        sent_by(flows.last()).0 <= sends(actions) <= sent_by(flows.last()).1,
    decreases events.len(),
{
    if events.len() > 0 {
        let n = events.len() - 1;
        let fewer = (flows.drop_last(), events.drop_last(), actions.drop_last());
        assert forall|i: int| 0 <= i < fewer.1.len() implies #[trigger] request_step(
            fewer.0[i],
            fewer.1[i],
            fewer.0[i + 1],
            fewer.2[i],
        ) by {
            assert(request_step(flows[i], events[i], flows[i + 1], actions[i]));
        }
        lemma_sends(fewer.0, fewer.1, fewer.2);
        assert(request_step(flows[n], events[n], flows[n + 1], actions[n]));
    }
}

/// A renewed access token is asked for only when the service has refused one, and
/// only once.
pub proof fn law_tokens_are_renewed_once_and_only_when_refused(
    flows: Seq<RequestFlow>,
    events: Seq<RequestEvent>,
    actions: Seq<RequestAction>,
    i: int,
    k: int,
)
    requires
        request_run(flows, events, actions),
        0 <= i < events.len(),
        actions[i] is RenewToken,
    ensures
        events[i] == (RequestEvent::Response { status: Ok(UNAUTHORIZED) }),
        i < k < events.len() ==> !(actions[k] is RenewToken),
{
    assert(request_step(flows[i], events[i], flows[i + 1], actions[i]));
    if i < k < events.len() {
        lemma_past_renewal(flows, events, actions, i, k);
        assert(request_step(flows[k], events[k], flows[k + 1], actions[k]));
    }
}

proof fn lemma_past_renewal(
    flows: Seq<RequestFlow>,
    events: Seq<RequestEvent>,
    actions: Seq<RequestAction>,
    i: int,
    k: int,
)
    requires
        request_run(flows, events, actions),
        0 <= i < k <= events.len(),
        actions[i] is RenewToken,
    ensures
        flows[k] is Renewing || flows[k] is Resent || flows[k] is Finished,
    decreases k,
{
    if k == i + 1 {
        assert(request_step(flows[i], events[i], flows[i + 1], actions[i]));
    } else {
        lemma_past_renewal(flows, events, actions, i, k - 1);
        assert(request_step(flows[k - 1], events[k - 1], flows[k - 1 + 1], actions[k - 1]));
    }
}

/// What a request asks for is what it needs next: with a token it is sent; a response
/// that does not refuse the token answers it, and so does any second response; a
/// response that refuses the first token has another one looked for in its place; and
/// whatever is missing is the reason why it fails.
pub proof fn law_requests_take_their_course(token: String, status: u16, reason: String)
    ensures
        ({
            let given = RequestEvent::Token { token: Ok(token) };
            let none = RequestEvent::Token { token: Err(reason) };
            let came = RequestEvent::Response { status: Ok(status) };
            let lost = RequestEvent::Response { status: Err(reason) };
            let sent = RequestFlow::Sent { token };
            let fails = (RequestFlow::Finished, RequestAction::Fail { reason });
            let answers = (RequestFlow::Finished, RequestAction::UseResponse);
            &&& request_after(RequestFlow::Authorizing, given) == (
                sent,
                RequestAction::Send { token },
            )
            &&& status != 401 ==> request_after(sent, came) == answers
            &&& status == 401 ==> request_after(sent, came) == (
                RequestFlow::Renewing,
                RequestAction::RenewToken { failed: token },
            )
            &&& request_after(RequestFlow::Renewing, given) == (
                RequestFlow::Resent,
                RequestAction::Send { token },
            )
            &&& request_after(RequestFlow::Resent, came) == answers
            &&& request_after(RequestFlow::Authorizing, none) == fails
            &&& request_after(RequestFlow::Renewing, none) == fails
            &&& request_after(sent, lost) == fails
            &&& request_after(RequestFlow::Resent, lost) == fails
        }),
{
}

} // verus!
