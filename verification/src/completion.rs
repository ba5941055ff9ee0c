//! A chat request from its access token to the end of its response. Its identifier
//! is free again once it is over.

use vstd::prelude::*;

use crate::chat::chat_reply;
use crate::chat::chat_reply_for;
use crate::chat::error_events;
use crate::chat::event_views;
use crate::chat::ChatReply;
use crate::chat::NativeResponseMeta;
use crate::endpoint::optional_text;
use crate::reply::is_success_status;
use crate::request::request_after;
use crate::request::sent_by;
use crate::request::RequestAction;
use crate::request::RequestEvent;
use crate::request::RequestFlow;
use crate::request::UNAUTHORIZED;
use crate::stream::EventView;
use crate::stream::NativeStreamEvent;

verus! {

/// How far a chat request has come.
pub enum CompletionFlow {
    /// The service is being asked, with these bytes.
    Asking { request: RequestFlow, body: Vec<u8> },
    /// The webview knows what comes, and the response is being forwarded.
    Forwarding,
    /// The request is being taken out of the registry; what is then to be reported, if anything.
    Leaving { report: Option<Result<NativeResponseMeta, String>> },
    /// The request is over.
    Finished,
}

/// What comes before the bytes of a response.
pub struct ResponseHead {
    pub status: u16,
    pub content_type: Option<String>,
}

/// What a chat request learns.
pub enum CompletionEvent {
    /// The access token, or why there is none.
    Token { token: Result<String, String> },
    /// The response, or why there is none.
    Response { head: Result<ResponseHead, String> },
    /// The response is forwarded, as far as it goes.
    Forwarded,
    /// The request is out of the registry.
    Removed,
}

/// What a chat request asks for.
pub enum CompletionAction {
    /// Look for an access token.
    ObtainToken,
    /// Look for an access token other than the one that was refused.
    RenewToken { failed: String },
    /// Send these bytes with this access token.
    Send { token: String, body: Vec<u8> },
    /// Report what comes, and forward the response that came last.
    Forward { meta: NativeResponseMeta },
    /// Hand these events to the webview, and take the request out of the registry.
    Leave { events: Vec<NativeStreamEvent> },
    /// Report what has come of the request.
    Report { outcome: Result<NativeResponseMeta, String> },
    /// The request is over, and everything is reported.
    Done,
    /// Nothing: what was learnt does not belong here.
    Ignore,
}

/// The request is to be taken out of the registry after some events.
pub open spec fn leaves(action: CompletionAction, events: Seq<EventView>) -> bool {
    action matches CompletionAction::Leave { events: given } && event_views(given@) == events
}

/// What becomes of the response that answers a chat request: a successful one is
/// forwarded, and of any other the webview hears the status alone.
pub open spec fn answers_with(
    head: ResponseHead,
    next: CompletionFlow,
    action: CompletionAction,
) -> bool {
    let reply = chat_reply_for(head.status, optional_text(head.content_type));
    if reply.forward {
        &&& next is Forwarding
        &&& action matches CompletionAction::Forward { meta } && meta.status == reply.status
            && meta.content_type@ == reply.content_type
    } else {
        &&& next matches CompletionFlow::Leaving { report: Some(Ok(meta)) } && meta.status
            == reply.status && meta.content_type@ == reply.content_type
        &&& leaves(action, reply.events)
    }
}

/// What follows from what the request to the service asks for.
pub open spec fn goes_on(
    body: Vec<u8>,
    asked: (RequestFlow, RequestAction),
    head: Option<ResponseHead>,
    next: CompletionFlow,
    action: CompletionAction,
) -> bool {
    let asking = CompletionFlow::Asking { request: asked.0, body };
    match asked.1 {
        RequestAction::RenewToken { failed } => next == asking && action
            == (CompletionAction::RenewToken { failed }),
        RequestAction::Send { token } => {
            &&& next == asking
            &&& action matches CompletionAction::Send { token: given, body: sent } && given == token
                && sent@ == body@
        },
        RequestAction::Fail { reason } => next == (CompletionFlow::Leaving {
            report: Some(Err(reason)),
        }) && leaves(action, Seq::empty()),
        RequestAction::UseResponse => match head {
            Some(head) => answers_with(head, next, action),
            None => next == asking && action is Ignore,
        },
        _ => next == asking && action is Ignore,
    }
}

/// What follows from what a chat request learns.
pub open spec fn completion_step(
    flow: CompletionFlow,
    event: CompletionEvent,
    next: CompletionFlow,
    action: CompletionAction,
) -> bool {
    match (flow, event) {
        (CompletionFlow::Asking { request, body }, CompletionEvent::Token { token }) => goes_on(
            body,
            request_after(request, RequestEvent::Token { token }),
            None,
            next,
            action,
        ),
        (CompletionFlow::Asking { request, body }, CompletionEvent::Response { head }) => match head {
            Err(reason) => goes_on(
                body,
                request_after(request, RequestEvent::Response { status: Err(reason) }),
                None,
                next,
                action,
            ),
            Ok(head) => goes_on(
                body,
                request_after(request, RequestEvent::Response { status: Ok(head.status) }),
                Some(head),
                next,
                action,
            ),
        },
        (CompletionFlow::Forwarding, CompletionEvent::Forwarded) => next == (
        CompletionFlow::Leaving { report: None }) && leaves(action, Seq::empty()),
        (CompletionFlow::Leaving { report }, CompletionEvent::Removed) => next is Finished && (
        match report {
            Some(outcome) => action == (CompletionAction::Report { outcome }),
            None => action is Done,
        }),
        _ => next == flow && action is Ignore,
    }
}

impl CompletionFlow {
    /// Begins with a request that is registered, and the bytes to send for it.
    pub fn begin(payload: Vec<u8>) -> (r: (CompletionFlow, CompletionAction))
        ensures
            r.0 == (CompletionFlow::Asking { request: RequestFlow::Authorizing, body: payload }),
            r.1 is ObtainToken,
    {
        let (request, _) = RequestFlow::begin();
        (CompletionFlow::Asking { request, body: payload }, CompletionAction::ObtainToken)
    }

    fn leave_silently(report: Option<Result<NativeResponseMeta, String>>) -> (r: (
        CompletionFlow,
        CompletionAction,
    ))
        ensures
            r.0 == (CompletionFlow::Leaving { report }),
            leaves(r.1, Seq::empty()),
    {
        let events: Vec<NativeStreamEvent> = Vec::new();
        assert(event_views(events@) =~= Seq::empty());
        (CompletionFlow::Leaving { report }, CompletionAction::Leave { events })
    }

    fn answer(head: ResponseHead) -> (r: (CompletionFlow, CompletionAction))
        ensures
            answers_with(head, r.0, r.1),
    {
        let reply: ChatReply = chat_reply(head.status, head.content_type);
        assert(reply@.forward == reply.forward);
        if reply.forward {
            (CompletionFlow::Forwarding, CompletionAction::Forward { meta: reply.meta })
        } else {
            (
                CompletionFlow::Leaving { report: Some(Ok(reply.meta)) },
                CompletionAction::Leave { events: reply.events },
            )
        }
    }

    fn go_on(body: Vec<u8>, asked: (RequestFlow, RequestAction), head: Option<ResponseHead>) -> (r: (
        CompletionFlow,
        CompletionAction,
    ))
        ensures
            goes_on(body, asked, head, r.0, r.1),
    {
        let (request, action) = asked;
        match action {
            RequestAction::RenewToken { failed } => (
                CompletionFlow::Asking { request, body },
                CompletionAction::RenewToken { failed },
            ),
            RequestAction::Send { token } => {
                let sent: Vec<u8> = body.clone();
                assert(sent@ =~= body@);
                (
                    CompletionFlow::Asking { request, body },
                    CompletionAction::Send { token, body: sent },
                )
            },
            RequestAction::Fail { reason } => CompletionFlow::leave_silently(Some(Err(reason))),
            RequestAction::UseResponse => match head {
                Some(head) => CompletionFlow::answer(head),
                None => (CompletionFlow::Asking { request, body }, CompletionAction::Ignore),
            },
            _ => (CompletionFlow::Asking { request, body }, CompletionAction::Ignore),
        }
    }

    /// Goes on with what was learnt.
    pub fn step(self, event: CompletionEvent) -> (r: (CompletionFlow, CompletionAction))
        ensures
            completion_step(self, event, r.0, r.1),
    {
        match (self, event) {
            (CompletionFlow::Asking { request, body }, CompletionEvent::Token { token }) => {
                CompletionFlow::go_on(body, request.step(RequestEvent::Token { token }), None)
            },
            (CompletionFlow::Asking { request, body }, CompletionEvent::Response { head }) => match head {
                Err(reason) => CompletionFlow::go_on(
                    body,
                    request.step(RequestEvent::Response { status: Err(reason) }),
                    None,
                ),
                Ok(head) => {
                    let status: u16 = head.status;
                    CompletionFlow::go_on(
                        body,
                        request.step(RequestEvent::Response { status: Ok(status) }),
                        Some(head),
                    )
                },
            },
            (CompletionFlow::Forwarding, CompletionEvent::Forwarded) => {
                CompletionFlow::leave_silently(None)
            },
            (CompletionFlow::Leaving { report }, CompletionEvent::Removed) => match report {
                Some(outcome) => (CompletionFlow::Finished, CompletionAction::Report { outcome }),
                None => (CompletionFlow::Finished, CompletionAction::Done),
            },
            (flow, _) => (flow, CompletionAction::Ignore),
        }
    }
}

/// A course of a chat request, from its beginning: before and after each event, and
/// what was asked for.
pub open spec fn completion_run(
    flows: Seq<CompletionFlow>,
    events: Seq<CompletionEvent>,
    actions: Seq<CompletionAction>,
) -> bool {
    &&& flows.len() == events.len() + 1
    &&& actions.len() == events.len()
    &&& flows[0] matches CompletionFlow::Asking { request: RequestFlow::Authorizing, .. }
    &&& forall|i: int|
        0 <= i < events.len() ==> #[trigger] completion_step(
            flows[i],
            events[i],
            flows[i + 1],
            actions[i],
        )
}

/// The request was taken out of the registry, or is about to be.
spec fn has_left(flow: CompletionFlow) -> bool {
    flow is Leaving || flow is Finished
}

proof fn lemma_leaving_was_asked(
    flows: Seq<CompletionFlow>,
    events: Seq<CompletionEvent>,
    actions: Seq<CompletionAction>,
    i: int,
)
    requires
        completion_run(flows, events, actions),
        0 <= i < flows.len(),
        has_left(flows[i]),
    ensures
        exists|j: int| 0 <= j < i && #[trigger] actions[j] is Leave,
    decreases i,
{
    assert(i > 0);
    assert(completion_step(flows[i - 1], events[i - 1], flows[i - 1 + 1], actions[i - 1]));
    if has_left(flows[i - 1]) {
        lemma_leaving_was_asked(flows, events, actions, i - 1);
    } else {
        assert(actions[i - 1] is Leave);
    }
}

proof fn lemma_stays_away(
    flows: Seq<CompletionFlow>,
    events: Seq<CompletionEvent>,
    actions: Seq<CompletionAction>,
    i: int,
    k: int,
)
    requires
        completion_run(flows, events, actions),
        0 <= i <= k < flows.len(),
        has_left(flows[i]),
    ensures
        has_left(flows[k]),
    decreases k - i,
{
    if i < k {
        lemma_stays_away(flows, events, actions, i, k - 1);
        assert(completion_step(flows[k - 1], events[k - 1], flows[k - 1 + 1], actions[k - 1]));
    }
}

/// A request is reported as answered or failed only once it is out of the registry,
/// unless its response is forwarded; and then it is out once that is over.
pub proof fn law_identifiers_are_free_once_requests_are_over(
    flows: Seq<CompletionFlow>,
    events: Seq<CompletionEvent>,
    actions: Seq<CompletionAction>,
    i: int,
)
    requires
        completion_run(flows, events, actions),
        0 <= i < events.len(),
    ensures
        actions[i] is Report || actions[i] is Done ==> events[i] is Removed && exists|j: int|
            0 <= j < i && #[trigger] actions[j] is Leave,
        flows[i] is Forwarding && events[i] is Forwarded ==> actions[i] is Leave,
{
    assert(completion_step(flows[i], events[i], flows[i + 1], actions[i]));
    if actions[i] is Report || actions[i] is Done {
        lemma_leaving_was_asked(flows, events, actions, i);
    }
}

/// A request asks to be taken out of the registry once at most.
pub proof fn law_requests_leave_once(
    flows: Seq<CompletionFlow>,
    events: Seq<CompletionEvent>,
    actions: Seq<CompletionAction>,
    i: int,
    k: int,
)
    requires
        completion_run(flows, events, actions),
        0 <= i < k < events.len(),
        actions[i] is Leave,
    ensures
        !(actions[k] is Leave),
{
    assert(completion_step(flows[i], events[i], flows[i + 1], actions[i]));
    lemma_stays_away(flows, events, actions, i + 1, k);
    assert(completion_step(flows[k], events[k], flows[k + 1], actions[k]));
}

/// Only a successful response is forwarded; in place of any other that answers the
/// request, the webview gets events that say the status alone.
pub proof fn law_only_successful_responses_are_forwarded(
    flows: Seq<CompletionFlow>,
    events: Seq<CompletionEvent>,
    actions: Seq<CompletionAction>,
    i: int,
)
    requires
        completion_run(flows, events, actions),
        0 <= i < events.len(),
    ensures
        actions[i] matches CompletionAction::Forward { meta } ==> is_success_status(meta.status),
        actions[i] matches CompletionAction::Leave { events: given } ==> given@.len() > 0 ==> (
        events[i] matches CompletionEvent::Response { head: Ok(head) } && !is_success_status(
            head.status,
        ) && event_views(given@) == error_events(head.status)),
{
    assert(completion_step(flows[i], events[i], flows[i + 1], actions[i]));
    if let CompletionAction::Leave { events: given } = actions[i] {
        assert(event_views(given@).len() == given@.len());
    }
}

/// How often some actions send the request.
pub open spec fn sends(actions: Seq<CompletionAction>) -> nat
    decreases actions.len(),
{
    if actions.len() == 0 {
        0
    } else {
        sends(actions.drop_last()) + if actions.last() is Send {
            1nat
        } else {
            0
        }
    }
}

proof fn lemma_sends(
    flows: Seq<CompletionFlow>,
    events: Seq<CompletionEvent>,
    actions: Seq<CompletionAction>,
)
    requires
        completion_run(flows, events, actions),
    ensures
        sends(actions) <= 2,
        flows.last() matches CompletionFlow::Asking { request, .. } ==> sent_by(request).0 <= sends(
            actions,
        ) <= sent_by(request).1,
    decreases events.len(),
{
    if events.len() > 0 {
        let n = events.len() - 1;
        let fewer = (flows.drop_last(), events.drop_last(), actions.drop_last());
        assert forall|i: int| 0 <= i < fewer.1.len() implies #[trigger] completion_step(
            fewer.0[i],
            fewer.1[i],
            fewer.0[i + 1],
            fewer.2[i],
        ) by {
            assert(completion_step(flows[i], events[i], flows[i + 1], actions[i]));
        }
        lemma_sends(fewer.0, fewer.1, fewer.2);
        assert(completion_step(flows[n], events[n], flows[n + 1], actions[n]));
    }
}

/// A chat request is sent twice at most, whatever the service answers.
pub proof fn law_chat_requests_are_sent_twice_at_most(
    flows: Seq<CompletionFlow>,
    events: Seq<CompletionEvent>,
    actions: Seq<CompletionAction>,
)
    requires
        completion_run(flows, events, actions),
    ensures
        sends(actions) <= 2,
{
    lemma_sends(flows, events, actions);
}

proof fn lemma_body_stays(
    flows: Seq<CompletionFlow>,
    events: Seq<CompletionEvent>,
    actions: Seq<CompletionAction>,
    i: int,
)
    requires
        completion_run(flows, events, actions),
        0 <= i < flows.len(),
    ensures
        flows[i] is Asking ==> flows[i]->body == flows[0]->body,
    decreases i,
{
    if i > 0 {
        lemma_body_stays(flows, events, actions, i - 1);
        assert(completion_step(flows[i - 1], events[i - 1], flows[i - 1 + 1], actions[i - 1]));
    }
}

/// A chat request is sent with the bytes that it began with, and sent again with the
/// same: only the access token may differ.
pub proof fn law_requests_are_sent_with_the_same_bytes(
    flows: Seq<CompletionFlow>,
    events: Seq<CompletionEvent>,
    actions: Seq<CompletionAction>,
    i: int,
)
    requires
        completion_run(flows, events, actions),
        0 <= i < events.len(),
    ensures
        actions[i] matches CompletionAction::Send { body, .. } ==> body@ == flows[0]->body@,
{
    lemma_body_stays(flows, events, actions, i);
    assert(completion_step(flows[i], events[i], flows[i + 1], actions[i]));
}

/// Each time the request is sent with the token that was found last. The first
/// response is the answer unless it refuses the token: then another token is looked
/// for, and the second response is the answer even if it refuses that one too.
pub proof fn law_only_an_unauthorised_request_is_sent_again(
    flows: Seq<CompletionFlow>,
    events: Seq<CompletionEvent>,
    actions: Seq<CompletionAction>,
    i: int,
)
    requires
        completion_run(flows, events, actions),
        0 <= i < events.len(),
    ensures
        actions[i] matches CompletionAction::Send { token, .. } ==> (
        events[i] matches CompletionEvent::Token { token: Ok(given) } && given == token),
        actions[i] is RenewToken ==> (
        events[i] matches CompletionEvent::Response { head: Ok(head) } && head.status
            == UNAUTHORIZED),
        actions[i] is RenewToken ==> (
        flows[i] matches CompletionFlow::Asking { request: RequestFlow::Sent { token }, .. }
            && actions[i] == (CompletionAction::RenewToken { failed: token })),
        flows[i] matches CompletionFlow::Asking { request: RequestFlow::Sent { .. }, .. } ==> (
        events[i] matches CompletionEvent::Response { head: Ok(head) } ==> (if head.status
            == UNAUTHORIZED {
            actions[i] is RenewToken
        } else {
            answers_with(head, flows[i + 1], actions[i])
        })),
        flows[i] matches CompletionFlow::Asking { request: RequestFlow::Resent, .. } ==> (
        events[i] matches CompletionEvent::Response { head: Ok(head) } ==> answers_with(
            head,
            flows[i + 1],
            actions[i],
        )),
{
    assert(completion_step(flows[i], events[i], flows[i + 1], actions[i]));
}

/// What an outcome says.
pub open spec fn outcome_view(outcome: Result<NativeResponseMeta, String>) -> Result<
    (u16, Seq<char>),
    Seq<char>,
> {
    match outcome {
        Ok(meta) => Ok((meta.status, meta.content_type@)),
        Err(reason) => Err(reason@),
    }
}

/// Two requests to the service have come equally far, up to the tokens.
pub open spec fn requests_alike(one: RequestFlow, other: RequestFlow) -> bool {
    match (one, other) {
        (RequestFlow::Authorizing, RequestFlow::Authorizing) => true,
        (RequestFlow::Sent { .. }, RequestFlow::Sent { .. }) => true,
        (RequestFlow::Renewing, RequestFlow::Renewing) => true,
        (RequestFlow::Resent, RequestFlow::Resent) => true,
        (RequestFlow::Finished, RequestFlow::Finished) => true,
        _ => false,
    }
}

/// Two chat requests with the same bytes have come equally far, up to the tokens.
pub open spec fn flows_alike(one: CompletionFlow, other: CompletionFlow) -> bool {
    match (one, other) {
        (
            CompletionFlow::Asking { request: one_request, body: one_body },
            CompletionFlow::Asking { request: other_request, body: other_body },
        ) => requests_alike(one_request, other_request) && one_body@ == other_body@,
        (CompletionFlow::Forwarding, CompletionFlow::Forwarding) => true,
        (CompletionFlow::Leaving { report: None }, CompletionFlow::Leaving { report: None }) => {
            true
        },
        (
            CompletionFlow::Leaving { report: Some(one) },
            CompletionFlow::Leaving { report: Some(other) },
        ) => outcome_view(one) == outcome_view(other),
        (CompletionFlow::Finished, CompletionFlow::Finished) => true,
        _ => false,
    }
}

/// Two chat requests learn the same, up to the tokens.
pub open spec fn events_alike(one: CompletionEvent, other: CompletionEvent) -> bool {
    match (one, other) {
        (CompletionEvent::Token { token: one }, CompletionEvent::Token { token: other }) => {
            match (one, other) {
                (Ok(_), Ok(_)) => true,
                (Err(one), Err(other)) => one@ == other@,
                _ => false,
            }
        },
        (CompletionEvent::Response { head: one }, CompletionEvent::Response { head: other }) => {
            match (one, other) {
                (Ok(one), Ok(other)) => one.status == other.status && optional_text(
                    one.content_type,
                ) == optional_text(other.content_type),
                (Err(one), Err(other)) => one@ == other@,
                _ => false,
            }
        },
        (CompletionEvent::Forwarded, CompletionEvent::Forwarded) => true,
        (CompletionEvent::Removed, CompletionEvent::Removed) => true,
        _ => false,
    }
}

/// Two actions show the webview the same, and do the same but for the tokens.
pub open spec fn shows_the_same(one: CompletionAction, other: CompletionAction) -> bool {
    match (one, other) {
        (CompletionAction::ObtainToken, CompletionAction::ObtainToken) => true,
        (CompletionAction::RenewToken { .. }, CompletionAction::RenewToken { .. }) => true,
        (CompletionAction::Send { body: one, .. }, CompletionAction::Send { body: other, .. }) => {
            one@ == other@
        },
        (CompletionAction::Forward { meta: one }, CompletionAction::Forward { meta: other }) => {
            one.status == other.status && one.content_type@ == other.content_type@
        },
        (CompletionAction::Leave { events: one }, CompletionAction::Leave { events: other }) => {
            event_views(one@) == event_views(other@)
        },
        (
            CompletionAction::Report { outcome: one },
            CompletionAction::Report { outcome: other },
        ) => outcome_view(one) == outcome_view(other),
        (CompletionAction::Done, CompletionAction::Done) => true,
        (CompletionAction::Ignore, CompletionAction::Ignore) => true,
        _ => false,
    }
}

/// No token reaches the webview: two chat requests that differ in the tokens alone
/// show it the same, step by step.
pub proof fn law_the_webview_sees_no_token(
    one: CompletionFlow,
    one_event: CompletionEvent,
    one_next: CompletionFlow,
    one_action: CompletionAction,
    other: CompletionFlow,
    other_event: CompletionEvent,
    other_next: CompletionFlow,
    other_action: CompletionAction,
)
    requires
        completion_step(one, one_event, one_next, one_action),
        completion_step(other, other_event, other_next, other_action),
        flows_alike(one, other),
        events_alike(one_event, other_event),
    ensures
        shows_the_same(one_action, other_action),
        flows_alike(one_next, other_next),
{
}

/// The request is to be taken out of the registry, and the webview hears nothing.
pub open spec fn is_silent_leave(action: CompletionAction) -> bool {
    action matches CompletionAction::Leave { events } && events@.len() == 0
}

/// A chat request goes its whole way: with a token it is sent; the response that
/// answers it is forwarded where its status is between 200 and 299, and is otherwise
/// replaced by one chunk and the end, reported with its status; what it lacks is the
/// reason why it fails; and before anything is reported it leaves the registry.
pub proof fn law_chat_requests_go_through(
    flow: CompletionFlow,
    event: CompletionEvent,
    next: CompletionFlow,
    action: CompletionAction,
)
    requires
        completion_step(flow, event, next, action),
    ensures
        flow matches CompletionFlow::Asking { request, body } ==> {
            let looks = request is Authorizing || request is Renewing;
            let waits = request is Sent || request is Resent;
            &&& looks ==> (event matches CompletionEvent::Token { token: Ok(token) } ==> (
            action matches CompletionAction::Send { token: given, body: sent } && given == token
                && sent@ == body@))
            &&& looks ==> (event matches CompletionEvent::Token { token: Err(reason) } ==> is_silent_leave(action) && next == (CompletionFlow::Leaving { report: Some(Err(reason)) }))
            &&& waits ==> (event matches CompletionEvent::Response { head: Err(reason) } ==> is_silent_leave(action) && next == (CompletionFlow::Leaving { report: Some(Err(reason)) }))
            &&& waits ==> (event matches CompletionEvent::Response { head: Ok(head) } ==> {
                let again = request is Sent && head.status == 401;
                &&& again ==> action is RenewToken
                &&& !again && head.status / 100 == 2 ==> next is Forwarding && (
                action matches CompletionAction::Forward { meta } && meta.status == head.status)
                &&& !again && head.status / 100 != 2 ==> (
                next matches CompletionFlow::Leaving { report: Some(Ok(meta)) } && meta.status
                    == head.status && meta.content_type@ == "application/json"@) && (
                action matches CompletionAction::Leave { events } && events@.len() == 2
                    && events@[1]@ is End)
            })
        },
        flow is Forwarding && event is Forwarded ==> is_silent_leave(action) && next == (
        CompletionFlow::Leaving { report: None }),
        flow matches CompletionFlow::Leaving { report } ==> (event is Removed ==> match report {
            Some(outcome) => action == (CompletionAction::Report { outcome }),
            None => action is Done,
        }),
{
    if let CompletionAction::Leave { events } = action {
        let views = event_views(events@);
        assert(views.len() == events@.len());
        assert forall|i: int| 0 <= i < views.len() implies #[trigger] views[i] == events@[i]@ by {}
        if events@.len() == 2 {
            assert(views[1] == events@[1]@);
        }
    }
}

} // verus!
