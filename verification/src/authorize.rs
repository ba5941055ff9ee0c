//! Authorisation: the URL that the browser opens and the callback that answers it.

use vstd::prelude::*;

use crate::config::ClientConfig;
use crate::config::ClientView;
use crate::crypto::constant_time_equal;
use crate::endpoint::append_pairs;
use crate::endpoint::endpoint_refusal;
use crate::endpoint::pair_views;
use crate::endpoint::pinned_endpoint;
use crate::endpoint::takes_pairs;
use crate::endpoint::url_parts;
use crate::endpoint::url_with_pairs;
use crate::metadata::OAuthMetadata;
use crate::pkce::PkceMaterial;
use crate::session::OAUTH_SCOPE;
use crate::text::byte_len;
use crate::text::byte_length;
use crate::text::fits;

verus! {

/// How long the browser may take, in seconds.
pub const CALLBACK_TIMEOUT_SECONDS: u64 = 300;

/// The longest authorisation code, in bytes.
pub const MAX_CODE_BYTES: usize = 4096;

/// A name and a value.
pub fn pair(name: &str, value: &str) -> (r: (String, String))
    ensures
        r.0@ == name@,
        r.1@ == value@,
{
    (name.to_owned(), value.to_owned())
}

/// What the browser tells the service when it asks for an authorisation.
pub open spec fn authorization_query(
    client: ClientView,
    state: Seq<char>,
    challenge: Seq<char>,
) -> Seq<(Seq<char>, Seq<char>)> {
    seq![
        ("response_type"@, "code"@),
        ("client_id"@, client.client_id),
        ("redirect_uri"@, client.callback.redirect_uri),
        ("scope"@, OAUTH_SCOPE@),
        ("state"@, state),
        ("code_challenge"@, challenge),
        ("code_challenge_method"@, "S256"@),
    ]
}

/// What the browser tells the service when it asks for an authorisation.
pub fn authorization_pairs(client: &ClientConfig, pkce: &PkceMaterial) -> (r: Vec<(String, String)>)
    ensures
        pair_views(r@) == authorization_query(client@, pkce.state@, pkce.challenge@),
{
    let mut r: Vec<(String, String)> = Vec::new();
    r.push(pair("response_type", "code"));
    r.push(pair("client_id", client.client_id.as_str()));
    r.push(pair("redirect_uri", client.callback.redirect_uri.as_str()));
    r.push(pair("scope", OAUTH_SCOPE));
    r.push(pair("state", pkce.state.as_str()));
    r.push(pair("code_challenge", pkce.challenge.as_str()));
    r.push(pair("code_challenge_method", "S256"));
    assert(pair_views(r@) =~= authorization_query(client@, pkce.state@, pkce.challenge@));
    r
}

/// The URL at which the browser asks for an authorisation. An endpoint on the pinned
/// origin must leave room for a query.
pub fn authorization_url(
    metadata: &OAuthMetadata,
    client: &ClientConfig,
    pkce: &PkceMaterial,
) -> (r: Result<String, String>)
    requires
        endpoint_refusal(metadata.authorization_endpoint@) is None ==> takes_pairs(
            url_parts(metadata.authorization_endpoint@)->0,
        ),
    ensures
        match r {
            Ok(url) => endpoint_refusal(metadata.authorization_endpoint@) is None && url@
                == url_with_pairs(
                url_parts(metadata.authorization_endpoint@)->0,
                authorization_query(client@, pkce.state@, pkce.challenge@),
            ),
            Err(reason) => endpoint_refusal(metadata.authorization_endpoint@) == Some(reason@),
        },
{
    if let Err(reason) = pinned_endpoint(metadata.authorization_endpoint.as_str()) {
        return Err(reason);
    }
    let pairs: Vec<(String, String)> = authorization_pairs(client, pkce);
    match append_pairs(metadata.authorization_endpoint.as_str(), &pairs) {
        Some(url) => Ok(url),
        None => Err("AI Pass OAuth metadata contains an invalid endpoint.".to_owned()),
    }
}

/// The query of a request to the callback.
#[derive(Debug, PartialEq)]
pub struct CallbackQuery {
    pub state: Option<String>,
    pub code: Option<String>,
    pub error: Option<String>,
}

/// A page for the browser.
#[derive(Debug, PartialEq)]
pub struct CallbackReply {
    pub status: u16,
    pub message: String,
    pub headers: Vec<(String, String)>,
}

/// The headers of every page: plain text, shown alone, kept nowhere.
pub open spec fn page_headers() -> Seq<(Seq<char>, Seq<char>)> {
    seq![
        ("content-type"@, "text/plain; charset=utf-8"@),
        ("content-security-policy"@, "default-src 'none'; frame-ancestors 'none'"@),
        ("cache-control"@, "no-store, max-age=0"@),
        ("referrer-policy"@, "no-referrer"@),
        ("x-content-type-options"@, "nosniff"@),
    ]
}

/// The reply is the page with the given status and message.
pub open spec fn is_page(reply: CallbackReply, status: u16, message: Seq<char>) -> bool {
    &&& reply.status == status
    &&& reply.message@ == message
    &&& pair_views(reply.headers@) == page_headers()
}

/// The page with the given status and message.
pub fn callback_response(status: u16, message: &str) -> (r: CallbackReply)
    ensures
        is_page(r, status, message@),
{
    let mut headers: Vec<(String, String)> = Vec::new();
    headers.push(pair("content-type", "text/plain; charset=utf-8"));
    headers.push(pair("content-security-policy", "default-src 'none'; frame-ancestors 'none'"));
    headers.push(pair("cache-control", "no-store, max-age=0"));
    headers.push(pair("referrer-policy", "no-referrer"));
    headers.push(pair("x-content-type-options", "nosniff"));
    assert(pair_views(headers@) =~= page_headers());
    CallbackReply { status, message: message.to_owned(), headers }
}

/// What the callback makes of a query.
pub enum CallbackVerdict {
    /// The query repeats no state.
    MissingState,
    /// The query repeats another state.
    WrongState,
    /// The authorisation was not given.
    Refused(Seq<char>),
    /// The authorisation was given, with this code.
    Accepted(Seq<char>),
}

/// What the callback makes of a query when it expects a state.
pub open spec fn callback_verdict(expected: Seq<char>, query: CallbackQuery) -> CallbackVerdict {
    match query.state {
        None => CallbackVerdict::MissingState,
        Some(state) => if state@ != expected {
            CallbackVerdict::WrongState
        } else if query.error is Some {
            CallbackVerdict::Refused("AI Pass authorization was cancelled."@)
        } else {
            match query.code {
                Some(code) => if code@.len() > 0 && byte_len(code@) <= MAX_CODE_BYTES {
                    CallbackVerdict::Accepted(code@)
                } else {
                    CallbackVerdict::Refused("AI Pass authorization did not return a code."@)
                },
                None => CallbackVerdict::Refused("AI Pass authorization did not return a code."@),
            }
        },
    }
}

/// The page that answers a verdict.
pub open spec fn is_verdict_page(reply: CallbackReply, verdict: CallbackVerdict) -> bool {
    match verdict {
        CallbackVerdict::MissingState => is_page(reply, 400, "Missing OAuth state."@),
        CallbackVerdict::WrongState => is_page(reply, 401, "Invalid OAuth state."@),
        CallbackVerdict::Refused(_) => is_page(
            reply,
            400,
            "AI Pass authorization was not completed. You can close this window."@,
        ),
        CallbackVerdict::Accepted(_) => is_page(
            reply,
            200,
            "AI Pass connected. You can close this window and return to Oleafly."@,
        ),
    }
}

/// The outcome is the one that a verdict settles.
pub open spec fn settles(outcome: Result<String, String>, verdict: CallbackVerdict) -> bool {
    match verdict {
        CallbackVerdict::Accepted(code) => outcome matches Ok(given) && given@ == code,
        CallbackVerdict::Refused(reason) => outcome matches Err(given) && given@ == reason,
        _ => false,
    }
}

/// The verdict settles the authorisation.
pub open spec fn is_settled(verdict: CallbackVerdict) -> bool {
    verdict is Refused || verdict is Accepted
}

/// A callback that waits for the outcome of one authorisation.
pub struct CallbackState<S> {
    /// The state that a query must repeat.
    pub expected_state: String,
    /// Who hears of the outcome; nobody any more once it is known.
    pub result: Option<S>,
}

/// What becomes of the callback with a query, and who is told what of it: the
/// first query that repeats the state settles the outcome.
pub open spec fn callback_step<S>(
    before: CallbackState<S>,
    query: CallbackQuery,
    after: CallbackState<S>,
    told: Option<(S, Result<String, String>)>,
) -> bool {
    let verdict = callback_verdict(before.expected_state@, query);
    &&& after.expected_state == before.expected_state
    &&& if is_settled(verdict) {
        &&& after.result is None
        &&& told is Some == before.result is Some
        &&& told is Some ==> (told->0).0 == before.result->0 && settles((told->0).1, verdict)
    } else {
        &&& after.result == before.result
        &&& told is None
    }
}

/// Answers a query. The outcome that it settles is handed out together with
/// whoever is to hear of it.
pub fn oauth_callback<S>(state: &mut CallbackState<S>, query: CallbackQuery) -> (r: (
    CallbackReply,
    Option<(S, Result<String, String>)>,
))
    ensures
        is_verdict_page(r.0, callback_verdict(old(state).expected_state@, query)),
        callback_step(*old(state), query, *final(state), r.1),
{
    match &query.state {
        None => {
            return (callback_response(400, "Missing OAuth state."), None);
        },
        Some(received) => {
            if !constant_time_equal(received.as_str(), state.expected_state.as_str()) {
                return (callback_response(401, "Invalid OAuth state."), None);
            }
        },
    }
    let mut outcome: Result<String, String> = Err(
        "AI Pass authorization did not return a code.".to_owned(),
    );
    if query.error.is_some() {
        outcome = Err("AI Pass authorization was cancelled.".to_owned());
    } else if let Some(code) = query.code {
        if !code.as_str().is_empty() && byte_length(code.as_str()) <= MAX_CODE_BYTES {
            outcome = Ok(code);
        }
    }
    let reply: CallbackReply = if outcome.is_ok() {
        callback_response(
            200,
            "AI Pass connected. You can close this window and return to Oleafly.",
        )
    } else {
        callback_response(
            400,
            "AI Pass authorization was not completed. You can close this window.",
        )
    };
    match state.result.take() {
        Some(listener) => (reply, Some((listener, outcome))),
        None => (reply, None),
    }
}

/// How the wait for the callback ended.
pub enum CallbackWait {
    /// The outcome came.
    Settled(Result<String, String>),
    /// The callback went away.
    Closed,
    /// Nothing came in time.
    TimedOut,
}

/// How the wait for the callback ended: with a code, or with a failure.
pub open spec fn wait_outcome(wait: CallbackWait) -> Result<Seq<char>, Seq<char>> {
    match wait {
        CallbackWait::Settled(Ok(code)) => Ok(code@),
        CallbackWait::Settled(Err(reason)) => Err(reason@),
        CallbackWait::Closed => Err("AI Pass callback closed before completion."@),
        CallbackWait::TimedOut => Err("AI Pass authorization timed out."@),
    }
}

/// The code that the wait for the callback brought.
pub fn authorization_outcome(wait: CallbackWait) -> (r: Result<String, String>)
    ensures
        match r {
            Ok(code) => wait_outcome(wait) == Ok::<Seq<char>, Seq<char>>(code@),
            Err(reason) => wait_outcome(wait) == Err::<Seq<char>, Seq<char>>(reason@),
        },
{
    match wait {
        CallbackWait::Settled(outcome) => outcome,
        CallbackWait::Closed => Err("AI Pass callback closed before completion.".to_owned()),
        CallbackWait::TimedOut => Err("AI Pass authorization timed out.".to_owned()),
    }
}

/// A course of queries: the callback before and after each, and who was told what.
pub open spec fn callback_run<S>(
    states: Seq<CallbackState<S>>,
    queries: Seq<CallbackQuery>,
    told: Seq<Option<(S, Result<String, String>)>>,
) -> bool {
    &&& states.len() == queries.len() + 1
    &&& told.len() == queries.len()
    &&& forall|i: int|
        0 <= i < queries.len() ==> #[trigger] callback_step(
            states[i],
            queries[i],
            states[i + 1],
            told[i],
        )
}

proof fn lemma_callback_run<S>(
    states: Seq<CallbackState<S>>,
    queries: Seq<CallbackQuery>,
    told: Seq<Option<(S, Result<String, String>)>>,
    i: int,
    k: int,
)
    requires
        callback_run(states, queries, told),
        0 <= i <= k < states.len(),
    ensures
        states[k].expected_state == states[i].expected_state,
        states[i].result is None ==> states[k].result is None,
    decreases k - i,
{
    if i < k {
        lemma_callback_run(states, queries, told, i, k - 1);
        assert(callback_step(states[k - 1], queries[k - 1], states[k - 1 + 1], told[k - 1]));
    }
}

/// Only a query that repeats the state which the callback was begun with tells
/// anybody anything, and what it tells is settled by that query alone.
pub proof fn law_only_the_right_state_is_heard<S>(
    states: Seq<CallbackState<S>>,
    queries: Seq<CallbackQuery>,
    told: Seq<Option<(S, Result<String, String>)>>,
    i: int,
)
    requires
        callback_run(states, queries, told),
        0 <= i < queries.len(),
        told[i] is Some,
    ensures
        queries[i].state matches Some(state) && state@ == states[0].expected_state@,
        settles((told[i]->0).1, callback_verdict(states[0].expected_state@, queries[i])),
{
    lemma_callback_run(states, queries, told, 0, i);
    assert(callback_step(states[i], queries[i], states[i + 1], told[i]));
}

/// The outcome of an authorisation is told once at most, however many queries come.
pub proof fn law_the_outcome_is_told_once<S>(
    states: Seq<CallbackState<S>>,
    queries: Seq<CallbackQuery>,
    told: Seq<Option<(S, Result<String, String>)>>,
    i: int,
    k: int,
)
    requires
        callback_run(states, queries, told),
        0 <= i < k < queries.len(),
        told[i] is Some,
    ensures
        told[k] is None,
{
    assert(callback_step(states[i], queries[i], states[i + 1], told[i]));
    lemma_callback_run(states, queries, told, i + 1, k);
    assert(callback_step(states[k], queries[k], states[k + 1], told[k]));
}

/// A query is answered by what it repeats and brings, and by nothing else. Without a
/// state, or with another one, it is turned away and changes nothing. With the right
/// one it settles the authorisation: an error cancels it, a code of one to 4096 bytes
/// completes it, and anything else leaves it without a code. Whoever still listens is
/// told, and nobody listens any more.
pub proof fn law_queries_are_answered_by_what_they_bring<S>(
    before: CallbackState<S>,
    query: CallbackQuery,
    after: CallbackState<S>,
    told: Option<(S, Result<String, String>)>,
    reply: CallbackReply,
)
    requires
        callback_step(before, query, after, told),
        is_verdict_page(reply, callback_verdict(before.expected_state@, query)),
    ensures
        after.expected_state == before.expected_state,
        query.state is None ==> told is None && after.result == before.result && reply.status == 400
            && reply.message@ == "Missing OAuth state."@,
        query.state matches Some(state) ==> {
            let right = state@ == before.expected_state@;
            let completes = query.error is None && (query.code matches Some(code) && fits(
                code@,
                4096,
            ));
            &&& !right ==> told is None && after.result == before.result && reply.status == 401
                && reply.message@ == "Invalid OAuth state."@
            &&& right ==> after.result is None && (told is Some <==> before.result is Some)
            &&& right && before.result is Some ==> (told->0).0 == before.result->0
            &&& right && completes ==> reply.status == 200 && reply.message@
                == "AI Pass connected. You can close this window and return to Oleafly."@
            &&& right && !completes ==> reply.status == 400 && reply.message@
                == "AI Pass authorization was not completed. You can close this window."@
            &&& right && completes && told is Some ==> ((told->0).1 matches Ok(given) && given@
                == query.code->0@)
            &&& right && query.error is Some && told is Some ==> ((told->0).1 matches Err(reason)
                && reason@ == "AI Pass authorization was cancelled."@)
            &&& right && query.error is None && !completes && told is Some ==> (
            (told->0).1 matches Err(reason) && reason@
                == "AI Pass authorization did not return a code."@)
        },
{
}

/// Every page is plain text, runs nothing, is framed nowhere, is kept nowhere, tells
/// no other page, and is taken for nothing else.
pub proof fn law_pages_are_harmless(reply: CallbackReply, status: u16, message: Seq<char>)
    requires
        is_page(reply, status, message),
    ensures
        reply.status == status,
        reply.message@ == message,
        reply.headers@.len() == 5,
        reply.headers@[0].0@ == "content-type"@ && reply.headers@[0].1@
            == "text/plain; charset=utf-8"@,
        reply.headers@[1].0@ == "content-security-policy"@ && reply.headers@[1].1@
            == "default-src 'none'; frame-ancestors 'none'"@,
        reply.headers@[2].0@ == "cache-control"@ && reply.headers@[2].1@ == "no-store, max-age=0"@,
        reply.headers@[3].0@ == "referrer-policy"@ && reply.headers@[3].1@ == "no-referrer"@,
        reply.headers@[4].0@ == "x-content-type-options"@ && reply.headers@[4].1@ == "nosniff"@,
{
    let views = pair_views(reply.headers@);
    assert(views.len() == reply.headers@.len());
    assert forall|i: int| 0 <= i < 5 implies #[trigger] views[i] == (
        reply.headers@[i].0@,
        reply.headers@[i].1@,
    ) by {}
    assert(views[0] == ("content-type"@, "text/plain; charset=utf-8"@));
    assert(views[1] == (
        "content-security-policy"@,
        "default-src 'none'; frame-ancestors 'none'"@,
    ));
    assert(views[2] == ("cache-control"@, "no-store, max-age=0"@));
    assert(views[3] == ("referrer-policy"@, "no-referrer"@));
    assert(views[4] == ("x-content-type-options"@, "nosniff"@));
}

/// The browser asks for a code, in the name of the client, to be brought to its
/// redirect URI, for both scopes, with the state and the challenge of the attempt.
pub proof fn law_the_browser_asks_for_the_attempt(
    client: ClientView,
    state: Seq<char>,
    challenge: Seq<char>,
)
    ensures
        ({
            let query = authorization_query(client, state, challenge);
            &&& query.len() == 7
            &&& query.contains(("response_type"@, "code"@))
            &&& query.contains(("client_id"@, client.client_id))
            &&& query.contains(("redirect_uri"@, client.callback.redirect_uri))
            &&& query.contains(("scope"@, "api:access profile:read"@))
            &&& query.contains(("state"@, state))
            &&& query.contains(("code_challenge"@, challenge))
            &&& query.contains(("code_challenge_method"@, "S256"@))
        }),
{
    let query = authorization_query(client, state, challenge);
    assert(query[0] == ("response_type"@, "code"@));
    assert(query[1] == ("client_id"@, client.client_id));
    assert(query[2] == ("redirect_uri"@, client.callback.redirect_uri));
    assert(query[3] == ("scope"@, "api:access profile:read"@));
    assert(query[4] == ("state"@, state));
    assert(query[5] == ("code_challenge"@, challenge));
    assert(query[6] == ("code_challenge_method"@, "S256"@));
}

/// The wait ends with the outcome that came, and otherwise with why none did.
pub proof fn law_waits_end_with_what_came(code: String, reason: String)
    ensures
        wait_outcome(CallbackWait::Settled(Ok(code))) == Ok::<Seq<char>, Seq<char>>(code@),
        wait_outcome(CallbackWait::Settled(Err(reason))) == Err::<Seq<char>, Seq<char>>(reason@),
        wait_outcome(CallbackWait::Closed) == Err::<Seq<char>, Seq<char>>(
            "AI Pass callback closed before completion."@,
        ),
        wait_outcome(CallbackWait::TimedOut) == Err::<Seq<char>, Seq<char>>(
            "AI Pass authorization timed out."@,
        ),
{
}

/// The browser has five minutes.
pub proof fn law_the_browser_has_five_minutes()
    ensures
        CALLBACK_TIMEOUT_SECONDS == 300,
{
}

} // verus!
