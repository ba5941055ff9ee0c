use aipass::access::AccessAction;
use aipass::access::AccessEvent;
use aipass::access::AccessFlow;
use aipass::authorize::CallbackWait;
use aipass::chat::http_error_events;
use aipass::completion::CompletionAction;
use aipass::completion::CompletionEvent;
use aipass::completion::CompletionFlow;
use aipass::completion::ResponseHead;
use aipass::config::Setting;
use aipass::config::Settings;
use aipass::connect::ConnectAction;
use aipass::connect::ConnectEvent;
use aipass::connect::ConnectFlow;
use aipass::disconnect::DisconnectAction;
use aipass::disconnect::DisconnectEvent;
use aipass::disconnect::DisconnectFlow;
use aipass::disconnect::DisconnectResult;
use aipass::forms::exchange_request;
use aipass::forms::refresh_request;
use aipass::forms::revoke_request;
use aipass::forms::FormRequest;
use aipass::metadata::OAuthMetadata;
use aipass::pkce::pkce_challenge;
use aipass::pkce::pkce_material;
use aipass::request::RequestAction;
use aipass::request::RequestEvent;
use aipass::request::RequestFlow;
use aipass::session::AiPassProfile;
use aipass::session::SessionSlot;
use aipass::session::StoredTokens;
use aipass::session::TokenResponse;

const NOW: u64 = 1_000_000;

fn texts(items: &[&str]) -> Vec<String> {
    items.iter().map(|item| item.to_string()).collect()
}

fn metadata() -> OAuthMetadata {
    OAuthMetadata {
        issuer: "https://aipass.one/".into(),
        authorization_endpoint: "https://aipass.one/authorize".into(),
        token_endpoint: "https://aipass.one:443/token".into(),
        userinfo_endpoint: "https://aipass.one/userinfo".into(),
        revocation_endpoint: "https://aipass.one/revoke".into(),
        scopes_supported: texts(&["api:access", "profile:read"]),
        response_types_supported: texts(&["code"]),
        grant_types_supported: texts(&["authorization_code", "refresh_token"]),
        code_challenge_methods_supported: texts(&["S256"]),
        token_endpoint_auth_methods_supported: texts(&["none"]),
    }
}

fn settings() -> Settings {
    Settings {
        client_id: Setting { runtime: Some("client".into()), build: None },
        redirect_uri: Setting { runtime: Some("http://127.0.0.1:38137/cb".into()), build: None },
    }
}

fn no_settings() -> Settings {
    Settings {
        client_id: Setting { runtime: None, build: None },
        redirect_uri: Setting { runtime: None, build: None },
    }
}

fn session(access: &str, expires_at: u64) -> StoredTokens {
    StoredTokens {
        access_token: access.into(),
        refresh_token: "refresh".into(),
        expires_at,
        scope: "api:access profile:read".into(),
        profile: None,
    }
}

fn response() -> TokenResponse {
    TokenResponse {
        access_token: "new-access".into(),
        refresh_token: Some("new-refresh".into()),
        expires_in: 3600,
        scope: None,
        token_type: "Bearer".into(),
    }
}

fn fields(form: &FormRequest) -> Vec<(&str, &str)> {
    form.fields.iter().map(|(name, value)| (name.as_str(), value.as_str())).collect()
}

fn read(flow: AccessFlow, slot: Result<SessionSlot, String>) -> (AccessFlow, AccessAction) {
    flow.step(AccessEvent::Session { slot, settings: settings(), now: NOW })
}

fn stored(tokens: StoredTokens) -> Result<SessionSlot, String> {
    Ok(SessionSlot::Stored(tokens))
}

fn outcome(action: AccessAction) -> Result<String, String> {
    match action {
        AccessAction::Finish { outcome } => outcome,
        _ => panic!("the search has not ended"),
    }
}

#[test]
fn a_fresh_token_is_used_as_it_is() {
    let (flow, action) = AccessFlow::valid_access_token();
    assert!(matches!(action, AccessAction::ReadSession));
    let (flow, action) = read(flow, stored(session("access", NOW + 61)));
    assert_eq!(outcome(action), Ok("access".to_owned()));
    let (_, action) = flow.step(AccessEvent::Persisted { outcome: Ok(()) });
    assert!(matches!(action, AccessAction::Ignore));
}

#[test]
fn a_refused_token_is_not_used_again() {
    let (flow, _) = AccessFlow::refresh_after_unauthorized("access".into());
    let (_, action) = read(flow, stored(session("access", NOW + 9999)));
    assert!(matches!(action, AccessAction::LoadMetadata));
    let (flow, _) = AccessFlow::refresh_after_unauthorized("access".into());
    let (_, action) = read(flow, stored(session("rotated", NOW + 9999)));
    assert_eq!(outcome(action), Ok("rotated".to_owned()));
    let (flow, _) = AccessFlow::refresh_after_unauthorized("access".into());
    let (_, action) = read(flow, stored(session("rotated", NOW + 60)));
    assert!(matches!(action, AccessAction::LoadMetadata));
}

#[test]
fn a_stale_session_is_renewed_and_stored_before_use() {
    let (flow, _) = AccessFlow::valid_access_token();
    let (flow, action) = read(flow, stored(session("access", NOW + 60)));
    assert!(matches!(action, AccessAction::LoadMetadata));
    let (flow, action) = flow.step(AccessEvent::Metadata { reply: Ok(metadata()) });
    match action {
        AccessAction::RequestTokens { form } => {
            assert_eq!(form.url, "https://aipass.one/token");
            assert_eq!(
                fields(&form),
                vec![
                    ("grant_type", "refresh_token"),
                    ("client_id", "client"),
                    ("refresh_token", "refresh"),
                ]
            );
        }
        _ => panic!("no tokens were asked for"),
    }
    let (flow, action) = flow.step(AccessEvent::Tokens { response: Ok(response()), now: NOW });
    match action {
        AccessAction::Persist { tokens } => {
            assert_eq!(tokens.access_token, "new-access");
            assert_eq!(tokens.refresh_token, "new-refresh");
            assert_eq!(tokens.expires_at, NOW + 3600);
        }
        _ => panic!("nothing was stored"),
    }
    let (_, action) = flow.step(AccessEvent::Persisted { outcome: Ok(()) });
    assert_eq!(outcome(action), Ok("new-access".to_owned()));
}

#[test]
fn a_renewed_token_that_was_not_stored_is_not_used() {
    let (flow, _) = AccessFlow::valid_access_token();
    let (flow, _) = read(flow, stored(session("access", 0)));
    let (flow, _) = flow.step(AccessEvent::Metadata { reply: Ok(metadata()) });
    let (flow, _) = flow.step(AccessEvent::Tokens { response: Ok(response()), now: NOW });
    let (_, action) = flow.step(AccessEvent::Persisted { outcome: Err("disk full".into()) });
    assert_eq!(outcome(action), Err("disk full".to_owned()));
}

#[test]
fn a_search_that_fails_says_why() {
    let begin = || AccessFlow::valid_access_token().0;
    let (_, action) = read(begin(), Ok(SessionSlot::Empty));
    assert_eq!(outcome(action), Err("Connect AI Pass in Settings first.".to_owned()));
    let (_, action) = read(begin(), Ok(SessionSlot::Corrupt));
    assert_eq!(outcome(action), Err("Stored AI Pass session is corrupt.".to_owned()));
    let (_, action) = read(begin(), Err("locked".into()));
    assert_eq!(outcome(action), Err("locked".to_owned()));
    let (_, action) = begin().step(AccessEvent::Session {
        slot: stored(session("access", 0)),
        settings: no_settings(),
        now: NOW,
    });
    assert_eq!(outcome(action), Err("AI Pass is not configured in this build.".to_owned()));

    let stale = || read(begin(), stored(session("access", 0))).0;
    let (_, action) = stale().step(AccessEvent::Metadata { reply: Err("offline".into()) });
    assert_eq!(outcome(action), Err("offline".to_owned()));
    let mut elsewhere = metadata();
    elsewhere.token_endpoint = "https://example.com/token".into();
    let (_, action) = stale().step(AccessEvent::Metadata { reply: Ok(elsewhere) });
    assert_eq!(
        outcome(action),
        Err("AI Pass OAuth metadata endpoint is outside the pinned origin.".to_owned())
    );

    let renewing = || stale().step(AccessEvent::Metadata { reply: Ok(metadata()) }).0;
    let (_, action) =
        renewing().step(AccessEvent::Tokens { response: Err("no answer".into()), now: NOW });
    assert_eq!(outcome(action), Err("no answer".to_owned()));
    let mut odd = response();
    odd.token_type = "mac".into();
    let (_, action) = renewing().step(AccessEvent::Tokens { response: Ok(odd), now: NOW });
    assert_eq!(outcome(action), Err("AI Pass returned an unsupported token type.".to_owned()));
}

#[test]
fn what_does_not_belong_is_ignored() {
    let (flow, _) = AccessFlow::valid_access_token();
    let (flow, action) = flow.step(AccessEvent::Persisted { outcome: Ok(()) });
    assert!(matches!(action, AccessAction::Ignore));
    assert!(matches!(flow, AccessFlow::Reading { refused: None }));
    let (flow, _) = RequestFlow::begin();
    let (flow, action) = flow.step(RequestEvent::Response { status: Ok(200) });
    assert!(matches!(action, RequestAction::Ignore));
    assert!(matches!(flow, RequestFlow::Authorizing));
    let (flow, _) = DisconnectFlow::begin();
    let (flow, action) = flow.step(DisconnectEvent::Revoked { confirmed: true });
    assert!(matches!(action, DisconnectAction::Ignore));
    assert!(matches!(flow, DisconnectFlow::Cancelling));
    let (flow, _) = ConnectFlow::begin(&settings());
    let (flow, action) = flow.step(ConnectEvent::Revoked);
    assert!(matches!(action, ConnectAction::Ignore));
    assert!(matches!(flow, ConnectFlow::LoadingMetadata { .. }));
}

#[test]
fn an_unauthorised_request_is_sent_once_more() {
    let (flow, action) = RequestFlow::begin();
    assert!(matches!(action, RequestAction::ObtainToken));
    let (flow, action) = flow.step(RequestEvent::Token { token: Ok("first".into()) });
    assert!(matches!(action, RequestAction::Send { token } if token == "first"));
    let (flow, action) = flow.step(RequestEvent::Response { status: Ok(401) });
    assert!(matches!(action, RequestAction::RenewToken { failed } if failed == "first"));
    let (flow, action) = flow.step(RequestEvent::Token { token: Ok("second".into()) });
    assert!(matches!(action, RequestAction::Send { token } if token == "second"));
    let (flow, action) = flow.step(RequestEvent::Response { status: Ok(401) });
    assert!(matches!(action, RequestAction::UseResponse));
    assert!(matches!(flow, RequestFlow::Finished));
}

#[test]
fn other_answers_are_used_as_they_come() {
    for status in [200u16, 403, 500] {
        let (flow, _) = RequestFlow::begin();
        let (flow, _) = flow.step(RequestEvent::Token { token: Ok("t".into()) });
        let (_, action) = flow.step(RequestEvent::Response { status: Ok(status) });
        assert!(matches!(action, RequestAction::UseResponse));
    }
    let (flow, _) = RequestFlow::begin();
    let (_, action) = flow.step(RequestEvent::Token { token: Err("signed out".into()) });
    assert!(matches!(action, RequestAction::Fail { reason } if reason == "signed out"));
    let (flow, _) = RequestFlow::begin();
    let (flow, _) = flow.step(RequestEvent::Token { token: Ok("t".into()) });
    let (_, action) = flow.step(RequestEvent::Response { status: Err("offline".into()) });
    assert!(matches!(action, RequestAction::Fail { reason } if reason == "offline"));
}

fn taken(tokens: Option<StoredTokens>) -> DisconnectFlow {
    let (flow, action) = DisconnectFlow::begin();
    assert!(matches!(action, DisconnectAction::CancelRequests));
    let (flow, action) = flow.step(DisconnectEvent::Cancelled);
    assert!(matches!(action, DisconnectAction::TakeSession));
    let (flow, action) = flow.step(DisconnectEvent::Taken { outcome: Ok(tokens) });
    assert!(matches!(action, DisconnectAction::LoadMetadata));
    flow
}

fn revoked(action: DisconnectAction) -> bool {
    match action {
        DisconnectAction::Finish { outcome } => {
            let DisconnectResult { revoked } = outcome.unwrap();
            revoked
        }
        _ => panic!("signing out has not ended"),
    }
}

#[test]
fn signing_out_revokes_both_tokens() {
    for (access, refresh) in [(true, true), (true, false), (false, true), (false, false)] {
        let flow = taken(Some(session("access", NOW)));
        let (flow, action) =
            flow.step(DisconnectEvent::Metadata { reply: Ok(metadata()), settings: settings() });
        match action {
            DisconnectAction::Revoke { form } => {
                assert_eq!(form.url, "https://aipass.one/revoke");
                assert_eq!(
                    fields(&form),
                    vec![
                        ("token", "access"),
                        ("token_type_hint", "access_token"),
                        ("client_id", "client"),
                    ]
                );
            }
            _ => panic!("the access token was not revoked"),
        }
        let (flow, action) = flow.step(DisconnectEvent::Revoked { confirmed: access });
        match action {
            DisconnectAction::Revoke { form } => assert_eq!(
                fields(&form),
                vec![
                    ("token", "refresh"),
                    ("token_type_hint", "refresh_token"),
                    ("client_id", "client"),
                ]
            ),
            _ => panic!("the refresh token was not revoked"),
        }
        let (_, action) = flow.step(DisconnectEvent::Revoked { confirmed: refresh });
        assert_eq!(revoked(action), access && refresh);
    }
}

#[test]
fn signing_out_ends_without_the_service_too() {
    let (_, action) = taken(None)
        .step(DisconnectEvent::Metadata { reply: Err("offline".into()), settings: settings() });
    assert!(revoked(action));
    let (_, action) = taken(Some(session("access", NOW)))
        .step(DisconnectEvent::Metadata { reply: Err("offline".into()), settings: settings() });
    assert!(!revoked(action));
    let (_, action) = taken(Some(session("access", NOW)))
        .step(DisconnectEvent::Metadata { reply: Ok(metadata()), settings: no_settings() });
    match action {
        DisconnectAction::Revoke { form } => assert_eq!(
            fields(&form),
            vec![("token", "access"), ("token_type_hint", "access_token")]
        ),
        _ => panic!("the access token was not revoked"),
    }
    let (flow, _) = DisconnectFlow::begin();
    let (flow, _) = flow.step(DisconnectEvent::Cancelled);
    let (_, action) = flow.step(DisconnectEvent::Taken { outcome: Err("locked".into()) });
    assert!(matches!(
        action,
        DisconnectAction::Finish { outcome: Err(reason) } if reason == "locked"
    ));
}

fn bound() -> ConnectFlow {
    let (flow, action) = ConnectFlow::begin(&settings());
    assert!(matches!(action, ConnectAction::LoadMetadata));
    let (flow, action) = flow.step(ConnectEvent::Metadata { reply: Ok(metadata()) });
    match action {
        ConnectAction::Bind { callback } => assert_eq!(callback.address.port, 38137),
        _ => panic!("the callback was not bound"),
    }
    flow
}

/// Signing in while the callback is awaited, and the challenge that the browser took along.
fn awaiting() -> (ConnectFlow, String) {
    let (flow, action) = bound().step(ConnectEvent::Bound { bound: true });
    let challenge = match action {
        ConnectAction::Authorize { url, expected_state } => {
            assert_eq!(expected_state.len(), 43);
            assert!(url.starts_with("https://aipass.one/authorize?response_type=code&"));
            assert!(url.contains(&format!("&state={expected_state}&")));
            let (_, rest) = url.split_once("&code_challenge=").unwrap();
            rest.split_once('&').unwrap().0.to_owned()
        }
        _ => panic!("the browser was not opened"),
    };
    let (flow, action) = flow.step(ConnectEvent::Opened { opened: Ok(()) });
    assert!(matches!(action, ConnectAction::AwaitCallback));
    (flow, challenge)
}

fn exchanging() -> ConnectFlow {
    let wait = CallbackWait::Settled(Ok("the-code".into()));
    let (flow, challenge) = awaiting();
    let (flow, action) = flow.step(ConnectEvent::Callback { wait });
    match action {
        ConnectAction::RequestTokens { form } => {
            assert_eq!(form.url, "https://aipass.one/token");
            let (name, verifier) = fields(&form)[4];
            assert_eq!(name, "code_verifier");
            assert_eq!(verifier.len(), 86);
            assert_eq!(pkce_challenge(verifier), challenge);
            assert_eq!(
                fields(&form)[..4],
                [
                    ("grant_type", "authorization_code"),
                    ("client_id", "client"),
                    ("code", "the-code"),
                    ("redirect_uri", "http://127.0.0.1:38137/cb"),
                ]
            );
        }
        _ => panic!("the code was not redeemed"),
    }
    flow
}

#[test]
fn every_attempt_has_secrets_of_its_own() {
    let (_, first) = awaiting();
    let (_, second) = awaiting();
    assert_ne!(first, second);
}

#[test]
fn an_attempt_goes_by_its_secrets() {
    let client = aipass::config::client_config(&settings()).unwrap();
    let pkce = pkce_material("state".into(), "verifier".into());
    let challenge = pkce.challenge.clone();
    let (flow, action) = ConnectFlow::begin_attempt(client, metadata(), pkce);
    assert!(matches!(action, ConnectAction::Bind { callback } if callback.path == "/cb"));
    let (flow, action) = flow.step(ConnectEvent::Bound { bound: true });
    match action {
        ConnectAction::Authorize { url, expected_state } => {
            assert_eq!(expected_state, "state");
            assert_eq!(
                url,
                format!(
                    "https://aipass.one/authorize?response_type=code&client_id=client\
                     &redirect_uri=http%3A%2F%2F127.0.0.1%3A38137%2Fcb\
                     &scope=api%3Aaccess+profile%3Aread&state=state\
                     &code_challenge={challenge}&code_challenge_method=S256"
                )
            );
        }
        _ => panic!("the browser was not opened"),
    }
    let (flow, _) = flow.step(ConnectEvent::Opened { opened: Ok(()) });
    let wait = CallbackWait::Settled(Ok("code".into()));
    let (_, action) = flow.step(ConnectEvent::Callback { wait });
    match action {
        ConnectAction::RequestTokens { form } => {
            assert_eq!(fields(&form)[4], ("code_verifier", "verifier"));
        }
        _ => panic!("the code was not redeemed"),
    }
}

fn persisting(profile: Result<Option<AiPassProfile>, String>) -> (ConnectFlow, StoredTokens) {
    let (flow, action) =
        exchanging().step(ConnectEvent::Tokens { response: Ok(response()), now: NOW });
    match action {
        ConnectAction::FetchProfile { url, access_token } => {
            assert_eq!(url, "https://aipass.one/userinfo");
            assert_eq!(access_token, "new-access");
        }
        _ => panic!("the profile was not fetched"),
    }
    let (flow, action) = flow.step(ConnectEvent::Profile { profile });
    match action {
        ConnectAction::Persist { tokens } => (flow, tokens),
        _ => panic!("the session was not stored"),
    }
}

fn somebody() -> AiPassProfile {
    AiPassProfile { subject: "s".into(), display_name: None, email: None }
}

#[test]
fn signing_in_ends_with_a_stored_session() {
    let (flow, tokens) = persisting(Ok(Some(somebody())));
    assert_eq!(tokens.access_token, "new-access");
    assert_eq!(tokens.expires_at, NOW + 3600);
    assert_eq!(tokens.profile, Some(somebody()));
    let (_, action) = flow.step(ConnectEvent::Persisted { previous: Ok(None) });
    assert!(matches!(action, ConnectAction::ReportStatus));
    let (_, tokens) = persisting(Err("no profile".into()));
    assert_eq!(tokens.profile, None);
}

#[test]
fn a_replaced_session_is_revoked_unless_it_is_the_same() {
    let (flow, _) = persisting(Ok(None));
    let (flow, action) =
        flow.step(ConnectEvent::Persisted { previous: Ok(Some(session("old", 5))) });
    match action {
        ConnectAction::Revoke { forms } => {
            assert_eq!(forms.len(), 2);
            assert_eq!(forms[0].url, "https://aipass.one/revoke");
            assert_eq!(fields(&forms[0])[0], ("token", "old"));
            assert_eq!(fields(&forms[1])[0], ("token", "refresh"));
        }
        _ => panic!("the old session was not revoked"),
    }
    let (_, action) = flow.step(ConnectEvent::Revoked);
    assert!(matches!(action, ConnectAction::ReportStatus));

    let (flow, tokens) = persisting(Ok(None));
    let (_, action) = flow.step(ConnectEvent::Persisted { previous: Ok(Some(tokens)) });
    assert!(matches!(action, ConnectAction::ReportStatus));
}

#[test]
fn tokens_that_could_not_be_stored_are_revoked() {
    let (flow, _) = persisting(Ok(None));
    let (flow, action) = flow.step(ConnectEvent::Persisted { previous: Err("disk full".into()) });
    match action {
        ConnectAction::Revoke { forms } => {
            assert_eq!(
                fields(&forms[0]),
                vec![
                    ("token", "new-access"),
                    ("token_type_hint", "access_token"),
                    ("client_id", "client"),
                ]
            );
            assert_eq!(
                fields(&forms[1]),
                vec![
                    ("token", "new-refresh"),
                    ("token_type_hint", "refresh_token"),
                    ("client_id", "client"),
                ]
            );
        }
        _ => panic!("the new session was not revoked"),
    }
    let (_, action) = flow.step(ConnectEvent::Revoked);
    assert!(matches!(action, ConnectAction::Fail { reason } if reason == "disk full"));
}

#[test]
fn signing_in_that_fails_says_why() {
    let failure = |action: ConnectAction| match action {
        ConnectAction::Fail { reason } => reason,
        _ => panic!("signing in has not failed"),
    };
    let (_, action) = ConnectFlow::begin(&no_settings());
    assert_eq!(failure(action), "AI Pass is not configured in this build.");
    let (flow, _) = ConnectFlow::begin(&settings());
    let (_, action) = flow.step(ConnectEvent::Metadata { reply: Err("offline".into()) });
    assert_eq!(failure(action), "offline");
    let (_, action) = bound().step(ConnectEvent::Bound { bound: false });
    assert_eq!(failure(action), "Could not bind the configured AI Pass loopback callback.");
    let (flow, _) = bound().step(ConnectEvent::Bound { bound: true });
    let (_, action) = flow.step(ConnectEvent::Opened { opened: Err("no browser".into()) });
    assert_eq!(failure(action), "no browser");
    let (_, action) = awaiting().0.step(ConnectEvent::Callback { wait: CallbackWait::TimedOut });
    assert_eq!(failure(action), "AI Pass authorization timed out.");
    let (_, action) =
        exchanging().step(ConnectEvent::Tokens { response: Err("refused".into()), now: NOW });
    assert_eq!(failure(action), "refused");
    let mut partial = response();
    partial.refresh_token = None;
    let (_, action) = exchanging().step(ConnectEvent::Tokens { response: Ok(partial), now: NOW });
    assert_eq!(failure(action), "AI Pass returned an invalid refresh token.");
}

#[test]
fn forms_go_to_pinned_endpoints_only() {
    let mut elsewhere = metadata();
    elsewhere.token_endpoint = "https://example.com/token".into();
    elsewhere.revocation_endpoint = "https://example.com/revoke".into();
    let outside = "AI Pass OAuth metadata endpoint is outside the pinned origin.";
    let client = aipass::config::client_config(&settings()).unwrap();
    assert_eq!(
        exchange_request(&elsewhere, &client, "code", "verifier"),
        Err(outside.to_owned())
    );
    assert_eq!(refresh_request(&elsewhere, "client", "refresh"), Err(outside.to_owned()));
    assert_eq!(revoke_request(&elsewhere, &None, "token", "access_token"), None);
    let form = revoke_request(&metadata(), &None, "token", "access_token").unwrap();
    assert_eq!(fields(&form), vec![("token", "token"), ("token_type_hint", "access_token")]);
}

fn head(status: u16) -> CompletionEvent {
    CompletionEvent::Response {
        head: Ok(ResponseHead { status, content_type: Some("text/event-stream".into()) }),
    }
}

fn asked() -> CompletionFlow {
    let (flow, action) = CompletionFlow::begin(b"payload".to_vec());
    assert!(matches!(action, CompletionAction::ObtainToken));
    let (flow, action) = flow.step(CompletionEvent::Token { token: Ok("first".into()) });
    assert!(matches!(
        action,
        CompletionAction::Send { token, body } if token == "first" && body == b"payload"
    ));
    flow
}

#[test]
fn a_successful_chat_response_is_forwarded_and_then_leaves() {
    let (flow, action) = asked().step(head(200));
    match action {
        CompletionAction::Forward { meta } => {
            assert_eq!(meta.status, 200);
            assert_eq!(meta.content_type, "text/event-stream");
        }
        _ => panic!("the response was not forwarded"),
    }
    let (flow, action) = flow.step(CompletionEvent::Forwarded);
    assert!(matches!(action, CompletionAction::Leave { events } if events.is_empty()));
    let (flow, action) = flow.step(CompletionEvent::Forwarded);
    assert!(matches!(action, CompletionAction::Ignore));
    let (flow, action) = flow.step(CompletionEvent::Removed);
    assert!(matches!(action, CompletionAction::Done));
    assert!(matches!(flow, CompletionFlow::Finished));
}

#[test]
fn an_unsuccessful_chat_response_leaves_before_it_is_reported() {
    let (flow, action) = asked().step(head(401));
    assert!(matches!(action, CompletionAction::RenewToken { failed } if failed == "first"));
    let (flow, action) = flow.step(CompletionEvent::Token { token: Ok("second".into()) });
    assert!(matches!(
        action,
        CompletionAction::Send { token, body } if token == "second" && body == b"payload"
    ));
    let (flow, action) = flow.step(head(401));
    match action {
        CompletionAction::Leave { events } => assert_eq!(events, http_error_events(401)),
        _ => panic!("the request did not leave"),
    }
    let (_, action) = flow.step(CompletionEvent::Removed);
    match action {
        CompletionAction::Report { outcome } => {
            let meta = outcome.unwrap();
            assert_eq!(meta.status, 401);
            assert_eq!(meta.content_type, "application/json");
        }
        _ => panic!("nothing was reported"),
    }
}

#[test]
fn a_failed_chat_request_leaves_before_it_is_reported() {
    let (begun, _) = CompletionFlow::begin(b"payload".to_vec());
    for (flow, event, expected) in [
        (begun, CompletionEvent::Token { token: Err("signed out".into()) }, "signed out"),
        (asked(), CompletionEvent::Response { head: Err("cancelled".into()) }, "cancelled"),
    ] {
        let (flow, action) = flow.step(event);
        assert!(matches!(action, CompletionAction::Leave { events } if events.is_empty()));
        let (_, action) = flow.step(CompletionEvent::Removed);
        assert!(matches!(
            action,
            CompletionAction::Report { outcome: Err(reason) } if reason == expected
        ));
    }
}

#[test]
fn failures_show_no_secret() {
    let refused = |access: &str, refresh: &str| {
        let (flow, _) = AccessFlow::valid_access_token();
        let mut tokens = session(access, 0);
        tokens.refresh_token = refresh.into();
        outcome(read(flow, stored(tokens)).1)
    };
    assert_eq!(refused("", "one"), refused("", "two"));
    assert_eq!(refused("one", ""), refused("two", ""));
    assert_eq!(
        refused("one", ""),
        Err("AI Pass returned an invalid stored refresh token.".to_owned())
    );

    let redeemed = |access: &str, refresh: Option<&str>| {
        let mut reply = response();
        reply.access_token = access.into();
        reply.refresh_token = refresh.map(str::to_owned);
        match exchanging().step(ConnectEvent::Tokens { response: Ok(reply), now: NOW }).1 {
            ConnectAction::Fail { reason } => reason,
            _ => panic!("signing in has not failed"),
        }
    };
    assert_eq!(redeemed("one", None), redeemed("two", None));
    assert_eq!(redeemed("one", Some("")), redeemed("two", Some("")));
    assert_eq!(redeemed("", Some("one")), redeemed("", Some("two")));
    assert_eq!(redeemed("", Some("one")), "AI Pass returned an invalid access token.");
}

#[test]
fn chats_show_no_token() {
    for status in [200u16, 404] {
        let shown = |token: &str| {
            let (flow, _) = CompletionFlow::begin(b"payload".to_vec());
            let (flow, _) = flow.step(CompletionEvent::Token { token: Ok(token.into()) });
            let (flow, action) = flow.step(head(status));
            match action {
                CompletionAction::Forward { meta } => (Vec::new(), meta),
                CompletionAction::Leave { events } => {
                    match flow.step(CompletionEvent::Removed).1 {
                        CompletionAction::Report { outcome } => (events, outcome.unwrap()),
                        _ => panic!("nothing was reported"),
                    }
                }
                _ => panic!("the response was not used"),
            }
        };
        assert_eq!(shown("one"), shown("two"));
    }
}
