use aipass::authorize::authorization_outcome;
use aipass::authorize::authorization_url;
use aipass::authorize::callback_response;
use aipass::authorize::oauth_callback;
use aipass::authorize::CallbackQuery;
use aipass::authorize::CallbackState;
use aipass::authorize::CallbackWait;
use aipass::config::client_config;
use aipass::config::configuration_available;
use aipass::config::protected_client_id;
use aipass::config::ClientConfig;
use aipass::config::Setting;
use aipass::config::Settings;
use aipass::crypto::constant_time_equal;
use aipass::endpoint::parse_callback;
use aipass::endpoint::pinned_endpoint;
use aipass::metadata::accept_metadata;
use aipass::metadata::validate_metadata;
use aipass::metadata::OAuthMetadata;
use aipass::pkce::generate_pkce;
use aipass::pkce::pkce_challenge;
use aipass::pkce::pkce_from_bytes;
use aipass::pkce::pkce_material;
use aipass::pkce::random_urlsafe;
use aipass::pkce::urlsafe_text;
use base64::Engine;

fn texts(items: &[&str]) -> Vec<String> {
    items.iter().map(|item| item.to_string()).collect()
}

fn valid_metadata() -> OAuthMetadata {
    OAuthMetadata {
        issuer: "https://aipass.one".into(),
        authorization_endpoint: "https://aipass.one/oauth2/authorize".into(),
        token_endpoint: "https://aipass.one/oauth2/token".into(),
        userinfo_endpoint: "https://aipass.one/oauth2/userinfo".into(),
        revocation_endpoint: "https://aipass.one/oauth2/revoke".into(),
        scopes_supported: texts(&["api:access", "profile:read"]),
        response_types_supported: texts(&["code"]),
        grant_types_supported: texts(&["authorization_code", "refresh_token"]),
        code_challenge_methods_supported: texts(&["S256", "plain"]),
        token_endpoint_auth_methods_supported: texts(&["none"]),
    }
}

fn settings(client_id: Option<&str>, redirect_uri: Option<&str>) -> Settings {
    Settings {
        client_id: Setting { runtime: client_id.map(str::to_owned), build: None },
        redirect_uri: Setting { runtime: redirect_uri.map(str::to_owned), build: None },
    }
}

fn client() -> ClientConfig {
    client_config(&settings(
        Some("my client"),
        Some("http://127.0.0.1:38137/oauth/callback"),
    ))
    .unwrap()
}

#[test]
fn metadata_requires_pinned_issuer_s256_and_public_client_auth() {
    assert!(validate_metadata(&valid_metadata()).is_ok());

    let mut wrong_issuer = valid_metadata();
    wrong_issuer.issuer = "https://example.com".into();
    assert!(validate_metadata(&wrong_issuer).is_err());

    let mut no_s256 = valid_metadata();
    no_s256.code_challenge_methods_supported = vec!["plain".into()];
    assert!(validate_metadata(&no_s256).is_err());

    let mut confidential_only = valid_metadata();
    confidential_only.token_endpoint_auth_methods_supported = vec!["client_secret_post".into()];
    assert!(validate_metadata(&confidential_only).is_err());
}

#[test]
fn metadata_rejects_bearer_redirects_off_the_pinned_origin() {
    let mut metadata = valid_metadata();
    metadata.token_endpoint = "https://attacker.example/token".into();
    assert!(validate_metadata(&metadata).is_err());

    let mut metadata = valid_metadata();
    metadata.userinfo_endpoint = "http://aipass.one/oauth2/userinfo".into();
    assert!(validate_metadata(&metadata).is_err());
}

#[test]
fn refused_metadata_says_why() {
    let outside = "AI Pass OAuth metadata endpoint is outside the pinned origin.";
    let grants = "AI Pass OAuth metadata does not support the required grants.";
    let scopes = "AI Pass OAuth metadata does not support the required scopes.";
    let mut slashes = valid_metadata();
    slashes.issuer = "https://aipass.one//".into();
    assert_eq!(validate_metadata(&slashes), Ok(()));

    let cases: Vec<(fn(&mut OAuthMetadata), &str)> = vec![
        (
            |metadata| metadata.issuer = "https://aipass.one/x".into(),
            "AI Pass OAuth metadata issuer mismatch.",
        ),
        (
            |metadata| metadata.authorization_endpoint = "oauth2/authorize".into(),
            "AI Pass OAuth metadata contains an invalid endpoint.",
        ),
        (
            |metadata| metadata.revocation_endpoint = "https://aipass.one:444/revoke".into(),
            outside,
        ),
        (
            |metadata| metadata.code_challenge_methods_supported = vec![],
            "AI Pass does not advertise PKCE S256.",
        ),
        (
            |metadata| metadata.token_endpoint_auth_methods_supported = vec!["None".into()],
            "AI Pass does not advertise public-client token exchange.",
        ),
        (|metadata| metadata.response_types_supported = vec!["token".into()], grants),
        (|metadata| metadata.grant_types_supported = vec!["authorization_code".into()], grants),
        (|metadata| metadata.grant_types_supported = vec!["refresh_token".into()], grants),
        (|metadata| metadata.scopes_supported = vec!["api:access".into()], scopes),
        (|metadata| metadata.scopes_supported = vec!["profile:read".into()], scopes),
    ];
    for (change, reason) in cases {
        let mut metadata = valid_metadata();
        change(&mut metadata);
        assert_eq!(validate_metadata(&metadata), Err(reason.to_owned()));
        assert_eq!(accept_metadata(Ok(metadata)), Err(reason.to_owned()));
    }
    assert_eq!(accept_metadata(Ok(valid_metadata())), Ok(valid_metadata()));
    assert_eq!(accept_metadata(Err("offline".into())), Err("offline".to_owned()));
}

#[test]
fn endpoints_lie_on_the_pinned_origin() {
    let url = pinned_endpoint("HTTPS://AIPASS.ONE:443/a/../token?x=1").unwrap();
    assert_eq!(url.href, "https://aipass.one/token?x=1");
    assert_eq!(url.scheme, "https");
    assert_eq!(url.host.as_deref(), Some("aipass.one"));
    assert_eq!(url.port, None);
    assert_eq!(url.effective_port, Some(443));
    assert_eq!(url.path, "/token");
    assert_eq!(url.query.as_deref(), Some("x=1"));
    assert_eq!(url.fragment, None);
    for outside in [
        "https://aipass.one.example/token",
        "https://sub.aipass.one/token",
        "https://user@aipass.one/token",
        "https://:secret@aipass.one/token",
        "https://aipass.one:8443/token",
        "https://aipass.one/token#part",
        "wss://aipass.one/token",
        "mailto:someone@aipass.one",
    ] {
        assert_eq!(
            pinned_endpoint(outside),
            Err("AI Pass OAuth metadata endpoint is outside the pinned origin.".to_owned()),
            "{outside}"
        );
    }
    for broken in ["", "/token", "https://", "https://aipass.one:99999/"] {
        assert_eq!(
            pinned_endpoint(broken),
            Err("AI Pass OAuth metadata contains an invalid endpoint.".to_owned()),
            "{broken}"
        );
    }
}

#[test]
fn callback_config_is_loopback_http_with_an_explicit_port() {
    assert!(parse_callback("http://127.0.0.1:38137/oauth/callback").is_ok());
    assert!(parse_callback("https://127.0.0.1:38137/oauth/callback").is_err());
    assert!(parse_callback("http://localhost:38137/oauth/callback").is_err());
    assert!(parse_callback("http://127.0.0.1/oauth/callback").is_err());
    assert!(parse_callback("http://127.0.0.1:0/oauth/callback").is_err());
    assert!(parse_callback("http://127.0.0.1:38137/").is_err());
    assert!(parse_callback("http://user@127.0.0.1:38137/oauth/callback").is_err());
    assert!(parse_callback("http://127.0.0.1:38137/oauth/callback?code=x").is_err());
}

#[test]
fn callbacks_are_normalised() {
    let callback = parse_callback("http://127.1:38137/a/./b").unwrap();
    assert_eq!(callback.redirect_uri, "http://127.0.0.1:38137/a/b");
    assert_eq!(callback.address.octets, [127, 0, 0, 1]);
    assert_eq!(callback.address.port, 38137);
    assert_eq!(callback.path, "/a/b");
    let form = "AI Pass callback must be an explicit 127.0.0.1 loopback HTTP URL.";
    for refused in [
        "http://127.0.0.1:38137/a%20b",
        "http://127.0.0.1:38137/a b",
        "http://127.0.0.1:80/callback",
        "http://127.0.0.1:38137/callback#x",
        "http://:p@127.0.0.1:38137/callback",
    ] {
        assert_eq!(parse_callback(refused), Err(form.to_owned()), "{refused}");
    }
    assert_eq!(
        parse_callback("callback"),
        Err("AI Pass callback configuration is invalid.".to_owned())
    );
}

#[test]
fn clients_are_configured_by_two_settings() {
    let uri = "  http://127.0.0.1:38137/oauth/callback ";
    assert_eq!(client().client_id, "my client");
    assert_eq!(client().callback.address.port, 38137);
    assert_eq!(
        client_config(&settings(None, Some(uri))),
        Err("AI Pass is not configured in this build.".to_owned())
    );
    assert_eq!(
        client_config(&settings(Some(" \t"), Some(uri))),
        Err("AI Pass is not configured in this build.".to_owned())
    );
    assert_eq!(
        client_config(&settings(Some("id"), None)),
        Err("AI Pass callback is not configured in this build.".to_owned())
    );
    assert_eq!(
        client_config(&settings(Some("id"), Some("nowhere"))),
        Err("AI Pass callback configuration is invalid.".to_owned())
    );
    assert!(configuration_available(&settings(Some("id"), Some(uri))));
    assert!(!configuration_available(&settings(Some("id"), Some(""))));
    assert!(protected_client_id(&settings(Some(&"i".repeat(512)), None)).is_some());
    assert!(protected_client_id(&settings(Some(&"i".repeat(513)), None)).is_none());
    let long = format!("http://127.0.0.1:38137/{}", "p".repeat(1024));
    assert_eq!(
        client_config(&settings(Some("id"), Some(&long))),
        Err("AI Pass callback is not configured in this build.".to_owned())
    );
}

#[test]
fn what_the_process_starts_with_hides_what_it_was_built_with() {
    let both = |runtime: Option<&str>| Settings {
        client_id: Setting { runtime: runtime.map(str::to_owned), build: Some(" built ".into()) },
        redirect_uri: Setting { runtime: None, build: None },
    };
    assert_eq!(protected_client_id(&both(None)).as_deref(), Some("built"));
    assert_eq!(protected_client_id(&both(Some("started"))).as_deref(), Some("started"));
    assert_eq!(protected_client_id(&both(Some(""))), None);
}

#[test]
fn pkce_material_is_random_url_safe_and_s256() {
    let first = generate_pkce().unwrap();
    let second = generate_pkce().unwrap();
    assert_ne!(first.state, second.state);
    assert_ne!(first.verifier, second.verifier);
    assert!(first.state.len() >= 43);
    assert!(first.verifier.len() >= 43);
    assert!(first
        .state
        .chars()
        .all(|c| c.is_ascii_alphanumeric() || c == '-' || c == '_'));
    assert_eq!(pkce_challenge(&first.verifier), first.challenge);
    assert_ne!(first.verifier, first.challenge);
}

#[test]
fn challenges_are_those_of_the_standard() {
    let verifier = "dBjftJeZ4CVP-mB92K27uhbUJU1p1r_wW1gFWFOEjXk";
    let challenge = "E9Melhoa2OwvFrEMTJguCHaoeK1t8URWbuGJSstw-cM";
    assert_eq!(pkce_challenge(verifier), challenge);
    let pkce = pkce_material("state".into(), verifier.into());
    assert_eq!(pkce.state, "state");
    assert_eq!(pkce.verifier, verifier);
    assert_eq!(pkce.challenge, challenge);
    assert_eq!(urlsafe_text(&[0xfb, 0xff, 0xfe]), "-__-");
    assert_eq!(urlsafe_text(&[0xff]), "_w");
    assert_eq!(urlsafe_text(&[]), "");
    let drawn = random_urlsafe(12).unwrap();
    assert_eq!(drawn.len(), 16);
    assert_ne!(drawn, random_urlsafe(12).unwrap());
    assert_ne!(drawn, "AAAAAAAAAAAAAAAA");
}

#[test]
fn each_block_of_bytes_makes_one_secret() {
    let pkce = pkce_from_bytes(&[0; 32], &[0xff; 64]);
    assert_eq!(pkce.state, "A".repeat(43));
    assert_eq!(pkce.verifier, format!("{}w", "_".repeat(85)));
    assert_eq!(pkce.challenge, pkce_challenge(&pkce.verifier));

    let mut bytes = [0; 32];
    bytes[31] = 1;
    let other_state = pkce_from_bytes(&bytes, &[0xff; 64]);
    assert_ne!(other_state.state, pkce.state);
    assert_eq!(other_state.verifier, pkce.verifier);
    let other_verifier = pkce_from_bytes(&[0; 32], &[0xfe; 64]);
    assert_eq!(other_verifier.state, pkce.state);
    assert_ne!(other_verifier.verifier, pkce.verifier);
}

#[test]
fn different_bytes_have_different_texts() {
    let mut texts = Vec::new();
    for first in 0..=255u8 {
        texts.push(urlsafe_text(&[first]));
        texts.push(urlsafe_text(&[first, 0]));
        texts.push(urlsafe_text(&[0, first, 7]));
        texts.push(urlsafe_text(&[1, 2, 3, first]));
    }
    let count = texts.len();
    texts.sort();
    texts.dedup();
    assert_eq!(texts.len(), count);
    let all: Vec<u8> = (0..=255).collect();
    for length in 0..=256 {
        assert_eq!(
            urlsafe_text(&all[..length]),
            base64::engine::general_purpose::URL_SAFE_NO_PAD.encode(&all[..length])
        );
    }
    assert_eq!(urlsafe_text(b"foobar"), "Zm9vYmFy");
    assert_eq!(urlsafe_text(b"fooba"), "Zm9vYmE");
    assert_eq!(urlsafe_text(b"foob"), "Zm9vYg");
    assert_eq!(urlsafe_text(&[0x00, 0x10, 0x83, 0x10, 0x51, 0x87]), "ABCDEFGH");
    assert_eq!(urlsafe_text(&[0x69, 0xb7, 0x1d, 0x79, 0xf8, 0x21]), "abcdefgh");
    assert_eq!(urlsafe_text(&[0xd3, 0x5d, 0xb7, 0xe3, 0x9e, 0xbb, 0xf3, 0xdf, 0xbf]), "0123456789-_");
}

#[test]
fn secrets_are_compared_whole() {
    assert!(constant_time_equal("", ""));
    assert!(constant_time_equal("stäte", "stäte"));
    assert!(!constant_time_equal("state", "statE"));
    assert!(!constant_time_equal("state", "state1"));
    assert!(!constant_time_equal("1state", "state"));
}

#[test]
fn the_browser_is_sent_to_the_authorisation_endpoint() {
    let pkce = pkce_material("st&te".into(), "verifier".into());
    let query = format!(
        "response_type=code&client_id=my+client\
         &redirect_uri=http%3A%2F%2F127.0.0.1%3A38137%2Foauth%2Fcallback\
         &scope=api%3Aaccess+profile%3Aread&state=st%26te&code_challenge={}\
         &code_challenge_method=S256",
        pkce.challenge
    );
    assert_eq!(
        authorization_url(&valid_metadata(), &client(), &pkce),
        Ok(format!("https://aipass.one/oauth2/authorize?{query}"))
    );
    let mut metadata = valid_metadata();
    metadata.authorization_endpoint = "https://aipass.one/authorize?tenant=a".into();
    assert_eq!(
        authorization_url(&metadata, &client(), &pkce),
        Ok(format!("https://aipass.one/authorize?tenant=a&{query}"))
    );
    metadata.authorization_endpoint = "https://aipass.one/authorize?".into();
    assert_eq!(
        authorization_url(&metadata, &client(), &pkce),
        Ok(format!("https://aipass.one/authorize?{query}"))
    );
    let odd = pkce_material("\u{0} ~*-._\u{e4}\u{1f600}/Z9".into(), "verifier".into());
    let url = authorization_url(&valid_metadata(), &client(), &odd).unwrap();
    assert!(url.contains("&state=%00+%7E*-._%C3%A4%F0%9F%98%80%2FZ9&code_challenge="));
    metadata.authorization_endpoint = "https://example.com/authorize".into();
    assert_eq!(
        authorization_url(&metadata, &client(), &pkce),
        Err("AI Pass OAuth metadata endpoint is outside the pinned origin.".to_owned())
    );
}

#[test]
fn pages_are_plain_text_and_kept_nowhere() {
    let page = callback_response(200, "Hello.");
    assert_eq!(page.status, 200);
    assert_eq!(page.message, "Hello.");
    let headers: Vec<(&str, &str)> =
        page.headers.iter().map(|(name, value)| (name.as_str(), value.as_str())).collect();
    assert_eq!(
        headers,
        vec![
            ("content-type", "text/plain; charset=utf-8"),
            ("content-security-policy", "default-src 'none'; frame-ancestors 'none'"),
            ("cache-control", "no-store, max-age=0"),
            ("referrer-policy", "no-referrer"),
            ("x-content-type-options", "nosniff"),
        ]
    );
}

fn query(state: Option<&str>, code: Option<&str>, error: Option<&str>) -> CallbackQuery {
    CallbackQuery {
        state: state.map(str::to_owned),
        code: code.map(str::to_owned),
        error: error.map(str::to_owned),
    }
}

#[test]
fn only_the_right_state_settles_an_authorisation_and_only_once() {
    let mut state = CallbackState { expected_state: "expected".into(), result: Some("listener") };

    let (page, told) = oauth_callback(&mut state, query(None, Some("code"), None));
    assert_eq!((page.status, page.message.as_str()), (400, "Missing OAuth state."));
    assert_eq!(told, None);

    let (page, told) = oauth_callback(&mut state, query(Some("other"), Some("code"), None));
    assert_eq!((page.status, page.message.as_str()), (401, "Invalid OAuth state."));
    assert_eq!(told, None);
    assert_eq!(state.result, Some("listener"));

    let (page, told) = oauth_callback(&mut state, query(Some("expected"), Some("code"), None));
    assert_eq!(page.status, 200);
    assert_eq!(
        page.message,
        "AI Pass connected. You can close this window and return to Oleafly."
    );
    assert_eq!(told, Some(("listener", Ok("code".to_owned()))));

    let (page, told) = oauth_callback(&mut state, query(Some("expected"), Some("other"), None));
    assert_eq!(page.status, 200);
    assert_eq!(told, None);
}

#[test]
fn refused_authorisations_are_reported() {
    let long = "c".repeat(4097);
    let no_code = "AI Pass authorization did not return a code.";
    for (asked, reason) in [
        (
            query(Some("s"), Some("code"), Some("access_denied")),
            "AI Pass authorization was cancelled.",
        ),
        (query(Some("s"), None, Some("")), "AI Pass authorization was cancelled."),
        (query(Some("s"), None, None), no_code),
        (query(Some("s"), Some(""), None), no_code),
        (query(Some("s"), Some(&long), None), no_code),
    ] {
        let mut state = CallbackState { expected_state: "s".into(), result: Some(1) };
        let (page, told) = oauth_callback(&mut state, asked);
        assert_eq!(page.status, 400);
        assert_eq!(
            page.message,
            "AI Pass authorization was not completed. You can close this window."
        );
        assert_eq!(told, Some((1, Err(reason.to_owned()))));
    }
    let mut state = CallbackState { expected_state: "s".into(), result: Some(1) };
    let (page, told) = oauth_callback(&mut state, query(Some("s"), Some(&long[1..]), None));
    assert_eq!(page.status, 200);
    assert_eq!(told, Some((1, Ok("c".repeat(4096)))));
}

#[test]
fn waits_for_the_callback_end_with_a_code_or_a_failure() {
    assert_eq!(
        authorization_outcome(CallbackWait::Settled(Ok("code".into()))),
        Ok("code".to_owned())
    );
    assert_eq!(
        authorization_outcome(CallbackWait::Settled(Err("no".into()))),
        Err("no".to_owned())
    );
    assert_eq!(
        authorization_outcome(CallbackWait::Closed),
        Err("AI Pass callback closed before completion.".to_owned())
    );
    assert_eq!(
        authorization_outcome(CallbackWait::TimedOut),
        Err("AI Pass authorization timed out.".to_owned())
    );
}
