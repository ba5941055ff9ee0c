use aipass::config::Setting;
use aipass::config::Settings;
use aipass::forms::exchange_code;
use aipass::session::clear_tokens;
use aipass::session::default_expires_in;
use aipass::session::default_token_type;
use aipass::session::local_status;
use aipass::session::merge_token_response;
use aipass::session::read_tokens;
use aipass::session::replace_tokens_for_connection;
use aipass::session::take_tokens_for_disconnect;
use aipass::session::token_is_fresh;
use aipass::session::validate_token;
use aipass::session::write_tokens;
use aipass::session::AiPassProfile;
use aipass::session::AiPassStatus;
use aipass::session::SessionSlot;
use aipass::session::StoredTokens;
use aipass::session::TokenResponse;
use aipass::session::OAUTH_SCOPE;

fn session(access: &str, refresh: &str) -> StoredTokens {
    StoredTokens {
        access_token: access.into(),
        refresh_token: refresh.into(),
        expires_at: 10,
        scope: OAUTH_SCOPE.into(),
        profile: None,
    }
}

fn response() -> TokenResponse {
    TokenResponse {
        access_token: "new-access".into(),
        refresh_token: Some("new-refresh".into()),
        expires_in: default_expires_in(),
        scope: None,
        token_type: default_token_type(),
    }
}

fn settings(available: bool) -> Settings {
    let uri = if available { Some("http://127.0.0.1:38137/cb".to_owned()) } else { None };
    Settings {
        client_id: Setting { runtime: Some("id".into()), build: None },
        redirect_uri: Setting { runtime: uri, build: None },
    }
}

#[test]
fn refresh_rotation_replaces_tokens_as_one_snapshot() {
    let existing = StoredTokens {
        access_token: "old-access".into(),
        refresh_token: "old-refresh".into(),
        expires_at: 10,
        scope: "api:access profile:read".into(),
        profile: Some(AiPassProfile {
            subject: "user-1".into(),
            display_name: Some("A User".into()),
            email: None,
        }),
    };
    let rotated = merge_token_response(
        &existing,
        TokenResponse {
            access_token: "new-access".into(),
            refresh_token: Some("new-refresh".into()),
            expires_in: 3600,
            scope: None,
            token_type: "Bearer".into(),
        },
        100,
    )
    .unwrap();
    assert_eq!(rotated.access_token, "new-access");
    assert_eq!(rotated.refresh_token, "new-refresh");
    assert_eq!(rotated.expires_at, 3700);
    assert_eq!(rotated.profile, existing.profile);

    let retained_refresh = merge_token_response(
        &rotated,
        TokenResponse {
            access_token: "newer-access".into(),
            refresh_token: None,
            expires_in: 1800,
            scope: None,
            token_type: "bearer".into(),
        },
        200,
    )
    .unwrap();
    assert_eq!(retained_refresh.refresh_token, "new-refresh");
}

#[test]
fn disconnect_takes_and_clears_the_local_session_before_revocation() {
    let tokens = StoredTokens {
        access_token: "access-token".into(),
        refresh_token: "refresh-token".into(),
        expires_at: 10,
        scope: OAUTH_SCOPE.into(),
        profile: None,
    };
    let mut slot = SessionSlot::Empty;
    write_tokens(&mut slot, &tokens);

    let taken = take_tokens_for_disconnect(&mut slot).unwrap();
    let remaining = read_tokens(&slot).unwrap();

    assert_eq!(taken, Some(tokens));
    assert!(remaining.is_none());
}

#[test]
fn connecting_atomically_replaces_and_returns_the_previous_session() {
    let previous = StoredTokens {
        access_token: "old-access-token".into(),
        refresh_token: "old-refresh-token".into(),
        expires_at: 10,
        scope: OAUTH_SCOPE.into(),
        profile: None,
    };
    let replacement = StoredTokens {
        access_token: "new-access-token".into(),
        refresh_token: "new-refresh-token".into(),
        expires_at: 20,
        scope: OAUTH_SCOPE.into(),
        profile: None,
    };
    let mut slot = SessionSlot::Empty;
    write_tokens(&mut slot, &previous);

    let returned = replace_tokens_for_connection(&mut slot, &replacement).unwrap();
    let stored = read_tokens(&slot).unwrap();

    assert_eq!(returned, Some(previous));
    assert_eq!(stored, Some(replacement));
}

#[test]
fn lifetimes_are_brought_within_bounds() {
    let expires_at = |expires_in: u64, now: u64| {
        let mut reply = response();
        reply.expires_in = expires_in;
        merge_token_response(&session("a", "r"), reply, now).unwrap().expires_at
    };
    assert_eq!(expires_at(0, 1000), 1060);
    assert_eq!(expires_at(59, 1000), 1060);
    assert_eq!(expires_at(61, 1000), 1061);
    assert_eq!(expires_at(2_592_000, 1000), 2_593_000);
    assert_eq!(expires_at(u64::MAX, 1000), 2_593_000);
    assert_eq!(expires_at(3600, u64::MAX - 3), u64::MAX);
    assert_eq!(default_expires_in(), 3600);
    assert_eq!(default_token_type(), "Bearer");
}

#[test]
fn refused_replies_say_why() {
    let merge = |change: fn(&mut TokenResponse), existing: &StoredTokens| {
        let mut reply = response();
        change(&mut reply);
        merge_token_response(existing, reply, 0)
    };
    let existing = session("a", "r");
    let cases: Vec<(fn(&mut TokenResponse), &str)> = vec![
        (
            |reply| reply.token_type = "mac".into(),
            "AI Pass returned an unsupported token type.",
        ),
        (
            |reply| reply.access_token = "".into(),
            "AI Pass returned an invalid access token.",
        ),
        (
            |reply| reply.refresh_token = Some("".into()),
            "AI Pass returned an invalid refresh token.",
        ),
        (
            |reply| reply.refresh_token = Some("r".repeat(16 * 1024 + 1)),
            "AI Pass returned an invalid refresh token.",
        ),
        (
            |reply| reply.scope = Some("profile:read".into()),
            "AI Pass token is missing the required API scope.",
        ),
    ];
    for (change, reason) in cases {
        assert_eq!(merge(change, &existing), Err(reason.to_owned()));
    }
    assert_eq!(
        merge(|reply| reply.refresh_token = None, &session("a", "")),
        Err("AI Pass returned an invalid refresh token.".to_owned())
    );
    let scoped = merge(|reply| reply.scope = Some("x api:access".into()), &existing).unwrap();
    assert_eq!(scoped.scope, "x api:access");
    let kept = merge(|reply| reply.scope = None, &existing).unwrap();
    assert_eq!(kept.scope, "api:access profile:read");
}

#[test]
fn tokens_have_at_most_sixteen_kibibytes() {
    assert_eq!(validate_token("t", "access token"), Ok(()));
    assert_eq!(validate_token(&"t".repeat(16 * 1024), "access token"), Ok(()));
    assert_eq!(
        validate_token(&"t".repeat(16 * 1024 + 1), "access token"),
        Err("AI Pass returned an invalid access token.".to_owned())
    );
    assert_eq!(
        validate_token("", "thing"),
        Err("AI Pass returned an invalid thing.".to_owned())
    );
}

#[test]
fn the_redemption_of_a_code_begins_a_session() {
    let begun = exchange_code(response(), 100).unwrap();
    assert_eq!(
        begun,
        StoredTokens {
            access_token: "new-access".into(),
            refresh_token: "new-refresh".into(),
            expires_at: 3700,
            scope: "api:access profile:read".into(),
            profile: None,
        }
    );
    let mut reply = response();
    reply.refresh_token = None;
    assert_eq!(
        exchange_code(reply, 100),
        Err("AI Pass returned an invalid refresh token.".to_owned())
    );
}

#[test]
fn slots_that_cannot_be_read_are_left_alone() {
    let corrupt = "Stored AI Pass session is corrupt.";
    let mut slot = SessionSlot::Corrupt;
    assert_eq!(read_tokens(&slot), Err(corrupt.to_owned()));
    assert_eq!(take_tokens_for_disconnect(&mut slot), Err(corrupt.to_owned()));
    assert_eq!(
        replace_tokens_for_connection(&mut slot, &session("a", "r")),
        Err(corrupt.to_owned())
    );
    assert_eq!(slot, SessionSlot::Corrupt);

    let mut slot = SessionSlot::Stored(session("", "r"));
    assert_eq!(
        take_tokens_for_disconnect(&mut slot),
        Err("AI Pass returned an invalid stored access token.".to_owned())
    );
    assert_eq!(slot, SessionSlot::Stored(session("", "r")));
    assert_eq!(
        read_tokens(&SessionSlot::Stored(session("a", ""))),
        Err("AI Pass returned an invalid stored refresh token.".to_owned())
    );
    clear_tokens(&mut slot);
    assert_eq!(slot, SessionSlot::Empty);
    assert_eq!(take_tokens_for_disconnect(&mut slot), Ok(None));
}

#[test]
fn the_status_says_whether_and_who() {
    assert_eq!(
        local_status(&settings(true), &SessionSlot::Empty),
        Ok(AiPassStatus { available: true, connected: false, profile: None })
    );
    let profile =
        AiPassProfile { subject: "s".into(), display_name: None, email: Some("e".into()) };
    let mut tokens = session("a", "r");
    tokens.profile = Some(profile.clone());
    assert_eq!(
        local_status(&settings(false), &SessionSlot::Stored(tokens)),
        Ok(AiPassStatus { available: false, connected: true, profile: Some(profile) })
    );
    assert!(local_status(&settings(true), &SessionSlot::Corrupt).is_err());
}

#[test]
fn a_renewed_session_is_stored_read_back_and_fresh() {
    let renewed = merge_token_response(&session("a", "r"), response(), 100).unwrap();
    let mut slot = SessionSlot::Corrupt;
    write_tokens(&mut slot, &renewed);
    assert_eq!(read_tokens(&slot), Ok(Some(renewed.clone())));
    assert!(token_is_fresh(&renewed, 100));
    assert!(token_is_fresh(&renewed, 3639));
    assert!(!token_is_fresh(&renewed, 3640));
    assert!(!token_is_fresh(&renewed, u64::MAX));
}

#[test]
fn the_status_shows_no_token() {
    let one = local_status(&settings(true), &SessionSlot::Stored(session("one", "r1"))).unwrap();
    let other = local_status(&settings(true), &SessionSlot::Stored(session("two", "r2"))).unwrap();
    assert_eq!(one, other);
}
