//! The signed-in session: tokens, how a reply of the token endpoint renews them,
//! and the slot of the secret store that keeps them as one value.

use vstd::prelude::*;

use crate::config::configuration_available;
use crate::config::configured_client;
use crate::config::Settings;
use crate::endpoint::optional_text;
use crate::text::byte_len;
use crate::text::byte_length;
use crate::text::contains_ascii_word;
use crate::text::eq_ignore_ascii_case;
use crate::text::fits;
use crate::text::has_ascii_word;
use crate::text::join3;
use crate::text::same_ignoring_ascii_case;

verus! {

/// The account of the secret store that keeps the session.
pub const TOKEN_ACCOUNT: &'static str = "aipass_oauth_tokens";

/// The scopes that an authorisation asks for.
pub const OAUTH_SCOPE: &'static str = "api:access profile:read";

/// The longest token, in bytes.
pub const MAX_TOKEN_BYTES: usize = 16 * 1024;

/// A token that expires within this many seconds is renewed before it is used.
pub const EXPIRY_MARGIN: u64 = 60;

/// Who is signed in.
#[derive(Debug, PartialEq)]
pub struct AiPassProfile {
    pub subject: String,
    pub display_name: Option<String>,
    pub email: Option<String>,
}

/// What a profile says.
pub struct ProfileView {
    pub subject: Seq<char>,
    pub display_name: Option<Seq<char>>,
    pub email: Option<Seq<char>>,
}

impl View for AiPassProfile {
    type V = ProfileView;

    open spec fn view(&self) -> ProfileView {
        ProfileView {
            subject: self.subject@,
            display_name: optional_text(self.display_name),
            email: optional_text(self.email),
        }
    }
}

impl Clone for AiPassProfile {
    fn clone(&self) -> (r: Self)
        ensures
            r == *self,
    {
        AiPassProfile {
            subject: self.subject.clone(),
            display_name: self.display_name.clone(),
            email: self.email.clone(),
        }
    }
}

/// What a profile says that may be missing.
pub open spec fn optional_profile(profile: Option<AiPassProfile>) -> Option<ProfileView> {
    match profile {
        Some(profile) => Some(profile@),
        None => None,
    }
}

/// Whether the service is configured and signed in, and who is.
#[derive(Debug, PartialEq)]
pub struct AiPassStatus {
    pub available: bool,
    pub connected: bool,
    pub profile: Option<AiPassProfile>,
}

/// What a status says.
pub struct StatusView {
    pub available: bool,
    pub connected: bool,
    pub profile: Option<ProfileView>,
}

impl View for AiPassStatus {
    type V = StatusView;

    open spec fn view(&self) -> StatusView {
        StatusView {
            available: self.available,
            connected: self.connected,
            profile: optional_profile(self.profile),
        }
    }
}

impl Clone for AiPassStatus {
    fn clone(&self) -> (r: Self)
        ensures
            r == *self,
    {
        AiPassStatus {
            available: self.available,
            connected: self.connected,
            profile: self.profile.clone(),
        }
    }
}

/// A session, kept as one value so that both tokens are renewed together.
#[derive(Debug, PartialEq)]
pub struct StoredTokens {
    pub access_token: String,
    pub refresh_token: String,
    /// In seconds since the epoch.
    pub expires_at: u64,
    pub scope: String,
    pub profile: Option<AiPassProfile>,
}

/// What a session holds.
pub struct TokensView {
    pub access_token: Seq<char>,
    pub refresh_token: Seq<char>,
    pub expires_at: u64,
    pub scope: Seq<char>,
    pub profile: Option<ProfileView>,
}

impl View for StoredTokens {
    type V = TokensView;

    open spec fn view(&self) -> TokensView {
        TokensView {
            access_token: self.access_token@,
            refresh_token: self.refresh_token@,
            expires_at: self.expires_at,
            scope: self.scope@,
            profile: optional_profile(self.profile),
        }
    }
}

impl Clone for StoredTokens {
    fn clone(&self) -> (r: Self)
        ensures
            r == *self,
    {
        StoredTokens {
            access_token: self.access_token.clone(),
            refresh_token: self.refresh_token.clone(),
            expires_at: self.expires_at,
            scope: self.scope.clone(),
            profile: self.profile.clone(),
        }
    }
}

/// What a session holds that may be missing.
pub open spec fn optional_tokens(tokens: Option<StoredTokens>) -> Option<TokensView> {
    match tokens {
        Some(tokens) => Some(tokens@),
        None => None,
    }
}

/// A reply of the token endpoint.
#[derive(Debug, PartialEq)]
pub struct TokenResponse {
    pub access_token: String,
    pub refresh_token: Option<String>,
    /// In seconds.
    pub expires_in: u64,
    pub scope: Option<String>,
    pub token_type: String,
}

/// The lifetime of a token whose reply names none.
pub fn default_expires_in() -> (r: u64)
    ensures
        r == 3600,
{
    3600
}

/// The type of a token whose reply names none.
pub fn default_token_type() -> (r: String)
    ensures
        r@ == "Bearer"@,
{
    "Bearer".to_owned()
}

/// A token is not empty and has at most `MAX_TOKEN_BYTES` bytes.
pub open spec fn is_token(value: Seq<char>) -> bool {
    value.len() > 0 && byte_len(value) <= MAX_TOKEN_BYTES
}

/// How a token is refused.
pub open spec fn token_refusal(label: Seq<char>) -> Seq<char> {
    "AI Pass returned an invalid "@ + label + "."@
}

/// Refuses a text that is no token.
pub fn validate_token(value: &str, label: &str) -> (r: Result<(), String>)
    ensures
        match r {
            Ok(_) => is_token(value@),
            Err(reason) => !is_token(value@) && reason@ == token_refusal(label@),
        },
{
    if value.is_empty() || byte_length(value) > MAX_TOKEN_BYTES {
        return Err(join3("AI Pass returned an invalid ", label, "."));
    }
    Ok(())
}

/// A lifetime, brought to at least a minute and at most thirty days.
pub open spec fn lifetime(expires_in: u64) -> u64 {
    if expires_in < 60 {
        60
    } else if expires_in > 2_592_000 {
        2_592_000
    } else {
        expires_in
    }
}

/// When a token expires, or the end of time where that cannot be told.
pub open spec fn expiry(now: u64, expires_in: u64) -> u64 {
    if now + lifetime(expires_in) > u64::MAX {
        u64::MAX
    } else {
        (now + lifetime(expires_in)) as u64
    }
}

/// The session that a reply leaves behind, or why the reply is refused. A reply
/// that names no refresh token or no scope leaves the one that was there.
pub open spec fn renewed_session(existing: TokensView, reply: TokenResponse, now: u64) -> Result<
    TokensView,
    Seq<char>,
> {
    let refresh_token = match reply.refresh_token {
        Some(token) => token@,
        None => existing.refresh_token,
    };
    let scope = match reply.scope {
        Some(scope) => scope@,
        None => existing.scope,
    };
    if !same_ignoring_ascii_case(reply.token_type@, "bearer"@) {
        Err("AI Pass returned an unsupported token type."@)
    } else if !is_token(reply.access_token@) {
        Err(token_refusal("access token"@))
    } else if reply.refresh_token is Some && !is_token(refresh_token) {
        Err(token_refusal("refresh token"@))
    } else if reply.scope is Some && !has_ascii_word(scope, "api:access"@) {
        Err("AI Pass token is missing the required API scope."@)
    } else if !is_token(refresh_token) {
        Err(token_refusal("refresh token"@))
    } else {
        Ok(
            TokensView {
                access_token: reply.access_token@,
                refresh_token,
                expires_at: expiry(now, reply.expires_in),
                scope,
                profile: existing.profile,
            },
        )
    }
}

/// The session that a reply of the token endpoint leaves behind.
pub fn merge_token_response(existing: &StoredTokens, response: TokenResponse, now: u64) -> (r:
    Result<StoredTokens, String>)
    ensures
        match r {
            Ok(tokens) => renewed_session(existing@, response, now) == Ok::<TokensView, Seq<char>>(
                tokens@,
            ),
            Err(reason) => renewed_session(existing@, response, now) == Err::<
                TokensView,
                Seq<char>,
            >(reason@),
        },
{
    if !eq_ignore_ascii_case(response.token_type.as_str(), "bearer") {
        return Err("AI Pass returned an unsupported token type.".to_owned());
    }
    if let Err(reason) = validate_token(response.access_token.as_str(), "access token") {
        return Err(reason);
    }
    if let Some(refresh) = &response.refresh_token {
        if let Err(reason) = validate_token(refresh.as_str(), "refresh token") {
            return Err(reason);
        }
    }
    if let Some(scope) = &response.scope {
        if !contains_ascii_word(scope.as_str(), "api:access") {
            return Err("AI Pass token is missing the required API scope.".to_owned());
        }
    }
    let refresh_token: String = match response.refresh_token {
        Some(refresh) => refresh,
        None => existing.refresh_token.clone(),
    };
    if let Err(reason) = validate_token(refresh_token.as_str(), "refresh token") {
        return Err(reason);
    }
    let scope: String = match response.scope {
        Some(scope) => scope,
        None => existing.scope.clone(),
    };
    let expires_in: u64 = if response.expires_in < 60 {
        60
    } else if response.expires_in > 2_592_000 {
        2_592_000
    } else {
        response.expires_in
    };
    Ok(
        StoredTokens {
            access_token: response.access_token,
            refresh_token,
            expires_at: now.saturating_add(expires_in),
            scope,
            profile: existing.profile.clone(),
        },
    )
}

/// What the secret store keeps for the session.
#[derive(Debug, PartialEq)]
pub enum SessionSlot {
    /// Nothing.
    Empty,
    /// Something that is no session.
    Corrupt,
    /// A session.
    Stored(StoredTokens),
}

/// What the slot holds.
pub enum SlotView {
    Empty,
    Corrupt,
    Stored(TokensView),
}

impl View for SessionSlot {
    type V = SlotView;

    open spec fn view(&self) -> SlotView {
        match self {
            SessionSlot::Empty => SlotView::Empty,
            SessionSlot::Corrupt => SlotView::Corrupt,
            SessionSlot::Stored(tokens) => SlotView::Stored(tokens@),
        }
    }
}

/// The session that a slot holds, or why it cannot be used.
pub open spec fn session_in(slot: SlotView) -> Result<Option<TokensView>, Seq<char>> {
    match slot {
        SlotView::Empty => Ok(None),
        SlotView::Corrupt => Err("Stored AI Pass session is corrupt."@),
        SlotView::Stored(tokens) => if !is_token(tokens.access_token) {
            Err(token_refusal("stored access token"@))
        } else if !is_token(tokens.refresh_token) {
            Err(token_refusal("stored refresh token"@))
        } else {
            Ok(Some(tokens))
        },
    }
}

/// The session that a slot holds.
pub fn read_tokens(slot: &SessionSlot) -> (r: Result<Option<StoredTokens>, String>)
    ensures
        match r {
            Ok(tokens) => session_in(slot@) == Ok::<Option<TokensView>, Seq<char>>(
                optional_tokens(tokens),
            ),
            Err(reason) => session_in(slot@) == Err::<Option<TokensView>, Seq<char>>(reason@),
        },
        r matches Ok(Some(tokens)) ==> *slot == SessionSlot::Stored(tokens),
{
    match slot {
        SessionSlot::Empty => Ok(None),
        SessionSlot::Corrupt => Err("Stored AI Pass session is corrupt.".to_owned()),
        SessionSlot::Stored(tokens) => {
            if let Err(reason) = validate_token(
                tokens.access_token.as_str(),
                "stored access token",
            ) {
                return Err(reason);
            }
            if let Err(reason) = validate_token(
                tokens.refresh_token.as_str(),
                "stored refresh token",
            ) {
                return Err(reason);
            }
            Ok(Some(tokens.clone()))
        },
    }
}

/// Keeps a session in the slot, in place of what was there.
pub fn write_tokens(slot: &mut SessionSlot, tokens: &StoredTokens)
    ensures
        *final(slot) == SessionSlot::Stored(*tokens),
{
    *slot = SessionSlot::Stored(tokens.clone());
}

/// Empties the slot.
pub fn clear_tokens(slot: &mut SessionSlot)
    ensures
        *final(slot) == SessionSlot::Empty,
{
    *slot = SessionSlot::Empty;
}

/// What becomes of the slot, and what is handed back, when a new session takes the
/// place of the previous one.
pub open spec fn replaces(
    before: SessionSlot,
    tokens: StoredTokens,
    after: SessionSlot,
    handed: Result<Option<StoredTokens>, String>,
) -> bool {
    match session_in(before@) {
        Err(reason) => after == before && (handed matches Err(given) && given@ == reason),
        Ok(session) => after == SessionSlot::Stored(tokens) && (handed matches Ok(previous)
            && optional_tokens(previous) == session),
    }
}

/// What becomes of the slot, and what is handed back, when the session is taken out.
pub open spec fn takes(
    before: SessionSlot,
    after: SessionSlot,
    handed: Result<Option<StoredTokens>, String>,
) -> bool {
    match session_in(before@) {
        Err(reason) => after == before && (handed matches Err(given) && given@ == reason),
        Ok(session) => after is Empty && (handed matches Ok(taken) && optional_tokens(taken)
            == session),
    }
}

/// Keeps a new session and hands back the previous one. A slot that cannot be
/// read is left as it is.
pub fn replace_tokens_for_connection(slot: &mut SessionSlot, tokens: &StoredTokens) -> (r: Result<
    Option<StoredTokens>,
    String,
>)
    ensures
        match r {
            Ok(previous) => session_in(old(slot)@) == Ok::<Option<TokensView>, Seq<char>>(
                optional_tokens(previous),
            ) && *final(slot) == SessionSlot::Stored(*tokens),
            Err(reason) => session_in(old(slot)@) == Err::<Option<TokensView>, Seq<char>>(reason@)
                && *final(slot) == *old(slot),
        },
        replaces(*old(slot), *tokens, *final(slot), r),
{
    match read_tokens(slot) {
        Err(reason) => Err(reason),
        Ok(previous) => {
            write_tokens(slot, tokens);
            Ok(previous)
        },
    }
}

/// Takes the session out of the slot. A slot that cannot be read is left as it is.
pub fn take_tokens_for_disconnect(slot: &mut SessionSlot) -> (r: Result<
    Option<StoredTokens>,
    String,
>)
    ensures
        match r {
            Ok(tokens) => session_in(old(slot)@) == Ok::<Option<TokensView>, Seq<char>>(
                optional_tokens(tokens),
            ) && *final(slot) == SessionSlot::Empty,
            Err(reason) => session_in(old(slot)@) == Err::<Option<TokensView>, Seq<char>>(reason@)
                && *final(slot) == *old(slot),
        },
        takes(*old(slot), *final(slot), r),
{
    match read_tokens(slot) {
        Err(reason) => Err(reason),
        Ok(tokens) => {
            clear_tokens(slot);
            Ok(tokens)
        },
    }
}

/// The status for some settings and what the slot holds, or why there is none.
pub open spec fn reported_status(settings: Settings, slot: SlotView) -> Result<
    StatusView,
    Seq<char>,
> {
    match session_in(slot) {
        Err(reason) => Err(reason),
        Ok(session) => Ok(
            StatusView {
                available: configured_client(settings) is Ok,
                connected: session is Some,
                profile: match session {
                    Some(tokens) => tokens.profile,
                    None => None,
                },
            },
        ),
    }
}

/// Whether the settings configure a client and the slot holds a session, and whose.
pub fn local_status(settings: &Settings, slot: &SessionSlot) -> (r: Result<AiPassStatus, String>)
    ensures
        match r {
            Ok(status) => reported_status(*settings, slot@) == Ok::<StatusView, Seq<char>>(status@),
            Err(reason) => reported_status(*settings, slot@) == Err::<StatusView, Seq<char>>(
                reason@,
            ),
        },
{
    match read_tokens(slot) {
        Err(reason) => Err(reason),
        Ok(tokens) => {
            let connected: bool = tokens.is_some();
            let profile: Option<AiPassProfile> = match tokens {
                Some(tokens) => tokens.profile,
                None => None,
            };
            Ok(AiPassStatus { available: configuration_available(settings), connected, profile })
        },
    }
}

/// The access token lasts beyond the margin.
pub open spec fn is_fresh(tokens: TokensView, now: u64) -> bool {
    tokens.expires_at > now + EXPIRY_MARGIN
}

/// Whether the access token lasts beyond the margin. At the end of time none does.
pub fn token_is_fresh(tokens: &StoredTokens, now: u64) -> (r: bool)
    ensures
        r == is_fresh(tokens@, now),
{
    tokens.expires_at > now.saturating_add(EXPIRY_MARGIN)
}

/// A session that is written is read back, as long as its tokens are tokens.
pub proof fn law_written_session_is_read_back(tokens: TokensView)
    requires
        is_token(tokens.access_token),
        is_token(tokens.refresh_token),
    ensures
        session_in(SlotView::Stored(tokens)) == Ok::<Option<TokensView>, Seq<char>>(Some(tokens)),
{
}

/// A renewed session can always be read back once it is written, whatever the
/// session before it was.
pub proof fn law_renewed_session_is_read_back(
    existing: TokensView,
    reply: TokenResponse,
    now: u64,
    renewed: TokensView,
)
    requires
        renewed_session(existing, reply, now) == Ok::<TokensView, Seq<char>>(renewed),
    ensures
        session_in(SlotView::Stored(renewed)) == Ok::<Option<TokensView>, Seq<char>>(
            Some(renewed),
        ),
{
}

/// A renewal replaces the access token, replaces the refresh token where the reply
/// names one and keeps it otherwise, and never changes whose session it is.
pub proof fn law_renewal_rotates_the_tokens(
    existing: TokensView,
    reply: TokenResponse,
    now: u64,
    renewed: TokensView,
)
    requires
        renewed_session(existing, reply, now) == Ok::<TokensView, Seq<char>>(renewed),
    ensures
        renewed.access_token == reply.access_token@,
        reply.refresh_token matches Some(token) ==> renewed.refresh_token == token@,
        reply.refresh_token is None ==> renewed.refresh_token == existing.refresh_token,
        renewed.profile == existing.profile,
{
}

/// A renewed access token lasts for a minute at least and for thirty days at most,
/// unless that reaches beyond the end of time.
pub proof fn law_lifetimes_are_bounded(
    existing: TokensView,
    reply: TokenResponse,
    now: u64,
    renewed: TokensView,
)
    requires
        renewed_session(existing, reply, now) == Ok::<TokensView, Seq<char>>(renewed),
        now + 2_592_000 <= u64::MAX,
    ensures
        now + 60 <= renewed.expires_at <= now + 2_592_000,
{
}

/// A session that is renewed for longer than the margin is fresh, so that the next
/// request uses it as it is.
pub proof fn law_renewed_session_is_fresh(
    existing: TokensView,
    reply: TokenResponse,
    now: u64,
    renewed: TokensView,
)
    requires
        renewed_session(existing, reply, now) == Ok::<TokensView, Seq<char>>(renewed),
        reply.expires_in > EXPIRY_MARGIN,
        now + 2_592_000 <= u64::MAX,
    ensures
        is_fresh(renewed, now),
{
}

/// The status shows nothing of the tokens: two sessions of the same profile give
/// the same one, whatever their tokens are.
pub proof fn law_the_status_shows_no_token(settings: Settings, one: TokensView, other: TokensView)
    requires
        session_in(SlotView::Stored(one)) is Ok,
        session_in(SlotView::Stored(other)) is Ok,
        one.profile == other.profile,
    ensures
        reported_status(settings, SlotView::Stored(one)) == reported_status(
            settings,
            SlotView::Stored(other),
        ),
{
}

/// Two sessions differ at most in their tokens, and each token is one in both or in neither.
pub open spec fn sessions_alike(one: TokensView, other: TokensView) -> bool {
    &&& is_token(one.access_token) == is_token(other.access_token)
    &&& is_token(one.refresh_token) == is_token(other.refresh_token)
    &&& one.expires_at == other.expires_at
    &&& one.scope == other.scope
    &&& one.profile == other.profile
}

/// What two slots hold differs at most in the tokens, and each token is one in both or in neither.
pub open spec fn slots_alike(one: SlotView, other: SlotView) -> bool {
    match (one, other) {
        (SlotView::Empty, SlotView::Empty) => true,
        (SlotView::Corrupt, SlotView::Corrupt) => true,
        (SlotView::Stored(one), SlotView::Stored(other)) => sessions_alike(one, other),
        _ => false,
    }
}

/// Two replies of the token endpoint differ at most in the tokens, and each token is
/// one in both or in neither.
pub open spec fn replies_alike(one: TokenResponse, other: TokenResponse) -> bool {
    &&& is_token(one.access_token@) == is_token(other.access_token@)
    &&& match (one.refresh_token, other.refresh_token) {
        (Some(one), Some(other)) => is_token(one@) == is_token(other@),
        (None, None) => true,
        _ => false,
    }
    &&& one.expires_in == other.expires_in
    &&& optional_text(one.scope) == optional_text(other.scope)
    &&& one.token_type@ == other.token_type@
}

/// The reason why a slot cannot be used says nothing of a token but that it is none.
pub proof fn law_unusable_slots_show_no_token(one: SlotView, other: SlotView)
    requires
        slots_alike(one, other),
    ensures
        session_in(one) is Err ==> session_in(other) == session_in(one),
        session_in(other) is Err ==> session_in(one) == session_in(other),
{
}

/// The reason why a reply of the token endpoint is refused says nothing of a token
/// but that it is none.
pub proof fn law_refused_replies_show_no_token(
    one: TokensView,
    one_reply: TokenResponse,
    other: TokensView,
    other_reply: TokenResponse,
    now: u64,
)
    requires
        sessions_alike(one, other),
        replies_alike(one_reply, other_reply),
    ensures
        renewed_session(one, one_reply, now) is Err ==> renewed_session(other, other_reply, now)
            == renewed_session(one, one_reply, now),
        renewed_session(other, other_reply, now) is Err ==> renewed_session(one, one_reply, now)
            == renewed_session(other, other_reply, now),
{
}

/// A reply is one that renews a session: it is of the type `bearer`, its tokens are
/// not empty and have at most 16 KiB, there is a refresh token in it or in the
/// session, and its scopes, where it names any, hold that of the API.
pub open spec fn renews(existing: TokensView, reply: TokenResponse) -> bool {
    &&& same_ignoring_ascii_case(reply.token_type@, "bearer"@)
    &&& fits(reply.access_token@, 16384)
    &&& match reply.refresh_token {
        Some(token) => fits(token@, 16384),
        None => fits(existing.refresh_token, 16384),
    }
    &&& reply.scope matches Some(scope) ==> has_ascii_word(scope@, "api:access"@)
}

/// A reply that renews a session is accepted, and no other is. The access token is
/// that of the reply; the refresh token and the scope are too where the reply names
/// them, and stay as they were otherwise; who is signed in never changes; and the
/// time until it expires is the one of the reply, but no less than a minute and no
/// more than thirty days.
pub proof fn law_renewal_keeps_what_the_reply_leaves_out(
    existing: TokensView,
    reply: TokenResponse,
    now: u64,
)
    ensures
        renews(existing, reply) <==> renewed_session(existing, reply, now) is Ok,
        renewed_session(existing, reply, now) matches Ok(renewed) ==> {
            &&& renewed.access_token == reply.access_token@
            &&& reply.refresh_token matches Some(token) ==> renewed.refresh_token == token@
            &&& reply.refresh_token is None ==> renewed.refresh_token == existing.refresh_token
            &&& reply.scope matches Some(scope) ==> renewed.scope == scope@
            &&& reply.scope is None ==> renewed.scope == existing.scope
            &&& renewed.profile == existing.profile
            &&& renewed.expires_at == vstd::math::min(
                0xffff_ffff_ffff_ffff,
                now + vstd::math::max(60, vstd::math::min(reply.expires_in as int, 2_592_000)),
            )
        },
{
}

/// The first thing that is wrong with a reply is the reason why it is refused.
pub proof fn law_refused_replies_say_what_is_wrong(
    existing: TokensView,
    reply: TokenResponse,
    now: u64,
)
    ensures
        ({
            let refused = renewed_session(existing, reply, now);
            let bearer = same_ignoring_ascii_case(reply.token_type@, "bearer"@);
            let access = fits(reply.access_token@, 16384);
            let refresh = match reply.refresh_token {
                Some(token) => fits(token@, 16384),
                None => true,
            };
            let scope = match reply.scope {
                Some(scope) => has_ascii_word(scope@, "api:access"@),
                None => true,
            };
            &&& !bearer ==> refused == Err::<TokensView, Seq<char>>(
                "AI Pass returned an unsupported token type."@,
            )
            &&& bearer && !access ==> refused == Err::<TokensView, Seq<char>>(
                "AI Pass returned an invalid "@ + "access token"@ + "."@,
            )
            &&& bearer && access && !refresh ==> refused == Err::<TokensView, Seq<char>>(
                "AI Pass returned an invalid "@ + "refresh token"@ + "."@,
            )
            &&& bearer && access && refresh && !scope ==> refused == Err::<TokensView, Seq<char>>(
                "AI Pass token is missing the required API scope."@,
            )
            &&& bearer && access && refresh && scope && !renews(existing, reply) ==> refused
                == Err::<TokensView, Seq<char>>(
                "AI Pass returned an invalid "@ + "refresh token"@ + "."@,
            )
        }),
{
}

/// A stored session is read back whole exactly where both tokens are not empty and
/// have at most 16 KiB; otherwise the first that is not is named. An empty slot holds
/// no session, and what is no session is corrupt.
pub proof fn law_slots_hold_what_was_stored(tokens: TokensView)
    ensures
        session_in(SlotView::Empty) == Ok::<Option<TokensView>, Seq<char>>(None),
        session_in(SlotView::Corrupt) == Err::<Option<TokensView>, Seq<char>>(
            "Stored AI Pass session is corrupt."@,
        ),
        fits(tokens.access_token, 16384) && fits(tokens.refresh_token, 16384) ==> session_in(
            SlotView::Stored(tokens),
        ) == Ok::<Option<TokensView>, Seq<char>>(Some(tokens)),
        !fits(tokens.access_token, 16384) ==> session_in(SlotView::Stored(tokens)) == Err::<
            Option<TokensView>,
            Seq<char>,
        >("AI Pass returned an invalid "@ + "stored access token"@ + "."@),
        fits(tokens.access_token, 16384) && !fits(tokens.refresh_token, 16384) ==> session_in(
            SlotView::Stored(tokens),
        ) == Err::<Option<TokensView>, Seq<char>>(
            "AI Pass returned an invalid "@ + "stored refresh token"@ + "."@,
        ),
{
}

/// The status is connected exactly where a session is stored, names whose it is, and
/// says whether a client is configured, whatever is stored.
pub proof fn law_the_status_says_what_is_stored(settings: Settings, tokens: TokensView)
    ensures
        reported_status(settings, SlotView::Empty) matches Ok(status) && !status.connected
            && status.profile is None && status.available == (configured_client(settings) is Ok),
        reported_status(settings, SlotView::Corrupt) is Err,
        fits(tokens.access_token, 16384) && fits(tokens.refresh_token, 16384) ==> (reported_status(
            settings,
            SlotView::Stored(tokens),
        ) matches Ok(status) && status.connected && status.profile == tokens.profile
            && status.available == (configured_client(settings) is Ok)),
{
}

/// A token is fresh as long as more than a minute is left.
pub proof fn law_fresh_means_more_than_a_minute(tokens: TokensView, now: u64)
    ensures
        is_fresh(tokens, now) <==> tokens.expires_at - now > 60,
{
}

/// What a session says is all that it holds.
pub proof fn law_sessions_show_every_field(tokens: StoredTokens)
    ensures
        tokens@.access_token == tokens.access_token@,
        tokens@.refresh_token == tokens.refresh_token@,
        tokens@.expires_at == tokens.expires_at,
        tokens@.scope == tokens.scope@,
        tokens.profile is None <==> tokens@.profile is None,
        tokens.profile matches Some(profile) ==> {
            let shown = tokens@.profile->0;
            &&& shown.subject == profile.subject@
            &&& profile.display_name is None <==> shown.display_name is None
            &&& profile.display_name matches Some(name) ==> shown.display_name == Some(name@)
            &&& profile.email is None <==> shown.email is None
            &&& profile.email matches Some(email) ==> shown.email == Some(email@)
        },
{
}

/// Two profiles, if any, are of the same person.
pub open spec fn same_person(one: Option<AiPassProfile>, other: Option<AiPassProfile>) -> bool {
    match (one, other) {
        (Some(one), Some(other)) => {
            &&& one.subject@ == other.subject@
            &&& optional_text(one.display_name) == optional_text(other.display_name)
            &&& optional_text(one.email) == optional_text(other.email)
        },
        (None, None) => true,
        _ => false,
    }
}

/// A session lasts as long as a reply says, counted from a moment, but for a minute
/// at least and thirty days at most.
pub open spec fn lasts(tokens: StoredTokens, reply: TokenResponse, now: u64) -> bool {
    tokens.expires_at == vstd::math::min(
        0xffff_ffff_ffff_ffff,
        now + vstd::math::max(60, vstd::math::min(reply.expires_in as int, 2_592_000)),
    )
}

/// What a status and a slot say is all that they hold.
pub proof fn law_statuses_and_slots_show_every_field(status: AiPassStatus, tokens: StoredTokens)
    ensures
        status@.available == status.available,
        status@.connected == status.connected,
        status.profile is None <==> status@.profile is None,
        status.profile matches Some(profile) ==> status@.profile == Some(profile@),
        SessionSlot::Empty@ is Empty,
        SessionSlot::Corrupt@ is Corrupt,
        SessionSlot::Stored(tokens)@ == SlotView::Stored(tokens@),
        optional_tokens(Some(tokens)) == Some(tokens@),
        optional_tokens(None) is None,
        TOKEN_ACCOUNT@ == "aipass_oauth_tokens"@,
{
}

/// A new session is stored as it is, and the previous one comes back whole. Taking a
/// session out brings it back whole and leaves the slot empty. What cannot be read is
/// neither replaced nor taken.
pub proof fn law_sessions_change_hands_whole(
    before: SessionSlot,
    tokens: StoredTokens,
    after: SessionSlot,
    handed: Result<Option<StoredTokens>, String>,
)
    ensures
        before matches SessionSlot::Stored(previous) ==> {
            let usable = fits(previous.access_token@, 16384) && fits(
                previous.refresh_token@,
                16384,
            );
            &&& usable && (replaces(before, tokens, after, handed) || takes(before, after, handed))
                ==> (handed matches Ok(Some(given)) && {
                &&& given.access_token@ == previous.access_token@
                &&& given.refresh_token@ == previous.refresh_token@
                &&& given.expires_at == previous.expires_at
                &&& given.scope@ == previous.scope@
                &&& same_person(given.profile, previous.profile)
            })
            &&& usable && replaces(before, tokens, after, handed) ==> after == SessionSlot::Stored(
                tokens,
            )
            &&& usable && takes(before, after, handed) ==> after is Empty
            &&& !usable && (replaces(before, tokens, after, handed) || takes(before, after, handed))
                ==> handed is Err && after == before
        },
        before is Empty && replaces(before, tokens, after, handed) ==> handed
            == Ok::<Option<StoredTokens>, String>(None) && after == SessionSlot::Stored(tokens),
        before is Empty && takes(before, after, handed) ==> handed == Ok::<
            Option<StoredTokens>,
            String,
        >(None) && after is Empty,
        before is Corrupt && (replaces(before, tokens, after, handed) || takes(
            before,
            after,
            handed,
        )) ==> handed is Err && after == before,
{
}

} // verus!
