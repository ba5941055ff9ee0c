//! URLs: their parts, the pinned origin of the service, and the loopback callback.

use vstd::prelude::*;
use vstd::utf8::encode_utf8;

use crate::text::byte_len;
use crate::text::byte_length;
use crate::text::has_char;
use crate::text::is_ascii_alphanumeric;
use crate::text::text_eq;

verus! {

/// The longest URL, in bytes, to which a query can be added: offsets within a URL
/// have 32 bits.
pub const MAX_URL_BYTES: u64 = 0xffff_ffff;

/// The parts of a URL, normalised.
#[derive(Debug, PartialEq)]
pub struct ParsedUrl {
    /// Without the colon.
    pub scheme: String,
    pub username: String,
    pub password: Option<String>,
    pub host: Option<String>,
    /// As written, unless it is the scheme's own.
    pub port: Option<u16>,
    /// As written, or else the scheme's own.
    pub effective_port: Option<u16>,
    pub path: String,
    pub query: Option<String>,
    pub fragment: Option<String>,
    /// The whole URL.
    pub href: String,
}

/// The parts of a URL.
pub struct UrlView {
    pub scheme: Seq<char>,
    pub username: Seq<char>,
    pub password: Option<Seq<char>>,
    pub host: Option<Seq<char>>,
    pub port: Option<u16>,
    pub effective_port: Option<u16>,
    pub path: Seq<char>,
    pub query: Option<Seq<char>>,
    pub fragment: Option<Seq<char>>,
    pub href: Seq<char>,
}

/// The characters of a text that may be missing.
pub open spec fn optional_text(s: Option<String>) -> Option<Seq<char>> {
    match s {
        Some(s) => Some(s@),
        None => None,
    }
}

impl View for ParsedUrl {
    type V = UrlView;

    open spec fn view(&self) -> UrlView {
        UrlView {
            scheme: self.scheme@,
            username: self.username@,
            password: optional_text(self.password),
            host: optional_text(self.host),
            port: self.port,
            effective_port: self.effective_port,
            path: self.path@,
            query: optional_text(self.query),
            fragment: optional_text(self.fragment),
            href: self.href@,
        }
    }
}

/// The names and values of a list of pairs.
pub open spec fn pair_views(pairs: Seq<(String, String)>) -> Seq<(Seq<char>, Seq<char>)> {
    pairs.map_values(|pair: (String, String)| (pair.0@, pair.1@))
}

/// The parts of the URL that a text spells, if it spells one.
pub uninterp spec fn url_parts(raw: Seq<char>) -> Option<UrlView>;

/// A hexadecimal digit, in upper case.
pub open spec fn hex_digit(n: int) -> char {
    if n < 10 {
        (('0' as u32 + n) as u32) as char
    } else {
        (('A' as u32 + n - 10) as u32) as char
    }
}

/// A byte in the encoding of forms: a letter, a digit or one of `*-._` as it is, the
/// space as `+`, and any other escaped.
pub open spec fn form_byte(byte: u8) -> Seq<char> {
    let c = byte as char;
    if is_ascii_alphanumeric(c) || c == '*' || c == '-' || c == '.' || c == '_' {
        seq![c]
    } else if c == ' ' {
        seq!['+']
    } else {
        seq!['%', hex_digit(byte as int / 16), hex_digit(byte as int % 16)]
    }
}

/// Bytes in the encoding of forms.
pub open spec fn form_bytes(bytes: Seq<u8>) -> Seq<char>
    decreases bytes.len(),
{
    if bytes.len() == 0 {
        Seq::empty()
    } else {
        form_bytes(bytes.drop_last()) + form_byte(bytes.last())
    }
}

/// Names and values in the encoding of forms.
pub open spec fn form_pairs(pairs: Seq<(Seq<char>, Seq<char>)>) -> Seq<char>
    decreases pairs.len(),
{
    if pairs.len() == 0 {
        Seq::empty()
    } else {
        let (name, value) = pairs.last();
        let pair = form_bytes(encode_utf8(name)) + seq!['='] + form_bytes(encode_utf8(value));
        if pairs.len() == 1 {
            pair
        } else {
            form_pairs(pairs.drop_last()) + seq!['&'] + pair
        }
    }
}

/// A URL without a fragment, with names and values added to its query.
pub open spec fn url_with_pairs(url: UrlView, pairs: Seq<(Seq<char>, Seq<char>)>) -> Seq<char> {
    let separator = match url.query {
        None => seq!['?'],
        Some(query) => if query.len() > 0 && pairs.len() > 0 {
            seq!['&']
        } else {
            Seq::empty()
        },
    };
    url.href + separator + form_pairs(pairs)
}

/// A URL with names and values added to its query begins with the whole of the URL.
pub proof fn lemma_pairs_extend_url(url: UrlView, pairs: Seq<(Seq<char>, Seq<char>)>)
    ensures
        url.href.is_prefix_of(url_with_pairs(url, pairs)),
{
}

/// `Url::parse` of `reqwest`'s `Url`, and its accessors: whether a text is an
/// absolute URL, and of which parts, depends on the text alone.
#[verifier::external_body]
pub(crate) fn parse_url(raw: &str) -> (r: Option<ParsedUrl>)
    ensures
        match r {
            Some(url) => url_parts(raw@) == Some(url@),
            None => url_parts(raw@) is None,
        },
{
    let url = reqwest::Url::parse(raw).ok()?;
    Some(ParsedUrl {
        scheme: url.scheme().to_owned(),
        username: url.username().to_owned(),
        password: url.password().map(str::to_owned),
        host: url.host_str().map(str::to_owned),
        port: url.port(),
        effective_port: url.port_or_known_default(),
        path: url.path().to_owned(),
        query: url.query().map(str::to_owned),
        fragment: url.fragment().map(str::to_owned),
        href: url.to_string(),
    })
}

/// `Url::parse_with_params` of `reqwest`'s `Url`: where the text is a URL, which has
/// no fragment here, the pairs are appended to its query in the encoding of forms,
/// one after the other.
#[verifier::external_body]
pub(crate) fn append_pairs(raw: &str, pairs: &Vec<(String, String)>) -> (r: Option<String>)
    requires
        url_parts(raw@) is Some,
        is_pinned(url_parts(raw@)->0),
        takes_pairs(url_parts(raw@)->0),
    ensures
        r is Some,
        r->0@ == url_with_pairs(url_parts(raw@)->0, pair_views(pairs@)),
{
    reqwest::Url::parse_with_params(raw, pairs).ok().map(|url| url.to_string())
}

/// The URL lies on the pinned origin of the service and hides nothing: it is
/// `https://aipass.one` on the port 443, without credentials and fragment.
pub open spec fn is_pinned(url: UrlView) -> bool {
    &&& url.scheme == "https"@
    &&& url.host == Some("aipass.one"@)
    &&& url.username.len() == 0
    &&& url.password is None
    &&& url.effective_port == Some(443u16)
    &&& url.fragment is None
}

/// Names and values can be added to the query of the URL: it has a query, or is
/// short enough to begin one.
pub open spec fn takes_pairs(url: UrlView) -> bool {
    url.query is Some || byte_len(url.href) <= MAX_URL_BYTES
}

/// Whether names and values can be added to the query of a URL.
pub fn has_room_for_pairs(url: &ParsedUrl) -> (r: bool)
    ensures
        r == takes_pairs(url@),
{
    url.query.is_some() || byte_length(url.href.as_str()) as u64 <= MAX_URL_BYTES
}

/// Whether a text that may be missing is the given one.
fn optional_is(text: &Option<String>, wanted: &str) -> (r: bool)
    ensures
        r == (optional_text(*text) == Some(wanted@)),
{
    match text {
        Some(text) => text_eq(text.as_str(), wanted),
        None => false,
    }
}

/// Whether a URL lies on the pinned origin.
pub fn on_pinned_origin(url: &ParsedUrl) -> (r: bool)
    ensures
        r == is_pinned(url@),
{
    text_eq(url.scheme.as_str(), "https") && optional_is(&url.host, "aipass.one")
        && url.username.as_str().is_empty() && url.password.is_none() && match url.effective_port {
        Some(port) => port == 443,
        None => false,
    } && url.fragment.is_none()
}

/// Why an endpoint is refused, if it is.
pub open spec fn endpoint_refusal(raw: Seq<char>) -> Option<Seq<char>> {
    match url_parts(raw) {
        None => Some("AI Pass OAuth metadata contains an invalid endpoint."@),
        Some(url) => if is_pinned(url) {
            None
        } else {
            Some("AI Pass OAuth metadata endpoint is outside the pinned origin."@)
        },
    }
}

/// An endpoint of the service, which must lie on the pinned origin.
pub fn pinned_endpoint(raw: &str) -> (r: Result<ParsedUrl, String>)
    ensures
        match r {
            Ok(url) => endpoint_refusal(raw@) is None && url_parts(raw@) == Some(url@),
            Err(reason) => endpoint_refusal(raw@) == Some(reason@),
        },
{
    match parse_url(raw) {
        None => Err("AI Pass OAuth metadata contains an invalid endpoint.".to_owned()),
        Some(url) => if on_pinned_origin(&url) {
            Ok(url)
        } else {
            Err("AI Pass OAuth metadata endpoint is outside the pinned origin.".to_owned())
        },
    }
}

/// An address to listen on.
#[derive(Debug, PartialEq)]
pub struct SocketAddress {
    pub octets: [u8; 4],
    pub port: u16,
}

/// Where the browser hands over the outcome of an authorisation.
#[derive(Debug, PartialEq)]
pub struct CallbackConfig {
    /// The redirect URI as the service knows it.
    pub redirect_uri: String,
    /// Where to listen.
    pub address: SocketAddress,
    /// The path to serve.
    pub path: String,
}

impl Clone for CallbackConfig {
    fn clone(&self) -> (r: Self)
        ensures
            r == *self,
    {
        CallbackConfig {
            redirect_uri: self.redirect_uri.clone(),
            address: SocketAddress { octets: self.address.octets, port: self.address.port },
            path: self.path.clone(),
        }
    }
}

/// What a callback is.
pub struct CallbackView {
    pub redirect_uri: Seq<char>,
    pub octets: Seq<u8>,
    pub port: u16,
    pub path: Seq<char>,
}

impl View for CallbackConfig {
    type V = CallbackView;

    open spec fn view(&self) -> CallbackView {
        CallbackView {
            redirect_uri: self.redirect_uri@,
            octets: self.address.octets@,
            port: self.address.port,
            path: self.path@,
        }
    }
}

/// The URL is plain HTTP to `127.0.0.1` on a port of its own, with a path that
/// says something and has no escapes, and nothing else.
pub open spec fn is_loopback_callback(url: UrlView) -> bool {
    &&& url.scheme == "http"@
    &&& url.host == Some("127.0.0.1"@)
    &&& url.username.len() == 0
    &&& url.password is None
    &&& url.query is None
    &&& url.fragment is None
    &&& url.port is Some
    &&& url.port != Some(0u16)
    &&& url.path.len() > 0
    &&& url.path != "/"@
    &&& !url.path.contains('%')
}

/// The callback at a URL of the required form.
pub open spec fn callback_at(url: UrlView) -> CallbackView {
    CallbackView {
        redirect_uri: url.href,
        octets: seq![127u8, 0u8, 0u8, 1u8],
        port: url.port->0,
        path: url.path,
    }
}

/// The callback that a text configures, or why it is refused.
pub open spec fn configured_callback(raw: Seq<char>) -> Result<CallbackView, Seq<char>> {
    match url_parts(raw) {
        None => Err("AI Pass callback configuration is invalid."@),
        Some(url) => if is_loopback_callback(url) {
            Ok(callback_at(url))
        } else {
            Err("AI Pass callback must be an explicit 127.0.0.1 loopback HTTP URL."@)
        },
    }
}

/// The callback at a URL, which must be of the loopback form.
pub fn callback_from_url(url: ParsedUrl) -> (r: Result<CallbackConfig, String>)
    ensures
        match r {
            Ok(callback) => is_loopback_callback(url@) && callback@ == callback_at(url@),
            Err(reason) => !is_loopback_callback(url@) && reason@
                == "AI Pass callback must be an explicit 127.0.0.1 loopback HTTP URL."@,
        },
{
    if text_eq(url.scheme.as_str(), "http") && optional_is(&url.host, "127.0.0.1")
        && url.username.as_str().is_empty() && url.password.is_none() && url.query.is_none()
        && url.fragment.is_none() && !url.path.as_str().is_empty() && !text_eq(
        url.path.as_str(),
        "/",
    ) && !has_char(url.path.as_str(), '%') {
        if let Some(port) = url.port {
            if port != 0 {
                let callback = CallbackConfig {
                    redirect_uri: url.href,
                    address: SocketAddress { octets: [127u8, 0u8, 0u8, 1u8], port },
                    path: url.path,
                };
                assert(callback.address.octets@ =~= seq![127u8, 0u8, 0u8, 1u8]);
                return Ok(callback);
            }
        }
    }
    Err("AI Pass callback must be an explicit 127.0.0.1 loopback HTTP URL.".to_owned())
}

/// The callback that a text configures.
pub fn parse_callback(raw: &str) -> (r: Result<CallbackConfig, String>)
    ensures
        match r {
            Ok(callback) => configured_callback(raw@) == Ok::<CallbackView, Seq<char>>(callback@),
            Err(reason) => configured_callback(raw@) == Err::<CallbackView, Seq<char>>(reason@),
        },
{
    match parse_url(raw) {
        None => Err("AI Pass callback configuration is invalid.".to_owned()),
        Some(url) => callback_from_url(url),
    }
}

/// The text is a whole URL on the pinned origin.
pub open spec fn is_pinned_url(href: Seq<char>) -> bool {
    exists|raw: Seq<char>|
        (#[trigger] url_parts(raw)) matches Some(url) && is_pinned(url) && url.href == href
}

/// The text begins with a whole URL on the pinned origin, to which a query may be added.
pub open spec fn extends_pinned_url(href: Seq<char>) -> bool {
    exists|origin: Seq<char>| #[trigger] is_pinned_url(origin) && origin.is_prefix_of(href)
}

/// A query can be added to every URL that has one, and to every other of at most
/// 4294967295 bytes.
pub proof fn law_urls_take_queries(url: UrlView)
    ensures
        takes_pairs(url) <==> url.query is Some || encode_utf8(url.href).len() <= 4294967295,
{
}

/// What a callback and a list of pairs say is all that they hold.
pub proof fn law_callbacks_and_pairs_show_every_field(
    callback: CallbackConfig,
    pairs: Seq<(String, String)>,
    text: String,
)
    ensures
        callback@.redirect_uri == callback.redirect_uri@,
        callback@.octets == callback.address.octets@,
        callback@.port == callback.address.port,
        callback@.path == callback.path@,
        pair_views(pairs).len() == pairs.len(),
        forall|i: int|
            0 <= i < pairs.len() ==> #[trigger] pair_views(pairs)[i] == (
                pairs[i].0@,
                pairs[i].1@,
            ),
        optional_text(Some(text)) == Some(text@),
        optional_text(None) is None,
{
}

} // verus!
