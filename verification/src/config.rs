//! The configuration of the OAuth client.

use vstd::prelude::*;

use crate::endpoint::configured_callback;
use crate::endpoint::optional_text;
use crate::endpoint::parse_callback;
use crate::endpoint::url_parts;
use crate::endpoint::CallbackConfig;
use crate::endpoint::CallbackView;
use crate::text::byte_len;
use crate::text::byte_length;
use crate::text::fits;
use crate::text::trim;
use crate::text::trimmed;

verus! {

/// A value that the process may be given when it starts, or else was given when it was built.
pub struct Setting {
    pub runtime: Option<String>,
    pub build: Option<String>,
}

/// The settings of the OAuth client.
pub struct Settings {
    pub client_id: Setting,
    pub redirect_uri: Setting,
}

/// The identity of the OAuth client and where it is called back.
#[derive(Debug, PartialEq)]
pub struct ClientConfig {
    pub client_id: String,
    pub callback: CallbackConfig,
}

/// What identifies a client.
pub struct ClientView {
    pub client_id: Seq<char>,
    pub callback: CallbackView,
}

impl View for ClientConfig {
    type V = ClientView;

    open spec fn view(&self) -> ClientView {
        ClientView { client_id: self.client_id@, callback: self.callback@ }
    }
}

/// The value of a setting, without the white space around it, unless nothing or
/// more than `max_bytes` bytes are left. What the process is given when it starts
/// hides what it was built with.
pub open spec fn setting_value(setting: Setting, max_bytes: nat) -> Option<Seq<char>> {
    let given = match setting.runtime {
        Some(value) => Some(value@),
        None => optional_text(setting.build),
    };
    match given {
        Some(value) => if trimmed(value).len() > 0 && byte_len(trimmed(value)) <= max_bytes {
            Some(trimmed(value))
        } else {
            None
        },
        None => None,
    }
}

fn read_setting(setting: &Setting, max_bytes: usize) -> (r: Option<String>)
    ensures
        optional_text(r) == setting_value(*setting, max_bytes as nat),
{
    let given: Option<&String> = match &setting.runtime {
        Some(value) => Some(value),
        None => setting.build.as_ref(),
    };
    match given {
        Some(value) => {
            let value: String = trim(value.as_str());
            if !value.as_str().is_empty() && byte_length(value.as_str()) <= max_bytes {
                Some(value)
            } else {
                None
            }
        },
        None => None,
    }
}

/// The configured client identifier.
pub fn protected_client_id(settings: &Settings) -> (r: Option<String>)
    ensures
        optional_text(r) == setting_value(settings.client_id, 512),
{
    read_setting(&settings.client_id, 512)
}

/// The configured redirect URI. It is the one that the service has on record for the client.
pub fn protected_callback_uri(settings: &Settings) -> (r: Option<String>)
    ensures
        optional_text(r) == setting_value(settings.redirect_uri, 1024),
{
    read_setting(&settings.redirect_uri, 1024)
}

/// The client that the settings configure, or why they configure none.
pub open spec fn configured_client(settings: Settings) -> Result<ClientView, Seq<char>> {
    match setting_value(settings.client_id, 512) {
        None => Err("AI Pass is not configured in this build."@),
        Some(client_id) => match setting_value(settings.redirect_uri, 1024) {
            None => Err("AI Pass callback is not configured in this build."@),
            Some(redirect_uri) => match configured_callback(redirect_uri) {
                Err(reason) => Err(reason),
                Ok(callback) => Ok(ClientView { client_id, callback }),
            },
        },
    }
}

/// The client that the settings configure.
pub fn client_config(settings: &Settings) -> (r: Result<ClientConfig, String>)
    ensures
        match r {
            Ok(client) => configured_client(*settings) == Ok::<ClientView, Seq<char>>(client@),
            Err(reason) => configured_client(*settings) == Err::<ClientView, Seq<char>>(reason@),
        },
{
    match protected_client_id(settings) {
        None => Err("AI Pass is not configured in this build.".to_owned()),
        Some(client_id) => match protected_callback_uri(settings) {
            None => Err("AI Pass callback is not configured in this build.".to_owned()),
            Some(redirect_uri) => match parse_callback(redirect_uri.as_str()) {
                Err(reason) => Err(reason),
                Ok(callback) => Ok(ClientConfig { client_id, callback }),
            },
        },
    }
}

/// Whether the settings configure a client.
pub fn configuration_available(settings: &Settings) -> (r: bool)
    ensures
        r == (configured_client(*settings) is Ok),
{
    client_config(settings).is_ok()
}

/// A client that is configured is called back over the loopback interface, on a
/// port of its own.
pub proof fn law_callbacks_stay_on_the_loopback(settings: Settings, client: ClientView)
    requires
        configured_client(settings) == Ok::<ClientView, Seq<char>>(client),
    ensures
        client.client_id.len() > 0,
        client.callback.octets == seq![127u8, 0u8, 0u8, 1u8],
        client.callback.port != 0,
        client.callback.path.len() > 0,
        client.callback.path != "/"@,
{
}

/// A setting is worth what it was given at the start of the process or else when it
/// was built, without the white space around it, where that leaves between one and so
/// many bytes; and nothing otherwise. What came at the start counts even where it is
/// unusable.
pub proof fn law_settings_are_worth_what_they_say(setting: Setting, max_bytes: nat)
    ensures
        setting.runtime matches Some(value) ==> setting_value(setting, max_bytes) == (if fits(
            trimmed(value@),
            max_bytes,
        ) {
            Some(trimmed(value@))
        } else {
            None
        }),
        setting.runtime is None && setting.build is None ==> setting_value(setting, max_bytes)
            is None,
        setting.runtime is None ==> (setting.build matches Some(value) ==> setting_value(
            setting,
            max_bytes,
        ) == (if fits(trimmed(value@), max_bytes) {
            Some(trimmed(value@))
        } else {
            None
        })),
{
}

/// The settings configure a client exactly where the identifier has at most 512 bytes,
/// the redirect URI at most 1024, and the URI is plain HTTP to 127.0.0.1, with a port
/// other than 0 and a path, and without credentials, query, fragment and escapes. The
/// client is then called back there.
pub proof fn law_clients_are_configured_by_two_settings(
    settings: Settings,
    id: Seq<char>,
    uri: Seq<char>,
)
    ensures
        setting_value(settings.client_id, 512) is None ==> configured_client(settings) == Err::<
            ClientView,
            Seq<char>,
        >("AI Pass is not configured in this build."@),
        setting_value(settings.client_id, 512) is Some && setting_value(settings.redirect_uri, 1024)
            is None ==> configured_client(settings) == Err::<ClientView, Seq<char>>(
            "AI Pass callback is not configured in this build."@,
        ),
        setting_value(settings.client_id, 512) == Some(id) && setting_value(
            settings.redirect_uri,
            1024,
        ) == Some(uri) ==> match url_parts(uri) {
            None => configured_client(settings) == Err::<ClientView, Seq<char>>(
                "AI Pass callback configuration is invalid."@,
            ),
            Some(url) => {
                let well_formed = {
                    &&& url.scheme == "http"@
                    &&& url.host == Some("127.0.0.1"@)
                    &&& url.username.len() == 0
                    &&& url.password == None::<Seq<char>>
                    &&& url.query == None::<Seq<char>>
                    &&& url.fragment == None::<Seq<char>>
                    &&& url.port matches Some(port) && port > 0
                    &&& url.path.len() > 0
                    &&& url.path != "/"@
                    &&& forall|i: int| 0 <= i < url.path.len() ==> url.path[i] != '%'
                };
                &&& well_formed ==> (configured_client(settings) matches Ok(client)
                    && client.client_id == id && client.callback.redirect_uri == url.href
                    && client.callback.octets == seq![127u8, 0u8, 0u8, 1u8] && Some(
                    client.callback.port,
                ) == url.port && client.callback.path == url.path)
                &&& !well_formed ==> configured_client(settings) == Err::<ClientView, Seq<char>>(
                    "AI Pass callback must be an explicit 127.0.0.1 loopback HTTP URL."@,
                )
            },
        },
{
    if let Some(url) = url_parts(uri) {
        if url.path.contains('%') {
            let i = choose|i: int| 0 <= i < url.path.len() && url.path[i] == '%';
            assert(url.path[i] == '%');
        }
    }
}

/// What a client says is all that it holds.
pub proof fn law_clients_show_every_field(client: ClientConfig)
    ensures
        client@.client_id == client.client_id@,
        client@.callback == client.callback@,
{
}

} // verus!
