//! Chat requests: what may be sent, and what the webview gets back.

use vstd::prelude::*;
use vstd::string::StringExecFns;
use vstd::utf8::encode_scalar;
use vstd::utf8::encode_utf8;

use crate::crypto::base64_standard;
use crate::crypto::encode_base64_standard;
use crate::endpoint::optional_text;
use crate::json::json_bytes;
use crate::json::json_document;
use crate::json::lemma_array_len;
use crate::json::parse_json;
use crate::json::write_json;
use crate::json::Json;
use crate::json::JsonView;
use crate::models::discovered_models;
use crate::models::law_model_ids_are_valid;
use crate::models::ModelView;
use crate::registry::RequestRegistry;
use crate::reply::is_success;
use crate::reply::is_success_status;
use crate::stream::EventView;
use crate::stream::NativeStreamEvent;
use crate::text::byte_len;
use crate::text::byte_length;
use crate::text::char_is_ascii_alphanumeric;
use crate::text::chars_of;
use crate::text::decimal;
use crate::text::decimal_text;
use crate::text::fits;
use crate::text::has_control;
use crate::text::is_ascii_alphanumeric;
use crate::text::is_control;
use crate::text::law_trimming_cuts_white_space_alone;
use crate::text::text_has_control;

verus! {

broadcast use lemma_array_len;

/// Where the service answers chat requests.
pub const CHAT_URL: &'static str = "https://aipass.one/oauth2/v1/chat/completions";

/// The longest chat request, in bytes.
pub const MAX_REQUEST_BYTES: usize = 2 * 1024 * 1024;

/// How long a chat request may take, in seconds.
pub const CHAT_TIMEOUT_SECONDS: u64 = 300;

/// What the webview learns of a chat response before its bytes.
#[derive(Debug, PartialEq)]
pub struct NativeResponseMeta {
    pub status: u16,
    pub content_type: String,
}

/// Why a document is no chat request, if it is none.
pub open spec fn chat_refusal(document: JsonView) -> Option<Seq<char>> {
    let model = document.text_at("model"@);
    let messages = document.array_at("messages"@);
    let stream = document.get("stream"@);
    if !(document is Object) {
        Some("AI Pass chat request must be a JSON object."@)
    } else if model is None || model->0.len() == 0 || byte_len(model->0) > 256 {
        Some("AI Pass chat request is missing a valid model."@)
    } else if has_control(model->0) {
        Some("AI Pass chat request model is invalid."@)
    } else if messages is None {
        Some("AI Pass chat request is missing messages."@)
    } else if messages->0.len() > 256 {
        Some("AI Pass chat request has too many messages."@)
    } else if stream is Some && !(stream->0 is Bool) {
        Some("AI Pass chat stream flag is invalid."@)
    } else {
        None
    }
}

/// Why bytes are no chat request, if they are none.
pub open spec fn chat_body_refusal(body: Seq<u8>) -> Option<Seq<char>> {
    if body.len() == 0 || body.len() > MAX_REQUEST_BYTES {
        Some("AI Pass request exceeded the size limit."@)
    } else {
        match json_document(body) {
            None => Some("AI Pass request body is invalid JSON."@),
            Some(document) => chat_refusal(document),
        }
    }
}

/// Refuses a document that is no chat request.
pub fn validate_chat_document(document: &Json) -> (r: Result<(), String>)
    ensures
        match r {
            Ok(_) => chat_refusal(document@) is None,
            Err(reason) => chat_refusal(document@) == Some(reason@),
        },
{
    match document {
        Json::Object(_) => {},
        _ => {
            return Err("AI Pass chat request must be a JSON object.".to_owned());
        },
    }
    match document.text_at("model") {
        None => {
            return Err("AI Pass chat request is missing a valid model.".to_owned());
        },
        Some(model) => {
            if model.as_str().is_empty() || byte_length(model.as_str()) > 256 {
                return Err("AI Pass chat request is missing a valid model.".to_owned());
            }
            if text_has_control(model.as_str()) {
                return Err("AI Pass chat request model is invalid.".to_owned());
            }
        },
    }
    match document.array_at("messages") {
        None => {
            return Err("AI Pass chat request is missing messages.".to_owned());
        },
        Some(messages) => {
            if messages.len() > 256 {
                return Err("AI Pass chat request has too many messages.".to_owned());
            }
        },
    }
    if let Some(stream) = document.get("stream") {
        if stream.as_bool().is_none() {
            return Err("AI Pass chat stream flag is invalid.".to_owned());
        }
    }
    Ok(())
}

/// The chat request that bytes spell.
pub fn validate_chat_body(body: &[u8]) -> (r: Result<Json, String>)
    ensures
        match r {
            Ok(document) => chat_body_refusal(body@) is None && json_document(body@) == Some(
                document@,
            ),
            Err(reason) => chat_body_refusal(body@) == Some(reason@),
        },
{
    if body.len() == 0 || body.len() > MAX_REQUEST_BYTES {
        return Err("AI Pass request exceeded the size limit.".to_owned());
    }
    match parse_json(body) {
        None => Err("AI Pass request body is invalid JSON.".to_owned()),
        Some(document) => match validate_chat_document(&document) {
            Err(reason) => Err(reason),
            Ok(_) => Ok(document),
        },
    }
}

/// A request identifier has up to 64 characters: letters, digits and hyphens.
pub open spec fn is_request_id(id: Seq<char>) -> bool {
    &&& 0 < id.len()
    &&& byte_len(id) <= 64
    &&& forall|i: int|
        0 <= i < id.len() ==> is_ascii_alphanumeric(#[trigger] id[i]) || id[i] == '-'
}

/// Refuses a text that is no request identifier.
pub fn validate_request_id(request_id: &str) -> (r: Result<(), String>)
    ensures
        match r {
            Ok(_) => is_request_id(request_id@),
            Err(reason) => !is_request_id(request_id@) && reason@
                == "AI Pass request identifier is invalid."@,
        },
{
    if request_id.is_empty() || byte_length(request_id) > 64 {
        return Err("AI Pass request identifier is invalid.".to_owned());
    }
    let chars: Vec<char> = chars_of(request_id);
    let mut i: usize = 0;
    while i < chars.len()
        invariant
            i <= chars.len(),
            chars@ == request_id@,
            forall|k: int|
                0 <= k < i ==> is_ascii_alphanumeric(#[trigger] request_id@[k]) || request_id@[k]
                    == '-',
        decreases chars.len() - i,
    {
        if !char_is_ascii_alphanumeric(chars[i]) && chars[i] != '-' {
            assert(!is_ascii_alphanumeric(request_id@[i as int]));
            return Err("AI Pass request identifier is invalid.".to_owned());
        }
        i += 1;
    }
    Ok(())
}

/// Why a request is not sent, if it is not.
pub open spec fn request_refusal(request_id: Seq<char>, body: Seq<u8>) -> Option<Seq<char>> {
    if !is_request_id(request_id) {
        Some("AI Pass request identifier is invalid."@)
    } else {
        chat_body_refusal(body)
    }
}

/// The bytes to send for a request: its document, written anew.
pub fn prepare_request(request_id: &str, body: &str) -> (r: Result<Vec<u8>, String>)
    ensures
        match r {
            Ok(payload) => request_refusal(request_id@, encode_utf8(body@)) is None && payload@
                == json_bytes(json_document(encode_utf8(body@))->0),
            Err(reason) => request_refusal(request_id@, encode_utf8(body@)) == Some(reason@),
        },
{
    if let Err(reason) = validate_request_id(request_id) {
        return Err(reason);
    }
    match validate_chat_body(body.as_bytes()) {
        Err(reason) => Err(reason),
        Ok(document) => Ok(write_json(document)),
    }
}

/// Begins a request: the bytes to send for it, once it is registered with what
/// cancels it. Nothing is registered for a request that is not sent.
pub fn begin_request<S>(
    requests: &mut RequestRegistry<S>,
    request_id: String,
    body: &str,
    cancel: S,
) -> (r: Result<Vec<u8>, String>)
    requires
        old(requests).wf(),
    ensures
        final(requests).wf(),
        match r {
            Ok(payload) => {
                &&& request_refusal(request_id@, encode_utf8(body@)) is None
                &&& payload@ == json_bytes(json_document(encode_utf8(body@))->0)
                &&& !old(requests)@.contains_key(request_id@)
                &&& final(requests)@ == old(requests)@.insert(request_id@, cancel)
            },
            Err(reason) => *final(requests) == *old(requests) && match request_refusal(
                request_id@,
                encode_utf8(body@),
            ) {
                Some(refusal) => reason@ == refusal,
                None => old(requests)@.contains_key(request_id@) && reason@
                    == "AI Pass request identifier is already active."@,
            },
        },
{
    match prepare_request(request_id.as_str(), body) {
        Err(reason) => Err(reason),
        Ok(payload) => match requests.register(request_id, cancel) {
            Err(reason) => Err(reason),
            Ok(_) => Ok(payload),
        },
    }
}

/// Takes a request out of the registry, in order to cancel it.
pub fn cancel_request<S>(requests: &mut RequestRegistry<S>, request_id: &str) -> (r: Result<
    Option<S>,
    String,
>)
    requires
        old(requests).wf(),
    ensures
        final(requests).wf(),
        match r {
            Ok(cancel) => {
                &&& is_request_id(request_id@)
                &&& final(requests)@ == old(requests)@.remove(request_id@)
                &&& cancel is Some == old(requests)@.contains_key(request_id@)
                &&& cancel is Some ==> cancel->0 == old(requests)@[request_id@]
            },
            Err(reason) => !is_request_id(request_id@) && *final(requests) == *old(requests)
                && reason@ == "AI Pass request identifier is invalid."@,
        },
{
    match validate_request_id(request_id) {
        Err(reason) => Err(reason),
        Ok(_) => Ok(requests.remove(request_id)),
    }
}

/// The body that the webview gets for an unsuccessful status, in the form of
/// OpenAI's errors. It says nothing but the status.
pub open spec fn error_body(status: u16) -> Seq<char> {
    "{\"error\":{\"message\":\"AI Pass request failed (HTTP "@ + decimal_text(status as nat)
        + ").\",\"type\":\"aipass_http_error\"}}"@
}

proof fn lemma_byte_len_bound(s: Seq<char>)
    ensures
        byte_len(s) <= 4 * s.len(),
    decreases s.len(),
{
    if s.len() > 0 {
        lemma_byte_len_bound(s.drop_first());
        assert(encode_scalar(s[0] as u32).len() <= 4);
    }
}

proof fn lemma_decimal_len(n: nat)
    ensures
        decimal_text(n).len() <= n + 1,
    decreases n,
{
    if n >= 10 {
        lemma_decimal_len(n / 10);
    }
}

/// What the webview hears in place of an unsuccessful response.
pub open spec fn error_events(status: u16) -> Seq<EventView> {
    seq![EventView::Chunk(base64_standard(encode_utf8(error_body(status)))), EventView::End]
}

/// What a list of events says.
pub open spec fn event_views(events: Seq<NativeStreamEvent>) -> Seq<EventView> {
    events.map_values(|event: NativeStreamEvent| event@)
}

/// What the webview hears in place of an unsuccessful response.
pub fn http_error_events(status: u16) -> (r: Vec<NativeStreamEvent>)
    ensures
        event_views(r@) == error_events(status),
{
    let mut body: String = "{\"error\":{\"message\":\"AI Pass request failed (HTTP ".to_owned();
    body.append(decimal(status as u64).as_str());
    body.append(").\",\"type\":\"aipass_http_error\"}}");
    proof {
        reveal_strlit("{\"error\":{\"message\":\"AI Pass request failed (HTTP ");
        reveal_strlit(").\",\"type\":\"aipass_http_error\"}}");
        lemma_decimal_len(status as nat);
        lemma_byte_len_bound(body@);
    }
    let mut r: Vec<NativeStreamEvent> = Vec::new();
    r.push(NativeStreamEvent::Chunk { data: encode_base64_standard(body.as_str().as_bytes()) });
    r.push(NativeStreamEvent::End);
    assert(event_views(r@) =~= error_events(status));
    r
}

/// The content type of a response: what it says, unless that has more than 128
/// bytes or is missing.
pub open spec fn content_type_of(header: Option<Seq<char>>) -> Seq<char> {
    match header {
        Some(value) => if byte_len(value) <= 128 {
            value
        } else {
            "application/octet-stream"@
        },
        None => "application/octet-stream"@,
    }
}

/// The content type of a response.
pub fn response_content_type(header: Option<String>) -> (r: String)
    ensures
        r@ == content_type_of(optional_text(header)),
{
    match header {
        Some(value) => if byte_length(value.as_str()) <= 128 {
            value
        } else {
            "application/octet-stream".to_owned()
        },
        None => "application/octet-stream".to_owned(),
    }
}

/// What becomes of a chat response.
pub struct ChatReply {
    /// What the webview learns first.
    pub meta: NativeResponseMeta,
    /// What it hears at once.
    pub events: Vec<NativeStreamEvent>,
    /// Whether the bytes of the response follow.
    pub forward: bool,
}

/// What becomes of a chat response.
pub struct ChatReplyView {
    pub status: u16,
    pub content_type: Seq<char>,
    pub events: Seq<EventView>,
    pub forward: bool,
}

impl View for ChatReply {
    type V = ChatReplyView;

    open spec fn view(&self) -> ChatReplyView {
        ChatReplyView {
            status: self.meta.status,
            content_type: self.meta.content_type@,
            events: event_views(self.events@),
            forward: self.forward,
        }
    }
}

/// What becomes of a chat response: a successful one is forwarded; of any other
/// the webview hears the status and no more.
pub open spec fn chat_reply_for(status: u16, content_type: Option<Seq<char>>) -> ChatReplyView {
    if is_success_status(status) {
        ChatReplyView {
            status,
            content_type: content_type_of(content_type),
            events: Seq::empty(),
            forward: true,
        }
    } else {
        ChatReplyView {
            status,
            content_type: "application/json"@,
            events: error_events(status),
            forward: false,
        }
    }
}

/// What becomes of a chat response.
pub fn chat_reply(status: u16, content_type: Option<String>) -> (r: ChatReply)
    ensures
        r@ == chat_reply_for(status, optional_text(content_type)),
{
    if is_success(status) {
        let r: ChatReply = ChatReply {
            meta: NativeResponseMeta { status, content_type: response_content_type(content_type) },
            events: Vec::new(),
            forward: true,
        };
        assert(r@.events =~= Seq::empty());
        r
    } else {
        ChatReply {
            meta: NativeResponseMeta { status, content_type: "application/json".to_owned() },
            events: http_error_events(status),
            forward: false,
        }
    }
}

/// Nothing of an unsuccessful response but its status reaches the webview.
pub proof fn law_errors_show_the_status_alone(
    status: u16,
    one: Option<Seq<char>>,
    other: Option<Seq<char>>,
)
    requires
        !is_success_status(status),
    ensures
        chat_reply_for(status, one) == chat_reply_for(status, other),
        !chat_reply_for(status, one).forward,
        chat_reply_for(status, one).events == error_events(status),
{
}

/// The document is a chat request: an object whose model is a text, not empty, of at
/// most 256 bytes and without control characters, whose messages are an array of at
/// most 256 items, and whose stream flag, if there is one, is a boolean.
pub open spec fn is_chat_request(document: JsonView) -> bool {
    document matches JsonView::Object(members) && {
        &&& members.contains_key("model"@)
        &&& members["model"@] matches JsonView::Text(model) && fits(model, 256) && forall|i: int|
            0 <= i < model.len() ==> is_printable(#[trigger] model[i])
        &&& members.contains_key("messages"@)
        &&& members["messages"@] matches JsonView::Array(messages) && messages.len() <= 256
        &&& members.contains_key("stream"@) ==> members["stream"@] is Bool
    }
}

/// The character is no control character.
pub open spec fn is_printable(c: char) -> bool {
    ('\u{20}' <= c && c <= '\u{7e}') || '\u{a0}' <= c
}

proof fn lemma_printable(c: char)
    ensures
        is_printable(c) == !is_control(c),
{
}

/// Every chat request is accepted, and nothing else is.
pub proof fn law_chat_requests_are_accepted(document: JsonView)
    ensures
        chat_refusal(document) is None <==> is_chat_request(document),
{
    if let JsonView::Object(members) = document {
        if members.contains_key("model"@) {
            if let JsonView::Text(model) = members["model"@] {
                assert forall|i: int| 0 <= i < model.len() implies is_printable(#[trigger] model[i])
                    == !is_control(model[i]) by {
                    lemma_printable(model[i]);
                }
                if !has_control(model) {
                    assert forall|i: int| 0 <= i < model.len() implies is_printable(
                        #[trigger] model[i],
                    ) by {}
                } else {
                    let i = choose|i: int| 0 <= i < model.len() && is_control(#[trigger] model[i]);
                    assert(!is_printable(model[i]));
                }
            }
        }
    }
}

/// Every discovered model can be named in a chat request, with whatever messages and
/// stream flag.
pub proof fn law_discovered_models_can_be_asked(
    answer: JsonView,
    models: Seq<ModelView>,
    k: int,
    members: Map<Seq<char>, JsonView>,
)
    requires
        discovered_models(answer) == Ok::<Seq<ModelView>, Seq<char>>(models),
        0 <= k < models.len(),
        members.contains_key("model"@),
        members["model"@] == JsonView::Text(models[k].id),
        members.contains_key("messages"@),
        members["messages"@] matches JsonView::Array(messages) && messages.len() <= 256,
        members.contains_key("stream"@) ==> members["stream"@] is Bool,
    ensures
        chat_refusal(JsonView::Object(members)) is None,
{
    law_model_ids_are_valid(answer, models, k);
    let id = models[k].id;
    if id.len() == 0 {
        law_trimming_cuts_white_space_alone(id);
    }
}

/// The first thing that is wrong with a chat request is the reason why it is refused.
pub proof fn law_refused_chat_requests_say_what_is_wrong(
    document: JsonView,
    members: Map<Seq<char>, JsonView>,
    model: Seq<char>,
    messages: Seq<JsonView>,
)
    ensures
        !(document is Object) ==> chat_refusal(document) == Some(
            "AI Pass chat request must be a JSON object."@,
        ),
        document == JsonView::Object(members) && !(members.contains_key("model"@)
            && members["model"@] is Text) ==> chat_refusal(document) == Some(
            "AI Pass chat request is missing a valid model."@,
        ),
        document == JsonView::Object(members) && members.contains_key("model"@) && members["model"@]
            == JsonView::Text(model) ==> {
            let with_messages = members.contains_key("messages"@) && members["messages"@]
                == JsonView::Array(messages);
            &&& !fits(model, 256) ==> chat_refusal(document) == Some(
                "AI Pass chat request is missing a valid model."@,
            )
            &&& fits(model, 256) && has_control(model) ==> chat_refusal(document) == Some(
                "AI Pass chat request model is invalid."@,
            )
            &&& fits(model, 256) && !has_control(model) && !(members.contains_key("messages"@)
                && members["messages"@] is Array) ==> chat_refusal(document) == Some(
                "AI Pass chat request is missing messages."@,
            )
            &&& fits(model, 256) && !has_control(model) && with_messages && messages.len() > 256
                ==> chat_refusal(document) == Some("AI Pass chat request has too many messages."@)
            &&& fits(model, 256) && !has_control(model) && with_messages && messages.len() <= 256
                && members.contains_key("stream"@) && !(members["stream"@] is Bool)
                ==> chat_refusal(document) == Some("AI Pass chat stream flag is invalid."@)
        },
{
}

/// A request is sent exactly where its identifier is one, its body has between one
/// byte and 2 MiB, and the body spells a chat request.
pub proof fn law_requests_are_sent_when_all_is_well(request_id: Seq<char>, body: Seq<u8>)
    ensures
        request_refusal(request_id, body) is None <==> {
            &&& is_request_id(request_id)
            &&& 0 < body.len() <= 2097152
            &&& json_document(body) matches Some(document) && is_chat_request(document)
        },
        !is_request_id(request_id) ==> request_refusal(request_id, body) == Some(
            "AI Pass request identifier is invalid."@,
        ),
        is_request_id(request_id) && !(0 < body.len() <= 2097152) ==> request_refusal(
            request_id,
            body,
        ) == Some("AI Pass request exceeded the size limit."@),
        is_request_id(request_id) && 0 < body.len() <= 2097152 && json_document(body) is None
            ==> request_refusal(request_id, body) == Some("AI Pass request body is invalid JSON."@),
        is_request_id(request_id) && 0 < body.len() <= 2097152 && json_document(body) is Some
            ==> request_refusal(request_id, body) == chat_refusal(json_document(body)->0),
{
    if let Some(document) = json_document(body) {
        law_chat_requests_are_accepted(document);
    }
}

/// A request identifier is a text of one to 64 letters, digits and hyphens of ASCII.
pub proof fn law_request_identifiers_are_plain(id: Seq<char>)
    ensures
        is_request_id(id) <==> fits(id, 64) && forall|i: int|
            0 <= i < id.len() ==> {
                ||| '\u{30}' <= (#[trigger] id[i]) && id[i] <= '\u{39}'
                ||| '\u{41}' <= id[i] && id[i] <= '\u{5a}'
                ||| '\u{61}' <= id[i] && id[i] <= '\u{7a}'
                ||| id[i] == '\u{2d}'
            },
{
    if is_request_id(id) {
        assert forall|i: int| 0 <= i < id.len() implies {
            ||| '\u{30}' <= (#[trigger] id[i]) && id[i] <= '\u{39}'
            ||| '\u{41}' <= id[i] && id[i] <= '\u{5a}'
            ||| '\u{61}' <= id[i] && id[i] <= '\u{7a}'
            ||| id[i] == '\u{2d}'
        } by {
            assert(is_ascii_alphanumeric(id[i]) || id[i] == '-');
        }
    }
}

/// A chat response is forwarded exactly where its status is between 200 and 299, with
/// its own content type of at most 128 bytes or else the one for unknown bytes; and
/// of any other the webview hears one chunk and the end.
pub proof fn law_chat_replies_follow_the_status(status: u16, content_type: Option<Seq<char>>)
    ensures
        ({
            let reply = chat_reply_for(status, content_type);
            let success = status / 100 == 2;
            &&& reply.status == status
            &&& reply.forward == success
            &&& success ==> reply.events.len() == 0
            &&& success && (content_type matches Some(given) && encode_utf8(given).len() <= 128)
                ==> Some(reply.content_type) == content_type
            &&& success && !(content_type matches Some(given) && encode_utf8(given).len() <= 128)
                ==> reply.content_type == "application/octet-stream"@
            &&& !success ==> reply.content_type == "application/json"@ && reply.events.len() == 2
                && reply.events[0] == EventView::Chunk(
                base64_standard(
                    encode_utf8(
                        "{\"error\":{\"message\":\"AI Pass request failed (HTTP "@ + decimal_text(
                            status as nat,
                        ) + ").\",\"type\":\"aipass_http_error\"}}"@,
                    ),
                ),
            ) && reply.events[1] == EventView::End
        }),
{
}

/// What a chat reply says is all that it holds.
pub proof fn law_chat_replies_show_every_field(reply: ChatReply)
    ensures
        reply@.status == reply.meta.status,
        reply@.content_type == reply.meta.content_type@,
        reply@.forward == reply.forward,
        reply@.events.len() == reply.events@.len(),
        forall|i: int|
            0 <= i < reply.events@.len() ==> #[trigger] reply@.events[i] == reply.events@[i]@,
        CHAT_URL@ == "https://aipass.one/oauth2/v1/chat/completions"@,
        CHAT_TIMEOUT_SECONDS == 300,
{
}

} // verus!
