//! Replies of the service: their status, their bounded body and the JSON in it.

use vstd::prelude::*;
use vstd::string::StringExecFns;

use crate::json::json_document;
use crate::json::parse_json;
use crate::json::Json;
use crate::text::decimal;
use crate::text::decimal_text;
use crate::text::decimal_value;
use crate::text::law_decimals_spell_their_number;

verus! {

/// The most bytes of a reply other than a chat response.
pub const MAX_CONTROL_BYTES: usize = 256 * 1024;

/// How long a request other than a chat request may take, in seconds.
pub const CONTROL_TIMEOUT_SECONDS: u64 = 30;

/// How long a reply may pause, in seconds.
pub const STREAM_IDLE_TIMEOUT_SECONDS: u64 = 60;

/// A status of the class "successful".
pub open spec fn is_success_status(status: u16) -> bool {
    200 <= status <= 299
}

/// Whether a status is of the class "successful".
pub fn is_success(status: u16) -> (r: bool)
    ensures
        r == is_success_status(status),
{
    200 <= status && status <= 299
}

/// How a reply with an unsuccessful status is reported.
pub open spec fn status_failure(operation: Seq<char>, status: u16) -> Seq<char> {
    operation + " failed (HTTP "@ + decimal_text(status as nat) + ")."@
}

/// How a reply that is no JSON is reported.
pub open spec fn json_failure(operation: Seq<char>) -> Seq<char> {
    operation + " returned invalid JSON."@
}

/// Refuses a reply with an unsuccessful status.
pub fn check_status(status: u16, operation: &str) -> (r: Result<(), String>)
    ensures
        match r {
            Ok(_) => is_success_status(status),
            Err(reason) => !is_success_status(status) && reason@ == status_failure(
                operation@,
                status,
            ),
        },
{
    if is_success(status) {
        return Ok(());
    }
    let mut reason: String = operation.to_owned();
    reason.append(" failed (HTTP ");
    reason.append(decimal(status as u64).as_str());
    reason.append(").");
    Err(reason)
}

/// How a reply that does not parse is reported.
pub fn invalid_json(operation: &str) -> (r: String)
    ensures
        r@ == json_failure(operation@),
{
    let mut reason: String = operation.to_owned();
    reason.append(" returned invalid JSON.");
    reason
}

/// The document in a body.
pub fn read_json(body: &[u8], operation: &str) -> (r: Result<Json, String>)
    ensures
        match r {
            Ok(document) => json_document(body@) == Some(document@),
            Err(reason) => json_document(body@) is None && reason@ == json_failure(operation@),
        },
{
    match parse_json(body) {
        Some(document) => Ok(document),
        None => Err(invalid_json(operation)),
    }
}

/// A body with a chunk added to it, unless the two together are too long.
pub open spec fn body_with(body: Seq<u8>, max_bytes: nat, chunk: Seq<u8>) -> Option<Seq<u8>> {
    if body.len() + chunk.len() <= max_bytes {
        Some(body + chunk)
    } else {
        None
    }
}

/// A body that is being read, of bounded length.
pub struct BoundedBody {
    pub max_bytes: usize,
    pub body: Vec<u8>,
}

/// What comes next of a body.
pub enum BodyEvent {
    /// Nothing came in time.
    TimedOut,
    /// The connection failed.
    Failed,
    /// More bytes.
    Chunk(Vec<u8>),
}

impl BoundedBody {
    /// The body keeps its bound.
    pub open spec fn wf(self) -> bool {
        self.body@.len() <= self.max_bytes
    }

    /// Begins to read a body, unless it is announced to be too long.
    pub fn begin(content_length: Option<u64>, max_bytes: usize) -> (r: Result<BoundedBody, String>)
        ensures
            match r {
                Ok(reader) => (content_length matches Some(length) ==> length <= max_bytes)
                    && reader.wf() && reader.max_bytes == max_bytes && reader.body@.len() == 0,
                Err(reason) => (content_length matches Some(length) && length > max_bytes)
                    && reason@ == "AI Pass response exceeded the size limit."@,
            },
    {
        if let Some(length) = content_length {
            if length > max_bytes as u64 {
                return Err("AI Pass response exceeded the size limit.".to_owned());
            }
        }
        Ok(BoundedBody { max_bytes, body: Vec::new() })
    }

    /// Takes in what comes next. Bytes that do not fit are refused whole.
    pub fn accept(&mut self, event: BodyEvent) -> (r: Result<(), String>)
        requires
            old(self).wf(),
        ensures
            final(self).wf(),
            final(self).max_bytes == old(self).max_bytes,
            match event {
                BodyEvent::TimedOut => final(self).body@ == old(self).body@ && (r matches Err(
                    reason,
                ) && reason@ == "AI Pass response timed out."@),
                BodyEvent::Failed => final(self).body@ == old(self).body@ && (r matches Err(reason)
                    && reason@ == "AI Pass response stream failed."@),
                BodyEvent::Chunk(chunk) => match body_with(
                    old(self).body@,
                    old(self).max_bytes as nat,
                    chunk@,
                ) {
                    Some(body) => r is Ok && final(self).body@ == body,
                    None => final(self).body@ == old(self).body@ && (r matches Err(reason)
                        && reason@ == "AI Pass response exceeded the size limit."@),
                },
            },
    {
        match event {
            BodyEvent::TimedOut => Err("AI Pass response timed out.".to_owned()),
            BodyEvent::Failed => Err("AI Pass response stream failed.".to_owned()),
            BodyEvent::Chunk(chunk) => {
                if chunk.len() > self.max_bytes - self.body.len() {
                    return Err("AI Pass response exceeded the size limit.".to_owned());
                }
                self.body.extend_from_slice(chunk.as_slice());
                assert(self.body@ =~= old(self).body@ + chunk@);
                Ok(())
            },
        }
    }
}

/// Begins to read the body of a reply other than a chat response, unless the reply
/// has an unsuccessful status or is announced to be too long.
pub fn begin_reply(status: u16, content_length: Option<u64>, operation: &str) -> (r: Result<
    BoundedBody,
    String,
>)
    ensures
        match r {
            Ok(reader) => {
                &&& is_success_status(status)
                &&& content_length matches Some(length) ==> length <= MAX_CONTROL_BYTES
                &&& reader.wf()
                &&& reader.max_bytes == MAX_CONTROL_BYTES
                &&& reader.body@.len() == 0
            },
            Err(reason) => if !is_success_status(status) {
                reason@ == status_failure(operation@, status)
            } else {
                (content_length matches Some(length) && length > MAX_CONTROL_BYTES) && reason@
                    == "AI Pass response exceeded the size limit."@
            },
        },
{
    match check_status(status, operation) {
        Err(reason) => Err(reason),
        Ok(_) => BoundedBody::begin(content_length, MAX_CONTROL_BYTES),
    }
}

/// What a reader holds after some chunks, unless one of them did not fit.
pub open spec fn body_after(body: Seq<u8>, max_bytes: nat, chunks: Seq<Seq<u8>>) -> Option<Seq<u8>>
    decreases chunks.len(),
{
    if chunks.len() == 0 {
        Some(body)
    } else {
        match body_with(body, max_bytes, chunks[0]) {
            Some(longer) => body_after(longer, max_bytes, chunks.drop_first()),
            None => None,
        }
    }
}

/// All bytes of some chunks, in order.
pub open spec fn all_bytes(chunks: Seq<Seq<u8>>) -> Seq<u8>
    decreases chunks.len(),
{
    if chunks.len() == 0 {
        Seq::empty()
    } else {
        chunks[0] + all_bytes(chunks.drop_first())
    }
}

/// A body is read whole where it fits and not at all where it does not, however
/// it is cut into chunks.
pub proof fn law_body_is_read_whole_or_refused(
    body: Seq<u8>,
    max_bytes: nat,
    chunks: Seq<Seq<u8>>,
)
    requires
        body.len() <= max_bytes,
    ensures
        body_after(body, max_bytes, chunks) == (if (body + all_bytes(chunks)).len() <= max_bytes {
            Some(body + all_bytes(chunks))
        } else {
            None
        }),
    decreases chunks.len(),
{
    if chunks.len() == 0 {
        assert(body + all_bytes(chunks) =~= body);
    } else if body.len() + chunks[0].len() <= max_bytes {
        law_body_is_read_whole_or_refused(body + chunks[0], max_bytes, chunks.drop_first());
        assert(body + chunks[0] + all_bytes(chunks.drop_first()) =~= body + all_bytes(chunks));
    }
}

/// The statuses that succeed are those between 200 and 299.
pub proof fn law_success_is_the_second_hundred(status: u16)
    ensures
        is_success_status(status) <==> status / 100 == 2,
{
}

/// A failure names the operation and the status in decimal, and the status can be
/// told from it.
pub proof fn law_failures_name_operation_and_status(operation: Seq<char>, status: u16)
    ensures
        status_failure(operation, status) == operation + " failed (HTTP "@ + decimal_text(
            status as nat,
        ) + ")."@,
        decimal_value(decimal_text(status as nat)) == status,
        json_failure(operation) == operation + " returned invalid JSON."@,
{
    law_decimals_spell_their_number(status as nat);
}

/// A reply other than a chat response has at most 256 KiB, takes half a minute at
/// most, and pauses for a minute at most.
pub proof fn law_replies_are_bounded()
    ensures
        MAX_CONTROL_BYTES == 262144,
        CONTROL_TIMEOUT_SECONDS == 30,
        STREAM_IDLE_TIMEOUT_SECONDS == 60,
{
}

} // verus!
