//! Chat responses on their way to the webview.

use vstd::prelude::*;

use crate::crypto::base64_standard;
use crate::crypto::encode_base64_standard;
use crate::reply::is_success;
use crate::reply::is_success_status;

verus! {

/// The most bytes of a successful chat response.
pub const MAX_STREAM_BYTES: usize = 16 * 1024 * 1024;

/// The most bytes of an unsuccessful chat response.
pub const MAX_ERROR_BYTES: usize = 64 * 1024;

/// How long a chat response may take in all, in nanoseconds.
pub const CHAT_TIMEOUT_NANOS: u128 = 300_000_000_000;

/// How long a chat response may pause, in nanoseconds.
pub const STREAM_IDLE_TIMEOUT_NANOS: u128 = 60_000_000_000;

/// What the webview hears of a chat response.
#[derive(Debug, PartialEq)]
pub enum NativeStreamEvent {
    /// Bytes of the response, in base64.
    Chunk { data: String },
    /// The response is complete.
    End,
    /// The response ends here, for this reason.
    Error { message: String },
}

impl Clone for NativeStreamEvent {
    fn clone(&self) -> (r: Self)
        ensures
            r == *self,
    {
        match self {
            NativeStreamEvent::Chunk { data } => NativeStreamEvent::Chunk { data: data.clone() },
            NativeStreamEvent::End => NativeStreamEvent::End,
            NativeStreamEvent::Error { message } => NativeStreamEvent::Error {
                message: message.clone(),
            },
        }
    }
}

/// What an event says.
pub enum EventView {
    Chunk(Seq<char>),
    End,
    Error(Seq<char>),
}

impl View for NativeStreamEvent {
    type V = EventView;

    open spec fn view(&self) -> EventView {
        match self {
            NativeStreamEvent::Chunk { data } => EventView::Chunk(data@),
            NativeStreamEvent::End => EventView::End,
            NativeStreamEvent::Error { message } => EventView::Error(message@),
        }
    }
}

/// What happens while a chat response is awaited.
pub enum UpstreamEvent {
    /// The webview wants no more.
    Cancelled,
    /// Nothing came in time.
    TimedOut,
    /// The response is complete.
    Ended,
    /// The connection failed.
    Failed,
    /// More bytes.
    Chunk(Vec<u8>),
}

/// What happened.
pub enum UpstreamView {
    Cancelled,
    TimedOut,
    Ended,
    Failed,
    Chunk(Seq<u8>),
}

impl View for UpstreamEvent {
    type V = UpstreamView;

    open spec fn view(&self) -> UpstreamView {
        match self {
            UpstreamEvent::Cancelled => UpstreamView::Cancelled,
            UpstreamEvent::TimedOut => UpstreamView::TimedOut,
            UpstreamEvent::Ended => UpstreamView::Ended,
            UpstreamEvent::Failed => UpstreamView::Failed,
            UpstreamEvent::Chunk(bytes) => UpstreamView::Chunk(bytes@),
        }
    }
}

/// A chat response that is being forwarded.
pub struct ResponseForwarder {
    /// The most bytes to forward.
    pub limit: usize,
    /// The bytes forwarded so far.
    pub total: usize,
    /// Whether more may come.
    pub open: bool,
}

/// How far forwarding has come.
pub struct ForwardView {
    pub limit: nat,
    pub total: nat,
    pub open: bool,
}

impl View for ResponseForwarder {
    type V = ForwardView;

    open spec fn view(&self) -> ForwardView {
        ForwardView { limit: self.limit as nat, total: self.total as nat, open: self.open }
    }
}

/// The most bytes to forward of a response with the given status.
pub open spec fn forward_limit(status: u16) -> nat {
    if is_success_status(status) {
        MAX_STREAM_BYTES as nat
    } else {
        MAX_ERROR_BYTES as nat
    }
}

/// Forwarding before anything has come, and what the webview hears at once: a
/// response that is announced to be too long is not begun.
pub open spec fn forward_start(status: u16, content_length: Option<u64>) -> (
    ForwardView,
    Option<EventView>,
) {
    let too_long = content_length matches Some(length) && length > forward_limit(status);
    (
        ForwardView { limit: forward_limit(status), total: 0, open: !too_long },
        if too_long {
            Some(EventView::Error("AI Pass response exceeded the size limit."@))
        } else {
            None
        },
    )
}

/// Forwarding after an event, and what the webview hears of it. Only bytes within
/// the limit keep the response open.
pub open spec fn forward_step(forward: ForwardView, event: UpstreamView) -> (
    ForwardView,
    EventView,
) {
    let closed = ForwardView { open: false, ..forward };
    match event {
        UpstreamView::Cancelled => (closed, EventView::Error("AI Pass request cancelled."@)),
        UpstreamView::TimedOut => (closed, EventView::Error("AI Pass response timed out."@)),
        UpstreamView::Ended => (closed, EventView::End),
        UpstreamView::Failed => (closed, EventView::Error("AI Pass response stream failed."@)),
        UpstreamView::Chunk(bytes) => if forward.total + bytes.len() > forward.limit {
            (closed, EventView::Error("AI Pass response exceeded the size limit."@))
        } else {
            (
                ForwardView { total: forward.total + bytes.len(), ..forward },
                EventView::Chunk(base64_standard(bytes)),
            )
        },
    }
}

/// How long to wait for the next event once some time has passed: what is left of
/// the whole, but no longer than a pause may take; nothing once all is used up.
pub open spec fn wait_after(elapsed_nanos: u128) -> Option<u64> {
    if elapsed_nanos >= CHAT_TIMEOUT_NANOS {
        None
    } else if CHAT_TIMEOUT_NANOS - elapsed_nanos < STREAM_IDLE_TIMEOUT_NANOS {
        Some((CHAT_TIMEOUT_NANOS - elapsed_nanos) as u64)
    } else {
        Some(STREAM_IDLE_TIMEOUT_NANOS as u64)
    }
}

/// An event with a reason why the response ends.
fn error_event(message: &str) -> (r: NativeStreamEvent)
    ensures
        r@ == EventView::Error(message@),
{
    NativeStreamEvent::Error { message: message.to_owned() }
}

impl ResponseForwarder {
    /// Never more is forwarded than the limit allows, which is the one for
    /// successful responses at most.
    pub open spec fn wf(self) -> bool {
        self.total <= self.limit <= MAX_STREAM_BYTES
    }

    /// Begins to forward a response.
    pub fn start(status: u16, content_length: Option<u64>) -> (r: (
        ResponseForwarder,
        Option<NativeStreamEvent>,
    ))
        ensures
            r.0.wf(),
            r.0@ == forward_start(status, content_length).0,
            match r.1 {
                Some(event) => forward_start(status, content_length).1 == Some(event@),
                None => forward_start(status, content_length).1 is None,
            },
    {
        let limit: usize = if is_success(status) {
            MAX_STREAM_BYTES
        } else {
            MAX_ERROR_BYTES
        };
        if let Some(length) = content_length {
            if length > limit as u64 {
                return (
                    ResponseForwarder { limit, total: 0, open: false },
                    Some(error_event("AI Pass response exceeded the size limit.")),
                );
            }
        }
        (ResponseForwarder { limit, total: 0, open: true }, None)
    }

    /// How long to wait for the next event, or what the webview hears once the time is used up.
    pub fn next_wait(&mut self, elapsed_nanos: u128) -> (r: Result<u64, NativeStreamEvent>)
        ensures
            match wait_after(elapsed_nanos) {
                Some(nanos) => r == Ok::<u64, NativeStreamEvent>(nanos) && *final(self) == *old(
                    self,
                ),
                None => (r matches Err(event) && event@ == EventView::Error(
                    "AI Pass response timed out."@,
                )) && final(self)@ == (ForwardView { open: false, ..old(self)@ }),
            },
    {
        if elapsed_nanos >= CHAT_TIMEOUT_NANOS {
            self.open = false;
            return Err(error_event("AI Pass response timed out."));
        }
        let remaining: u128 = CHAT_TIMEOUT_NANOS - elapsed_nanos;
        if remaining < STREAM_IDLE_TIMEOUT_NANOS {
            Ok(remaining as u64)
        } else {
            Ok(STREAM_IDLE_TIMEOUT_NANOS as u64)
        }
    }

    /// Takes in an event and says what the webview hears of it.
    pub fn accept(&mut self, event: UpstreamEvent) -> (r: NativeStreamEvent)
        requires
            old(self).wf(),
        ensures
            final(self).wf(),
            final(self)@ == forward_step(old(self)@, event@).0,
            r@ == forward_step(old(self)@, event@).1,
    {
        match event {
            UpstreamEvent::Cancelled => {
                self.open = false;
                error_event("AI Pass request cancelled.")
            },
            UpstreamEvent::TimedOut => {
                self.open = false;
                error_event("AI Pass response timed out.")
            },
            UpstreamEvent::Ended => {
                self.open = false;
                NativeStreamEvent::End
            },
            UpstreamEvent::Failed => {
                self.open = false;
                error_event("AI Pass response stream failed.")
            },
            UpstreamEvent::Chunk(bytes) => {
                if bytes.len() > self.limit - self.total {
                    self.open = false;
                    return error_event("AI Pass response exceeded the size limit.");
                }
                self.total = self.total + bytes.len();
                NativeStreamEvent::Chunk { data: encode_base64_standard(bytes.as_slice()) }
            },
        }
    }

    /// The webview no longer listens.
    pub fn undelivered(&mut self)
        ensures
            final(self)@ == (ForwardView { open: false, ..old(self)@ }),
    {
        self.open = false;
    }
}

/// Forwarding after a course of events, and what the webview hears, in order.
/// Nothing is taken in once the response is closed.
pub open spec fn forward_run(forward: ForwardView, events: Seq<UpstreamView>) -> (
    ForwardView,
    Seq<EventView>,
)
    decreases events.len(),
{
    if !forward.open || events.len() == 0 {
        (forward, Seq::empty())
    } else {
        let (next, heard) = forward_step(forward, events[0]);
        let (end, rest) = forward_run(next, events.drop_first());
        (end, seq![heard] + rest)
    }
}

/// The bytes of the events that the webview hears as bytes.
pub open spec fn forwarded_bytes(events: Seq<UpstreamView>, heard: Seq<EventView>) -> nat
    decreases heard.len(),
{
    if heard.len() == 0 {
        0
    } else {
        let rest = forwarded_bytes(events.drop_first(), heard.drop_first());
        match (events[0], heard[0]) {
            (UpstreamView::Chunk(bytes), EventView::Chunk(_)) => bytes.len() + rest,
            _ => rest,
        }
    }
}

proof fn lemma_forward_run(forward: ForwardView, events: Seq<UpstreamView>)
    requires
        forward.total <= forward.limit,
    ensures
        ({
            let (end, heard) = forward_run(forward, events);
            &&& end.limit == forward.limit
            &&& end.total <= end.limit
            &&& end.total == forward.total + forwarded_bytes(events, heard)
            &&& heard.len() <= events.len()
            &&& forall|i: int|
                0 <= i < heard.len() && (#[trigger] heard[i]) is Chunk ==> (
                events[i] matches UpstreamView::Chunk(bytes) && heard[i] == EventView::Chunk(
                    base64_standard(bytes),
                ))
            &&& forall|i: int| 0 <= i < heard.len() - 1 ==> (#[trigger] heard[i]) is Chunk
            &&& end.open ==> heard.len() == events.len()
            &&& heard.len() > 0 ==> (end.open == heard.last() is Chunk)
            &&& heard.len() == 0 ==> end.open == forward.open
            &&& forall|i: int|
                0 <= i < heard.len() && (#[trigger] heard[i]) is End ==> events[i] is Ended
        }),
    decreases events.len(),
{
    if forward.open && events.len() > 0 {
        let (next, first) = forward_step(forward, events[0]);
        lemma_forward_run(next, events.drop_first());
        let (end, rest) = forward_run(next, events.drop_first());
        let heard = seq![first] + rest;
        assert(heard.drop_first() =~= rest);
        assert forall|i: int| 0 <= i < heard.len() && (#[trigger] heard[i]) is Chunk implies (
        events[i] matches UpstreamView::Chunk(bytes) && heard[i] == EventView::Chunk(
            base64_standard(bytes),
        )) by {
            if i > 0 {
                assert(heard[i] == rest[i - 1]);
                assert(events[i] == events.drop_first()[i - 1]);
            }
        }
        assert forall|i: int| 0 <= i < heard.len() - 1 implies (#[trigger] heard[i]) is Chunk by {
            if i > 0 {
                assert(heard[i] == rest[i - 1]);
            } else if !(first is Chunk) {
                assert(!next.open);
                assert(rest.len() == 0);
            }
        }
        assert forall|i: int|
            0 <= i < heard.len() && (#[trigger] heard[i]) is End implies events[i] is Ended by {
            if i > 0 {
                assert(heard[i] == rest[i - 1]);
                assert(events[i] == events.drop_first()[i - 1]);
            }
        }
        if rest.len() > 0 {
            assert(heard.last() == rest.last());
        } else {
            assert(heard.last() == first);
        }
    }
}

/// Whatever comes, no more bytes reach the webview than the limit for the status
/// allows, and each chunk that it hears is the base64 of the chunk that came.
pub proof fn law_forwarded_bytes_are_bounded(
    status: u16,
    content_length: Option<u64>,
    events: Seq<UpstreamView>,
)
    ensures
        ({
            let (end, heard) = forward_run(forward_start(status, content_length).0, events);
            &&& heard.len() <= events.len()
            &&& forwarded_bytes(events, heard) <= forward_limit(status)
            &&& forall|i: int|
                0 <= i < heard.len() && (#[trigger] heard[i]) is Chunk ==> (
                events[i] matches UpstreamView::Chunk(bytes) && heard[i] == EventView::Chunk(
                    base64_standard(bytes),
                ))
        }),
{
    lemma_forward_run(forward_start(status, content_length).0, events);
}

/// The webview hears of the end once, and of nothing after it: a response that is
/// closed has ended with its last event, and a response that is open has not ended.
/// It hears that a response is complete only where the service has completed it.
pub proof fn law_forwarding_ends_once(
    status: u16,
    content_length: Option<u64>,
    events: Seq<UpstreamView>,
)
    requires
        forward_start(status, content_length).0.open,
    ensures
        ({
            let (end, heard) = forward_run(forward_start(status, content_length).0, events);
            &&& forall|i: int| 0 <= i < heard.len() - 1 ==> (#[trigger] heard[i]) is Chunk
            &&& end.open ==> heard.len() == events.len() && (heard.len() > 0 ==> heard.last() is Chunk)
            &&& !end.open ==> heard.len() > 0 && !(heard.last() is Chunk)
            &&& heard.len() > 0 && heard.last() is End ==> events[heard.len() - 1] is Ended
        }),
{
    lemma_forward_run(forward_start(status, content_length).0, events);
}

/// No wait is longer than a pause may take, nor reaches beyond the time for the whole response.
pub proof fn law_waits_stay_within_the_time(elapsed_nanos: u128)
    ensures
        wait_after(elapsed_nanos) matches Some(nanos) ==> 0 < nanos <= STREAM_IDLE_TIMEOUT_NANOS
            && elapsed_nanos + nanos <= CHAT_TIMEOUT_NANOS,
        wait_after(elapsed_nanos) is None <==> elapsed_nanos >= CHAT_TIMEOUT_NANOS,
{
}

/// The chunks that come, one event each.
pub open spec fn chunk_events(chunks: Seq<Seq<u8>>) -> Seq<UpstreamView> {
    chunks.map_values(|chunk: Seq<u8>| UpstreamView::Chunk(chunk))
}

/// The number of bytes of some chunks.
pub open spec fn chunks_len(chunks: Seq<Seq<u8>>) -> nat
    decreases chunks.len(),
{
    if chunks.len() == 0 {
        0
    } else {
        chunks[0].len() + chunks_len(chunks.drop_first())
    }
}

/// The most bytes that are forwarded: 16 MiB with a status between 200 and 299, and
/// 64 KiB with any other.
pub open spec fn allowance(status: u16) -> nat {
    if status / 100 == 2 {
        16777216
    } else {
        65536
    }
}

proof fn lemma_fitting_chunks(forward: ForwardView, chunks: Seq<Seq<u8>>, last: Seq<UpstreamView>)
    requires
        forward.open,
        forward.total + chunks_len(chunks) <= forward.limit,
        last.len() <= 1,
    ensures
        ({
            let (end, heard) = forward_run(forward, chunk_events(chunks) + last);
            let after = ForwardView { total: forward.total + chunks_len(chunks), ..forward };
            &&& heard.len() == chunks.len() + last.len()
            &&& forall|i: int|
                0 <= i < chunks.len() ==> #[trigger] heard[i] == EventView::Chunk(
                    base64_standard(chunks[i]),
                )
            &&& last.len() == 0 ==> end == after
            &&& last.len() == 1 ==> (end, heard.last()) == forward_step(after, last[0])
        }),
    decreases chunks.len(),
{
    let events = chunk_events(chunks) + last;
    if chunks.len() == 0 {
        assert(events =~= last);
        if last.len() == 1 {
            let (next, heard) = forward_step(forward, last[0]);
            assert(events.drop_first() =~= Seq::empty());
            assert(forward_run(next, Seq::empty()) == (next, Seq::<EventView>::empty()));
        }
    } else {
        let (next, first) = forward_step(forward, events[0]);
        assert(events[0] == UpstreamView::Chunk(chunks[0]));
        assert(events.drop_first() =~= chunk_events(chunks.drop_first()) + last);
        lemma_fitting_chunks(next, chunks.drop_first(), last);
        let (end, rest) = forward_run(next, events.drop_first());
        let heard = seq![first] + rest;
        assert forall|i: int| 0 <= i < chunks.len() implies #[trigger] heard[i] == EventView::Chunk(
            base64_standard(chunks[i]),
        ) by {
            if i > 0 {
                assert(heard[i] == rest[i - 1]);
                assert(chunks[i] == chunks.drop_first()[i - 1]);
            }
        }
        if last.len() == 1 {
            assert(heard.last() == rest.last());
        }
    }
}

/// A response that fits is forwarded whole, however it is cut: every chunk is heard,
/// none is lost or refused, and the response stays open. What comes after them is
/// heard next: the end, or why there is none; and a chunk with which they no longer
/// fit is refused.
pub proof fn law_fitting_responses_are_forwarded_whole(
    status: u16,
    content_length: Option<u64>,
    chunks: Seq<Seq<u8>>,
    next: UpstreamView,
)
    requires
        content_length matches Some(length) ==> length <= allowance(status),
        chunks_len(chunks) <= allowance(status),
    ensures
        ({
            let start = forward_start(status, content_length);
            let (end, heard) = forward_run(start.0, chunk_events(chunks));
            let (later, all) = forward_run(start.0, chunk_events(chunks).push(next));
            &&& start.1 is None
            &&& heard.len() == chunks.len()
            &&& forall|i: int|
                0 <= i < chunks.len() ==> #[trigger] heard[i] == EventView::Chunk(
                    base64_standard(chunks[i]),
                )
            &&& end.open
            &&& all.len() == chunks.len() + 1
            &&& match next {
                UpstreamView::Ended => !later.open && all.last() is End,
                UpstreamView::Cancelled => !later.open && all.last() == EventView::Error(
                    "AI Pass request cancelled."@,
                ),
                UpstreamView::TimedOut => !later.open && all.last() == EventView::Error(
                    "AI Pass response timed out."@,
                ),
                UpstreamView::Failed => !later.open && all.last() == EventView::Error(
                    "AI Pass response stream failed."@,
                ),
                UpstreamView::Chunk(bytes) => if chunks_len(chunks) + bytes.len() <= allowance(
                    status,
                ) {
                    later.open && all.last() == EventView::Chunk(base64_standard(bytes))
                } else {
                    !later.open && all.last() == EventView::Error(
                        "AI Pass response exceeded the size limit."@,
                    )
                },
            }
        }),
{
    let start = forward_start(status, content_length).0;
    lemma_fitting_chunks(start, chunks, Seq::empty());
    assert(chunk_events(chunks) + Seq::<UpstreamView>::empty() =~= chunk_events(chunks));
    lemma_fitting_chunks(start, chunks, seq![next]);
    assert(chunk_events(chunks) + seq![next] =~= chunk_events(chunks).push(next));
}

/// A response that is announced to be longer than allowed is refused at once, and
/// nothing of it is forwarded.
pub proof fn law_announced_excess_is_refused(
    status: u16,
    length: u64,
    events: Seq<UpstreamView>,
)
    requires
        length > allowance(status),
    ensures
        ({
            let start = forward_start(status, Some(length));
            &&& start.1 == Some(EventView::Error("AI Pass response exceeded the size limit."@))
            &&& !start.0.open
            &&& forward_run(start.0, events).1.len() == 0
        }),
{
}

/// The wait for the next event is what is left of five minutes, but a minute at most.
pub proof fn law_waits_are_what_is_left(elapsed_nanos: u128)
    ensures
        elapsed_nanos >= 300_000_000_000 ==> wait_after(elapsed_nanos) is None,
        elapsed_nanos < 300_000_000_000 ==> (wait_after(elapsed_nanos) matches Some(nanos) && nanos
            == vstd::math::min(60_000_000_000, 300_000_000_000 - elapsed_nanos)),
{
}

/// What an event says is all that it holds, on the way in and on the way out.
pub proof fn law_events_show_every_byte(bytes: Vec<u8>, data: String, forwarder: ResponseForwarder)
    ensures
        UpstreamEvent::Chunk(bytes)@ == UpstreamView::Chunk(bytes@),
        UpstreamEvent::Cancelled@ is Cancelled,
        UpstreamEvent::TimedOut@ is TimedOut,
        UpstreamEvent::Ended@ is Ended,
        UpstreamEvent::Failed@ is Failed,
        (NativeStreamEvent::Chunk { data })@ == EventView::Chunk(data@),
        NativeStreamEvent::End@ is End,
        (NativeStreamEvent::Error { message: data })@ == EventView::Error(data@),
        forwarder@.limit == forwarder.limit,
        forwarder@.total == forwarder.total,
        forwarder@.open == forwarder.open,
{
}

} // verus!
