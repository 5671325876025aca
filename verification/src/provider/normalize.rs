//! Reassembles wire bytes into neutral stream events.
//!
//! Frames are self-delimiting JSON values: the decoder buffers raw bytes and
//! extracts complete values with `serde_json`'s stream deserializer, so
//! adjacent frames and chunks split inside a multi-byte character work.
//! Provider-supplied text is never surfaced; only BrainRoot's plain-language
//! messages cross the boundary.
use vstd::prelude::*;
use super::contract::{
    limits, normalized_error, Cancellation, CancellationReason, Completion, ConversationId,
    ErrorCode, EventView, NormalizedError, StopReason, StreamEvent, is_terminal_view,
};
use super::execution::{ExecutionEvent, TerminalReason, TimeoutKind};
use crate::json::{json_as_str, json_get, json_scan, member_str, scan_json, JsonView};
use crate::text::{decimal, decimal_seq, join2, owned, text_eq};

verus! {

pub const MAX_PENDING_EVENTS: usize = 64;

pub const MAX_WIRE_BUFFER_BYTES: usize = limits::MAX_STREAM_EVENT_BYTES;

#[derive(Debug, Clone, Copy, PartialEq, Eq, Structural)]
pub enum NormalizeError {
    BufferTooLarge { limit: usize },
    QueueFull { limit: usize },
    AlreadyTerminal,
}

impl NormalizeError {
    pub fn message(&self) -> (r: String)
        ensures
            match self {
                NormalizeError::BufferTooLarge { limit } => r@
                    == "The provider sent a frame larger than the "@ + decimal_seq(*limit as nat)
                    + "-byte limit."@,
                NormalizeError::QueueFull { limit } => r@ == "The pending event queue is full ("@
                    + decimal_seq(*limit as nat) + " events); drain it before feeding more."@,
                NormalizeError::AlreadyTerminal => r@
                    == "The request already reached a terminal event."@,
            },
    {
        match self {
            NormalizeError::BufferTooLarge { limit } => {
                let a = join2("The provider sent a frame larger than the ", decimal(*limit as u64).as_str());
                join2(a.as_str(), "-byte limit.")
            },
            NormalizeError::QueueFull { limit } => {
                let a = join2("The pending event queue is full (", decimal(*limit as u64).as_str());
                join2(a.as_str(), " events); drain it before feeding more.")
            },
            NormalizeError::AlreadyTerminal => owned("The request already reached a terminal event."),
        }
    }
}

pub open spec fn unreadable_text() -> Seq<char> {
    "The provider returned an unreadable response."@
}

pub open spec fn unknown_event_text() -> Seq<char> {
    "The provider sent an event BrainRoot does not understand."@
}

/// The neutral code an error frame's `code` names.
pub open spec fn wire_code(code: Seq<char>) -> ErrorCode {
    if code == "authentication_failed"@ {
        ErrorCode::AuthenticationFailed
    } else if code == "rate_limited"@ {
        ErrorCode::RateLimited
    } else if code == "provider_unavailable"@ {
        ErrorCode::ProviderUnavailable
    } else {
        ErrorCode::MalformedResponse
    }
}

/// BrainRoot's message for a provider error code.
pub open spec fn code_message(code: ErrorCode) -> Seq<char> {
    match code {
        ErrorCode::AuthenticationFailed => "The provider rejected the credential."@,
        ErrorCode::RateLimited => "The provider temporarily limited requests. Try again shortly."@,
        ErrorCode::ProviderUnavailable => "The provider is temporarily unavailable."@,
        ErrorCode::MalformedResponse => unreadable_text(),
        ErrorCode::UnknownEvent => unknown_event_text(),
        ErrorCode::TimedOut => "The provider took too long to respond."@,
        ErrorCode::ResponseTooLarge => "The provider's response was larger than BrainRoot allows."@,
        _ => "The request could not be completed."@,
    }
}

/// The neutral event one decoded frame stands for.
pub open spec fn frame_event(frame: JsonView, conversation: Seq<char>) -> EventView {
    match member_str(frame, "kind"@) {
        Some(kind) => if kind == "start"@ {
            EventView::Started
        } else if kind == "chunk"@ {
            match member_str(frame, "text"@) {
                Some(text) => EventView::TextChunk(text),
                None => EventView::Failed(ErrorCode::MalformedResponse, unreadable_text()),
            }
        } else if kind == "end"@ {
            EventView::Completed(conversation, StopReason::EndTurn)
        } else if kind == "error"@ {
            let code = match member_str(frame, "code"@) {
                Some(c) => wire_code(c),
                None => ErrorCode::MalformedResponse,
            };
            EventView::Failed(code, code_message(code))
        } else {
            EventView::Failed(ErrorCode::UnknownEvent, unknown_event_text())
        },
        None => EventView::Failed(ErrorCode::MalformedResponse, unreadable_text()),
    }
}

pub open spec fn timeout_text(kind: TimeoutKind) -> Seq<char> {
    match kind {
        TimeoutKind::Connect => "The provider did not answer in time."@,
        TimeoutKind::Read => "The provider stopped sending the answer."@,
        TimeoutKind::Total => "The answer took longer than BrainRoot allows."@,
    }
}

/// The single terminal event an executor terminal reason becomes.
pub open spec fn terminal_event_view(reason: TerminalReason, conversation: Seq<char>) -> EventView {
    match reason {
        TerminalReason::Completed => EventView::Completed(conversation, StopReason::EndTurn),
        TerminalReason::Cancelled(r) => EventView::Cancelled(conversation, r),
        TerminalReason::TimedOut(kind) => EventView::Failed(ErrorCode::TimedOut, timeout_text(kind)),
        TerminalReason::ResponseTooLarge { limit } => EventView::Failed(
            ErrorCode::ResponseTooLarge,
            "The provider's response was larger than BrainRoot allows ("@ + decimal_seq(
                limit as nat,
            ) + " bytes)."@,
        ),
    }
}

pub open spec fn events_view(events: Seq<StreamEvent>) -> Seq<EventView> {
    events.map_values(|e: StreamEvent| e@)
}

/// A normalizer as plain values.
pub struct NormalizerView {
    pub conversation: Seq<char>,
    pub buffer: Seq<u8>,
    pub pending: Seq<EventView>,
    pub finished: bool,
}

pub open spec fn has_terminal(events: Seq<EventView>) -> bool {
    exists|i: int| 0 <= i < events.len() && is_terminal_view(#[trigger] events[i])
}

/// The events decoded from `bytes`: one per complete frame, then a malformed
/// failure when decoding stopped on a syntax error.
pub open spec fn decoded_events(bytes: Seq<u8>, conversation: Seq<char>) -> Seq<EventView> {
    let scan = json_scan(bytes);
    scan.0.map_values(|v: JsonView| frame_event(v, conversation)) + if scan.2 {
        seq![EventView::Failed(ErrorCode::MalformedResponse, unreadable_text())]
    } else {
        Seq::<EventView>::empty()
    }
}

/// What `push(chunk)` does.
pub open spec fn push_view(s: NormalizerView, chunk: Seq<u8>) -> (NormalizerView, Result<(), NormalizeError>) {
    if s.finished {
        (s, Err(NormalizeError::AlreadyTerminal))
    } else if s.buffer.len() + chunk.len() > MAX_WIRE_BUFFER_BYTES {
        (s, Err(NormalizeError::BufferTooLarge { limit: MAX_WIRE_BUFFER_BYTES }))
    } else {
        let bytes = s.buffer + chunk;
        let mapped = decoded_events(bytes, s.conversation);
        if s.pending.len() + mapped.len() > MAX_PENDING_EVENTS {
            (s, Err(NormalizeError::QueueFull { limit: MAX_PENDING_EVENTS }))
        } else {
            (
                NormalizerView {
                    buffer: if json_scan(bytes).2 {
                        Seq::empty()
                    } else {
                        bytes.skip(json_scan(bytes).1 as int)
                    },
                    pending: s.pending + mapped,
                    finished: has_terminal(mapped),
                    ..s
                },
                Ok(()),
            )
        }
    }
}

/// What `push_execution(Terminal(reason))` does.
pub open spec fn push_terminal_view(s: NormalizerView, reason: TerminalReason) -> (
    NormalizerView,
    Result<(), NormalizeError>,
) {
    if s.finished {
        (s, Err(NormalizeError::AlreadyTerminal))
    } else if s.pending.len() + 1 > MAX_PENDING_EVENTS {
        (s, Err(NormalizeError::QueueFull { limit: MAX_PENDING_EVENTS }))
    } else {
        (
            NormalizerView {
                pending: s.pending.push(terminal_event_view(reason, s.conversation)),
                finished: true,
                ..s
            },
            Ok(()),
        )
    }
}

pub open spec fn normalizer_wf(s: NormalizerView) -> bool {
    &&& s.pending.len() <= MAX_PENDING_EVENTS
    &&& s.buffer.len() <= MAX_WIRE_BUFFER_BYTES
}

#[derive(Debug)]
pub struct StreamNormalizer {
    conversation: ConversationId,
    buffer: Vec<u8>,
    pending: Vec<StreamEvent>,
    finished: bool,
}

impl View for StreamNormalizer {
    type V = NormalizerView;

    closed spec fn view(&self) -> NormalizerView {
        NormalizerView {
            conversation: self.conversation@,
            buffer: self.buffer@,
            pending: events_view(self.pending@),
            finished: self.finished,
        }
    }
}

fn failed(code: ErrorCode, message: &str) -> (r: StreamEvent)
    ensures
        r@ == EventView::Failed(code, message@),
{
    StreamEvent::Failed { error: normalized_error(code, message) }
}

fn error_code_from_wire(code: &str) -> (r: ErrorCode)
    ensures
        r == wire_code(code@),
{
    if text_eq(code, "authentication_failed") {
        ErrorCode::AuthenticationFailed
    } else if text_eq(code, "rate_limited") {
        ErrorCode::RateLimited
    } else if text_eq(code, "provider_unavailable") {
        ErrorCode::ProviderUnavailable
    } else {
        ErrorCode::MalformedResponse
    }
}

fn error_message(code: ErrorCode) -> (r: String)
    ensures
        r@ == code_message(code),
{
    match code {
        ErrorCode::AuthenticationFailed => owned("The provider rejected the credential."),
        ErrorCode::RateLimited => owned("The provider temporarily limited requests. Try again shortly."),
        ErrorCode::ProviderUnavailable => owned("The provider is temporarily unavailable."),
        ErrorCode::MalformedResponse => owned("The provider returned an unreadable response."),
        ErrorCode::UnknownEvent => owned("The provider sent an event BrainRoot does not understand."),
        ErrorCode::TimedOut => owned("The provider took too long to respond."),
        ErrorCode::ResponseTooLarge => owned("The provider's response was larger than BrainRoot allows."),
        _ => owned("The request could not be completed."),
    }
}

fn timeout_message(kind: TimeoutKind) -> (r: &'static str)
    ensures
        r@ == timeout_text(kind),
{
    match kind {
        TimeoutKind::Connect => "The provider did not answer in time.",
        TimeoutKind::Read => "The provider stopped sending the answer.",
        TimeoutKind::Total => "The answer took longer than BrainRoot allows.",
    }
}

/// The neutral event for one decoded frame.
fn map_frame(value: &serde_json::Value, conversation: &ConversationId) -> (r: StreamEvent)
    ensures
        r@ == frame_event(crate::json::json_view(*value), conversation@),
{
    let kind = match json_get(value, "kind") {
        Some(k) => json_as_str(k),
        None => None,
    };
    match kind {
        Some(kind) => {
            if text_eq(kind, "start") {
                StreamEvent::Started
            } else if text_eq(kind, "chunk") {
                let text = match json_get(value, "text") {
                    Some(t) => json_as_str(t),
                    None => None,
                };
                match text {
                    Some(text) => StreamEvent::TextChunk { text: owned(text) },
                    None => failed(ErrorCode::MalformedResponse, "The provider returned an unreadable response."),
                }
            } else if text_eq(kind, "end") {
                StreamEvent::Completed {
                    completion: Completion { conversation: conversation.clone(), stop_reason: StopReason::EndTurn },
                }
            } else if text_eq(kind, "error") {
                let code_text = match json_get(value, "code") {
                    Some(c) => json_as_str(c),
                    None => None,
                };
                let code = match code_text {
                    Some(c) => error_code_from_wire(c),
                    None => ErrorCode::MalformedResponse,
                };
                let message = error_message(code);
                StreamEvent::Failed { error: NormalizedError { code, message } }
            } else {
                failed(ErrorCode::UnknownEvent, "The provider sent an event BrainRoot does not understand.")
            }
        },
        None => failed(ErrorCode::MalformedResponse, "The provider returned an unreadable response."),
    }
}

/// The single terminal stream event for an executor terminal reason.
pub fn terminal_event(reason: TerminalReason, conversation: &ConversationId) -> (r: StreamEvent)
    ensures
        r@ == terminal_event_view(reason, conversation@),
{
    match reason {
        TerminalReason::Completed => StreamEvent::Completed {
            completion: Completion { conversation: conversation.clone(), stop_reason: StopReason::EndTurn },
        },
        TerminalReason::Cancelled(r) => StreamEvent::Cancelled {
            cancellation: Cancellation { conversation: conversation.clone(), reason: r },
        },
        TerminalReason::TimedOut(kind) => failed(ErrorCode::TimedOut, timeout_message(kind)),
        TerminalReason::ResponseTooLarge { limit } => {
            let a = join2("The provider's response was larger than BrainRoot allows (", decimal(limit as u64).as_str());
            let b = join2(a.as_str(), " bytes).");
            failed(ErrorCode::ResponseTooLarge, b.as_str())
        },
    }
}

impl StreamNormalizer {
    pub closed spec fn wf(&self) -> bool {
        normalizer_wf(self@)
    }

    pub fn new(conversation: ConversationId) -> (r: Self)
        ensures
            r.wf(),
            r@ == (NormalizerView {
                conversation: conversation@,
                buffer: Seq::empty(),
                pending: Seq::empty(),
                finished: false,
            }),
    {
        let r = StreamNormalizer { conversation, buffer: Vec::new(), pending: Vec::new(), finished: false };
        assert(events_view(r.pending@) =~= Seq::<EventView>::empty());
        r
    }

    pub fn is_finished(&self) -> (r: bool)
        ensures
            r == self@.finished,
    {
        self.finished
    }

    pub fn pending_len(&self) -> (r: usize)
        ensures
            r == self@.pending.len(),
    {
        self.pending.len()
    }

    /// Feeds raw wire bytes. On an error nothing is consumed, so the caller
    /// can drain and retry the same chunk.
    pub fn push(&mut self, chunk: &[u8]) -> (r: Result<(), NormalizeError>)
        requires
            old(self).wf(),
        ensures
            final(self).wf(),
            (final(self)@, r) == push_view(old(self)@, chunk@),
    {
        if self.finished {
            return Err(NormalizeError::AlreadyTerminal);
        }
        if chunk.len() > MAX_WIRE_BUFFER_BYTES - self.buffer.len() {
            return Err(NormalizeError::BufferTooLarge { limit: MAX_WIRE_BUFFER_BYTES });
        }
        let mut bytes: Vec<u8> = self.buffer.clone();
        let mut i: usize = 0;
        while i < chunk.len()
            invariant
                i <= chunk@.len(),
                bytes@ == old(self)@.buffer + chunk@.subrange(0, i as int),
            decreases chunk.len() - i,
        {
            bytes.push(chunk[i]);
            assert(chunk@.subrange(0, i + 1) =~= chunk@.subrange(0, i as int).push(chunk@[i as int]));
            i = i + 1;
        }
        assert(chunk@.subrange(0, chunk@.len() as int) =~= chunk@);
        let (values, consumed, malformed) = scan_json(bytes.as_slice());
        let ghost conv = self.conversation@;
        let mut mapped: Vec<StreamEvent> = Vec::new();
        let mut k: usize = 0;
        while k < values.len()
            invariant
                k <= values@.len(),
                conv == self.conversation@,
                mapped@.len() == k,
                forall|j: int| 0 <= j < k ==> (#[trigger] mapped@[j])@ == frame_event(
                    crate::json::json_view(values@[j]),
                    conv,
                ),
            decreases values.len() - k,
        {
            let e = map_frame(&values[k], &self.conversation);
            mapped.push(e);
            k = k + 1;
        }
        if malformed {
            mapped.push(failed(ErrorCode::MalformedResponse, "The provider returned an unreadable response."));
        }
        proof {
            let scan = json_scan(bytes@);
            assert(values@.map_values(
                |v: serde_json::Value| frame_event(crate::json::json_view(v), conv),
            ) =~= scan.0.map_values(|v: JsonView| frame_event(v, conv)));
            assert(events_view(mapped@) =~= decoded_events(bytes@, conv));
        }
        if mapped.len() > MAX_PENDING_EVENTS - self.pending.len() {
            return Err(NormalizeError::QueueFull { limit: MAX_PENDING_EVENTS });
        }
        let mut rest: Vec<u8> = Vec::new();
        if !malformed {
            let mut j: usize = consumed;
            while j < bytes.len()
                invariant
                    consumed <= j <= bytes@.len(),
                    rest@ == bytes@.subrange(consumed as int, j as int),
                decreases bytes.len() - j,
            {
                rest.push(bytes[j]);
                assert(bytes@.subrange(consumed as int, j + 1) =~= bytes@.subrange(
                    consumed as int,
                    j as int,
                ).push(bytes@[j as int]));
                j = j + 1;
            }
            assert(rest@ =~= bytes@.skip(consumed as int));
        } else {
            assert(rest@ =~= Seq::<u8>::empty());
        }
        self.buffer = rest;
        let mut pending: Vec<StreamEvent> = Vec::new();
        std::mem::swap(&mut pending, &mut self.pending);
        let ghost before_pending = events_view(pending@);
        let ghost mapped_view = events_view(mapped@);
        let mut any_terminal = false;
        let mut m: usize = 0;
        while m < mapped.len()
            invariant
                m <= mapped@.len(),
                mapped_view == events_view(mapped@),
                pending@.len() == before_pending.len() + m,
                forall|j: int| 0 <= j < before_pending.len() ==> (#[trigger] pending@[j])@ == before_pending[j],
                forall|j: int| 0 <= j < m ==> (#[trigger] pending@[before_pending.len() + j])@ == mapped_view[j],
                any_terminal == has_terminal(mapped_view.subrange(0, m as int)),
            decreases mapped.len() - m,
        {
            let e = mapped[m].clone();
            if e.is_terminal() {
                any_terminal = true;
            }
            proof {
                assert(mapped_view.subrange(0, m + 1) =~= mapped_view.subrange(0, m as int).push(
                    e@,
                ));
                lemma_has_terminal_push(mapped_view.subrange(0, m as int), e@);
            }
            pending.push(e);
            m = m + 1;
        }
        assert(mapped_view.subrange(0, mapped_view.len() as int) =~= mapped_view);
        assert forall|i: int| 0 <= i < pending@.len() implies events_view(pending@)[i] == (
            before_pending + mapped_view)[i] by {
            if i >= before_pending.len() {
                let j = i - before_pending.len();
                assert(pending@[before_pending.len() + j]@ == mapped_view[j]);
            }
        }
        assert(events_view(pending@) =~= before_pending + mapped_view);
        self.pending = pending;
        self.finished = any_terminal;
        Ok(())
    }

    /// Feeds an executor event: frames go through the byte decoder and a
    /// terminal reason becomes the single terminal stream event.
    pub fn push_execution(&mut self, event: ExecutionEvent) -> (r: Result<(), NormalizeError>)
        requires
            old(self).wf(),
        ensures
            final(self).wf(),
            match event {
                ExecutionEvent::Frame(payload) => (final(self)@, r) == push_view(
                    old(self)@,
                    vstd::utf8::encode_utf8(payload@),
                ),
                ExecutionEvent::Terminal(reason) => (final(self)@, r) == push_terminal_view(
                    old(self)@,
                    reason,
                ),
            },
    {
        match event {
            ExecutionEvent::Frame(payload) => self.push(payload.as_str().as_bytes()),
            ExecutionEvent::Terminal(reason) => {
                if self.finished {
                    return Err(NormalizeError::AlreadyTerminal);
                }
                if self.pending.len() + 1 > MAX_PENDING_EVENTS {
                    return Err(NormalizeError::QueueFull { limit: MAX_PENDING_EVENTS });
                }
                let e = terminal_event(reason, &self.conversation);
                self.pending.push(e);
                self.finished = true;
                proof {
                    assert(events_view(self.pending@) =~= old(self)@.pending.push(
                        terminal_event_view(reason, old(self)@.conversation),
                    ));
                }
                Ok(())
            },
        }
    }

    /// Hands out the pending events, oldest first, and empties the queue.
    pub fn drain(&mut self) -> (r: Vec<StreamEvent>)
        requires
            old(self).wf(),
        ensures
            final(self).wf(),
            events_view(r@) == old(self)@.pending,
            final(self)@ == (NormalizerView { pending: Seq::empty(), ..old(self)@ }),
    {
        let mut out: Vec<StreamEvent> = Vec::new();
        std::mem::swap(&mut out, &mut self.pending);
        assert(events_view(self.pending@) =~= Seq::<EventView>::empty());
        out
    }
}

pub proof fn lemma_has_terminal_push(s: Seq<EventView>, e: EventView)
    ensures
        has_terminal(s.push(e)) == (has_terminal(s) || is_terminal_view(e)),
{
    if has_terminal(s) {
        let i = choose|i: int| 0 <= i < s.len() && is_terminal_view(#[trigger] s[i]);
        assert(s.push(e)[i] == s[i]);
    }
    if is_terminal_view(e) {
        assert(s.push(e)[s.len() as int] == e);
    }
    if has_terminal(s.push(e)) {
        let i = choose|i: int| 0 <= i < s.push(e).len() && is_terminal_view(#[trigger] s.push(e)[i]);
        if i < s.len() {
            assert(s[i] == s.push(e)[i]);
        }
    }
}

/// A finished normalizer accepts no more input, so no event ever follows a
/// terminal accepted by an earlier call; a refused push changes nothing.
pub proof fn lemma_no_input_after_terminal(s: NormalizerView, chunk: Seq<u8>, reason: TerminalReason)
    requires
        s.finished,
    ensures
        push_view(s, chunk) == (s, Err::<(), NormalizeError>(NormalizeError::AlreadyTerminal)),
        push_terminal_view(s, reason) == (s, Err::<(), NormalizeError>(NormalizeError::AlreadyTerminal)),
{
}

/// A push that fails consumes nothing: the normalizer is unchanged.
pub proof fn lemma_refused_push_changes_nothing(s: NormalizerView, chunk: Seq<u8>)
    ensures
        push_view(s, chunk).1 is Err ==> push_view(s, chunk).0 == s,
{
}

/// Each documented wire error code keeps its own neutral code: an error
/// frame naming `authentication_failed`, `rate_limited` or
/// `provider_unavailable` becomes a failure with that code and BrainRoot's
/// message for it, whatever else the frame holds.
pub proof fn lemma_wire_codes_kept(frame: JsonView, conversation: Seq<char>)
    requires
        member_str(frame, "kind"@) == Some("error"@),
    ensures
        member_str(frame, "code"@) == Some("authentication_failed"@) ==> frame_event(
            frame,
            conversation,
        ) == EventView::Failed(ErrorCode::AuthenticationFailed, "The provider rejected the credential."@),
        member_str(frame, "code"@) == Some("rate_limited"@) ==> frame_event(frame, conversation)
            == EventView::Failed(
            ErrorCode::RateLimited,
            "The provider temporarily limited requests. Try again shortly."@,
        ),
        member_str(frame, "code"@) == Some("provider_unavailable"@) ==> frame_event(frame, conversation)
            == EventView::Failed(ErrorCode::ProviderUnavailable, "The provider is temporarily unavailable."@),
        !(member_str(frame, "code"@) == Some("authentication_failed"@) || member_str(frame, "code"@)
            == Some("rate_limited"@) || member_str(frame, "code"@) == Some("provider_unavailable"@))
            ==> frame_event(frame, conversation) == EventView::Failed(
            ErrorCode::MalformedResponse,
            "The provider returned an unreadable response."@,
        ),
{
    reveal_strlit("kind");
    reveal_strlit("error");
    reveal_strlit("start");
    reveal_strlit("chunk");
    reveal_strlit("end");
    reveal_strlit("authentication_failed");
    reveal_strlit("rate_limited");
    reveal_strlit("provider_unavailable");
    assert("error"@ != "start"@) by {
        assert("error"@[0] != "start"@[0]);
    }
    assert("error"@ != "chunk"@) by {
        assert("error"@[0] != "chunk"@[0]);
    }
    assert("error"@ != "end"@) by {
        assert("error"@.len() != "end"@.len());
    }
    assert("rate_limited"@ != "authentication_failed"@) by {
        assert("rate_limited"@[0] != "authentication_failed"@[0]);
    }
    assert("provider_unavailable"@ != "authentication_failed"@) by {
        assert("provider_unavailable"@[0] != "authentication_failed"@[0]);
    }
    assert("provider_unavailable"@ != "rate_limited"@) by {
        assert("provider_unavailable"@[0] != "rate_limited"@[0]);
    }
}

} // verus!
