//! The sidecar's readiness and turn decisions, and the request bodies sent to
//! it. The process, the HTTP calls and the event-stream reads stay with the
//! caller; what to do with each answer is decided here.
use vstd::prelude::*;
use super::{
    classify_frame, error_for_status, frame_outcome, host_error, status_failure, AgentHostStatus,
    AgentStreamEvent, FrameOutcome, FrameView, MAX_SEND_CHARS,
};
use crate::provider::failure::TransportError;
use crate::time::{duration_nanos, nanos};
use std::time::Duration;
use crate::json::{json_quote, json_text, json_view, parse_json, quote_json, JsonView};
use crate::provider::contract::{ErrorCode, NormalizedError};
use crate::text::{chars_after, chars_of, has_prefix, join2, owned, starts_with, take_chars, trim, trim_seq};

verus! {

/// The characters of a session title: the prompt's first 64.
pub const TITLE_CHARS: usize = 64;

/// The body that opens a session titled by the prompt's first characters.
pub open spec fn session_body(prompt: Seq<char>) -> Seq<char> {
    "{\"title\":"@ + json_quote(take_chars(prompt, TITLE_CHARS as nat)) + "}"@
}

pub fn session_request_body(prompt: &str) -> (r: String)
    ensures
        r@ == session_body(prompt@),
{
    let title = super::truncate_chars(prompt, TITLE_CHARS);
    let r = join2("{\"title\":", quote_json(title.as_str()).as_str());
    let r = join2(r.as_str(), "}");
    assert(r@ =~= session_body(prompt@));
    r
}

/// The body that sends the prompt as one text part, with the chosen model
/// when there is one. Object members are written in key order, as
/// `serde_json` writes its maps.
pub open spec fn prompt_body(prompt: Seq<char>, model: Option<(Seq<char>, Seq<char>)>) -> Seq<char> {
    let parts = "\"parts\":[{\"text\":"@ + json_quote(prompt) + ",\"type\":\"text\"}]"@;
    match model {
        Some((provider, model_id)) => "{\"model\":{\"modelID\":"@ + json_quote(model_id)
            + ",\"providerID\":"@ + json_quote(provider) + "},"@ + parts + "}"@,
        None => "{"@ + parts + "}"@,
    }
}

pub fn prompt_request_body(prompt: &str, selection: Option<&super::AgentModelSelection>) -> (r:
    String)
    ensures
        r@ == prompt_body(
            prompt@,
            match selection {
                Some(s) => Some((s.provider_id@, s.model_id@)),
                None => None,
            },
        ),
{
    let parts = join2("\"parts\":[{\"text\":", quote_json(prompt).as_str());
    let parts = join2(parts.as_str(), ",\"type\":\"text\"}]");
    match selection {
        Some(s) => {
            let r = join2("{\"model\":{\"modelID\":", quote_json(s.model_id.as_str()).as_str());
            let r = join2(r.as_str(), ",\"providerID\":");
            let r = join2(r.as_str(), quote_json(s.provider_id.as_str()).as_str());
            let r = join2(r.as_str(), "},");
            let r = join2(r.as_str(), parts.as_str());
            let r = join2(r.as_str(), "}");
            assert(r@ =~= prompt_body(prompt@, Some((s.provider_id@, s.model_id@))));
            r
        },
        None => {
            let r = join2("{", parts.as_str());
            let r = join2(r.as_str(), "}");
            assert(r@ =~= prompt_body(prompt@, None));
            r
        },
    }
}

/// The neutral error of a failed authenticated read from the sidecar.
pub open spec fn get_failure(error: TransportError) -> (ErrorCode, Seq<char>) {
    match error {
        TransportError::Status(status) => status_failure(status),
        TransportError::Timeout => (ErrorCode::TimedOut, "The sidecar request timed out."@),
        TransportError::Other => (
            ErrorCode::ProviderUnavailable,
            "The sidecar is unreachable. Start it and try again."@,
        ),
    }
}

/// The neutral error of a failed authenticated write to the sidecar: a
/// missing session and a rejected request are told apart, the rest is read
/// as for a read.
pub open spec fn post_failure(error: TransportError) -> (ErrorCode, Seq<char>) {
    match error {
        TransportError::Status(404) => (
            ErrorCode::ProviderUnavailable,
            "The sidecar session is gone. Send again to start a fresh one."@,
        ),
        TransportError::Status(400) => (ErrorCode::InvalidInput, "The sidecar rejected the request."@),
        _ => get_failure(error),
    }
}

pub fn sidecar_get_failure(error: TransportError) -> (r: NormalizedError)
    ensures
        (r.code, r.message@) == get_failure(error),
{
    match error {
        TransportError::Status(status) => error_for_status(status),
        TransportError::Timeout => host_error(ErrorCode::TimedOut, "The sidecar request timed out."),
        TransportError::Other => host_error(
            ErrorCode::ProviderUnavailable,
            "The sidecar is unreachable. Start it and try again.",
        ),
    }
}

pub fn sidecar_post_failure(error: TransportError) -> (r: NormalizedError)
    ensures
        (r.code, r.message@) == post_failure(error),
{
    match error {
        TransportError::Status(404) => host_error(
            ErrorCode::ProviderUnavailable,
            "The sidecar session is gone. Send again to start a fresh one.",
        ),
        TransportError::Status(400) => host_error(
            ErrorCode::InvalidInput,
            "The sidecar rejected the request.",
        ),
        _ => sidecar_get_failure(error),
    }
}

/// A failure of the host around its sidecar: its own state could not be
/// taken, no sidecar runs, a turn already runs, the binary did not start, or
/// an answer could not be read.
#[derive(Debug, Clone, Copy, PartialEq, Eq, Structural)]
pub enum HostFault {
    StateUnavailable,
    NotRunning,
    TurnRunning,
    SpawnFailed,
    Unreadable,
}

pub open spec fn fault_failure(fault: HostFault) -> (ErrorCode, Seq<char>) {
    match fault {
        HostFault::StateUnavailable => (
            ErrorCode::ProviderUnavailable,
            "The agent host state is unavailable. Restart BrainRoot."@,
        ),
        HostFault::NotRunning => (
            ErrorCode::ProviderUnavailable,
            "The sidecar is not running. Start it and try again."@,
        ),
        HostFault::TurnRunning => (
            ErrorCode::InvalidState,
            "A sidecar turn is already running. Cancel it before sending again."@,
        ),
        HostFault::SpawnFailed => (
            ErrorCode::ProviderUnavailable,
            "The opencode binary could not be started. Install opencode and try again."@,
        ),
        HostFault::Unreadable => (ErrorCode::MalformedResponse, "The sidecar answer could not be read."@),
    }
}

pub fn host_fault(fault: HostFault) -> (r: NormalizedError)
    ensures
        (r.code, r.message@) == fault_failure(fault),
{
    match fault {
        HostFault::StateUnavailable => host_error(
            ErrorCode::ProviderUnavailable,
            "The agent host state is unavailable. Restart BrainRoot.",
        ),
        HostFault::NotRunning => host_error(
            ErrorCode::ProviderUnavailable,
            "The sidecar is not running. Start it and try again.",
        ),
        HostFault::TurnRunning => host_error(
            ErrorCode::InvalidState,
            "A sidecar turn is already running. Cancel it before sending again.",
        ),
        HostFault::SpawnFailed => host_error(
            ErrorCode::ProviderUnavailable,
            "The opencode binary could not be started. Install opencode and try again.",
        ),
        HostFault::Unreadable => host_error(
            ErrorCode::MalformedResponse,
            "The sidecar answer could not be read.",
        ),
    }
}

/// The status of a host with no sidecar, reporting `port`.
pub fn stopped_status(port: u16) -> (r: AgentHostStatus)
    ensures
        r == (AgentHostStatus { running: false, port, version: None, pid: None }),
{
    AgentHostStatus { running: false, port, version: None, pid: None }
}

/// The status of a running sidecar.
pub fn running_status(port: u16, version: &str, pid: u32) -> (r: AgentHostStatus)
    ensures
        r.running,
        r.port == port,
        r.version matches Some(v) && v@ == version@,
        r.pid == Some(pid),
{
    AgentHostStatus { running: true, port, version: Some(owned(version)), pid: Some(pid) }
}

/// Whether a running sidecar is kept by a start: only when it listens on
/// the requested port and answers its health probe, whose version it then
/// reports; otherwise it is replaced.
pub fn reuse_running(same_port: bool, probe: Result<String, NormalizedError>) -> (r: Option<String>)
    ensures
        r is Some <==> same_port && probe is Ok,
        r matches Some(v) ==> probe matches Ok(x) && v@ == x@,
{
    if !same_port {
        return None;
    }
    match probe {
        Ok(version) => Some(version),
        Err(_) => None,
    }
}

/// Whether a send may go ahead: refused while a turn still runs, and when no
/// sidecar runs; a running turn is reported first.
pub fn send_gate(turn_running: bool, sidecar_running: bool) -> (r: Result<(), NormalizedError>)
    ensures
        r is Ok <==> !turn_running && sidecar_running,
        r matches Err(e) ==> (e.code, e.message@) == fault_failure(
            if turn_running {
                HostFault::TurnRunning
            } else {
                HostFault::NotRunning
            },
        ),
{
    if turn_running {
        Err(host_fault(HostFault::TurnRunning))
    } else if !sidecar_running {
        Err(host_fault(HostFault::NotRunning))
    } else {
        Ok(())
    }
}

/// Whether a sidecar idle for `idle` must be stopped under the budget
/// `max_idle`: when it has been idle at least that long.
pub fn idle_stop_due(idle: Option<Duration>, max_idle: Duration) -> (r: bool)
    ensures
        r == (idle matches Some(d) && duration_nanos(d) >= duration_nanos(max_idle)),
{
    match idle {
        Some(d) => nanos(d) >= nanos(max_idle),
        None => false,
    }
}

/// What one readiness probe means while the sidecar starts.
#[derive(Debug, PartialEq, Eq)]
pub enum ProbeVerdict {
    /// The sidecar is ready, with this version.
    Ready(String),
    /// The probe failed for good: a rejected credential or a rate limit.
    Fatal(NormalizedError),
    /// Not ready yet; this is the latest failure.
    Pending(NormalizedError),
}

pub fn judge_probe(probe: Result<String, NormalizedError>) -> (r: ProbeVerdict)
    ensures
        probe matches Ok(v) ==> (r matches ProbeVerdict::Ready(x) && x@ == v@),
        probe matches Err(e) ==> if e.code == ErrorCode::AuthenticationFailed || e.code
            == ErrorCode::RateLimited {
            r matches ProbeVerdict::Fatal(x) && x.code == e.code && x.message@ == e.message@
        } else {
            r matches ProbeVerdict::Pending(x) && x.code == e.code && x.message@ == e.message@
        },
{
    match probe {
        Ok(version) => ProbeVerdict::Ready(version),
        Err(error) => {
            if error.code == ErrorCode::AuthenticationFailed || error.code == ErrorCode::RateLimited {
                ProbeVerdict::Fatal(error)
            } else {
                ProbeVerdict::Pending(error)
            }
        },
    }
}

/// The failure when the sidecar never became ready and no probe said why.
pub fn not_ready_error() -> (r: NormalizedError)
    ensures
        r.code == ErrorCode::TimedOut,
        r.message@ == "The sidecar did not become ready in time."@,
{
    host_error(ErrorCode::TimedOut, "The sidecar did not become ready in time.")
}

/// The failure when the sidecar process exited while starting.
pub fn exited_early_error() -> (r: NormalizedError)
    ensures
        r.code == ErrorCode::ProviderUnavailable,
        r.message@ == "The sidecar exited before becoming ready."@,
{
    host_error(ErrorCode::ProviderUnavailable, "The sidecar exited before becoming ready.")
}

/// What a start does after a probe that found the sidecar not ready yet and
/// a pause: a sidecar that has exited fails the start; past the deadline the
/// start fails with the latest probe failure; otherwise it probes again.
pub fn wait_outcome(exited: bool, deadline_passed: bool, latest: NormalizedError) -> (r: Option<
    NormalizedError,
>)
    ensures
        exited ==> (r matches Some(e) && e.code == ErrorCode::ProviderUnavailable && e.message@
            == "The sidecar exited before becoming ready."@),
        !exited && deadline_passed ==> r == Some(latest),
        !exited && !deadline_passed ==> r is None,
{
    if exited {
        Some(exited_early_error())
    } else if deadline_passed {
        Some(latest)
    } else {
        None
    }
}

/// A turn event as plain values: its session and, for a chunk, its text, for
/// a failure, its code and message.
pub enum TurnEventView {
    Started(Seq<char>),
    TextChunk(Seq<char>, Seq<char>),
    Completed(Seq<char>),
    Failed(Seq<char>, ErrorCode, Seq<char>),
    Cancelled(Seq<char>),
}

impl View for AgentStreamEvent {
    type V = TurnEventView;

    open spec fn view(&self) -> TurnEventView {
        match self {
            AgentStreamEvent::Started { session } => TurnEventView::Started(session@),
            AgentStreamEvent::TextChunk { session, text } => TurnEventView::TextChunk(
                session@,
                text@,
            ),
            AgentStreamEvent::Completed { session } => TurnEventView::Completed(session@),
            AgentStreamEvent::Failed { session, error } => TurnEventView::Failed(
                session@,
                error.code,
                error.message@,
            ),
            AgentStreamEvent::Cancelled { session } => TurnEventView::Cancelled(session@),
        }
    }
}

/// The payload of an event-stream line: the trimmed rest of a `data:` line.
pub open spec fn line_payload(line: Seq<char>) -> Option<Seq<char>> {
    if has_prefix(line, "data:"@) {
        Some(trim_seq(line.subrange(5, line.len() as int)))
    } else {
        None
    }
}

/// A turn being read as plain values.
pub struct TurnView {
    pub session: Seq<char>,
    pub streamed: nat,
    pub ended: bool,
}

/// What one event-stream line does to a turn: nothing once it ended, or for
/// a line that is not a nonempty JSON `data:` payload, or for a frame that is
/// ignored; a text delta continues the turn unless it takes the turn past
/// [`MAX_SEND_CHARS`] characters, which fails it; the end and the failure of
/// the session end it.
pub open spec fn turn_line_step(t: TurnView, line: Seq<char>) -> (Option<TurnEventView>, TurnView) {
    if t.ended {
        (None, t)
    } else {
        match line_payload(line) {
            Some(payload) => if payload.len() == 0 {
                (None, t)
            } else {
                match json_text(payload) {
                    Some(frame) => match frame_outcome(t.session, frame) {
                        FrameView::Ignored => (None, t),
                        FrameView::TextDelta(text) => if t.streamed + text.len() > MAX_SEND_CHARS {
                            (
                                Some(
                                    TurnEventView::Failed(
                                        t.session,
                                        ErrorCode::ResponseTooLarge,
                                        "The sidecar answer exceeded the 2 MiB turn limit."@,
                                    ),
                                ),
                                TurnView { streamed: t.streamed + text.len(), ended: true, ..t },
                            )
                        } else {
                            (
                                Some(TurnEventView::TextChunk(t.session, text)),
                                TurnView { streamed: t.streamed + text.len(), ..t },
                            )
                        },
                        FrameView::Done => (
                            Some(TurnEventView::Completed(t.session)),
                            TurnView { ended: true, ..t },
                        ),
                        FrameView::Failed(message) => (
                            Some(TurnEventView::Failed(t.session, ErrorCode::ProviderUnavailable, message)),
                            TurnView { ended: true, ..t },
                        ),
                    },
                    None => (None, t),
                }
            },
            None => (None, t),
        }
    }
}

/// Whether a turn event ends the turn.
pub open spec fn ends_turn(e: TurnEventView) -> bool {
    e is Completed || e is Failed || e is Cancelled
}

/// One sidecar turn being read from the event stream, for one session.
pub struct TurnStream {
    session: String,
    streamed: usize,
    ended: bool,
}

impl View for TurnStream {
    type V = TurnView;

    closed spec fn view(&self) -> TurnView {
        TurnView { session: self.session@, streamed: self.streamed as nat, ended: self.ended }
    }
}

impl TurnStream {
    pub closed spec fn wf(&self) -> bool {
        !self.ended ==> self.streamed <= MAX_SEND_CHARS
    }

    pub fn new(session: &str) -> (r: Self)
        ensures
            r@ == (TurnView { session: session@, streamed: 0, ended: false }),
            r.wf(),
    {
        TurnStream { session: owned(session), streamed: 0, ended: false }
    }

    pub fn is_ended(&self) -> (r: bool)
        ensures
            r == self@.ended,
    {
        self.ended
    }

    /// The event that opens the turn.
    pub fn started(&self) -> (r: AgentStreamEvent)
        ensures
            r@ == TurnEventView::Started(self@.session),
    {
        AgentStreamEvent::Started { session: self.session.clone() }
    }

    fn failed(&self, code: ErrorCode, message: &str) -> (r: AgentStreamEvent)
        ensures
            r@ == TurnEventView::Failed(self@.session, code, message@),
    {
        AgentStreamEvent::Failed { session: self.session.clone(), error: host_error(code, message) }
    }

    /// The failure when the event stream cannot be opened; the turn ends.
    pub fn unreachable(&mut self) -> (r: Option<AgentStreamEvent>)
        ensures
            old(self)@.ended ==> r is None && final(self)@ == old(self)@,
            !old(self)@.ended ==> (r matches Some(e) && e@ == TurnEventView::Failed(
                old(self)@.session,
                ErrorCode::ProviderUnavailable,
                "The sidecar event stream is unreachable."@,
            )) && final(self)@ == (TurnView { ended: true, ..old(self)@ }),
            final(self).wf(),
    {
        if self.ended {
            return None;
        }
        self.ended = true;
        Some(self.failed(ErrorCode::ProviderUnavailable, "The sidecar event stream is unreachable."))
    }

    /// The cancellation the user asked for; the turn ends.
    pub fn cancel(&mut self) -> (r: Option<AgentStreamEvent>)
        ensures
            old(self)@.ended ==> r is None && final(self)@ == old(self)@,
            !old(self)@.ended ==> (r matches Some(e) && e@ == TurnEventView::Cancelled(
                old(self)@.session,
            )) && final(self)@ == (TurnView { ended: true, ..old(self)@ }),
            final(self).wf(),
    {
        if self.ended {
            return None;
        }
        self.ended = true;
        Some(AgentStreamEvent::Cancelled { session: self.session.clone() })
    }

    /// The end of the event stream: cancelled when the user asked for it,
    /// else failed, since the session never said it was done.
    pub fn end_of_stream(&mut self, cancelled: bool) -> (r: Option<AgentStreamEvent>)
        ensures
            old(self)@.ended ==> r is None && final(self)@ == old(self)@,
            !old(self)@.ended ==> final(self)@ == (TurnView { ended: true, ..old(self)@ }),
            !old(self)@.ended && cancelled ==> (r matches Some(e) && e@ == TurnEventView::Cancelled(
                old(self)@.session,
            )),
            !old(self)@.ended && !cancelled ==> (r matches Some(e) && e@ == TurnEventView::Failed(
                old(self)@.session,
                ErrorCode::ProviderUnavailable,
                "The sidecar stream ended before completion."@,
            )),
            final(self).wf(),
    {
        if self.ended {
            return None;
        }
        self.ended = true;
        if cancelled {
            Some(AgentStreamEvent::Cancelled { session: self.session.clone() })
        } else {
            Some(
                self.failed(ErrorCode::ProviderUnavailable, "The sidecar stream ended before completion."),
            )
        }
    }

    /// Takes one line of the event stream.
    pub fn on_line(&mut self, line: &str) -> (r: Option<AgentStreamEvent>)
        requires
            old(self).wf(),
        ensures
            final(self).wf(),
            final(self)@ == turn_line_step(old(self)@, line@).1,
            match turn_line_step(old(self)@, line@).0 {
                Some(e) => r matches Some(x) && x@ == e,
                None => r is None,
            },
    {
        if self.ended {
            return None;
        }
        if !starts_with(line, "data:") {
            return None;
        }
        proof {
            reveal_strlit("data:");
        }
        let payload = trim(chars_after(line, 5).as_str());
        if payload.as_str().is_empty() {
            return None;
        }
        let frame = match parse_json(payload.as_str()) {
            Some(f) => f,
            None => return None,
        };
        match classify_frame(self.session.as_str(), &frame) {
            FrameOutcome::Ignored => None,
            FrameOutcome::TextDelta(text) => {
                let count = chars_of(text.as_str()).len();
                if count > MAX_SEND_CHARS - self.streamed {
                    self.streamed = self.streamed + count;
                    self.ended = true;
                    Some(
                        self.failed(
                            ErrorCode::ResponseTooLarge,
                            "The sidecar answer exceeded the 2 MiB turn limit.",
                        ),
                    )
                } else {
                    self.streamed = self.streamed + count;
                    Some(AgentStreamEvent::TextChunk { session: self.session.clone(), text })
                }
            },
            FrameOutcome::Done => {
                self.ended = true;
                Some(AgentStreamEvent::Completed { session: self.session.clone() })
            },
            FrameOutcome::Failed(message) => {
                self.ended = true;
                Some(
                    AgentStreamEvent::Failed {
                        session: self.session.clone(),
                        error: host_error(ErrorCode::ProviderUnavailable, message.as_str()),
                    },
                )
            },
        }
    }
}

/// A turn ends at most once: after an event that ends it, every later line,
/// cancellation or end of stream yields nothing.
pub proof fn lemma_turn_ends_once(t: TurnView, line: Seq<char>)
    requires
        turn_line_step(t, line).0 matches Some(e) && ends_turn(e),
    ensures
        turn_line_step(t, line).1.ended,
        forall|l: Seq<char>| #[trigger] turn_line_step(turn_line_step(t, line).1, l).0 is None,
{
}

/// A line whose frame belongs to another session leaves the turn as it was
/// and sends nothing: a foreign `session.idle` never ends it.
pub proof fn lemma_foreign_line_keeps_turn(t: TurnView, line: Seq<char>, frame: JsonView, container: JsonView)
    requires
        line_payload(line) matches Some(p) && json_text(p) == Some(frame),
        crate::json::member(frame, "data"@) == Some(container) || (crate::json::member(frame, "data"@)
            is None && crate::json::member(frame, "properties"@) == Some(container)),
        match crate::json::member_str(container, "sessionID"@) {
            Some(s) => s != t.session,
            None => t.session.len() > 0,
        },
    ensures
        turn_line_step(t, line) == (None::<TurnEventView>, t),
{
    super::lemma_foreign_frames_ignored(t.session, frame, container);
}

} // verus!
