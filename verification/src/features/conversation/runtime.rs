//! The conversation runtime: one conversation, at most one active request
//! served by one worker, and cancellation. Starting a request hands back the
//! worker that serves it; the caller runs it, on a thread of its own.
use vstd::prelude::*;
use vstd::rwlock::RwLock;
use std::sync::Arc;
use super::runner::{
    cancelled_event, ends_at_most_once, is_terminal, lemma_ends_push, EventSink, FakeRunner, GoTransport, LiveGoRunner, ProviderRunner,
};
use super::state::{
    conversation_event_kind, conversation_step, is_in_flight, transition_error_text, ConversationEvent, ConversationEventView,
    ConversationState,
};
use super::wire::{ConversationAccepted, ConversationEnvelope, ConversationSendRequest};
use crate::provider::contract::{
    contract_error_code, contract_error_text, limits, normalized_error, request_check, text_check,
    is_terminal_view, CancellationReason, ContractError, ConversationId, ErrorCode, EventView, ModelId,
    NormalizedError, ProviderRequest, StreamEvent, UserMessage, PROVIDER_CONTRACT_VERSION,
};
use crate::provider::credential::{AnyContents, CredentialStore, ProviderState};
use crate::provider::discovery::HttpTransport;
use crate::provider::go::ends_right;
use crate::provider::execution::CancellationToken;
use crate::provider::go::{is_hyphenated_uuid, random_uuid_text};
use crate::text::{is_ws, lemma_ascii_utf8_len};

verus! {

/// Whether a request to send `message` is admitted for `conversation` and
/// `model`: the contract version first, then the message, then the request.
pub open spec fn admission(
    version: u32,
    conversation: Seq<char>,
    model: Seq<char>,
    message: Seq<char>,
) -> Result<(), ContractError> {
    if version != PROVIDER_CONTRACT_VERSION {
        Err(
            ContractError::UnsupportedContractVersion {
                supported: PROVIDER_CONTRACT_VERSION,
                received: version,
            },
        )
    } else if text_check("message", message, limits::MAX_USER_MESSAGE_BYTES) is Err {
        text_check("message", message, limits::MAX_USER_MESSAGE_BYTES)
    } else {
        request_check(PROVIDER_CONTRACT_VERSION, conversation, model, message)
    }
}

fn contract_failure(e: ContractError) -> (r: NormalizedError)
    ensures
        r.code == contract_error_code(e),
        r.message@ == contract_error_text(e),
{
    normalized_error(e.code(), e.message().as_str())
}

/// The request a send asks for, or the neutral error that refuses it.
pub fn admit_send(input: &ConversationSendRequest, conversation: &ConversationId, model: ModelId) -> (r:
    Result<ProviderRequest, NormalizedError>)
    ensures
        match admission(input.contract_version, conversation@, model@, input.message@) {
            Ok(()) => r matches Ok(request) && request.contract_version == PROVIDER_CONTRACT_VERSION
                && request.conversation@ == conversation@ && request.model@ == model@
                && request.message@ == input.message@,
            Err(e) => r matches Err(x) && x.code == contract_error_code(e) && x.message@
                == contract_error_text(e),
        },
{
    if input.contract_version != PROVIDER_CONTRACT_VERSION {
        return Err(
            contract_failure(
                ContractError::UnsupportedContractVersion {
                    supported: PROVIDER_CONTRACT_VERSION,
                    received: input.contract_version,
                },
            ),
        );
    }
    let message = match UserMessage::new(input.message.as_str()) {
        Ok(m) => m,
        Err(e) => return Err(contract_failure(e)),
    };
    let request = ProviderRequest::new(conversation.clone(), model, message);
    match request.validate() {
        Ok(()) => Ok(request),
        Err(e) => Err(contract_failure(e)),
    }
}

/// Whether a stream event belongs to `conversation`: completions and
/// cancellations name their conversation; other events belong to any.
pub open spec fn belongs_to(event: EventView, conversation: Seq<char>) -> bool {
    match event {
        EventView::Completed(c, _) => c == conversation,
        EventView::Cancelled(c, _) => c == conversation,
        _ => true,
    }
}

pub fn event_matches_conversation(event: &StreamEvent, expected: &ConversationId) -> (r: bool)
    ensures
        r == belongs_to(event@, expected@),
{
    match event {
        StreamEvent::Completed { completion } => completion.conversation.same_as(expected),
        StreamEvent::Cancelled { cancellation } => cancellation.conversation.same_as(expected),
        _ => true,
    }
}

/// The mutable part of a session: the product state, whether a worker owns
/// the conversation, and the active request's cancellation handle.
pub struct SessionCore {
    pub state: ConversationState,
    pub active: bool,
    pub cancel: Option<CancellationToken>,
}

/// What a stream event does to the product state: an event of this
/// conversation that the state machine accepts moves it; any other event is
/// dropped and changes nothing.
pub open spec fn apply_event(state: ConversationState, conversation: Seq<char>, event: EventView) -> Option<
    ConversationState,
> {
    if belongs_to(event, conversation) {
        conversation_step(state, ConversationEventView::Stream(event))
    } else {
        None
    }
}

/// The refusal of a cancel without a request in flight.
pub open spec fn nothing_to_cancel_text() -> Seq<char> {
    "There is no active request to cancel."@
}

impl SessionCore {
    /// Takes the conversation for a new request cancelled through `token`:
    /// a settled conversation moves to sending, is marked active and keeps
    /// the token; any other state refuses the submit and changes nothing.
    pub fn take_for_request(&mut self, token: CancellationToken) -> (r: Result<(), NormalizedError>)
        ensures
            r is Ok <==> conversation_step(old(self).state, ConversationEventView::Submit) is Some,
            r is Ok ==> final(self).state == ConversationState::Sending && final(self).active
                && final(self).cancel == Some(token),
            r matches Err(e) ==> e.code == ErrorCode::InvalidState && e.message@ == transition_error_text(
                old(self).state,
                conversation_event_kind(ConversationEventView::Submit),
            ) && *final(self) == *old(self),
    {
        match self.state.next(&ConversationEvent::Submit) {
            Ok(next) => {
                self.state = next;
                self.active = true;
                self.cancel = Some(token);
                Ok(())
            },
            Err(e) => Err(normalized_error(ErrorCode::InvalidState, e.message().as_str())),
        }
    }

    /// Moves a request in flight to cancelling and hands back the token to
    /// signal; without a request in flight the cancel is refused and nothing
    /// changes.
    pub fn request_cancel(&mut self) -> (r: Result<Option<CancellationToken>, NormalizedError>)
        ensures
            r is Ok <==> is_in_flight(old(self).state),
            r matches Ok(t) ==> final(self).state == ConversationState::Cancelling && t == old(
                self,
            ).cancel && final(self).active == old(self).active && final(self).cancel == old(
                self,
            ).cancel,
            r matches Err(e) ==> e.code == ErrorCode::InvalidState && e.message@
                == nothing_to_cancel_text() && *final(self) == *old(self),
    {
        match self.state.next(&ConversationEvent::Cancel) {
            Ok(next) => {
                self.state = next;
                let token = match &self.cancel {
                    Some(t) => Some(t.clone()),
                    None => None,
                };
                Ok(token)
            },
            Err(_) => Err(
                normalized_error(ErrorCode::InvalidState, "There is no active request to cancel."),
            ),
        }
    }

    /// Applies a stream event; returns whether it was accepted.
    pub fn apply(&mut self, conversation: &ConversationId, event: &StreamEvent) -> (r: bool)
        ensures
            r == apply_event(old(self).state, conversation@, event@) is Some,
            final(self).state == match apply_event(old(self).state, conversation@, event@) {
                Some(s) => s,
                None => old(self).state,
            },
            final(self).active == old(self).active,
            final(self).cancel == old(self).cancel,
    {
        if !event_matches_conversation(event, conversation) {
            return false;
        }
        match self.state.next(&ConversationEvent::Stream(event.clone())) {
            Ok(next) => {
                self.state = next;
                true
            },
            Err(_) => false,
        }
    }
}

/// Where a session sends the envelopes of its events, in order.
pub trait EnvelopeSink {
    fn emit(&mut self, envelope: ConversationEnvelope);
}

/// A sink that drops every envelope.
pub struct DiscardEnvelopes;

impl EnvelopeSink for DiscardEnvelopes {
    fn emit(&mut self, envelope: ConversationEnvelope) {
    }
}

/// The text of the failure that ends a request which stopped without a
/// terminal event.
pub open spec fn ended_early_text() -> Seq<char> {
    "The provider request ended before a complete answer was received."@
}

/// The terminal event that closes a request which stopped without one: its
/// cancellation while cancelling, a failure otherwise.
pub open spec fn closing_event(state: ConversationState, conversation: Seq<char>) -> EventView {
    if state is Cancelling {
        EventView::Cancelled(conversation, CancellationReason::UserRequested)
    } else {
        EventView::Failed(ErrorCode::ProviderUnavailable, ended_early_text())
    }
}

pub fn closing_event_for(state: ConversationState, conversation: &ConversationId) -> (r: StreamEvent)
    ensures
        r@ == closing_event(state, conversation@),
{
    match state {
        ConversationState::Cancelling => cancelled_event(conversation),
        _ => StreamEvent::Failed {
            error: normalized_error(
                ErrorCode::ProviderUnavailable,
                "The provider request ended before a complete answer was received.",
            ),
        },
    }
}

/// An envelope as plain values.
pub struct EnvelopeView {
    pub version: u32,
    pub conversation: Seq<char>,
    pub event: EventView,
}

/// The events that `envelopes` carry, in order.
pub open spec fn envelope_events(envelopes: Seq<EnvelopeView>) -> Seq<EventView> {
    envelopes.map_values(|e: EnvelopeView| e.event)
}

/// What serving one request did, as plain values: the events the runner
/// handed over, and the envelopes sent out, in order.
pub struct WorkerTrace {
    pub emitted: Seq<EventView>,
    pub sent: Seq<EnvelopeView>,
}

/// Whether the envelopes sent for `conversation` are right: each carries
/// the contract version and the conversation; each carries an event the
/// runner handed over, but for a last one that closes the request from the
/// state it was in; and no envelope but the last carries a terminal event.
pub open spec fn forwarded_right(
    conversation: Seq<char>,
    emitted: Seq<EventView>,
    sent: Seq<EnvelopeView>,
) -> bool {
    &&& forall|i: int|
        0 <= i < sent.len() ==> (#[trigger] sent[i]).version == PROVIDER_CONTRACT_VERSION
            && sent[i].conversation == conversation
    &&& forall|i: int|
        0 <= i < sent.len() ==> emitted.contains((#[trigger] sent[i]).event) || (i == sent.len() - 1
            && exists|s: ConversationState| sent[i].event == #[trigger] closing_event(s, conversation))
    &&& ends_at_most_once(envelope_events(sent))
}

/// What a sink has done for its conversation: every event the runner
/// handed over, the envelopes sent out, whether one was terminal, and the
/// state a closing event was made from.
struct Forwarded {
    conversation: ConversationId,
    received: Ghost<Seq<EventView>>,
    sent: Ghost<Seq<EnvelopeView>>,
    terminal: bool,
    closing: Ghost<Option<ConversationState>>,
}

impl Forwarded {
    #[verifier::type_invariant]
    spec fn forwarded_inv(self) -> bool {
        let sent = self.sent@;
        &&& ends_right(envelope_events(sent), self.terminal)
        &&& forall|i: int|
            0 <= i < sent.len() ==> (#[trigger] sent[i]).version == PROVIDER_CONTRACT_VERSION
                && sent[i].conversation == self.conversation@
        &&& forall|i: int|
            0 <= i < sent.len() ==> self.received@.contains((#[trigger] sent[i]).event) || (i
                == sent.len() - 1 && self.closing@ is Some && sent[i].event == closing_event(
                self.closing@->Some_0,
                self.conversation@,
            ))
    }

    spec fn conversation_view(&self) -> Seq<char> {
        self.conversation@
    }

    spec fn received_view(&self) -> Seq<EventView> {
        self.received@
    }

    spec fn sent_view(&self) -> Seq<EnvelopeView> {
        self.sent@
    }

    spec fn terminal_view(&self) -> bool {
        self.terminal
    }

    spec fn closing_view(&self) -> Option<ConversationState> {
        self.closing@
    }

    fn new(conversation: ConversationId) -> (r: Self)
        ensures
            r.conversation_view() == conversation@,
            r.received_view() == Seq::<EventView>::empty(),
            r.sent_view() == Seq::<EnvelopeView>::empty(),
            !r.terminal_view(),
    {
        proof {
            assert(envelope_events(Seq::<EnvelopeView>::empty()) =~= Seq::<EventView>::empty());
        }
        Forwarded {
            conversation,
            received: Ghost(Seq::empty()),
            sent: Ghost(Seq::empty()),
            terminal: false,
            closing: Ghost(None),
        }
    }

    fn is_terminal(&self) -> (r: bool)
        ensures
            r == self.terminal_view(),
    {
        self.terminal
    }

    fn conversation(&self) -> (r: &ConversationId)
        ensures
            r@ == self.conversation_view(),
    {
        &self.conversation
    }

    fn facts(&self)
        ensures
            forwarded_right(self.conversation_view(), self.received_view(), self.sent_view()),
            ends_right(envelope_events(self.sent_view()), self.terminal_view()),
            forall|i: int|
                0 <= i < self.sent_view().len() ==> self.received_view().contains(
                    (#[trigger] self.sent_view()[i]).event,
                ) || (i == self.sent_view().len() - 1 && self.closing_view() is Some
                    && self.sent_view()[i].event == closing_event(
                    self.closing_view()->Some_0,
                    self.conversation_view(),
                )),
    {
        proof {
            use_type_invariant(self);
            let sent = self.sent@;
            let conv = self.conversation@;
            assert forall|i: int| 0 <= i < sent.len() implies self.received@.contains(
                (#[trigger] sent[i]).event,
            ) || (i == sent.len() - 1 && exists|st: ConversationState|
                sent[i].event == #[trigger] closing_event(st, conv)) by {
                if !self.received@.contains(sent[i].event) {
                    let st = self.closing@->Some_0;
                    assert(sent[i].event == closing_event(st, conv));
                }
            }
            assert forall|k: int| 0 <= k < envelope_events(sent).len() - 1 implies !is_terminal_view(
                #[trigger] envelope_events(sent)[k],
            ) by {}
        }
    }

    /// The record after the runner handed over `event`.
    fn handed(&self, Ghost(event): Ghost<EventView>) -> (r: Self)
        ensures
            r.conversation_view() == self.conversation_view(),
            r.received_view() == self.received_view().push(event),
            r.sent_view() == self.sent_view(),
            r.terminal_view() == self.terminal_view(),
            r.closing_view() == self.closing_view(),
    {
        proof {
            use_type_invariant(self);
            let sent = self.sent@;
            let grown = self.received@.push(event);
            assert forall|i: int| 0 <= i < sent.len() && self.received@.contains(
                (#[trigger] sent[i]).event,
            ) implies grown.contains(sent[i].event) by {
                let j = choose|j: int| 0 <= j < self.received@.len() && self.received@[j] == sent[i].event;
                assert(grown[j] == sent[i].event);
            }
        }
        Forwarded {
            conversation: self.conversation.clone(),
            received: Ghost(self.received@.push(event)),
            sent: self.sent,
            terminal: self.terminal,
            closing: self.closing,
        }
    }

    /// The record after `event` went out in an envelope: an event the
    /// runner handed over, or the one closing the request from `closing`.
    fn went_out(&self, Ghost(event): Ghost<EventView>, terminal: bool, closing: Ghost<Option<ConversationState>>) -> (r:
        Self)
        requires
            terminal == is_terminal_view(event),
            !self.terminal_view(),
            closing@ is None ==> self.received_view().contains(event),
            closing@ is Some ==> event == closing_event(closing@->Some_0, self.conversation_view()),
        ensures
            r.conversation_view() == self.conversation_view(),
            r.received_view() == self.received_view(),
            r.sent_view() == self.sent_view().push(
                EnvelopeView {
                    version: PROVIDER_CONTRACT_VERSION,
                    conversation: self.conversation_view(),
                    event,
                },
            ),
            r.terminal_view() == is_terminal_view(event),
    {
        proof {
            use_type_invariant(self);
        }
        let ghost before = self.sent@;
        let ghost env = EnvelopeView {
            version: PROVIDER_CONTRACT_VERSION,
            conversation: self.conversation@,
            event,
        };
        let ghost sent = before.push(env);
        proof {
            assert(envelope_events(sent) =~= envelope_events(before).push(event));
            lemma_ends_push(envelope_events(before), event);
            assert forall|i: int| 0 <= i < sent.len() implies self.received@.contains(
                (#[trigger] sent[i]).event,
            ) || (i == sent.len() - 1 && closing@ is Some && sent[i].event == closing_event(
                closing@->Some_0,
                self.conversation@,
            )) by {
                if i < before.len() {
                    assert(sent[i] == before[i]);
                    if !self.received@.contains(before[i].event) {
                        assert(envelope_events(before)[i] == before[i].event);
                    }
                }
            }
        }
        Forwarded {
            conversation: self.conversation.clone(),
            received: self.received,
            sent: Ghost(sent),
            terminal,
            closing,
        }
    }
}

/// The sink a worker hands its runner: events pass to the session's state
/// machine, and accepted ones go out as envelopes until the first terminal.
pub struct SessionSink<F: EnvelopeSink> {
    core: Arc<RwLock<SessionCore, AnyContents>>,
    out: F,
    forwarded: Forwarded,
}

impl<F: EnvelopeSink> SessionSink<F> {
    fn apply_shared(&self, event: &StreamEvent) -> (r: bool) {
        let (mut core, handle) = self.core.acquire_write();
        let accepted = core.apply(self.forwarded.conversation(), event);
        handle.release_write(core);
        accepted
    }

    /// Sends one event out as an envelope of the conversation: an event the
    /// runner handed over, or the event that closes the request from the
    /// state `closing`.
    fn send(&mut self, event: StreamEvent, closing: Ghost<Option<ConversationState>>)
        requires
            !old(self).forwarded.terminal_view(),
            closing@ is None ==> old(self).forwarded.received_view().contains(event@),
            closing@ is Some ==> event@ == closing_event(
                closing@->Some_0,
                old(self).forwarded.conversation_view(),
            ),
        ensures
            final(self).forwarded.conversation_view() == old(self).forwarded.conversation_view(),
            final(self).forwarded.received_view() == old(self).forwarded.received_view(),
            final(self).forwarded.terminal_view() == is_terminal_view(event@),
            final(self).core == old(self).core,
    {
        let ghost ev = event@;
        let next = self.forwarded.went_out(Ghost(ev), is_terminal(&event), closing);
        let envelope = ConversationEnvelope {
            contract_version: PROVIDER_CONTRACT_VERSION,
            conversation: self.forwarded.conversation().clone(),
            event,
        };
        self.out.emit(envelope);
        self.forwarded = next;
    }
}

impl<F: EnvelopeSink> EventSink for SessionSink<F> {
    closed spec fn received(&self) -> Seq<EventView> {
        self.forwarded.received_view()
    }

    closed spec fn target(&self) -> Seq<char> {
        self.forwarded.conversation_view()
    }

    fn emit(&mut self, event: StreamEvent) {
        self.forwarded = self.forwarded.handed(Ghost(event@));
        if self.forwarded.is_terminal() {
            return;
        }
        if self.apply_shared(&event) {
            proof {
                let r = self.forwarded.received_view();
                assert(r[r.len() - 1] == event@);
            }
            self.send(event, Ghost(None));
        }
    }
}

/// The work of serving one admitted request.
pub struct RequestWorker<R: ProviderRunner> {
    core: Arc<RwLock<SessionCore, AnyContents>>,
    runner: Arc<R>,
    request: ProviderRequest,
    cancel: CancellationToken,
}

impl<R: ProviderRunner> RequestWorker<R> {
    /// The conversation of the request.
    pub closed spec fn conversation(&self) -> Seq<char> {
        self.request.conversation@
    }

    /// The message of the request.
    pub closed spec fn message(&self) -> Seq<char> {
        self.request.message@
    }

    /// Streams the request to `emit`, closes it when the runner stopped
    /// without a terminal event, and releases the conversation. The trace
    /// it hands back says what the runner handed over and what went out:
    /// envelopes of this conversation and the contract version, each with an
    /// event the runner handed over or, last, the closing event; at most one
    /// of them terminal, and it last. The run ends with a terminal envelope
    /// unless the state it found at its end refused the closing event.
    pub fn run<F: EnvelopeSink>(self, emit: F) -> (trace: Ghost<WorkerTrace>)
        ensures
            forwarded_right(self.conversation(), trace@.emitted, trace@.sent),
            ends_right(envelope_events(trace@.sent), true) || exists|s: ConversationState|
                #[trigger] apply_event(s, self.conversation(), closing_event(s, self.conversation()))
                    is None,
    {
        let mut sink = SessionSink {
            core: self.core.clone(),
            out: emit,
            forwarded: Forwarded::new(self.request.conversation.clone()),
        };
        self.runner.stream(&self.request, &self.cancel, &mut sink);
        let ghost mut refused: Option<ConversationState> = None;
        if !sink.forwarded.is_terminal() {
            let (mut core, handle) = self.core.acquire_write();
            let state = core.state;
            let event = closing_event_for(state, &self.request.conversation);
            let accepted = core.apply(&self.request.conversation, &event);
            handle.release_write(core);
            if accepted {
                proof {
                    assert(is_terminal_view(event@));
                }
                sink.send(event, Ghost(Some(state)));
            } else {
                proof {
                    refused = Some(state);
                }
            }
        }
        sink.forwarded.facts();
        proof {
            let conv = self.request.conversation@;
            assert(self.conversation() == conv);
            if refused is Some {
                let st = refused->Some_0;
                assert(apply_event(st, conv, closing_event(st, conv)) is None);
                assert(exists|s: ConversationState|
                    #[trigger] apply_event(s, self.conversation(), closing_event(s, self.conversation()))
                        is None);
            } else {
                assert(sink.forwarded.terminal_view());
            }
        }
        let (mut settled, handle) = self.core.acquire_write();
        settled.active = false;
        settled.cancel = None;
        handle.release_write(settled);
        Ghost(
            WorkerTrace {
                emitted: sink.forwarded.received_view(),
                sent: sink.forwarded.sent_view(),
            },
        )
    }
}

/// A fresh random conversation identifier.
fn new_conversation_id() -> (r: ConversationId)
    ensures
        is_hyphenated_uuid(r@),
{
    let text = random_uuid_text();
    proof {
        assert(vstd::utf8::is_ascii_chars(text@)) by {
            assert forall|i: int| 0 <= i < text@.len() implies '\0' <= #[trigger] text@[i] <= '\u{7f}' by {
                assert(is_hyphenated_uuid(text@));
            }
        }
        lemma_ascii_utf8_len(text@);
        assert(!is_ws(text@[0]));
    }
    ConversationId::from_valid(text.as_str())
}

/// One conversation with at most one active request, shared by its clones.
pub struct ConversationSession<R: ProviderRunner> {
    conversation: ConversationId,
    core: Arc<RwLock<SessionCore, AnyContents>>,
    runner: Arc<R>,
}

impl<R: ProviderRunner> Clone for ConversationSession<R> {
    fn clone(&self) -> (r: Self)
        ensures
            r.conversation() == self.conversation(),
            r.shares_with(*self),
    {
        ConversationSession {
            conversation: self.conversation.clone(),
            core: self.core.clone(),
            runner: self.runner.clone(),
        }
    }
}

impl ConversationSession<FakeRunner> {
    /// A session served by the deterministic runner.
    pub fn debug_fake() -> (r: Self)
        ensures
            r.runner() == FakeRunner,
            is_hyphenated_uuid(r.conversation()),
    {
        ConversationSession::with_runner(Arc::new(FakeRunner))
    }
}

impl<S: CredentialStore, T: GoTransport, D: HttpTransport> ConversationSession<
    LiveGoRunner<S, T, D>,
> {
    /// A session served by the live runner over the shared credential store.
    pub fn live(provider: ProviderState<S>, transport: T, discovery: D) -> (r: Self)
        ensures
            r.runner().provider() == provider,
            r.runner().transport() == transport,
            r.runner().discovery() == discovery,
            is_hyphenated_uuid(r.conversation()),
    {
        ConversationSession::with_runner(
            Arc::new(LiveGoRunner::with_transport(provider, transport, discovery)),
        )
    }
}

impl<R: ProviderRunner> ConversationSession<R> {
    /// The conversation's identifier.
    pub closed spec fn conversation(&self) -> Seq<char> {
        self.conversation@
    }

    /// The runner that serves the conversation's requests.
    pub closed spec fn runner(&self) -> R {
        *self.runner
    }

    /// Whether both handles reach the same conversation and runner.
    pub closed spec fn shares_with(&self, other: Self) -> bool {
        self.core == other.core && self.runner == other.runner
    }

    /// A new empty conversation served by `runner`, under a fresh random
    /// identifier.
    pub fn with_runner(runner: Arc<R>) -> (r: Self)
        ensures
            r.runner() == *runner,
            is_hyphenated_uuid(r.conversation()),
    {
        let core = SessionCore { state: ConversationState::Empty, active: false, cancel: None };
        ConversationSession {
            conversation: new_conversation_id(),
            core: Arc::new(RwLock::new(core, Ghost(AnyContents))),
            runner,
        }
    }

    pub fn conversation_id(&self) -> (r: ConversationId)
        ensures
            r@ == self.conversation(),
    {
        self.conversation.clone()
    }

    pub fn model_id(&self) -> (r: ModelId) {
        self.runner.model()
    }

    /// Whether a worker owns the conversation now.
    pub fn is_active(&self) -> (r: bool) {
        let read = self.core.acquire_read();
        let active = read.borrow().active;
        read.release_read();
        active
    }

    /// The product state now.
    pub fn state(&self) -> (r: ConversationState) {
        let read = self.core.acquire_read();
        let state = read.borrow().state;
        read.release_read();
        state
    }

    /// Moves the conversation to cancelling and signals the active request. A
    /// second cancel, or a cancel without an active request, is refused.
    pub fn cancel(&self) -> (r: Result<(), NormalizedError>)
        ensures
            r matches Err(e) ==> e.code == ErrorCode::InvalidState && e.message@
                == "There is no active request to cancel."@,
    {
        let (mut core, handle) = self.core.acquire_write();
        let outcome = core.request_cancel();
        handle.release_write(core);
        match outcome {
            Ok(Some(t)) => {
                t.cancel(CancellationReason::UserRequested);
                Ok(())
            },
            Ok(None) => Ok(()),
            Err(e) => Err(e),
        }
    }
}

impl<R: ProviderRunner> ConversationSession<R> {
    /// Admits a send and takes the conversation for a new request, handing
    /// back the worker that serves it. A send that is not admitted, or that
    /// arrives while a request is active, is refused and changes nothing.
    pub fn start(&self, input: ConversationSendRequest) -> (r: Result<
        (ConversationAccepted, RequestWorker<R>),
        NormalizedError,
    >)
        ensures
            r matches Ok(pair) ==> pair.0.contract_version == PROVIDER_CONTRACT_VERSION
                && pair.0.conversation@ == self.conversation() && pair.1.conversation()
                == self.conversation() && pair.1.message() == input.message@,
            input.contract_version != PROVIDER_CONTRACT_VERSION ==> (r matches Err(e) && e.code
                == ErrorCode::UnsupportedContractVersion),
            input.contract_version == PROVIDER_CONTRACT_VERSION && text_check(
                "message",
                input.message@,
                limits::MAX_USER_MESSAGE_BYTES,
            ) is Err ==> (r matches Err(e) && e.code == contract_error_code(
                text_check("message", input.message@, limits::MAX_USER_MESSAGE_BYTES)->Err_0,
            )),
            r matches Err(e) ==> (exists|c: ContractError|
                e.code == contract_error_code(c) && e.message@ == #[trigger] contract_error_text(c))
                || (e.code == ErrorCode::InvalidState && exists|s: ConversationState|
                conversation_step(s, ConversationEventView::Submit) is None && e.message@
                == #[trigger] transition_error_text(
                s,
                conversation_event_kind(ConversationEventView::Submit),
            )),
    {
        let request = match admit_send(&input, &self.conversation, self.runner.model()) {
            Ok(request) => request,
            Err(e) => return Err(e),
        };
        let token = CancellationToken::new();
        let (mut core, handle) = self.core.acquire_write();
        let taken = core.take_for_request(token.clone());
        handle.release_write(core);
        match taken {
            Ok(()) => {},
            Err(e) => return Err(e),
        }
        let accepted = ConversationAccepted {
            contract_version: PROVIDER_CONTRACT_VERSION,
            conversation: self.conversation.clone(),
        };
        let worker = RequestWorker {
            core: self.core.clone(),
            runner: self.runner.clone(),
            request,
            cancel: token,
        };
        Ok((accepted, worker))
    }
}

} // verus!
