//! The conversation state machine.
//!
//! One pure reducer turns user intents and neutral stream events into the
//! seven product states: empty, ready, sending, streaming, cancelling,
//! succeeded and failed. It stores no prompt or response text. A cancelled
//! request returns to ready; completion after a cancel is rejected.
use vstd::prelude::*;
use crate::provider::contract::{event_kind, EventView, StreamEvent};
use crate::text::{join2, owned};

verus! {

#[derive(Debug, Clone, Copy, PartialEq, Eq, Structural)]
pub enum ConversationState {
    Empty,
    Ready,
    Sending,
    Streaming,
    Cancelling,
    Succeeded,
    Failed,
}

pub open spec fn state_name(s: ConversationState) -> &'static str {
    match s {
        ConversationState::Empty => "empty",
        ConversationState::Ready => "ready",
        ConversationState::Sending => "sending",
        ConversationState::Streaming => "streaming",
        ConversationState::Cancelling => "cancelling",
        ConversationState::Succeeded => "succeeded",
        ConversationState::Failed => "failed",
    }
}

#[derive(Debug, PartialEq, Eq)]
pub enum ConversationEvent {
    /// The user submitted a new prompt; the caller validates and bounds it.
    Submit,
    /// The user asked to cancel the active request.
    Cancel,
    /// One neutral provider event.
    Stream(StreamEvent),
}

/// A conversation event as plain values.
pub enum ConversationEventView {
    Submit,
    Cancel,
    Stream(EventView),
}

impl View for ConversationEvent {
    type V = ConversationEventView;

    open spec fn view(&self) -> ConversationEventView {
        match self {
            ConversationEvent::Submit => ConversationEventView::Submit,
            ConversationEvent::Cancel => ConversationEventView::Cancel,
            ConversationEvent::Stream(e) => ConversationEventView::Stream(e@),
        }
    }
}

impl Clone for ConversationEvent {
    fn clone(&self) -> (r: Self)
        ensures
            r@ == self@,
    {
        match self {
            ConversationEvent::Submit => ConversationEvent::Submit,
            ConversationEvent::Cancel => ConversationEvent::Cancel,
            ConversationEvent::Stream(e) => ConversationEvent::Stream(e.clone()),
        }
    }
}

pub open spec fn conversation_event_kind(e: ConversationEventView) -> &'static str {
    match e {
        ConversationEventView::Submit => "submit",
        ConversationEventView::Cancel => "cancel",
        ConversationEventView::Stream(s) => event_kind(s),
    }
}

impl ConversationEvent {
    pub fn kind(&self) -> (r: &'static str)
        ensures
            r == conversation_event_kind(self@),
    {
        match self {
            ConversationEvent::Submit => "submit",
            ConversationEvent::Cancel => "cancel",
            ConversationEvent::Stream(event) => event.kind(),
        }
    }
}

/// A rejected transition: the state and the kind of the event it refused.
#[derive(Debug, Clone, Copy, PartialEq, Eq)]
pub struct TransitionError {
    pub state: ConversationState,
    pub event: &'static str,
}

pub open spec fn transition_error_text(state: ConversationState, event: &'static str) -> Seq<char> {
    "The conversation cannot handle a "@ + event@ + " event while it is "@ + state_name(state)@
        + "."@
}

impl TransitionError {
    pub fn message(&self) -> (r: String)
        ensures
            r@ == transition_error_text(self.state, self.event),
    {
        let r = join2("The conversation cannot handle a ", self.event);
        let r = join2(r.as_str(), " event while it is ");
        let r = join2(r.as_str(), self.state.as_str());
        join2(r.as_str(), ".")
    }
}

/// Whether a state is settled: no request is in flight.
pub open spec fn is_settled(s: ConversationState) -> bool {
    s is Empty || s is Ready || s is Succeeded || s is Failed
}

/// Whether a request is in flight and not being cancelled.
pub open spec fn is_in_flight(s: ConversationState) -> bool {
    s is Sending || s is Streaming
}

/// The transition table: a settled state accepts a submit; a request in
/// flight accepts its stream events and a cancel; a cancelling request
/// accepts only its cancellation. Everything else is rejected.
pub open spec fn conversation_step(state: ConversationState, event: ConversationEventView) -> Option<
    ConversationState,
> {
    match event {
        ConversationEventView::Submit => if is_settled(state) {
            Some(ConversationState::Sending)
        } else {
            None
        },
        ConversationEventView::Cancel => if is_in_flight(state) {
            Some(ConversationState::Cancelling)
        } else {
            None
        },
        ConversationEventView::Stream(e) => match e {
            EventView::Started => if state is Sending {
                Some(ConversationState::Streaming)
            } else {
                None
            },
            EventView::TextChunk(_) => if is_in_flight(state) {
                Some(ConversationState::Streaming)
            } else {
                None
            },
            EventView::Completed(..) => if is_in_flight(state) {
                Some(ConversationState::Succeeded)
            } else {
                None
            },
            EventView::Failed(..) => if is_in_flight(state) {
                Some(ConversationState::Failed)
            } else {
                None
            },
            EventView::Cancelled(..) => if is_in_flight(state) || state is Cancelling {
                Some(ConversationState::Ready)
            } else {
                None
            },
        },
    }
}

impl ConversationState {
    pub fn as_str(self) -> (r: &'static str)
        ensures
            r == state_name(self),
    {
        match self {
            ConversationState::Empty => "empty",
            ConversationState::Ready => "ready",
            ConversationState::Sending => "sending",
            ConversationState::Streaming => "streaming",
            ConversationState::Cancelling => "cancelling",
            ConversationState::Succeeded => "succeeded",
            ConversationState::Failed => "failed",
        }
    }

    /// Applies one event, returning the next state or a typed rejection.
    pub fn next(self, event: &ConversationEvent) -> (r: Result<Self, TransitionError>)
        ensures
            match conversation_step(self, event@) {
                Some(s) => r == Ok::<ConversationState, TransitionError>(s),
                None => r == Err::<ConversationState, TransitionError>(
                    TransitionError { state: self, event: conversation_event_kind(event@) },
                ),
            },
    {
        let accepted = match event {
            ConversationEvent::Submit => match self {
                ConversationState::Empty | ConversationState::Ready | ConversationState::Succeeded
                | ConversationState::Failed => Some(ConversationState::Sending),
                _ => None,
            },
            ConversationEvent::Cancel => match self {
                ConversationState::Sending | ConversationState::Streaming => Some(
                    ConversationState::Cancelling,
                ),
                _ => None,
            },
            ConversationEvent::Stream(stream) => match stream {
                StreamEvent::Started => match self {
                    ConversationState::Sending => Some(ConversationState::Streaming),
                    _ => None,
                },
                StreamEvent::TextChunk { .. } => match self {
                    ConversationState::Sending | ConversationState::Streaming => Some(
                        ConversationState::Streaming,
                    ),
                    _ => None,
                },
                StreamEvent::Completed { .. } => match self {
                    ConversationState::Sending | ConversationState::Streaming => Some(
                        ConversationState::Succeeded,
                    ),
                    _ => None,
                },
                StreamEvent::Failed { .. } => match self {
                    ConversationState::Sending | ConversationState::Streaming => Some(
                        ConversationState::Failed,
                    ),
                    _ => None,
                },
                StreamEvent::Cancelled { .. } => match self {
                    ConversationState::Sending | ConversationState::Streaming
                    | ConversationState::Cancelling => Some(ConversationState::Ready),
                    _ => None,
                },
            },
        };
        match accepted {
            Some(s) => Ok(s),
            None => Err(TransitionError { state: self, event: event.kind() }),
        }
    }
}

/// Once a cancel is accepted, only the cancellation is: a completion, a
/// failure, a chunk, a start, a submit or a second cancel is rejected, and the
/// cancellation leads back to ready.
pub proof fn lemma_cancel_ends_only_by_cancellation(
    state: ConversationState,
    event: ConversationEventView,
)
    requires
        conversation_step(state, ConversationEventView::Cancel) is Some,
    ensures
        conversation_step(
            conversation_step(state, ConversationEventView::Cancel)->0,
            event,
        ) is Some <==> event matches ConversationEventView::Stream(EventView::Cancelled(..)),
        event matches ConversationEventView::Stream(EventView::Cancelled(..)) ==> conversation_step(
            conversation_step(state, ConversationEventView::Cancel)->0,
            event,
        ) == Some(ConversationState::Ready),
{
}

/// A settled conversation accepts no stream event and no cancel: late chunks,
/// duplicate terminals and early events are rejected.
pub proof fn lemma_settled_rejects_stream(state: ConversationState, event: ConversationEventView)
    requires
        is_settled(state),
        !(event is Submit),
    ensures
        conversation_step(state, event) is None,
{
}

/// A request in flight ends in exactly one of the three outcomes, by the
/// terminal event that ends it, and the outcome is settled.
pub proof fn lemma_terminal_settles(state: ConversationState, event: EventView)
    requires
        is_in_flight(state),
        event is Completed || event is Failed || event is Cancelled,
    ensures
        conversation_step(state, ConversationEventView::Stream(event)) matches Some(s) && is_settled(
            s,
        ),
        event is Completed ==> conversation_step(state, ConversationEventView::Stream(event))
            == Some(ConversationState::Succeeded),
        event is Failed ==> conversation_step(state, ConversationEventView::Stream(event)) == Some(
            ConversationState::Failed,
        ),
        event is Cancelled ==> conversation_step(state, ConversationEventView::Stream(event))
            == Some(ConversationState::Ready),
{
}

} // verus!
