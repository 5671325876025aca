use brainroot::features::conversation::catalog::select_default_model;
use brainroot::features::conversation::state::{ConversationEvent, ConversationState, TransitionError};
use brainroot::provider::contract::{
    Cancellation, CancellationReason, Completion, ConversationId, ErrorCode, ModelId,
    NormalizedError, StopReason, StreamEvent,
};
use brainroot::provider::discovery::{DiscoveredModel, ModelPrivacy, ProtocolEndpoint};
use brainroot::provider::go::DEFAULT_MODEL_ID;



fn conversation() -> ConversationId {
    ConversationId::new("conversation-1").expect("valid conversation")
}

fn completed() -> ConversationEvent {
    ConversationEvent::Stream(StreamEvent::Completed {
        completion: Completion {
            conversation: conversation(),
            stop_reason: StopReason::EndTurn,
        },
    })
}

fn cancelled() -> ConversationEvent {
    ConversationEvent::Stream(StreamEvent::Cancelled {
        cancellation: Cancellation {
            conversation: conversation(),
            reason: CancellationReason::UserRequested,
        },
    })
}

fn failed() -> ConversationEvent {
    ConversationEvent::Stream(StreamEvent::Failed {
        error: NormalizedError {
            code: ErrorCode::ProviderUnavailable,
            message: "The provider is temporarily unavailable.".to_string(),
        },
    })
}

fn chunk() -> ConversationEvent {
    ConversationEvent::Stream(StreamEvent::TextChunk {
        text: "hidden payload".to_string(),
    })
}

fn started() -> ConversationEvent {
    ConversationEvent::Stream(StreamEvent::Started)
}

fn step(state: ConversationState, event: ConversationEvent) -> ConversationState {
    state.next(&event).expect("legal transition")
}

fn rejected(state: ConversationState, event: ConversationEvent) -> TransitionError {
    state.next(&event).expect_err("illegal transition")
}

#[test]
fn submit_from_settled_states_starts_a_request() {
    for state in [
        ConversationState::Empty,
        ConversationState::Ready,
        ConversationState::Succeeded,
        ConversationState::Failed,
    ] {
        assert_eq!(
            step(state, ConversationEvent::Submit),
            ConversationState::Sending,
            "{state:?} must accept a new prompt"
        );
    }
}

#[test]
fn streaming_path_reaches_succeeded() {
    let mut state = step(ConversationState::Empty, ConversationEvent::Submit);
    state = step(state, started());
    assert_eq!(state, ConversationState::Streaming);
    state = step(state, chunk());
    assert_eq!(state, ConversationState::Streaming);
    state = step(state, chunk());
    state = step(state, completed());
    assert_eq!(state, ConversationState::Succeeded);
}

#[test]
fn chunk_without_start_is_tolerated() {
    let state = step(ConversationState::Empty, ConversationEvent::Submit);

    assert_eq!(step(state, chunk()), ConversationState::Streaming);
}

#[test]
fn failed_terminal_maps_to_failed() {
    let sending = step(ConversationState::Ready, ConversationEvent::Submit);
    assert_eq!(step(sending, failed()), ConversationState::Failed);

    let streaming = step(sending, started());
    assert_eq!(step(streaming, failed()), ConversationState::Failed);
}

#[test]
fn cancel_reaches_cancelling_and_returns_to_ready() {
    let sending = step(ConversationState::Empty, ConversationEvent::Submit);
    let cancelling = step(sending, ConversationEvent::Cancel);
    assert_eq!(cancelling, ConversationState::Cancelling);
    assert_eq!(step(cancelling, cancelled()), ConversationState::Ready);

    let streaming = step(sending, started());
    let cancelling = step(streaming, ConversationEvent::Cancel);
    assert_eq!(step(cancelling, cancelled()), ConversationState::Ready);
}

#[test]
fn cancellation_terminal_without_intent_returns_to_ready() {
    let streaming = step(
        step(ConversationState::Empty, ConversationEvent::Submit),
        started(),
    );

    assert_eq!(step(streaming, cancelled()), ConversationState::Ready);
}

#[test]
fn double_submit_is_rejected() {
    for state in [
        ConversationState::Sending,
        ConversationState::Streaming,
        ConversationState::Cancelling,
    ] {
        let error = rejected(state, ConversationEvent::Submit);
        assert_eq!(error.state, state);
        assert_eq!(error.event, "submit");
    }
}

#[test]
fn late_chunks_are_rejected() {
    for state in [
        ConversationState::Ready,
        ConversationState::Succeeded,
        ConversationState::Failed,
        ConversationState::Cancelling,
    ] {
        assert_eq!(rejected(state, chunk()).event, "text_chunk");
    }
}

#[test]
fn duplicate_terminals_are_rejected() {
    assert_eq!(
        rejected(ConversationState::Succeeded, completed()).event,
        "completed"
    );
    assert_eq!(
        rejected(ConversationState::Failed, failed()).event,
        "failed"
    );
    assert_eq!(
        rejected(ConversationState::Ready, cancelled()).event,
        "cancelled"
    );
}

#[test]
fn completion_or_failure_after_cancel_is_rejected() {
    for event in [started(), chunk(), completed(), failed()] {
        let kind = event.kind();
        let error = rejected(ConversationState::Cancelling, event);
        assert_eq!(error.event, kind);
        assert_eq!(error.state, ConversationState::Cancelling);
    }
}

#[test]
fn cancel_outside_an_active_request_is_rejected() {
    for state in [
        ConversationState::Empty,
        ConversationState::Ready,
        ConversationState::Succeeded,
        ConversationState::Failed,
    ] {
        assert_eq!(rejected(state, ConversationEvent::Cancel).event, "cancel");
    }
}

#[test]
fn state_duplicate_start_is_rejected() {
    let streaming = step(
        step(ConversationState::Empty, ConversationEvent::Submit),
        started(),
    );

    assert_eq!(rejected(streaming, started()).event, "started");
}

#[test]
fn early_events_before_a_submit_are_rejected() {
    for event in [started(), chunk(), completed(), failed(), cancelled()] {
        let kind = event.kind();
        assert_eq!(rejected(ConversationState::Empty, event).event, kind);
    }
}

#[test]
fn errors_are_plain_language_and_payload_free() {
    let error = rejected(ConversationState::Streaming, ConversationEvent::Submit);

    assert!(error.message().contains("streaming"));
    assert!(error.message().contains("submit"));
    assert!(!error.message().contains("hidden payload"));

    let error = rejected(ConversationState::Cancelling, failed());
    assert!(!error.message().contains("temporarily unavailable"));
}



fn catalog_model(id: &str, endpoint: Option<ProtocolEndpoint>) -> DiscoveredModel {
    DiscoveredModel {
        id: ModelId::new(id).expect("valid model"),
        display_name: id.to_string(),
        endpoint,
        privacy: ModelPrivacy::unknown(),
    }
}

#[test]
fn default_model_requires_exact_id_and_accepts_an_unstated_endpoint() {
    let catalog = vec![
        catalog_model(DEFAULT_MODEL_ID, Some(ProtocolEndpoint::Messages)),
        catalog_model("another-model", Some(ProtocolEndpoint::ChatCompletions)),
    ];
    assert_eq!(select_default_model(&catalog), None);

    let with_unstated = vec![catalog_model(DEFAULT_MODEL_ID, None)];
    assert_eq!(
        select_default_model(&with_unstated)
            .expect("an unstated endpoint is a candidate")
            .as_str(),
        DEFAULT_MODEL_ID
    );

    let with_chat = vec![catalog_model(
        DEFAULT_MODEL_ID,
        Some(ProtocolEndpoint::ChatCompletions),
    )];
    assert_eq!(
        select_default_model(&with_chat)
            .expect("the chat endpoint is compatible")
            .as_str(),
        DEFAULT_MODEL_ID
    );
}

#[test]
fn state_names_are_the_product_names() {
    assert_eq!(ConversationState::Empty.as_str(), "empty");
    assert_eq!(ConversationState::Cancelling.as_str(), "cancelling");
    assert_eq!(ConversationEvent::Cancel.kind(), "cancel");
    assert_eq!(
        TransitionError {
            state: ConversationState::Ready,
            event: "cancel"
        }
        .message(),
        "The conversation cannot handle a cancel event while it is ready."
    );
}

#[test]
fn first_compatible_default_wins() {
    let catalog = vec![
        catalog_model("another-model", None),
        catalog_model(DEFAULT_MODEL_ID, Some(ProtocolEndpoint::Responses)),
        catalog_model(DEFAULT_MODEL_ID, None),
        catalog_model(DEFAULT_MODEL_ID, Some(ProtocolEndpoint::ChatCompletions)),
    ];
    assert_eq!(
        select_default_model(&catalog).expect("one is compatible").as_str(),
        DEFAULT_MODEL_ID
    );
    assert_eq!(select_default_model(&[]), None);
}
