use brainroot::provider::contract::{
    limits, Completion, ContractError, ConversationId, ErrorCode, ModelDescriptor, ModelId,
    NormalizedError, ProviderRequest, RequestState, StopReason, StreamEvent, UserMessage,
    PROVIDER_CONTRACT_VERSION,
};

fn conversation() -> ConversationId {
    ConversationId::new("conversation-1").expect("valid conversation")
}

fn model() -> ModelId {
    ModelId::new("model-1").expect("valid model")
}

fn completion() -> Completion {
    Completion {
        conversation: conversation(),
        stop_reason: StopReason::EndTurn,
    }
}

#[test]
fn schema_version_is_accepted() {
    let request = ProviderRequest::new(
        conversation(),
        model(),
        UserMessage::new("Describe the change").expect("valid message"),
    );
    assert_eq!(request.contract_version, PROVIDER_CONTRACT_VERSION);
    assert_eq!(request.validate(), Ok(()));
}

#[test]
fn unsupported_schema_version_is_rejected() {
    let mut request = ProviderRequest::new(
        conversation(),
        model(),
        UserMessage::new("Describe the change").expect("valid message"),
    );
    request.contract_version = PROVIDER_CONTRACT_VERSION + 1;

    assert_eq!(
        request.validate(),
        Err(ContractError::UnsupportedContractVersion {
            supported: PROVIDER_CONTRACT_VERSION,
            received: PROVIDER_CONTRACT_VERSION + 1,
        })
    );
}

#[test]
fn oversized_message_is_rejected() {
    let oversized = "a".repeat(limits::MAX_USER_MESSAGE_BYTES + 1);
    let error = UserMessage::new(&oversized).expect_err("oversized messages must fail");
    assert_eq!(error.code(), ErrorCode::RequestTooLarge);
}

#[test]
fn oversized_model_id_is_rejected() {
    let oversized = "m".repeat(limits::MAX_MODEL_ID_BYTES + 1);
    let error = ModelId::new(&oversized).expect_err("oversized model IDs must fail");
    assert_eq!(error.code(), ErrorCode::RequestTooLarge);
}

#[test]
fn empty_message_is_rejected() {
    let error = UserMessage::new("   ").expect_err("empty messages must fail");
    assert_eq!(error.code(), ErrorCode::InvalidInput);
}

#[test]
fn invalid_transition_from_idle_is_rejected() {
    let error = RequestState::Idle
        .next(&StreamEvent::TextChunk {
            text: "hello".to_string(),
        })
        .expect_err("text before started must fail");
    assert_eq!(error.code(), ErrorCode::InvalidState);
}

#[test]
fn invalid_transition_from_terminal_is_rejected() {
    let error = RequestState::Terminal
        .next(&StreamEvent::Completed {
            completion: completion(),
        })
        .expect_err("a duplicate terminal event must fail");
    assert_eq!(error.code(), ErrorCode::InvalidState);
}

#[test]
fn stream_progress_maps_to_terminal_state() {
    let mut state = RequestState::Idle;
    state = state.next(&StreamEvent::Started).expect("started");
    assert_eq!(state, RequestState::Streaming);
    state = state
        .next(&StreamEvent::TextChunk {
            text: "hello".to_string(),
        })
        .expect("chunk");
    assert_eq!(state, RequestState::Streaming);
    state = state
        .next(&StreamEvent::Completed {
            completion: completion(),
        })
        .expect("completed");
    assert_eq!(state, RequestState::Terminal);
}

#[test]
fn normalized_error_maps_contract_error() {
    let error = ContractError::TooLarge {
        field: "message",
        limit: limits::MAX_USER_MESSAGE_BYTES,
        actual: limits::MAX_USER_MESSAGE_BYTES + 1,
    };
    let normalized = NormalizedError {
        code: error.code(),
        message: error.message(),
    };
    assert_eq!(normalized.code, ErrorCode::RequestTooLarge);
    assert!(normalized.message.contains("limit"));
    assert_eq!(normalized.code.as_str(), "request_too_large");
}

#[test]
fn descriptor_requires_a_display_name() {
    let error = ModelDescriptor::new(model(), "  ", true).expect_err("empty names must fail");
    assert_eq!(error.code(), ErrorCode::InvalidInput);
}

#[test]
fn contract_messages_name_the_exact_values() {
    let version = ContractError::UnsupportedContractVersion {
        supported: 1,
        received: 7,
    };
    assert_eq!(
        version.message(),
        "This BrainRoot build speaks contract version 1, but version 7 was requested."
    );
    let too_large = ContractError::TooLarge {
        field: "message",
        limit: 16384,
        actual: 16385,
    };
    assert_eq!(
        too_large.message(),
        "The message value is 16385 bytes, larger than the 16384-byte limit."
    );
    assert_eq!(
        ContractError::Empty { field: "model_id" }.message(),
        "The model_id value must not be empty."
    );
}

#[test]
fn request_validation_checks_each_field_at_its_limit() {
    let at_limit = "c".repeat(limits::MAX_CONVERSATION_ID_BYTES);
    assert!(ConversationId::new(&at_limit).is_ok());
    let over = "c".repeat(limits::MAX_CONVERSATION_ID_BYTES + 1);
    assert_eq!(
        ConversationId::new(&over).expect_err("over the limit").code(),
        ErrorCode::RequestTooLarge
    );
    let message = "é".repeat(limits::MAX_USER_MESSAGE_BYTES / 2);
    assert!(UserMessage::new(&message).is_ok());
    let message = "é".repeat(limits::MAX_USER_MESSAGE_BYTES / 2 + 1);
    assert!(UserMessage::new(&message).is_err());
}

#[test]
fn terminal_state_accepts_nothing_more() {
    for event in [
        StreamEvent::Started,
        StreamEvent::TextChunk {
            text: "late".to_string(),
        },
        StreamEvent::Completed {
            completion: completion(),
        },
    ] {
        assert_eq!(
            RequestState::Terminal
                .next(&event)
                .expect_err("terminal is final")
                .code(),
            ErrorCode::InvalidState
        );
    }
}
