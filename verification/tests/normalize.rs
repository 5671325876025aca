use brainroot::provider::contract::{CancellationReason, ConversationId, ErrorCode, StreamEvent};
use brainroot::provider::execution::{ExecutionEvent, TerminalReason, TimeoutKind};
use brainroot::provider::fake::{FakeProvider, FakeScenario, FakeWireStep};
use brainroot::provider::normalize::{
    NormalizeError, StreamNormalizer, MAX_PENDING_EVENTS, MAX_WIRE_BUFFER_BYTES,
};


fn normalizer() -> StreamNormalizer {
    StreamNormalizer::new(ConversationId::new("conversation-1").expect("valid id"))
}

#[test]
fn success_wire_frames_map_to_neutral_events() {
    let mut normalizer = normalizer();
    for step in FakeProvider.script(FakeScenario::Success) {
        if let FakeWireStep::Frame(payload) = step {
            normalizer.push(payload.as_bytes()).expect("frame accepted");
        }
    }

    let events = normalizer.drain();
    assert_eq!(events.len(), 5);
    assert!(matches!(&events[0], StreamEvent::Started));
    assert!(matches!(&events[1], StreamEvent::TextChunk { text } if text == "Hello"));
    assert!(matches!(&events[4], StreamEvent::Completed { .. }));
    assert!(normalizer.is_finished());
}

#[test]
fn frame_split_inside_a_multibyte_character_is_reassembled() {
    let mut normalizer = normalizer();
    let frame = r#"{"kind":"chunk","text":"café"}"#;
    for byte in frame.as_bytes() {
        normalizer
            .push(std::slice::from_ref(byte))
            .expect("byte accepted");
    }

    let events = normalizer.drain();
    assert_eq!(events.len(), 1);
    assert!(matches!(&events[0], StreamEvent::TextChunk { text } if text == "café"));
}

#[test]
fn adjacent_frames_without_a_separator_are_parsed() {
    let mut normalizer = normalizer();
    normalizer
        .push(br#"{"kind":"start"}{"kind":"chunk","text":"hi"}"#)
        .expect("frames accepted");

    let events = normalizer.drain();
    assert_eq!(events.len(), 2);
    assert!(matches!(&events[1], StreamEvent::TextChunk { text } if text == "hi"));
}

#[test]
fn malformed_json_terminates_with_malformed_response() {
    let mut normalizer = normalizer();
    normalizer
        .push(br#"{"kind":"chunk",}"#)
        .expect("input accepted");

    let events = normalizer.drain();
    assert_eq!(events.len(), 1);
    assert!(
        matches!(&events[0], StreamEvent::Failed { error } if error.code == ErrorCode::MalformedResponse)
    );
    assert!(normalizer.is_finished());
}

#[test]
fn unknown_kind_terminates_with_unknown_event() {
    let mut normalizer = normalizer();
    normalizer
        .push(br#"{"kind":"telemetry"}"#)
        .expect("input accepted");

    let events = normalizer.drain();
    assert!(
        matches!(&events[0], StreamEvent::Failed { error } if error.code == ErrorCode::UnknownEvent)
    );
}

#[test]
fn error_frames_use_plain_language_and_hide_provider_text() {
    let mut normalizer = normalizer();
    normalizer
        .push(br#"{"kind":"error","code":"authentication_failed","message":"sk-secret rejected"}"#)
        .expect("input accepted");

    let events = normalizer.drain();
    let StreamEvent::Failed { error } = &events[0] else {
        panic!("expected a failed event");
    };
    assert_eq!(error.code, ErrorCode::AuthenticationFailed);
    assert!(error.message.contains("credential"));
    assert!(!error.message.contains("sk-secret"));
}

#[test]
fn duplicate_terminal_is_rejected() {
    let mut normalizer = normalizer();
    normalizer
        .push_execution(ExecutionEvent::Terminal(TerminalReason::Completed))
        .expect("first terminal");

    assert_eq!(
        normalizer.push_execution(ExecutionEvent::Terminal(TerminalReason::Completed)),
        Err(NormalizeError::AlreadyTerminal)
    );
    assert_eq!(normalizer.drain().len(), 1);
}

#[test]
fn cancellation_race_keeps_the_first_terminal() {
    let mut normalizer = normalizer();
    normalizer.push(br#"{"kind":"start"}"#).expect("accepted");
    normalizer
        .push_execution(ExecutionEvent::Terminal(TerminalReason::Cancelled(
            CancellationReason::UserRequested,
        )))
        .expect("cancel accepted");

    assert_eq!(
        normalizer.push_execution(ExecutionEvent::Terminal(TerminalReason::Completed)),
        Err(NormalizeError::AlreadyTerminal)
    );
    let events = normalizer.drain();
    assert_eq!(events.len(), 2);
    assert!(matches!(&events[1], StreamEvent::Cancelled { .. }));
}

#[test]
fn backpressure_rejects_when_the_queue_is_full() {
    let mut normalizer = normalizer();
    for index in 0..MAX_PENDING_EVENTS {
        let frame = format!(r#"{{"kind":"chunk","text":"chunk-{index}"}}"#);
        normalizer.push(frame.as_bytes()).expect("within bound");
    }

    let overflow = br#"{"kind":"chunk","text":"overflow"}"#;
    assert_eq!(
        normalizer.push(overflow),
        Err(NormalizeError::QueueFull {
            limit: MAX_PENDING_EVENTS
        })
    );
    assert_eq!(normalizer.drain().len(), MAX_PENDING_EVENTS);

    normalizer.push(overflow).expect("accepted after draining");
    assert_eq!(normalizer.drain().len(), 1);
}

#[test]
fn oversized_partial_frame_is_rejected() {
    let mut normalizer = normalizer();
    let oversized = vec![b'a'; MAX_WIRE_BUFFER_BYTES + 1];

    assert_eq!(
        normalizer.push(&oversized),
        Err(NormalizeError::BufferTooLarge {
            limit: MAX_WIRE_BUFFER_BYTES
        })
    );
}

#[test]
fn timeout_terminals_map_to_the_timed_out_code() {
    let mut normalizer = normalizer();
    normalizer
        .push_execution(ExecutionEvent::Terminal(TerminalReason::TimedOut(
            TimeoutKind::Read,
        )))
        .expect("terminal");

    let events = normalizer.drain();
    assert!(
        matches!(&events[0], StreamEvent::Failed { error } if error.code == ErrorCode::TimedOut && error.message.contains("stopped sending"))
    );
}

#[test]
fn response_too_large_maps_to_its_code() {
    let mut normalizer = normalizer();
    normalizer
        .push_execution(ExecutionEvent::Terminal(TerminalReason::ResponseTooLarge {
            limit: 20,
        }))
        .expect("terminal");

    let events = normalizer.drain();
    assert!(
        matches!(&events[0], StreamEvent::Failed { error } if error.code == ErrorCode::ResponseTooLarge && error.message.contains("20"))
    );
}

#[test]
fn wire_end_frame_terminates_the_stream() {
    let mut normalizer = normalizer();
    normalizer
        .push(br#"{"kind":"start"}{"kind":"end"}"#)
        .expect("accepted");

    let events = normalizer.drain();
    assert!(matches!(&events[1], StreamEvent::Completed { .. }));
    assert_eq!(
        normalizer.push(br#"{"kind":"chunk","text":"late"}"#),
        Err(NormalizeError::AlreadyTerminal)
    );
    assert_eq!(normalizer.pending_len(), 0);
}

#[test]
fn no_events_after_a_terminal() {
    let mut normalizer = normalizer();
    normalizer
        .push_execution(ExecutionEvent::Terminal(TerminalReason::Cancelled(
            CancellationReason::UserRequested,
        )))
        .expect("terminal");
    let _ = normalizer.drain();

    assert!(normalizer.is_finished());
    assert_eq!(normalizer.pending_len(), 0);
    assert_eq!(
        normalizer.push(br#"{"kind":"start"}"#),
        Err(NormalizeError::AlreadyTerminal)
    );
}

#[test]
fn normalize_error_messages_name_the_limits() {
    assert_eq!(
        NormalizeError::BufferTooLarge { limit: 65536 }.message(),
        "The provider sent a frame larger than the 65536-byte limit."
    );
    assert_eq!(
        NormalizeError::QueueFull { limit: 64 }.message(),
        "The pending event queue is full (64 events); drain it before feeding more."
    );
    assert_eq!(
        NormalizeError::AlreadyTerminal.message(),
        "The request already reached a terminal event."
    );
}
