use brainroot::provider::contract::{ConversationId, ErrorCode, ModelId, StreamEvent, UserMessage};
use brainroot::provider::credential::CredentialValue;
use brainroot::provider::discovery::BRAINROOT_USER_AGENT;
use brainroot::provider::failure::GoFailure;
use brainroot::provider::go::{
    headers, ChatStreamParser, GoConfig, GoConfigError, SessionId, DEFAULT_MODEL_ID,
    GO_CHAT_COMPLETIONS_ENDPOINT, MAX_STREAM_LINE_BYTES, SESSION_HEADER,
};
use serde_json::Value;


const FAKE_SECRET: &str = "fake-secret-value";

fn conversation() -> ConversationId {
    ConversationId::new("conversation-1").expect("valid conversation")
}

fn credential() -> CredentialValue {
    CredentialValue::new(FAKE_SECRET).expect("valid credential")
}

fn session() -> SessionId {
    SessionId::from_value("session-fixed-for-tests").expect("valid session")
}

fn message() -> UserMessage {
    UserMessage::new("Describe a small change").expect("valid message")
}

fn kinds(events: &[StreamEvent]) -> Vec<&'static str> {
    events
        .iter()
        .map(|event| match event {
            StreamEvent::Started => "started",
            StreamEvent::TextChunk { .. } => "text_chunk",
            StreamEvent::Completed { .. } => "completed",
            StreamEvent::Cancelled { .. } => "cancelled",
            StreamEvent::Failed { .. } => "failed",
        })
        .collect()
}

#[test]
fn default_config_uses_the_documented_endpoint_and_model() {
    let config = GoConfig::default_go();

    assert_eq!(
        config.endpoint(),
        "https://opencode.ai/zen/go/v1/chat/completions"
    );
    assert_eq!(config.model().as_str(), DEFAULT_MODEL_ID);
}

#[test]
fn endpoint_validation_rejects_unsupported_values() {
    for endpoint in [
        "http://opencode.ai/zen/go/v1/chat/completions",
        "https://example.com/v1/chat/completions",
        "https://opencode.ai/zen/go/v1/messages",
        "https://opencode.ai/zen/go/v1/responses",
    ] {
        let error = GoConfig::new(endpoint, ModelId::new("m").expect("valid"))
            .expect_err("unsupported endpoint");
        assert_eq!(error.code(), ErrorCode::InvalidInput);
        assert!(!error.message().is_empty());
    }
}

#[test]
fn model_override_is_accepted() {
    let config = GoConfig::new(
        GO_CHAT_COMPLETIONS_ENDPOINT,
        ModelId::new("glm-5.3").expect("valid"),
    )
    .expect("supported endpoint");

    assert_eq!(config.model().as_str(), "glm-5.3");
}

#[test]
fn session_ids_are_unique_and_nonsecret() {
    let first = SessionId::generate();
    let second = SessionId::generate();

    assert_ne!(first, second);
    assert!(!first.as_str().is_empty());
    assert!(!first.as_str().contains(FAKE_SECRET));
    assert!(SessionId::from_value("  ").is_err());
}

#[test]
fn headers_carry_authorization_user_agent_and_session_once() {
    let headers = headers(&credential(), &session());

    let count = |name: &str| headers.iter().filter(|(key, _)| key == name).count();
    assert_eq!(count("Authorization"), 1);
    assert_eq!(count("User-Agent"), 1);
    assert_eq!(count(SESSION_HEADER), 1);
    assert_eq!(count("Content-Type"), 1);

    let authorization = headers
        .iter()
        .find(|(name, _)| name == "Authorization")
        .map(|(_, value)| value)
        .expect("authorization");
    assert_eq!(authorization, &format!("Bearer {FAKE_SECRET}"));
    let user_agent = headers
        .iter()
        .find(|(name, _)| name == "User-Agent")
        .map(|(_, value)| value)
        .expect("user agent");
    assert_eq!(user_agent, BRAINROOT_USER_AGENT);
}

#[test]
fn request_body_has_the_documented_shape() {
    let body = GoConfig::default_go()
        .build_request_body(&message())
        .expect("body builds");
    let value: Value = serde_json::from_str(&body).expect("valid json");

    assert_eq!(value["model"], DEFAULT_MODEL_ID);
    assert_eq!(value["stream"], true);
    assert_eq!(value["messages"][0]["role"], "user");
    assert_eq!(value["messages"][0]["content"], "Describe a small change");
    assert!(!body.contains(FAKE_SECRET));
}

#[test]
fn parser_reassembles_split_chunks_and_utf8() {
    let frame = "data: {\"choices\":[{\"delta\":{\"content\":\"café\"}}]}\n";
    let mut parser = ChatStreamParser::new(conversation());
    let mut events = Vec::new();
    for byte in frame.as_bytes() {
        events.extend(
            parser
                .push(std::slice::from_ref(byte))
                .expect("byte accepted"),
        );
    }

    assert_eq!(kinds(&events), vec!["started", "text_chunk"]);
    assert!(matches!(&events[1], StreamEvent::TextChunk { text } if text == "café"));
}

#[test]
fn parser_maps_delta_to_text_and_done_to_completed() {
    let stream = "data: {\"choices\":[{\"delta\":{\"content\":\"Hello\"}}]}\n\ndata: {\"choices\":[{\"delta\":{\"content\":\", \"}}]}\ndata: [DONE]\n";
    let mut parser = ChatStreamParser::new(conversation());
    let events = parser.push(stream.as_bytes()).expect("stream parses");

    assert_eq!(
        kinds(&events),
        vec!["started", "text_chunk", "text_chunk", "completed"]
    );
    assert!(parser.is_finished());
}

#[test]
fn parser_ignores_comments_blank_lines_and_unknown_fields() {
    let stream = ": keep-alive\n\nevent: message\ndata: {\"unknown\":true,\"choices\":[{\"delta\":{\"content\":\"hi\"},\"extra\":1}]}\ndata: [DONE]\n";
    let mut parser = ChatStreamParser::new(conversation());
    let events = parser.push(stream.as_bytes()).expect("stream parses");

    assert_eq!(kinds(&events), vec!["started", "text_chunk", "completed"]);
}

#[test]
fn parser_maps_provider_error_to_failed() {
    let stream = "data: {\"error\":{\"message\":\"provider blew up\"}}\n";
    let mut parser = ChatStreamParser::new(conversation());
    let events = parser.push(stream.as_bytes()).expect("stream parses");

    assert_eq!(kinds(&events), vec!["started", "failed"]);
    let StreamEvent::Failed { error } = &events[1] else {
        panic!("expected failed");
    };
    assert_eq!(error.code, ErrorCode::ProviderUnavailable);
    assert!(!error.message.contains("blew up"));
}

#[test]
fn parser_rejects_malformed_json() {
    let stream = "data: {not json}\n";
    let mut parser = ChatStreamParser::new(conversation());

    assert_eq!(
        parser.push(stream.as_bytes()),
        Err(GoFailure::MalformedResponse)
    );
}

#[test]
fn parser_ignores_events_after_the_terminal() {
    let stream = "data: [DONE]\ndata: {\"choices\":[{\"delta\":{\"content\":\"late\"}}]}\n";
    let mut parser = ChatStreamParser::new(conversation());
    let events = parser.push(stream.as_bytes()).expect("stream parses");

    assert_eq!(kinds(&events), vec!["completed"]);
    assert!(parser.push(b"data: [DONE]\n").expect("no error").is_empty());
}

#[test]
fn finish_completes_an_unterminated_stream() {
    let stream = "data: {\"choices\":[{\"delta\":{\"content\":\"partial\"}}]}\n";
    let mut parser = ChatStreamParser::new(conversation());
    let events = parser.push(stream.as_bytes()).expect("stream parses");
    assert_eq!(kinds(&events), vec!["started", "text_chunk"]);

    let finished = parser.finish();
    assert_eq!(kinds(&finished), vec!["completed"]);
    assert!(parser.finish().is_empty());
}

#[test]
fn config_error_messages_name_the_endpoint() {
    let error = GoConfig::new("https://example.com/x", ModelId::new("m").expect("valid"))
        .expect_err("unsupported");
    assert_eq!(
        error.message(),
        "The provider endpoint https://example.com/x is not the supported OpenCode Go chat endpoint."
    );
    assert_eq!(
        GoConfigError::EmptySession.message(),
        "The conversation session identifier must not be empty."
    );
}

#[test]
fn request_body_is_exact_and_escapes_the_message() {
    let body = GoConfig::default_go()
        .build_request_body(&UserMessage::new("say \"hi\"\n").expect("valid message"))
        .expect("body builds");
    assert_eq!(
        body,
        "{\"model\":\"glm-5.3-flash\",\"messages\":[{\"role\":\"user\",\"content\":\"say \\\"hi\\\"\\n\"}],\"stream\":true}"
    );
}

#[test]
fn parser_rejects_a_line_over_the_limit() {
    let mut parser = ChatStreamParser::new(conversation());
    let long = vec![b'x'; MAX_STREAM_LINE_BYTES + 1];
    assert_eq!(parser.push(&long), Err(GoFailure::MalformedResponse));
    let ok = vec![b'x'; MAX_STREAM_LINE_BYTES];
    assert!(parser.push(&ok).expect("fits").is_empty());
    assert_eq!(parser.push(b"y"), Err(GoFailure::MalformedResponse));
}

#[test]
fn parser_reads_the_array_form_and_rejects_mistyped_chunks() {
    let mut parser = ChatStreamParser::new(conversation());
    let events = parser
        .push(b"data: [[{\"delta\":{\"content\":\"a\"}},{\"delta\":null},[[\"b\"]]]]\n")
        .expect("array form parses");
    assert_eq!(kinds(&events), vec!["started", "text_chunk"]);
    assert!(matches!(&events[1], StreamEvent::TextChunk { text } if text == "ab"));

    let mut parser = ChatStreamParser::new(conversation());
    assert_eq!(
        parser.push(b"data: {\"choices\":null}\n"),
        Err(GoFailure::MalformedResponse)
    );
    let mut parser = ChatStreamParser::new(conversation());
    assert_eq!(
        parser.push(b"data: {\"error\":{\"message\":5}}\n"),
        Err(GoFailure::MalformedResponse)
    );
    let mut parser = ChatStreamParser::new(conversation());
    assert!(parser
        .push(b"data: {\"choices\":[]}\n")
        .expect("empty choices parse")
        .iter()
        .all(|event| matches!(event, StreamEvent::Started)));
}

#[test]
fn parser_replaces_invalid_utf8_before_reading_json() {
    let mut parser = ChatStreamParser::new(conversation());
    let events = parser
        .push(b"data: {\"choices\":[{\"delta\":{\"content\":\"a\xffb\"}}]}\n")
        .expect("lossy text parses");
    assert!(matches!(&events[1], StreamEvent::TextChunk { text } if text == "a\u{fffd}b"));
}

#[test]
fn split_pushes_give_the_events_of_one_push() {
    let stream = b"data: {\"choices\":[{\"delta\":{\"content\":\"one\"}}]}\ndata: {\"choices\":[{\"delta\":{\"content\":\"two\"}}]}\ndata: [DONE]\n";
    let mut whole = ChatStreamParser::new(conversation());
    let all = whole.push(stream).expect("parses");
    for split in 0..stream.len() {
        let mut parser = ChatStreamParser::new(conversation());
        let mut events = parser.push(&stream[..split]).expect("first part");
        events.extend(parser.push(&stream[split..]).expect("second part"));
        assert_eq!(events, all, "split at {split}");
        assert!(parser.is_finished());
    }
}
