use brainroot::features::conversation::runner::{
    cancelled_event, EventSink, FakeRunner, GoTransport, LiveGoRunner, ProviderRunner, ResponseBody,
};
use brainroot::features::conversation::runtime::{
    ConversationSession, DiscardEnvelopes, EnvelopeSink,
};
use brainroot::features::conversation::state::ConversationState;
use brainroot::features::conversation::wire::{ConversationEnvelope, ConversationSendRequest};
use brainroot::features::conversation::catalog::select_default_model;
use brainroot::provider::contract::{
    limits, Completion, ConversationId, ErrorCode, ModelId, ProviderRequest, StopReason,
    StreamEvent, UserMessage, PROVIDER_CONTRACT_VERSION,
};
use brainroot::provider::credential::{
    CredentialError, CredentialReference, CredentialStatus, CredentialStore, CredentialValue,
    ProviderState,
};
use brainroot::provider::discovery::{
    DiscoveredModel, HttpTransport, ModelPrivacy, PrivacyDisclosure, ProtocolEndpoint,
};
use brainroot::provider::execution::CancellationToken;
use brainroot::provider::failure::GoFailure;
use brainroot::provider::go::DEFAULT_MODEL_ID;
use std::sync::{mpsc, Arc, Mutex};
use std::time::Duration;

struct UnavailableStore;

impl CredentialStore for UnavailableStore {
    fn status(&self) -> CredentialStatus {
        CredentialStatus::Unavailable
    }

    fn reference(&self) -> Option<CredentialReference> {
        None
    }

    fn resolve(&self, _reference: &CredentialReference) -> Result<CredentialValue, CredentialError> {
        Err(CredentialError::BackendUnavailable)
    }

    fn set(
        &mut self,
        _reference: CredentialReference,
        _value: CredentialValue,
    ) -> Result<(), CredentialError> {
        Err(CredentialError::BackendUnavailable)
    }
}

struct CursorBody {
    data: Vec<u8>,
    position: usize,
}

impl ResponseBody for CursorBody {
    fn read_chunk(&mut self, max: usize) -> Result<Vec<u8>, ()> {
        let end = (self.position + max).min(self.data.len());
        let chunk = self.data[self.position..end].to_vec();
        self.position = end;
        Ok(chunk)
    }
}

struct FakeTransport {
    body: Result<Vec<u8>, GoFailure>,
}

impl GoTransport for FakeTransport {
    type Body = CursorBody;

    fn post(
        &self,
        _url: &str,
        _headers: &[(String, String)],
        _body: &str,
    ) -> Result<CursorBody, GoFailure> {
        match &self.body {
            Ok(body) => Ok(CursorBody {
                data: body.clone(),
                position: 0,
            }),
            Err(failure) => Err(*failure),
        }
    }
}

struct OfflineDiscovery;

impl HttpTransport for OfflineDiscovery {
    fn get(&self, _url: &str, _headers: &[(&str, &str)]) -> Result<String, GoFailure> {
        Err(GoFailure::NetworkUnavailable)
    }
}

fn offline_runner<S: CredentialStore>(
    provider: ProviderState<S>,
) -> LiveGoRunner<S, FakeTransport, OfflineDiscovery> {
    LiveGoRunner::with_transport(
        provider,
        FakeTransport {
            body: Err(GoFailure::NetworkUnavailable),
        },
        OfflineDiscovery,
    )
}

#[test]
fn unconfigured_credential_explains_the_next_action() {
    let runner = offline_runner(ProviderState::new());

    let error = runner
        .credential()
        .err()
        .expect("no credential is configured");
    assert_eq!(error.code, ErrorCode::AuthenticationFailed);
    assert!(error
        .message
        .contains("Add the key to the system credential store"));
}

#[test]
fn unavailable_credential_store_explains_the_next_action() {
    let runner = offline_runner(ProviderState::with_store(UnavailableStore));

    let error = runner
        .credential()
        .err()
        .expect("the store is unavailable");
    assert_eq!(error.code, ErrorCode::ProviderUnavailable);
    assert!(error.message.contains("Prompts cannot be sent"));
}

fn configured_runner(
    body: Result<Vec<u8>, GoFailure>,
) -> LiveGoRunner<brainroot::provider::credential::InMemoryCredentialStore, FakeTransport, OfflineDiscovery>
{
    let provider = ProviderState::new();
    let reference = CredentialReference::new("default").expect("valid reference");
    provider
        .set_credential(
            reference,
            CredentialValue::new("fake-secret-value").expect("valid credential"),
        )
        .expect("session store accepts");

    let runner = LiveGoRunner::with_transport(provider, FakeTransport { body }, OfflineDiscovery);
    runner.store_catalog(
        Duration::ZERO,
        vec![DiscoveredModel {
            id: ModelId::new(DEFAULT_MODEL_ID).expect("static model is valid"),
            display_name: DEFAULT_MODEL_ID.to_string(),
            endpoint: None,
            privacy: ModelPrivacy::unknown(),
        }],
    );
    runner
}

fn live_request() -> ProviderRequest {
    ProviderRequest::new(
        ConversationId::new("conversation-security").expect("valid conversation"),
        ModelId::new(DEFAULT_MODEL_ID).expect("static model is valid"),
        UserMessage::new("security check").expect("valid message"),
    )
}

#[test]
fn oversized_live_response_is_rejected_offline() {
    let chunk = "data: {\"choices\":[{\"delta\":{\"content\":\"0123456789abcdef\"}}]}\n\n";
    let mut body = String::new();
    while body.len() <= limits::MAX_RESPONSE_BYTES + chunk.len() {
        body.push_str(chunk);
    }
    let runner = configured_runner(Ok(body.into_bytes()));

    let error = runner
        .run_live(&live_request(), &CancellationToken::new(), &mut Vec::<StreamEvent>::new())
        .0
        .expect_err("oversized responses are capped");
    assert_eq!(error.code, ErrorCode::ResponseTooLarge);
}

#[test]
fn transport_failure_maps_to_its_neutral_code_offline() {
    let runner = configured_runner(Err(GoFailure::from_status(401)));

    let error = runner
        .run_live(&live_request(), &CancellationToken::new(), &mut Vec::<StreamEvent>::new())
        .0
        .expect_err("transport failures are mapped");
    assert_eq!(error.code, ErrorCode::AuthenticationFailed);
}

#[test]
fn malformed_live_frame_is_rejected_offline() {
    let runner = configured_runner(Ok(b"data: {not json}\n".to_vec()));

    let error = runner
        .run_live(&live_request(), &CancellationToken::new(), &mut Vec::<StreamEvent>::new())
        .0
        .expect_err("malformed frames are rejected");
    assert_eq!(error.code, ErrorCode::MalformedResponse);
}

#[test]
fn live_stream_completes_and_emits_neutral_events() {
    let body = "data: {\"choices\":[{\"delta\":{\"content\":\"Hi\"}}]}\n\ndata: [DONE]\n";
    let runner = configured_runner(Ok(body.as_bytes().to_vec()));
    let mut events = Vec::<StreamEvent>::new();
    runner
        .run_live(&live_request(), &CancellationToken::new(), &mut events)
        .0
        .expect("stream completes");
    assert_eq!(events.len(), 3);
    assert!(matches!(&events[0], StreamEvent::Started));
    assert!(matches!(&events[1], StreamEvent::TextChunk { text } if text == "Hi"));
    assert!(matches!(&events[2], StreamEvent::Completed { .. }));
}

#[test]
fn live_stream_without_done_completes_at_the_end() {
    let body = "data: {\"choices\":[{\"delta\":{\"content\":\"Hi\"}}]}";
    let runner = configured_runner(Ok(body.as_bytes().to_vec()));
    let mut events = Vec::<StreamEvent>::new();
    runner
        .run_live(&live_request(), &CancellationToken::new(), &mut events)
        .0
        .expect("stream completes");
    assert_eq!(events.len(), 3);
    assert!(matches!(&events[2], StreamEvent::Completed { .. }));
}

#[test]
fn cancelled_live_request_emits_only_the_cancellation() {
    let runner = configured_runner(Ok(b"data: [DONE]\n".to_vec()));
    let token = CancellationToken::new();
    token.cancel(brainroot::provider::contract::CancellationReason::UserRequested);
    let mut events = Vec::<StreamEvent>::new();
    runner
        .run_live(&live_request(), &token, &mut events)
        .0
        .expect("cancellation is no failure");
    assert_eq!(events.len(), 1);
    assert!(matches!(&events[0], StreamEvent::Cancelled { .. }));
}

#[test]
fn empty_catalog_reports_no_compatible_model() {
    let provider = ProviderState::new();
    provider
        .set_credential(
            CredentialReference::new("default").expect("valid"),
            CredentialValue::new("fake-secret-value").expect("valid"),
        )
        .expect("accepts");
    let runner = offline_runner(provider);
    let error = runner
        .run_live(&live_request(), &CancellationToken::new(), &mut Vec::<StreamEvent>::new())
        .0
        .expect_err("discovery is offline");
    assert_eq!(error.code, ErrorCode::ProviderUnavailable);
    runner.store_catalog(Duration::ZERO, Vec::new());
    let error = runner
        .run_live(&live_request(), &CancellationToken::new(), &mut Vec::<StreamEvent>::new())
        .0
        .expect_err("an empty catalog is refetched and discovery is offline");
    assert_eq!(error.code, ErrorCode::ProviderUnavailable);
}

struct Channel(mpsc::Sender<ConversationEnvelope>);

impl EnvelopeSink for Channel {
    fn emit(&mut self, envelope: ConversationEnvelope) {
        self.0.send(envelope).expect("receiver remains open");
    }
}

fn input(message: &str) -> ConversationSendRequest {
    ConversationSendRequest {
        contract_version: PROVIDER_CONTRACT_VERSION,
        message: message.to_string(),
    }
}

fn fake_stream_emits_only_neutral_events_and_releases_ownership() {
    let session = ConversationSession::debug_fake();
    let (sender, receiver) = mpsc::channel();
    let (accepted, worker) = session
        .start(input("Build a small example"))
        .expect("request accepted");
    worker.run(Channel(sender));
    let events: Vec<_> = receiver.try_iter().collect();

    assert_eq!(accepted.contract_version, PROVIDER_CONTRACT_VERSION);
    assert_eq!(accepted.conversation, session.conversation_id());
    assert_eq!(
        events
            .iter()
            .filter_map(|envelope| match &envelope.event {
                StreamEvent::TextChunk { text } => Some(text.as_str()),
                _ => None,
            })
            .collect::<String>(),
        "Hello, BrainRoot"
    );
    assert!(matches!(
        events.last().map(|envelope| &envelope.event),
        Some(StreamEvent::Completed { .. })
    ));
    assert_eq!(session.state(), ConversationState::Succeeded);
    assert!(!session.is_active());

    let (_, second_worker) = session
        .start(input("Build another example"))
        .expect("terminal state releases ownership");
    second_worker.run(DiscardEnvelopes);
}

#[test]
fn runtime_fake_stream_emits_only_neutral_events_and_releases_ownership() {
    fake_stream_emits_only_neutral_events_and_releases_ownership();
}

#[test]
fn session_fake_stream_emits_only_neutral_events_and_releases_ownership() {
    fake_stream_emits_only_neutral_events_and_releases_ownership();
}

#[test]
fn cancel_without_an_active_request_is_rejected() {
    let session = ConversationSession::debug_fake();
    let error = session.cancel().expect_err("nothing to cancel");
    assert_eq!(error.code, ErrorCode::InvalidState);

    let (_, worker) = session
        .start(input("Finish first"))
        .expect("request accepted");
    worker.run(DiscardEnvelopes);
    let error = session.cancel().expect_err("no active request");
    assert_eq!(error.code, ErrorCode::InvalidState);
}

fn invalid_contract_and_messages_are_rejected_before_a_worker_starts() {
    let session = ConversationSession::debug_fake();
    let error = session
        .start(ConversationSendRequest {
            contract_version: PROVIDER_CONTRACT_VERSION + 1,
            message: "hello".to_string(),
        })
        .err()
        .expect("version rejected");
    assert_eq!(error.code, ErrorCode::UnsupportedContractVersion);

    let error = session.start(input("   ")).err().expect("empty rejected");
    assert_eq!(error.code, ErrorCode::InvalidInput);

    let oversized = "x".repeat(limits::MAX_USER_MESSAGE_BYTES + 1);
    let error = session
        .start(input(&oversized))
        .err()
        .expect("oversized rejected");
    assert_eq!(error.code, ErrorCode::RequestTooLarge);
    assert_eq!(session.state(), ConversationState::Empty);
}

#[test]
fn runtime_invalid_contract_and_messages_are_rejected_before_a_worker_starts() {
    invalid_contract_and_messages_are_rejected_before_a_worker_starts();
}

#[test]
fn session_invalid_contract_and_messages_are_rejected_before_a_worker_starts() {
    invalid_contract_and_messages_are_rejected_before_a_worker_starts();
}

fn session_model(id: &str, endpoint: ProtocolEndpoint) -> DiscoveredModel {
    DiscoveredModel {
        id: ModelId::new(id).expect("valid model"),
        display_name: id.to_string(),
        endpoint: Some(endpoint),
        privacy: ModelPrivacy {
            training: PrivacyDisclosure::Unknown,
            retention: PrivacyDisclosure::Unknown,
        },
    }
}

#[test]
fn default_model_requires_exact_id_and_supported_endpoint() {
    let catalog = vec![
        session_model(DEFAULT_MODEL_ID, ProtocolEndpoint::Messages),
        session_model("another-model", ProtocolEndpoint::ChatCompletions),
    ];
    assert_eq!(select_default_model(&catalog), None);

    let mut compatible = catalog;
    compatible.push(session_model(DEFAULT_MODEL_ID, ProtocolEndpoint::ChatCompletions));
    assert_eq!(
        select_default_model(&compatible)
            .expect("default is compatible")
            .as_str(),
        DEFAULT_MODEL_ID
    );
}

#[test]
fn cancel_moves_an_active_request_to_cancelling_and_ends_cancelled() {
    let session = ConversationSession::debug_fake();
    let (sender, receiver) = mpsc::channel();
    let (_, worker) = session.start(input("Cancel me")).expect("accepted");
    assert!(session.is_active());
    session.cancel().expect("cancel accepted");
    assert_eq!(session.state(), ConversationState::Cancelling);
    assert_eq!(
        session.cancel().expect_err("second cancel").code,
        ErrorCode::InvalidState
    );
    worker.run(Channel(sender));
    let events: Vec<_> = receiver.try_iter().collect();
    assert_eq!(
        events
            .iter()
            .filter(|envelope| matches!(&envelope.event, StreamEvent::Cancelled { .. }))
            .count(),
        1
    );
    assert!(events.iter().all(|envelope| !matches!(
        &envelope.event,
        StreamEvent::Completed { .. } | StreamEvent::Failed { .. }
    )));
    assert_eq!(session.state(), ConversationState::Ready);
    assert!(!session.is_active());
}

#[test]
fn duplicate_submit_is_rejected_while_a_request_is_active() {
    let session = ConversationSession::debug_fake();
    let (_, worker) = session.start(input("First")).expect("first accepted");
    let error = session
        .start(input("Duplicate"))
        .err()
        .expect("duplicate rejected");
    assert_eq!(error.code, ErrorCode::InvalidState);
    worker.run(DiscardEnvelopes);
    assert_eq!(session.state(), ConversationState::Succeeded);
}

struct SilentRunner;

impl ProviderRunner for SilentRunner {
    fn model(&self) -> ModelId {
        ModelId::new("silent-test").expect("valid model")
    }

    fn stream<E: EventSink>(&self, _request: &ProviderRequest, _cancel: &CancellationToken, emit: &mut E) {
        emit.emit(StreamEvent::Started);
    }
}

#[test]
fn a_runner_that_stops_early_is_closed_as_failed() {
    let session = ConversationSession::with_runner(std::sync::Arc::new(SilentRunner));
    let (sender, receiver) = mpsc::channel();
    let (_, worker) = session.start(input("hello")).expect("accepted");
    worker.run(Channel(sender));
    let events: Vec<_> = receiver.try_iter().collect();
    assert_eq!(events.len(), 2);
    match &events[1].event {
        StreamEvent::Failed { error } => {
            assert_eq!(error.code, ErrorCode::ProviderUnavailable);
            assert_eq!(
                error.message,
                "The provider request ended before a complete answer was received."
            );
        }
        other => panic!("expected a failure, got {other:?}"),
    }
    assert_eq!(session.state(), ConversationState::Failed);
    assert_eq!(session.model_id().as_str(), "silent-test");
}

#[test]
fn fake_runner_streams_the_scripted_answer() {
    let runner = FakeRunner;
    assert_eq!(runner.model().as_str(), "fake-streaming");
    let request = ProviderRequest::new(
        ConversationId::new("conversation-fake").expect("valid"),
        runner.model(),
        UserMessage::new("hello").expect("valid"),
    );
    let mut events = Vec::<StreamEvent>::new();
    runner.stream(&request, &CancellationToken::new(), &mut events);
    assert_eq!(events.len(), 5);
    assert!(matches!(&events[4], StreamEvent::Completed { .. }));
}

/// What the test does while the worker is inside the runner, between the
/// runner's first event and its last; taken once.
type WhileRunning = Mutex<Option<Box<dyn FnOnce()>>>;

fn run_once(step: &WhileRunning) {
    let action = step.lock().expect("step lock").take();
    if let Some(action) = action {
        action();
    }
}

fn completed(request: &ProviderRequest) -> StreamEvent {
    StreamEvent::Completed {
        completion: Completion {
            conversation: request.conversation.clone(),
            stop_reason: StopReason::EndTurn,
        },
    }
}

/// Starts, lets the test act, then ends cancelled if asked to, else completed.
struct BlockingRunner {
    entered: WhileRunning,
}

impl ProviderRunner for BlockingRunner {
    fn model(&self) -> ModelId {
        ModelId::new("blocking-test").expect("valid model")
    }

    fn stream<E: EventSink>(&self, request: &ProviderRequest, cancel: &CancellationToken, emit: &mut E) {
        emit.emit(StreamEvent::Started);
        run_once(&self.entered);
        if cancel.is_cancelled() {
            emit.emit(cancelled_event(&request.conversation));
        } else {
            emit.emit(completed(request));
        }
    }
}

/// Starts, lets the test act, then completes whatever happened meanwhile.
struct IgnoringCancelRunner {
    entered: WhileRunning,
}

impl ProviderRunner for IgnoringCancelRunner {
    fn model(&self) -> ModelId {
        ModelId::new("ignoring-cancel-test").expect("valid model")
    }

    fn stream<E: EventSink>(&self, request: &ProviderRequest, _cancel: &CancellationToken, emit: &mut E) {
        emit.emit(StreamEvent::Started);
        run_once(&self.entered);
        emit.emit(completed(request));
    }
}

fn blocking_session() -> (Arc<BlockingRunner>, ConversationSession<BlockingRunner>) {
    let runner = Arc::new(BlockingRunner { entered: Mutex::new(None) });
    let session = ConversationSession::with_runner(Arc::clone(&runner));
    (runner, session)
}

fn duplicate_submit_is_rejected_while_worker_owns_conversation() {
    let (runner, session) = blocking_session();
    let (_, worker) = session.start(input("First")).expect("first accepted");
    let inside = session.clone();
    *runner.entered.lock().expect("step lock") = Some(Box::new(move || {
        let error = inside.start(input("Duplicate")).err().expect("duplicate rejected");
        assert_eq!(error.code, ErrorCode::InvalidState);
    }));
    worker.run(DiscardEnvelopes);
    assert!(runner.entered.lock().expect("step lock").is_none());
    assert_eq!(session.state(), ConversationState::Succeeded);
    assert!(!session.is_active());
}

#[test]
fn runtime_duplicate_submit_is_rejected_while_worker_owns_conversation() {
    duplicate_submit_is_rejected_while_worker_owns_conversation();
}

#[test]
fn session_duplicate_submit_is_rejected_while_worker_owns_conversation() {
    duplicate_submit_is_rejected_while_worker_owns_conversation();
}

#[test]
fn cancel_moves_to_cancelling_and_emits_one_cancelled_terminal() {
    let (runner, session) = blocking_session();
    let (sender, receiver) = mpsc::channel();
    let (_, worker) = session.start(input("Cancel me")).expect("request accepted");
    let inside = session.clone();
    *runner.entered.lock().expect("step lock") = Some(Box::new(move || {
        inside.cancel().expect("cancel accepted");
        assert_eq!(inside.state(), ConversationState::Cancelling);
        assert!(inside.is_active());
    }));
    worker.run(Channel(sender));
    let events: Vec<_> = receiver.try_iter().collect();

    assert_eq!(
        events
            .iter()
            .filter(|envelope| matches!(&envelope.event, StreamEvent::Cancelled { .. }))
            .count(),
        1
    );
    assert!(matches!(
        events.last().map(|envelope| &envelope.event),
        Some(StreamEvent::Cancelled { .. })
    ));
    assert_eq!(session.state(), ConversationState::Ready);
    assert!(!session.is_active());

    let (_, next_worker) = session.start(input("Next request")).expect("cancel releases ownership");
    next_worker.run(DiscardEnvelopes);
}

#[test]
fn late_completion_after_cancel_never_emits_completed_or_failed() {
    let runner = Arc::new(IgnoringCancelRunner { entered: Mutex::new(None) });
    let session = ConversationSession::with_runner(Arc::clone(&runner));
    let (sender, receiver) = mpsc::channel();
    let (_, worker) = session.start(input("Ignore the cancel")).expect("request accepted");
    let inside = session.clone();
    *runner.entered.lock().expect("step lock") = Some(Box::new(move || {
        inside.cancel().expect("cancel accepted");
    }));
    worker.run(Channel(sender));
    let events: Vec<_> = receiver.try_iter().collect();

    assert!(events.iter().all(|envelope| !matches!(
        &envelope.event,
        StreamEvent::Completed { .. } | StreamEvent::Failed { .. }
    )));
    assert_eq!(
        events
            .iter()
            .filter(|envelope| matches!(&envelope.event, StreamEvent::Cancelled { .. }))
            .count(),
        1
    );
    assert_eq!(session.state(), ConversationState::Ready);
    assert!(!session.is_active());
}

#[test]
fn second_cancel_while_cancelling_is_rejected() {
    let (runner, session) = blocking_session();
    let (_, worker) = session.start(input("Cancel twice")).expect("request accepted");
    let inside = session.clone();
    *runner.entered.lock().expect("step lock") = Some(Box::new(move || {
        inside.cancel().expect("first cancel accepted");
        let error = inside.cancel().expect_err("second cancel rejected");
        assert_eq!(error.code, ErrorCode::InvalidState);
    }));
    worker.run(DiscardEnvelopes);
    assert!(!session.is_active());
}

#[test]
fn a_relayed_body_sends_the_events_of_its_reads_and_completes() {
    let mut body = CursorBody {
        data: b"data: {\"choices\":[{\"delta\":{\"content\":\"hi\"}}]}\n".to_vec(),
        position: 0,
    };
    let conversation = ConversationId::new("conversation-relay").expect("valid");
    let mut events = Vec::<StreamEvent>::new();
    let outcome = brainroot::features::conversation::runner::relay_body(
        &mut body,
        &conversation,
        &CancellationToken::new(),
        &mut events,
    );
    assert!(outcome.is_ok());
    assert_eq!(events.len(), 3);
    assert!(matches!(events[0], StreamEvent::Started));
    assert!(matches!(&events[1], StreamEvent::TextChunk { text } if text == "hi"));
    assert!(matches!(&events[2], StreamEvent::Completed { .. }));
}
