//! Provider runners for the conversation feature: the live OpenCode Go runner
//! and the deterministic fake one, and the errors they report.
use vstd::prelude::*;
use vstd::rwlock::RwLock;
use std::time::{Duration, Instant};
use super::catalog::{first_default, select_default_model};
use crate::provider::contract::{
    is_terminal_view, limits, normalized_error, Cancellation, CancellationReason, ConversationId,
    ErrorCode, EventView, ModelId, NormalizedError, ProviderRequest, StreamEvent,
};
use crate::provider::credential::{
    AnyContents, CredentialError, CredentialStatus, CredentialStore, CredentialValue,
    ProviderState,
};
use crate::provider::discovery::{
    fetch_models, model_facts, CatalogState, DiscoveredModel, HttpTransport, ModelCache, ModelFacts,
};
use crate::provider::execution::{CancellationToken, ExecutionLimits, RequestOwner};
use crate::provider::failure::{failure_code, failure_text, GoFailure};
use crate::provider::fake::{FakeProvider, FakeScenario};
use crate::provider::go::{
    ends_right, go_config_error_text, request_body, request_headers, GoConfigError, headers, lemma_finish_ends_once, lemma_push_ends_once, push_step, finish_step,
    ChatStreamParser, GoConfig, ParserView, SessionId,
    DEFAULT_MODEL_ID, GO_CHAT_COMPLETIONS_ENDPOINT,
};
use crate::provider::normalize::{events_view, StreamNormalizer};
use crate::text::{is_blank_seq, owned};
use crate::time::{clock_elapsed, clock_now, from_secs};

verus! {

/// The most bytes one read of a response asks for.
pub const READ_BUFFER_BYTES: usize = 8192;

pub open spec fn missing_credential_text() -> Seq<char> {
    "No OpenCode Go credential is configured. Add the key to the system credential store and try again."@
}

pub open spec fn unavailable_store_text() -> Seq<char> {
    "The credential store is not available on this system. Prompts cannot be sent until a credential store is available."@
}

pub open spec fn empty_credential_text() -> Seq<char> {
    "The configured credential is empty."@
}

pub open spec fn too_large_text() -> Seq<char> {
    "The provider's response was larger than BrainRoot allows."@
}

pub open spec fn connection_ended_text() -> Seq<char> {
    "The provider connection ended unexpectedly."@
}

pub open spec fn no_model_text() -> Seq<char> {
    "No compatible OpenCode Go model is available right now. Try again later."@
}

pub open spec fn fake_unreadable_text() -> Seq<char> {
    "The deterministic provider returned an unreadable response."@
}

/// The failures a live run may end with: a credential failure, no compatible
/// model, a provider failure (from discovery, the chat call or the stream's
/// content), a response over the limit, a connection that broke while
/// reading, or a request without a session.
pub open spec fn live_failure(code: ErrorCode, message: Seq<char>) -> bool {
    ||| exists|e: CredentialError| (code, message) == #[trigger] credential_failure(e)
    ||| (code == ErrorCode::InvalidInput && message == no_model_text())
    ||| exists|f: GoFailure| code == failure_code(f) && message == #[trigger] failure_text(f)
    ||| (code == ErrorCode::ResponseTooLarge && message == too_large_text())
    ||| (code == ErrorCode::ProviderUnavailable && message == connection_ended_text())
    ||| (code == ErrorCode::InvalidInput && message == go_config_error_text(
        GoConfigError::EmptySession,
    ))
}

/// The chat request a live run makes: a POST of the chat endpoint with the
/// request headers for some credential and session, and the request body for
/// some model and message.
pub open spec fn is_chat_request(url: Seq<char>, headers: Seq<(Seq<char>, Seq<char>)>, body: Seq<char>) -> bool {
    &&& url == GO_CHAT_COMPLETIONS_ENDPOINT@
    &&& exists|c: Seq<char>, s: Seq<char>| headers == #[trigger] request_headers(c, s)
    &&& exists|m: Seq<char>, t: Seq<char>| body == #[trigger] request_body(m, t)
}

/// The neutral error each credential failure becomes.
pub open spec fn credential_failure(e: CredentialError) -> (ErrorCode, Seq<char>) {
    match e {
        CredentialError::BackendUnavailable => (ErrorCode::ProviderUnavailable, unavailable_store_text()),
        CredentialError::NotConfigured | CredentialError::UnknownReference => (
            ErrorCode::AuthenticationFailed,
            missing_credential_text(),
        ),
        CredentialError::Empty => (ErrorCode::InvalidInput, empty_credential_text()),
    }
}

pub fn credential_error(error: CredentialError) -> (r: NormalizedError)
    ensures
        (r.code, r.message@) == credential_failure(error),
{
    match error {
        CredentialError::BackendUnavailable => normalized_error(
            ErrorCode::ProviderUnavailable,
            "The credential store is not available on this system. Prompts cannot be sent until a credential store is available.",
        ),
        CredentialError::NotConfigured | CredentialError::UnknownReference => normalized_error(
            ErrorCode::AuthenticationFailed,
            "No OpenCode Go credential is configured. Add the key to the system credential store and try again.",
        ),
        CredentialError::Empty => normalized_error(
            ErrorCode::InvalidInput,
            "The configured credential is empty.",
        ),
    }
}

pub fn go_error(error: GoFailure) -> (r: NormalizedError)
    ensures
        r.code == failure_code(error),
        r.message@ == failure_text(error),
{
    normalized_error(error.code(), error.message().as_str())
}

/// The event that reports a user's cancellation of `conversation`.
pub fn cancelled_event(conversation: &ConversationId) -> (r: StreamEvent)
    ensures
        r@ == EventView::Cancelled(conversation@, CancellationReason::UserRequested),
{
    StreamEvent::Cancelled {
        cancellation: Cancellation {
            conversation: conversation.clone(),
            reason: CancellationReason::UserRequested,
        },
    }
}

pub fn is_terminal(event: &StreamEvent) -> (r: bool)
    ensures
        r == crate::provider::contract::is_terminal_view(event@),
{
    event.is_terminal()
}

/// What the credential status alone decides: a configured store goes on to
/// resolve; an empty or unavailable one is refused with its next action.
pub fn status_gate(status: CredentialStatus) -> (r: Result<(), NormalizedError>)
    ensures
        status is Configured <==> r is Ok,
        status is NotConfigured ==> (r matches Err(e) && e.code == ErrorCode::AuthenticationFailed
            && e.message@ == missing_credential_text()),
        status is Unavailable ==> (r matches Err(e) && e.code == ErrorCode::ProviderUnavailable
            && e.message@ == unavailable_store_text()),
{
    match status {
        CredentialStatus::Configured => Ok(()),
        CredentialStatus::NotConfigured => Err(
            normalized_error(
                ErrorCode::AuthenticationFailed,
                "No OpenCode Go credential is configured. Add the key to the system credential store and try again.",
            ),
        ),
        CredentialStatus::Unavailable => Err(
            normalized_error(
                ErrorCode::ProviderUnavailable,
                "The credential store is not available on this system. Prompts cannot be sent until a credential store is available.",
            ),
        ),
    }
}

/// Where a runner sends the events of a request, in order.
pub trait EventSink {
    /// Every event the sink has been handed so far, in order.
    spec fn received(&self) -> Seq<EventView>;

    /// What the sink forwards events for; handing it events leaves it as it
    /// was.
    spec fn target(&self) -> Seq<char>;

    fn emit(&mut self, event: StreamEvent)
        ensures
            final(self).received() == old(self).received().push(event@),
            final(self).target() == old(self).target(),
    ;
}

impl EventSink for Vec<StreamEvent> {
    open spec fn received(&self) -> Seq<EventView> {
        events_view(self@)
    }

    open spec fn target(&self) -> Seq<char> {
        Seq::empty()
    }

    fn emit(&mut self, event: StreamEvent)
        ensures
            final(self)@ == old(self)@.push(event),
    {
        let ghost e = event;
        self.push(event);
        assert(events_view(self@) =~= events_view(old(self)@).push(e@));
    }
}

/// `after` is `before` with events added at its end.
pub open spec fn extends(before: Seq<EventView>, after: Seq<EventView>) -> bool {
    before.len() <= after.len() && after.subrange(0, before.len() as int) == before
}

/// No event but the last is a terminal event: a run ends at most once.
pub open spec fn ends_at_most_once(s: Seq<EventView>) -> bool {
    forall|k: int| 0 <= k < s.len() - 1 ==> !is_terminal_view(#[trigger] s[k])
}

/// The events added to `before` to make `after`.
pub open spec fn added(before: Seq<EventView>, after: Seq<EventView>) -> Seq<EventView> {
    after.subrange(before.len() as int, after.len() as int)
}

proof fn lemma_added(before: Seq<EventView>, more: Seq<EventView>)
    ensures
        extends(before, before + more),
        added(before, before + more) == more,
{
    assert((before + more).subrange(0, before.len() as int) =~= before);
    assert(added(before, before + more) =~= more);
}

/// A run of events with no terminal event, followed by one that ends where
/// `b` ends.
proof fn lemma_ends_concat(a: Seq<EventView>, b: Seq<EventView>, finished: bool)
    requires
        ends_right(a, false),
        ends_right(b, finished),
    ensures
        ends_right(a + b, finished),
{
    let all = a + b;
    assert forall|k: int| 0 <= k < all.len() - 1 implies !is_terminal_view(#[trigger] all[k]) by {
        if k < a.len() {
            assert(all[k] == a[k]);
            if k == a.len() - 1 {
                assert(a[k] == a.last());
            }
        } else {
            assert(all[k] == b[k - a.len()]);
        }
    }
    if b.len() > 0 {
        assert(all.last() == b.last());
    } else {
        assert(all =~= a);
    }
}

/// The events before the last of a run that ends right hold no terminal.
proof fn lemma_ends_take(b: Seq<EventView>, finished: bool, i: int)
    requires
        ends_right(b, finished),
        0 <= i <= b.len(),
        i < b.len() || !finished,
    ensures
        ends_right(b.take(i), false),
{
    let t = b.take(i);
    assert forall|k: int| 0 <= k < t.len() - 1 implies !is_terminal_view(#[trigger] t[k]) by {
        assert(t[k] == b[k]);
    }
    if t.len() > 0 {
        assert(t.last() == b[i - 1]);
        if i < b.len() {
            assert(!is_terminal_view(b[i - 1]));
        } else {
            assert(b[i - 1] == b.last());
        }
    }
}

/// One more event after a run ending right.
pub proof fn lemma_ends_push(a: Seq<EventView>, e: EventView)
    requires
        ends_right(a, false),
    ensures
        ends_right(a.push(e), is_terminal_view(e)),
{
    lemma_ends_concat(a, seq![e], is_terminal_view(e));
    assert(a + seq![e] =~= a.push(e));
}

/// One way of answering a request with neutral events.
pub trait ProviderRunner {
    fn model(&self) -> ModelId;

    /// Answers `request`, handing its events to `emit`. A runner reaches the
    /// sink only by handing it events, so the sink's target stays as it was.
    fn stream<E: EventSink>(&self, request: &ProviderRequest, cancel: &CancellationToken, emit: &mut E)
        ensures
            final(emit).target() == old(emit).target(),
    ;
}

/// The body of a streamed response, read a piece at a time. What a read
/// returns depends on the connection, so no contract is stated here.
pub trait ResponseBody {
    /// At most `max` further bytes; none at the end of the body.
    fn read_chunk(&mut self, max: usize) -> Result<Vec<u8>, ()>;
}

/// What feeding the reads `chunks` to a live stream does, read by read: the
/// events of each, until one fails.
pub open spec fn feed(s: LiveStreamView, chunks: Seq<Seq<u8>>) -> (Result<
    Seq<EventView>,
    (ErrorCode, Seq<char>),
>, LiveStreamView)
    decreases chunks.len(),
{
    if chunks.len() == 0 {
        (Ok(Seq::empty()), s)
    } else {
        let prev = feed(s, chunks.drop_last());
        match prev.0 {
            Err(e) => (Err(e), prev.1),
            Ok(evs) => {
                let step = live_bytes_step(prev.1, chunks.last());
                match step.0 {
                    Ok(more) => (Ok(evs + more), step.1),
                    Err(e) => (Err(e), step.1),
                }
            },
        }
    }
}

/// The reads that reached the stream: all of them but a last empty one,
/// which marks the end of the body.
pub open spec fn fed_reads(reads: Seq<Seq<u8>>) -> Seq<Seq<u8>> {
    if reads.len() > 0 && reads.last().len() == 0 {
        reads.drop_last()
    } else {
        reads
    }
}

/// The cancellation a run reports when the user cancels it.
pub open spec fn user_cancelled(conversation: Seq<char>) -> EventView {
    EventView::Cancelled(conversation, CancellationReason::UserRequested)
}

/// What relaying a body whose reads were `reads` sends and returns, for a
/// stream that starts as `s`: on success, the events of every read and then
/// of the end of the body, once the stream has finished or a read found the
/// body's end, or a prefix of the reads' events and the user's
/// cancellation; on failure, the events before the read that failed, with
/// that read's failure, or all the events so far when reading itself broke.
pub open spec fn relayed(
    s: LiveStreamView,
    reads: Seq<Seq<u8>>,
    sent: Seq<EventView>,
    r: Result<(), (ErrorCode, Seq<char>)>,
) -> bool {
    let fed = feed(s, fed_reads(reads));
    match r {
        Ok(()) => match fed.0 {
            Ok(evs) => {
                ||| (sent == evs + finish_step(fed.1.parser).0 && (fed.1.parser.finished || (
                    reads.len() > 0 && reads.last().len() == 0)))
                ||| exists|k: int|
                    0 <= k <= evs.len() && sent == #[trigger] evs.take(k).push(
                        user_cancelled(s.parser.conversation),
                    )
            },
            Err(_) => false,
        },
        Err(e) => {
            ||| (fed.0 == Err::<Seq<EventView>, (ErrorCode, Seq<char>)>(e) && reads.len() > 0
                && feed(s, reads.drop_last()).0 == Ok::<Seq<EventView>, (ErrorCode, Seq<char>)>(sent))
            ||| (e == (ErrorCode::ProviderUnavailable, connection_ended_text()) && fed.0 == Ok::<
                Seq<EventView>,
                (ErrorCode, Seq<char>),
            >(sent))
        },
    }
}

/// The chat call of a live run as plain values: where it goes, its headers
/// and its body.
pub struct ChatPost {
    pub url: String,
    pub headers: Vec<(String, String)>,
    pub body: String,
}

/// Headers as plain values.
pub open spec fn headers_view(headers: Seq<(String, String)>) -> Seq<(Seq<char>, Seq<char>)> {
    headers.map_values(|h: (String, String)| (h.0@, h.1@))
}

/// The chat call for `message` in `conversation`, sent with `credential`
/// to the first default model of `catalog`: refused when the catalog offers
/// no compatible model, then when the conversation is blank as a session.
pub open spec fn chat_post_of(
    credential: Seq<char>,
    catalog: Seq<ModelFacts>,
    conversation: Seq<char>,
    message: Seq<char>,
) -> Result<(Seq<char>, Seq<(Seq<char>, Seq<char>)>, Seq<char>), (ErrorCode, Seq<char>)> {
    match first_default(catalog) {
        None => Err((ErrorCode::InvalidInput, no_model_text())),
        Some(model) => if is_blank_seq(conversation) {
            Err((ErrorCode::InvalidInput, go_config_error_text(GoConfigError::EmptySession)))
        } else {
            Ok(
                (
                    GO_CHAT_COMPLETIONS_ENDPOINT@,
                    request_headers(credential, conversation),
                    request_body(model, message),
                ),
            )
        },
    }
}

/// The chat call a live run made, as plain values.
pub struct ChatCall {
    pub url: Seq<char>,
    pub headers: Seq<(Seq<char>, Seq<char>)>,
    pub body: Seq<char>,
}

/// Builds the chat call of `request` with `credential` and the default
/// model of `catalog`.
pub fn chat_post(credential: &CredentialValue, catalog: &[DiscoveredModel], request: &ProviderRequest) -> (r:
    Result<ChatPost, NormalizedError>)
    ensures
        match chat_post_of(
            credential@,
            catalog@.map_values(|m: DiscoveredModel| model_facts(m)),
            request.conversation@,
            request.message@,
        ) {
            Ok(p) => r matches Ok(c) && (c.url@, headers_view(c.headers@), c.body@) == p,
            Err(e) => r matches Err(x) && (x.code, x.message@) == e,
        },
{
    let model = match select_default_model(catalog) {
        Some(m) => m,
        None => return Err(
            normalized_error(
                ErrorCode::InvalidInput,
                "No compatible OpenCode Go model is available right now. Try again later.",
            ),
        ),
    };
    let config = match GoConfig::new(GO_CHAT_COMPLETIONS_ENDPOINT, model) {
        Ok(c) => c,
        Err(e) => return Err(normalized_error(e.code(), e.message().as_str())),
    };
    let body = match config.build_request_body(&request.message) {
        Ok(b) => b,
        Err(f) => return Err(go_error(f)),
    };
    let session = match SessionId::from_value(request.conversation.as_str()) {
        Ok(s) => s,
        Err(e) => return Err(normalized_error(e.code(), e.message().as_str())),
    };
    let request_headers = headers(&credential, &session);
    Ok(ChatPost { url: owned(config.endpoint()), headers: request_headers, body })
}

/// What the transport's answer to the chat call becomes: a body is read, a
/// failure is the neutral error of its kind.
pub fn post_answer<B>(answer: Result<B, GoFailure>) -> (r: Result<B, NormalizedError>)
    ensures
        match answer {
            Ok(b) => r == Ok::<B, NormalizedError>(b),
            Err(f) => r matches Err(e) && e.code == failure_code(f) && e.message@ == failure_text(f),
        },
{
    match answer {
        Ok(b) => Ok(b),
        Err(f) => Err(go_error(f)),
    }
}

/// What one read of the body becomes: its bytes, the end of the body when it
/// read none, or the failure of a connection that broke.
pub fn body_read(read: Result<Vec<u8>, ()>) -> (r: Result<Option<Vec<u8>>, NormalizedError>)
    ensures
        match read {
            Ok(bytes) => if bytes@.len() == 0 {
                r == Ok::<Option<Vec<u8>>, NormalizedError>(None)
            } else {
                r == Ok::<Option<Vec<u8>>, NormalizedError>(Some(bytes))
            },
            Err(()) => r matches Err(e) && e.code == ErrorCode::ProviderUnavailable && e.message@
                == connection_ended_text(),
        },
{
    match read {
        Ok(bytes) => if bytes.len() == 0 {
            Ok(None)
        } else {
            Ok(Some(bytes))
        },
        Err(()) => Err(
            normalized_error(ErrorCode::ProviderUnavailable, "The provider connection ended unexpectedly."),
        ),
    }
}

/// What a cancellation reading sends: the user's cancellation when it read
/// cancelled, nothing otherwise.
pub fn cancellation_check(cancelled: bool, conversation: &ConversationId) -> (r: Option<StreamEvent>)
    ensures
        cancelled ==> (r matches Some(e) && e@ == user_cancelled(conversation@)),
        !cancelled ==> r is None,
{
    if cancelled {
        Some(cancelled_event(conversation))
    } else {
        None
    }
}

proof fn lemma_relayed_cancel(s: LiveStreamView, reads: Seq<Seq<u8>>, evs: Seq<EventView>, k: int)
    requires
        feed(s, fed_reads(reads)).0 == Ok::<Seq<EventView>, (ErrorCode, Seq<char>)>(evs),
        0 <= k <= evs.len(),
    ensures
        relayed(s, reads, evs.take(k).push(user_cancelled(s.parser.conversation)), Ok::<(), (ErrorCode, Seq<char>)>(())),
{
}

/// The HTTP surface of the chat endpoint. What it answers depends on the
/// network, so nothing is stated of the answer. A call's `requires` sees
/// only its own arguments, so it holds the call to the shape of a chat
/// request; that the credential, session and message are the run's own is
/// left to [`chat_post`], which builds them exactly.
pub trait GoTransport {
    type Body: ResponseBody;

    fn post(&self, url: &str, headers: &[(String, String)], body: &str) -> Result<
        Self::Body,
        GoFailure,
    >
        requires
            is_chat_request(url@, headers_view(headers@), body@),
    ;
}

/// A live response being read: the chat parser and the bytes received so far.
pub struct LiveStream {
    parser: ChatStreamParser,
    received: usize,
}

/// A live response as plain values.
pub struct LiveStreamView {
    pub parser: ParserView,
    pub received: nat,
}

/// What one read's bytes do: past the response limit the request fails with
/// `ResponseTooLarge` (and the stream is left as it was); otherwise they go to
/// the parser, whose failures become their neutral errors.
pub open spec fn live_bytes_step(s: LiveStreamView, bytes: Seq<u8>) -> (Result<
    Seq<EventView>,
    (ErrorCode, Seq<char>),
>, LiveStreamView) {
    let received = s.received + bytes.len();
    if received > limits::MAX_RESPONSE_BYTES {
        (Err((ErrorCode::ResponseTooLarge, too_large_text())), s)
    } else {
        let step = push_step(s.parser, bytes);
        (
            match step.0 {
                Ok(evs) => Ok(evs),
                Err(f) => Err((failure_code(f), failure_text(f))),
            },
            LiveStreamView { parser: step.1, received },
        )
    }
}

impl View for LiveStream {
    type V = LiveStreamView;

    closed spec fn view(&self) -> LiveStreamView {
        LiveStreamView { parser: self.parser@, received: self.received as nat }
    }
}

impl LiveStream {
    pub fn new(conversation: ConversationId) -> (r: Self)
        ensures
            r@.received == 0,
            r@.parser == (ParserView {
                conversation: conversation@,
                buffer: Seq::empty(),
                started: false,
                finished: false,
            }),
    {
        LiveStream { parser: ChatStreamParser::new(conversation), received: 0 }
    }

    pub fn is_finished(&self) -> (r: bool)
        ensures
            r == self@.parser.finished,
    {
        self.parser.is_finished()
    }

    /// Takes the bytes of one read.
    pub fn on_bytes(&mut self, bytes: &[u8]) -> (r: Result<Vec<StreamEvent>, NormalizedError>)
        requires
            old(self)@.received <= limits::MAX_RESPONSE_BYTES,
        ensures
            final(self)@ == live_bytes_step(old(self)@, bytes@).1,
            match live_bytes_step(old(self)@, bytes@).0 {
                Ok(evs) => r matches Ok(v) && events_view(v@) == evs,
                Err(e) => r matches Err(x) && (x.code, x.message@) == e,
            },
    {
        if bytes.len() > limits::MAX_RESPONSE_BYTES - self.received {
            return Err(
                normalized_error(
                    ErrorCode::ResponseTooLarge,
                    "The provider's response was larger than BrainRoot allows.",
                ),
            );
        }
        self.received = self.received + bytes.len();
        match self.parser.push(bytes) {
            Ok(events) => Ok(events),
            Err(failure) => Err(go_error(failure)),
        }
    }

    /// The events that end the response when the body ends.
    pub fn on_end(&mut self) -> (r: Vec<StreamEvent>)
        ensures
            events_view(r@) == finish_step(old(self)@.parser).0,
            final(self)@ == (LiveStreamView {
                parser: finish_step(old(self)@.parser).1,
                ..old(self)@
            }),
    {
        self.parser.finish()
    }
}


/// The live OpenCode Go runner: resolves the credential, picks the default
/// model from the (cached) catalog, posts the request and streams the
/// answer, honouring cancellation between reads and events.
pub struct LiveGoRunner<S: CredentialStore, T: GoTransport, D: HttpTransport> {
    provider: ProviderState<S>,
    transport: T,
    discovery: D,
    catalog: RwLock<ModelCache, AnyContents>,
    started_at: Instant,
}

impl<S: CredentialStore, T: GoTransport, D: HttpTransport> LiveGoRunner<S, T, D> {
    /// The shared credential store the runner reads.
    pub closed spec fn provider(&self) -> ProviderState<S> {
        self.provider
    }

    /// The transport the chat requests go through.
    pub closed spec fn transport(&self) -> T {
        self.transport
    }

    /// The transport model discovery goes through.
    pub closed spec fn discovery(&self) -> D {
        self.discovery
    }

    /// A runner over the shared credential store, the chat transport and the
    /// discovery transport, with an empty catalog cache.
    pub fn with_transport(provider: ProviderState<S>, transport: T, discovery: D) -> (r: Self)
        ensures
            r.provider() == provider,
            r.transport() == transport,
            r.discovery() == discovery,
    {
        LiveGoRunner {
            provider,
            transport,
            discovery,
            catalog: RwLock::new(ModelCache::new(), Ghost(AnyContents)),
            started_at: clock_now(),
        }
    }

    /// Stores `models` as the catalog fetched at `at`.
    pub fn store_catalog(&self, at: Duration, models: Vec<crate::provider::discovery::DiscoveredModel>) {
        let (mut cache, handle) = self.catalog.acquire_write();
        cache.store(at, models);
        handle.release_write(cache);
    }

    /// The credential to send: refused with its next action when the store
    /// is empty or unavailable, or when it names nothing it can resolve.
    pub fn credential(&self) -> (r: Result<CredentialValue, NormalizedError>)
        ensures
            r matches Err(e) ==> (e.code == ErrorCode::AuthenticationFailed && e.message@
                == missing_credential_text()) || (e.code == ErrorCode::ProviderUnavailable
                && e.message@ == unavailable_store_text()) || (e.code == ErrorCode::InvalidInput
                && e.message@ == empty_credential_text()),
    {
        match status_gate(self.provider.credential_status()) {
            Ok(()) => {},
            Err(e) => return Err(e),
        }
        let reference = match self.provider.credential_reference() {
            Some(reference) => reference,
            None => return Err(credential_error(CredentialError::NotConfigured)),
        };
        match self.provider.resolve(&reference) {
            Ok(value) => Ok(value),
            Err(e) => Err(credential_error(e)),
        }
    }

    /// The current catalog: the cached one while fresh, else a new fetch,
    /// which is then cached.
    fn catalog(&self, credential: &CredentialValue) -> (r: Result<
        Vec<crate::provider::discovery::DiscoveredModel>,
        NormalizedError,
    >)
        ensures
            r matches Err(e) ==> exists|f: GoFailure| e.code == failure_code(f) && e.message@
                == #[trigger] failure_text(f),
    {
        let now = clock_elapsed(&self.started_at);
        let read = self.catalog.acquire_read();
        let cached = read.borrow().state(now);
        read.release_read();
        match cached {
            CatalogState::Fresh(models) => Ok(models),
            _ => match fetch_models(&self.discovery, credential).0 {
                Ok(models) => {
                    let stored = crate::provider::discovery::clone_models(&models);
                    self.store_catalog(now, stored);
                    Ok(models)
                },
                Err(failure) => Err(go_error(failure)),
            },
        }
    }

    /// Runs one live request, sending its events to `emit`; an error is the
    /// failure that ends it. The events sent end the request exactly once,
    /// with the last of them, when it succeeds; on an error none of them
    /// ends it, so the error can. The credential comes from the shared
    /// store, the catalog from the cache or discovery, the answer from the
    /// transport and each cancellation reading from the token, which another
    /// thread may set; what follows from each of them is exact one call
    /// down: [`chat_post`], [`post_answer`], [`relay_body`] with
    /// [`body_read`], [`cancellation_check`] and [`LiveStream`].
    pub fn run_live<E: EventSink>(
        &self,
        request: &ProviderRequest,
        cancel: &CancellationToken,
        emit: &mut E,
    ) -> (r: (Result<(), NormalizedError>, Ghost<Option<ChatCall>>))
        ensures
            extends(old(emit).received(), final(emit).received()),
            final(emit).target() == old(emit).target(),
            ends_right(added(old(emit).received(), final(emit).received()), r.0 is Ok),
            r.0 matches Err(e) ==> live_failure(e.code, e.message@),
            r.1@ matches Some(c) ==> exists|credential: Seq<char>, catalog: Seq<ModelFacts>|
                #[trigger] chat_post_of(credential, catalog, request.conversation@, request.message@)
                    == Ok::<(Seq<char>, Seq<(Seq<char>, Seq<char>)>, Seq<char>), (ErrorCode, Seq<char>)>(
                    (c.url, c.headers, c.body),
                ),
            r.0 is Ok && r.1@ is None ==> added(old(emit).received(), final(emit).received())
                == seq![user_cancelled(request.conversation@)],
            r.0 is Ok ==> exists|reads: Seq<Seq<u8>>|
                #[trigger] relayed(
                    live_start(request.conversation@),
                    reads,
                    added(old(emit).received(), final(emit).received()),
                    outcome_view(r.0),
                ),
    {
        let ghost start = emit.received();
        proof {
            lemma_added(start, Seq::empty());
            assert(start + Seq::<EventView>::empty() =~= start);
        }
        let credential = match self.credential() {
            Ok(c) => c,
            Err(e) => {
                proof {
                    assert(credential_failure(CredentialError::NotConfigured) == (
                        ErrorCode::AuthenticationFailed,
                        missing_credential_text(),
                    ));
                    assert(credential_failure(CredentialError::BackendUnavailable) == (
                        ErrorCode::ProviderUnavailable,
                        unavailable_store_text(),
                    ));
                    assert(credential_failure(CredentialError::Empty) == (
                        ErrorCode::InvalidInput,
                        empty_credential_text(),
                    ));
                }
                return (Err(e), Ghost(None));
            },
        };
        if let Some(ev) = cancellation_check(cancel.is_cancelled(), &request.conversation) {
            emit.emit(ev);
            proof {
                lemma_ends_push(Seq::empty(), emit.received().last());
                assert(Seq::<EventView>::empty().push(emit.received().last()) =~= seq![
                    emit.received().last(),
                ]);
                lemma_added(start, seq![emit.received().last()]);
                assert(start + seq![emit.received().last()] =~= emit.received());
                let s0 = live_start(request.conversation@);
                assert(Seq::<EventView>::empty().take(0).push(user_cancelled(request.conversation@))
                    =~= seq![emit.received().last()]);
                assert(relayed(
                    s0,
                    Seq::<Seq<u8>>::empty(),
                    seq![emit.received().last()],
                    Ok::<(), (ErrorCode, Seq<char>)>(()),
                ));
            }
            return (Ok(()), Ghost(None));
        }
        let catalog = match self.catalog(&credential) {
            Ok(models) => models,
            Err(e) => return (Err(e), Ghost(None)),
        };
        let post = match chat_post(&credential, catalog.as_slice(), request) {
            Ok(p) => p,
            Err(e) => {
                proof {
                    let facts = catalog@.map_values(|m: DiscoveredModel| model_facts(m));
                    assert(chat_post_of(credential@, facts, request.conversation@, request.message@) is Err);
                }
                return (Err(e), Ghost(None));
            },
        };
        proof {
            let facts = catalog@.map_values(|m: DiscoveredModel| model_facts(m));
            let model = first_default(facts)->Some_0;
            assert(headers_view(post.headers@) == request_headers(credential@, request.conversation@));
            assert(post.body@ == request_body(model, request.message@));
        }
        let answer = self.transport.post(post.url.as_str(), post.headers.as_slice(), post.body.as_str());
        let mut reader = match post_answer(answer) {
            Ok(reader) => reader,
            Err(e) => return (Err(e), Ghost(None)),
        };
        let ghost call = ChatCall {
            url: post.url@,
            headers: headers_view(post.headers@),
            body: post.body@,
        };
        proof {
            let facts = catalog@.map_values(|m: DiscoveredModel| model_facts(m));
            assert(chat_post_of(credential@, facts, request.conversation@, request.message@) == Ok::<
                (Seq<char>, Seq<(Seq<char>, Seq<char>)>, Seq<char>),
                (ErrorCode, Seq<char>),
            >((call.url, call.headers, call.body)));
        }
        (relay_body(&mut reader, &request.conversation, cancel, emit), Ghost(Some(call)))
    }
}

/// A live stream before any read.
pub open spec fn live_start(conversation: Seq<char>) -> LiveStreamView {
    LiveStreamView {
        parser: ParserView { conversation, buffer: Seq::empty(), started: false, finished: false },
        received: 0,
    }
}

/// A run's outcome as plain values.
pub open spec fn outcome_view(r: Result<(), NormalizedError>) -> Result<(), (ErrorCode, Seq<char>)> {
    match r {
        Ok(()) => Ok(()),
        Err(e) => Err((e.code, e.message@)),
    }
}

proof fn lemma_feed_push(s: LiveStreamView, chunks: Seq<Seq<u8>>, b: Seq<u8>)
    ensures
        feed(s, chunks.push(b)) == (match feed(s, chunks).0 {
            Err(e) => (Err(e), feed(s, chunks).1),
            Ok(evs) => match live_bytes_step(feed(s, chunks).1, b).0 {
                Ok(more) => (Ok(evs + more), live_bytes_step(feed(s, chunks).1, b).1),
                Err(e) => (Err(e), live_bytes_step(feed(s, chunks).1, b).1),
            },
        }),
{
    assert(chunks.push(b).drop_last() =~= chunks);
}

/// Reads a response body to its end and sends the events of what it reads.
/// What is sent is tied to the reads: the events of every read and of the
/// end of the body, or a prefix of them and the user's cancellation; a read
/// that the stream refuses ends the run with its failure, and a broken read
/// with the connection failure. The events sent end the request exactly once
/// on success and never on a failure.
pub fn relay_body<B: ResponseBody, E: EventSink>(
    reader: &mut B,
    conversation: &ConversationId,
    cancel: &CancellationToken,
    emit: &mut E,
) -> (r: Result<(), NormalizedError>)
    ensures
        extends(old(emit).received(), final(emit).received()),
            final(emit).target() == old(emit).target(),
        ends_right(added(old(emit).received(), final(emit).received()), r is Ok),
        r matches Err(e) ==> live_failure(e.code, e.message@),
        exists|reads: Seq<Seq<u8>>|
            #[trigger] relayed(
                live_start(conversation@),
                reads,
                added(old(emit).received(), final(emit).received()),
                outcome_view(r),
            ),
{
    let ghost start = emit.received();
    let ghost s0 = live_start(conversation@);
    let mut stream = LiveStream::new(conversation.clone());
    let ghost mut sent: Seq<EventView> = Seq::empty();
    let ghost mut fed: Seq<Seq<u8>> = Seq::empty();
    let ghost mut all: Seq<Seq<u8>> = Seq::empty();
    proof {
        assert(start + sent =~= start);
        assert(stream@ == s0);
    }
    while !stream.is_finished()
        invariant_except_break
            all == fed,
        invariant
            stream@.received <= limits::MAX_RESPONSE_BYTES,
            start == old(emit).received(),
                emit.target() == old(emit).target(),
            s0 == live_start(conversation@),
            emit.received() == start + sent,
            ends_right(sent, stream@.parser.finished),
            forall|k: int| 0 <= k < fed.len() ==> (#[trigger] fed[k]).len() > 0,
            feed(s0, fed) == (Ok::<Seq<EventView>, (ErrorCode, Seq<char>)>(sent), stream@),
        ensures
            stream@.received <= limits::MAX_RESPONSE_BYTES,
            emit.received() == start + sent,
            ends_right(sent, stream@.parser.finished),
            fed_reads(all) == fed,
            feed(s0, fed) == (Ok::<Seq<EventView>, (ErrorCode, Seq<char>)>(sent), stream@),
            stream@.parser.finished || (all.len() > 0 && all.last().len() == 0),
        decreases limits::MAX_RESPONSE_BYTES + 1 - stream@.received,
    {
        if let Some(ev) = cancellation_check(cancel.is_cancelled(), conversation) {
            let ghost g = ev@;
            emit.emit(ev);
            proof {
                lemma_ends_push(sent, g);
                lemma_added(start, sent.push(g));
                assert(start + sent.push(g) =~= emit.received());
                if all.len() > 0 {
                    assert(all.last() == all[all.len() - 1]);
                }
                assert(sent.take(sent.len() as int) =~= sent);
                assert(sent.push(g) == sent.take(sent.len() as int).push(user_cancelled(s0.parser.conversation)));
                lemma_relayed_cancel(s0, all, sent, sent.len() as int);
            }
            return Ok(());
        }
        let bytes = match body_read(reader.read_chunk(READ_BUFFER_BYTES)) {
            Ok(Some(bytes)) => bytes,
            Ok(None) => {
                proof {
                    all = all.push(Seq::<u8>::empty());
                    assert(all.drop_last() =~= fed);
                }
                break;
            },
            Err(e) => {
                proof {
                    lemma_added(start, sent);
                    if all.len() > 0 {
                        assert(all.last() == all[all.len() - 1]);
                    }
                    assert(relayed(
                        s0,
                        all,
                        sent,
                        Err::<(), (ErrorCode, Seq<char>)>((ErrorCode::ProviderUnavailable, connection_ended_text())),
                    ));
                }
                return Err(e);
            },
        };
        let ghost before = stream@;
        let events = match stream.on_bytes(bytes.as_slice()) {
            Ok(events) => events,
            Err(e) => {
                proof {
                    lemma_added(start, sent);
                    lemma_feed_push(s0, fed, bytes@);
                    let reads = all.push(bytes@);
                    assert(reads.last() == bytes@);
                    assert(reads.drop_last() =~= fed);
                    assert(fed_reads(reads) == reads);
                    assert(relayed(s0, reads, sent, Err::<(), (ErrorCode, Seq<char>)>((e.code, e.message@))));
                }
                return Err(e);
            },
        };
        let ghost ev = events_view(events@);
        proof {
            lemma_push_ends_once(before.parser, bytes@);
            lemma_feed_push(s0, fed, bytes@);
            all = all.push(bytes@);
            fed = fed.push(bytes@);
            assert forall|k: int| 0 <= k < fed.len() implies (#[trigger] fed[k]).len() > 0 by {
                if k < fed.len() - 1 {
                    assert(fed[k] == fed.drop_last()[k]);
                }
            }
        }
        let mut i: usize = 0;
        while i < events.len()
            invariant
                i <= events.len(),
                ev == events_view(events@),
                ends_right(ev, stream@.parser.finished),
                ends_right(sent, false),
                start == old(emit).received(),
                emit.target() == old(emit).target(),
                    s0 == live_start(conversation@),
                emit.received() == start + sent + ev.take(i as int),
                    all == fed,
                fed.len() > 0,
                forall|k: int| 0 <= k < fed.len() ==> (#[trigger] fed[k]).len() > 0,
                feed(s0, fed) == (Ok::<Seq<EventView>, (ErrorCode, Seq<char>)>(sent + ev), stream@),
            decreases events.len() - i,
        {
            if let Some(c) = cancellation_check(cancel.is_cancelled(), conversation) {
                let ghost g = c@;
                emit.emit(c);
                proof {
                    lemma_ends_take(ev, stream@.parser.finished, i as int);
                    lemma_ends_concat(sent, ev.take(i as int), false);
                    lemma_ends_push(sent + ev.take(i as int), g);
                    lemma_added(start, (sent + ev.take(i as int)).push(g));
                    assert(start + (sent + ev.take(i as int)).push(g) =~= emit.received());
                    assert(all.last() == all[all.len() - 1]);
                    let k = sent.len() + i;
                    assert((sent + ev).take(k) =~= sent + ev.take(i as int));
                    assert((sent + ev.take(i as int)).push(g) == (sent + ev).take(k).push(
                        user_cancelled(s0.parser.conversation),
                    ));
                    assert(fed[fed.len() - 1].len() > 0);
                    assert(fed_reads(all) == fed);
                    lemma_relayed_cancel(s0, all, sent + ev, k);
                }
                return Ok(());
            }
            let e = events[i].clone();
            emit.emit(e);
            proof {
                assert(ev.take(i + 1) =~= ev.take(i as int).push(ev[i as int]));
                assert(start + sent + ev.take(i + 1) =~= (start + sent + ev.take(i as int)).push(
                    ev[i as int],
                ));
            }
            i = i + 1;
        }
        proof {
            assert(ev.take(events.len() as int) =~= ev);
            lemma_ends_concat(sent, ev, stream@.parser.finished);
            assert(start + sent + ev =~= start + (sent + ev));
            sent = sent + ev;
        }
    }
    proof {
        if all == fed && fed.len() > 0 {
            assert(fed.last() == fed[fed.len() - 1]);
        }
    }
    let ghost parser = stream@.parser;
    let last = stream.on_end();
    let ghost tail = events_view(last@);
    proof {
        if parser.finished {
            lemma_push_ends_once(parser, Seq::empty());
            assert(tail =~= Seq::<EventView>::empty());
            assert(sent + tail =~= sent);
        } else {
            lemma_finish_ends_once(parser);
            lemma_ends_concat(sent, tail, true);
        }
    }
    let mut i: usize = 0;
    while i < last.len()
        invariant
            i <= last.len(),
            tail == events_view(last@),
            emit.received() == start + sent + tail.take(i as int),
            emit.target() == old(emit).target(),
        decreases last.len() - i,
    {
        let e = last[i].clone();
        emit.emit(e);
        proof {
            assert(tail.take(i + 1) =~= tail.take(i as int).push(tail[i as int]));
            assert(start + sent + tail.take(i + 1) =~= (start + sent + tail.take(i as int)).push(
                tail[i as int],
            ));
        }
        i = i + 1;
    }
    proof {
        assert(tail.take(last.len() as int) =~= tail);
        assert(start + sent + tail =~= start + (sent + tail));
        lemma_added(start, sent + tail);
        assert(relayed(s0, all, sent + tail, Ok::<(), (ErrorCode, Seq<char>)>(())));
    }
    Ok(())
}

impl<S: CredentialStore, T: GoTransport, D: HttpTransport> ProviderRunner for LiveGoRunner<S, T, D> {
    fn model(&self) -> (r: ModelId)
        ensures
            r@ == DEFAULT_MODEL_ID@,
    {
        GoConfig::default_go().model().clone()
    }

    /// Streams one live request: the events sent end it exactly once, with
    /// the last of them; a failure that stopped the run is sent as that end.
    fn stream<E: EventSink>(&self, request: &ProviderRequest, cancel: &CancellationToken, emit: &mut E)
        ensures
            extends(old(emit).received(), final(emit).received()),
            final(emit).target() == old(emit).target(),
            ends_right(added(old(emit).received(), final(emit).received()), true),
    {
        let ghost start = emit.received();
        match self.run_live(request, cancel, emit).0 {
            Ok(()) => {},
            Err(error) => {
                let ghost mid = emit.received();
                let ghost run = added(start, mid);
                proof {
                    assert(mid =~= start + run);
                }
                let failed = StreamEvent::Failed { error };
                let ghost f = failed@;
                emit.emit(failed);
                proof {
                    lemma_ends_push(run, f);
                    assert(start + run.push(f) =~= emit.received());
                    lemma_added(start, run.push(f));
                }
            },
        }
    }
}

/// The deterministic runner: the fake provider's successful script, through
/// the request owner and the normalizer.
pub struct FakeRunner;

impl ProviderRunner for FakeRunner {
    fn model(&self) -> (r: ModelId)
        ensures
            r@ == "fake-streaming"@,
    {
        let models = FakeProvider.models();
        models[0].id.clone()
    }

    /// Streams the fake provider's successful script through the request
    /// owner and the normalizer. The events sent end the request at most
    /// once, with the last of them: nothing follows a terminal event. Which
    /// events the script's frames decode to is serde_json's reading of them,
    /// which is named, not stated, so the events themselves are not stated.
    fn stream<E: EventSink>(&self, request: &ProviderRequest, cancel: &CancellationToken, emit: &mut E)
        ensures
            extends(old(emit).received(), final(emit).received()),
            final(emit).target() == old(emit).target(),
            ends_at_most_once(added(old(emit).received(), final(emit).received())),
    {
        let ghost start = emit.received();
        let ghost mut sent: Seq<EventView> = Seq::empty();
        proof {
            assert(start + sent =~= start);
        }
        let mut owner = RequestOwner::start(
            FakeProvider.script(FakeScenario::Success),
            ExecutionLimits::default(),
            cancel.clone(),
        );
        let mut normalizer = StreamNormalizer::new(request.conversation.clone());
        let events = owner.advance(from_secs(0));
        let mut i: usize = 0;
        while i < events.len()
            invariant
                i <= events.len(),
                normalizer.wf(),
                start == old(emit).received(),
                emit.target() == old(emit).target(),
                emit.received() == start + sent,
                ends_right(sent, false),
            decreases events.len() - i,
        {
            if normalizer.is_finished() {
                break;
            }
            if normalizer.push_execution(events[i].clone()).is_err() {
                let f = StreamEvent::Failed {
                    error: normalized_error(
                        ErrorCode::MalformedResponse,
                        "The deterministic provider returned an unreadable response.",
                    ),
                };
                let ghost g = f@;
                emit.emit(f);
                proof {
                    lemma_ends_push(sent, g);
                    assert(start + sent.push(g) =~= emit.received());
                    lemma_added(start, sent.push(g));
                }
                return;
            }
            let drained = normalizer.drain();
            let mut k: usize = 0;
            while k < drained.len()
                invariant
                    k <= drained.len(),
                    start == old(emit).received(),
                emit.target() == old(emit).target(),
                    emit.received() == start + sent,
                    ends_right(sent, false),
                decreases drained.len() - k,
            {
                let e = drained[k].clone();
                let ended = is_terminal(&e);
                let ghost g = e@;
                emit.emit(e);
                proof {
                    lemma_ends_push(sent, g);
                    assert(start + sent.push(g) =~= emit.received());
                    sent = sent.push(g);
                }
                if ended {
                    proof {
                        lemma_added(start, sent);
                    }
                    return;
                }
                k = k + 1;
            }
            i = i + 1;
        }
        proof {
            lemma_added(start, sent);
        }
    }
}

} // verus!
