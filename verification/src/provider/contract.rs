//! The frozen provider-neutral contract: validated identifiers and messages,
//! the neutral stream events, and the request lifecycle they drive.
use vstd::prelude::*;
use crate::text::{
    byte_len, decimal, decimal_seq, is_blank, is_blank_seq, join2, owned,
};

pub mod limits;

verus! {

pub const PROVIDER_CONTRACT_VERSION: u32 = 1;

#[derive(Debug, Clone, Copy, PartialEq, Eq, Structural)]
pub enum ErrorCode {
    AuthenticationFailed,
    RateLimited,
    ProviderUnavailable,
    MalformedResponse,
    InvalidInput,
    RequestTooLarge,
    UnsupportedContractVersion,
    UnknownEvent,
    InvalidState,
    TimedOut,
    ResponseTooLarge,
}

/// The snake_case wire name of an error code.
pub open spec fn error_code_name(code: ErrorCode) -> &'static str {
    match code {
        ErrorCode::AuthenticationFailed => "authentication_failed",
        ErrorCode::RateLimited => "rate_limited",
        ErrorCode::ProviderUnavailable => "provider_unavailable",
        ErrorCode::MalformedResponse => "malformed_response",
        ErrorCode::InvalidInput => "invalid_input",
        ErrorCode::RequestTooLarge => "request_too_large",
        ErrorCode::UnsupportedContractVersion => "unsupported_contract_version",
        ErrorCode::UnknownEvent => "unknown_event",
        ErrorCode::InvalidState => "invalid_state",
        ErrorCode::TimedOut => "timed_out",
        ErrorCode::ResponseTooLarge => "response_too_large",
    }
}

impl ErrorCode {
    /// The snake_case wire name of this code.
    pub fn as_str(self) -> (r: &'static str)
        ensures
            r == error_code_name(self),
    {
        match self {
            ErrorCode::AuthenticationFailed => "authentication_failed",
            ErrorCode::RateLimited => "rate_limited",
            ErrorCode::ProviderUnavailable => "provider_unavailable",
            ErrorCode::MalformedResponse => "malformed_response",
            ErrorCode::InvalidInput => "invalid_input",
            ErrorCode::RequestTooLarge => "request_too_large",
            ErrorCode::UnsupportedContractVersion => "unsupported_contract_version",
            ErrorCode::UnknownEvent => "unknown_event",
            ErrorCode::InvalidState => "invalid_state",
            ErrorCode::TimedOut => "timed_out",
            ErrorCode::ResponseTooLarge => "response_too_large",
        }
    }
}

/// A neutral error: a code and a BrainRoot plain-language message.
#[derive(Debug, PartialEq, Eq)]
pub struct NormalizedError {
    pub code: ErrorCode,
    pub message: String,
}

impl Clone for NormalizedError {
    fn clone(&self) -> (r: Self)
        ensures
            r == *self,
    {
        NormalizedError { code: self.code, message: self.message.clone() }
    }
}

/// A neutral error with the given code and message text.
pub fn normalized_error(code: ErrorCode, message: &str) -> (r: NormalizedError)
    ensures
        r.code == code,
        r.message@ == message@,
{
    NormalizedError { code, message: owned(message) }
}

#[derive(Debug, Clone, Copy, PartialEq, Eq, Structural)]
pub enum RequestState {
    Idle,
    Streaming,
    Terminal,
}

/// The `Debug` name of a request state.
pub open spec fn request_state_name(state: RequestState) -> Seq<char> {
    match state {
        RequestState::Idle => "Idle"@,
        RequestState::Streaming => "Streaming"@,
        RequestState::Terminal => "Terminal"@,
    }
}

#[derive(Debug, Clone, Copy, PartialEq, Eq)]
pub enum ContractError {
    UnsupportedContractVersion { supported: u32, received: u32 },
    TooLarge { field: &'static str, limit: usize, actual: usize },
    Empty { field: &'static str },
    InvalidState { state: RequestState, event: &'static str },
}

/// The neutral code of a contract error.
pub open spec fn contract_error_code(error: ContractError) -> ErrorCode {
    match error {
        ContractError::UnsupportedContractVersion { .. } => ErrorCode::UnsupportedContractVersion,
        ContractError::TooLarge { .. } => ErrorCode::RequestTooLarge,
        ContractError::Empty { .. } => ErrorCode::InvalidInput,
        ContractError::InvalidState { .. } => ErrorCode::InvalidState,
    }
}

/// The plain-language message of a contract error.
pub open spec fn contract_error_text(error: ContractError) -> Seq<char> {
    match error {
        ContractError::UnsupportedContractVersion { supported, received } => "This BrainRoot build speaks contract version "@
            + decimal_seq(supported as nat) + ", but version "@ + decimal_seq(received as nat)
            + " was requested."@,
        ContractError::TooLarge { field, limit, actual } => "The "@ + field@ + " value is "@
            + decimal_seq(actual as nat) + " bytes, larger than the "@ + decimal_seq(limit as nat)
            + "-byte limit."@,
        ContractError::Empty { field } => "The "@ + field@ + " value must not be empty."@,
        ContractError::InvalidState { state, event } => "The request cannot handle a "@ + event@
            + " event while in the "@ + request_state_name(state) + " state."@,
    }
}

impl ContractError {
    pub fn code(&self) -> (r: ErrorCode)
        ensures
            r == contract_error_code(*self),
    {
        match self {
            ContractError::UnsupportedContractVersion { .. } => ErrorCode::UnsupportedContractVersion,
            ContractError::TooLarge { .. } => ErrorCode::RequestTooLarge,
            ContractError::Empty { .. } => ErrorCode::InvalidInput,
            ContractError::InvalidState { .. } => ErrorCode::InvalidState,
        }
    }

    pub fn message(&self) -> (r: String)
        ensures
            r@ == contract_error_text(*self),
    {
        match self {
            ContractError::UnsupportedContractVersion { supported, received } => {
                let r = join2("This BrainRoot build speaks contract version ", decimal(*supported as u64).as_str());
                let r = join2(r.as_str(), ", but version ");
                let r = join2(r.as_str(), decimal(*received as u64).as_str());
                join2(r.as_str(), " was requested.")
            },
            ContractError::TooLarge { field, limit, actual } => {
                let r = join2("The ", field);
                let r = join2(r.as_str(), " value is ");
                let r = join2(r.as_str(), decimal(*actual as u64).as_str());
                let r = join2(r.as_str(), " bytes, larger than the ");
                let r = join2(r.as_str(), decimal(*limit as u64).as_str());
                join2(r.as_str(), "-byte limit.")
            },
            ContractError::Empty { field } => {
                let r = join2("The ", field);
                join2(r.as_str(), " value must not be empty.")
            },
            ContractError::InvalidState { state, event } => {
                let name = match state {
                    RequestState::Idle => "Idle",
                    RequestState::Streaming => "Streaming",
                    RequestState::Terminal => "Terminal",
                };
                let r = join2("The request cannot handle a ", event);
                let r = join2(r.as_str(), " event while in the ");
                let r = join2(r.as_str(), name);
                join2(r.as_str(), " state.")
            },
        }
    }
}

/// The outcome of validating one text field: empty (all whitespace) first,
/// then the byte limit.
pub open spec fn text_check(field: &'static str, value: Seq<char>, limit: usize) -> Result<
    (),
    ContractError,
> {
    if is_blank_seq(value) {
        Err(ContractError::Empty { field })
    } else if byte_len(value) > limit {
        Err(ContractError::TooLarge { field, limit, actual: byte_len(value) })
    } else {
        Ok(())
    }
}

/// Rejects a value that is empty after trimming or longer than `limit` bytes.
pub fn validate_text(field: &'static str, value: &str, limit: usize) -> (r: Result<(), ContractError>)
    ensures
        r == text_check(field, value@, limit),
{
    if is_blank(value) {
        return Err(ContractError::Empty { field });
    }
    if value.len() > limit {
        return Err(ContractError::TooLarge { field, limit, actual: value.len() });
    }
    Ok(())
}

#[derive(Debug, PartialEq, Eq)]
pub struct ModelId(String);

impl View for ModelId {
    type V = Seq<char>;

    closed spec fn view(&self) -> Seq<char> {
        self.0@
    }
}

impl Clone for ModelId {
    fn clone(&self) -> (r: Self)
        ensures
            r@ == self@,
    {
        ModelId(self.0.clone())
    }
}

impl ModelId {
    pub fn new(value: &str) -> (r: Result<Self, ContractError>)
        ensures
            r is Ok <==> text_check("model_id", value@, limits::MAX_MODEL_ID_BYTES) is Ok,
            r matches Ok(id) ==> id@ == value@,
            r matches Err(e) ==> text_check("model_id", value@, limits::MAX_MODEL_ID_BYTES) == Err::<(), ContractError>(e),
    {
        match validate_text("model_id", value, limits::MAX_MODEL_ID_BYTES) {
            Ok(()) => Ok(ModelId(owned(value))),
            Err(e) => Err(e),
        }
    }

    /// An identifier from text already known to be valid.
    pub(crate) fn from_valid(value: &str) -> (r: Self)
        requires
            text_check("model_id", value@, limits::MAX_MODEL_ID_BYTES) is Ok,
        ensures
            r@ == value@,
    {
        ModelId(owned(value))
    }

    pub fn validate(&self) -> (r: Result<(), ContractError>)
        ensures
            r == text_check("model_id", self@, limits::MAX_MODEL_ID_BYTES),
    {
        validate_text("model_id", self.0.as_str(), limits::MAX_MODEL_ID_BYTES)
    }

    pub fn as_str(&self) -> (r: &str)
        ensures
            r@ == self@,
    {
        self.0.as_str()
    }
}

#[derive(Debug, PartialEq, Eq)]
pub struct ConversationId(String);

impl View for ConversationId {
    type V = Seq<char>;

    closed spec fn view(&self) -> Seq<char> {
        self.0@
    }
}

impl Clone for ConversationId {
    fn clone(&self) -> (r: Self)
        ensures
            r@ == self@,
    {
        ConversationId(self.0.clone())
    }
}

impl ConversationId {
    pub fn new(value: &str) -> (r: Result<Self, ContractError>)
        ensures
            r is Ok <==> text_check("conversation_id", value@, limits::MAX_CONVERSATION_ID_BYTES) is Ok,
            r matches Ok(id) ==> id@ == value@,
            r matches Err(e) ==> text_check("conversation_id", value@, limits::MAX_CONVERSATION_ID_BYTES) == Err::<(), ContractError>(e),
    {
        match validate_text("conversation_id", value, limits::MAX_CONVERSATION_ID_BYTES) {
            Ok(()) => Ok(ConversationId(owned(value))),
            Err(e) => Err(e),
        }
    }

    pub fn validate(&self) -> (r: Result<(), ContractError>)
        ensures
            r == text_check("conversation_id", self@, limits::MAX_CONVERSATION_ID_BYTES),
    {
        validate_text("conversation_id", self.0.as_str(), limits::MAX_CONVERSATION_ID_BYTES)
    }

    pub fn as_str(&self) -> (r: &str)
        ensures
            r@ == self@,
    {
        self.0.as_str()
    }

    /// An identifier from text already known to be valid.
    pub(crate) fn from_valid(value: &str) -> (r: Self)
        requires
            text_check("conversation_id", value@, limits::MAX_CONVERSATION_ID_BYTES) is Ok,
        ensures
            r@ == value@,
    {
        ConversationId(owned(value))
    }

    /// Whether two identifiers hold the same text.
    pub fn same_as(&self, other: &ConversationId) -> (r: bool)
        ensures
            r == (self@ == other@),
    {
        self.0 == other.0
    }
}

#[derive(Debug, PartialEq, Eq)]
pub struct UserMessage(String);

impl View for UserMessage {
    type V = Seq<char>;

    closed spec fn view(&self) -> Seq<char> {
        self.0@
    }
}

impl Clone for UserMessage {
    fn clone(&self) -> (r: Self)
        ensures
            r@ == self@,
    {
        UserMessage(self.0.clone())
    }
}

impl UserMessage {
    pub fn new(text: &str) -> (r: Result<Self, ContractError>)
        ensures
            r is Ok <==> text_check("message", text@, limits::MAX_USER_MESSAGE_BYTES) is Ok,
            r matches Ok(m) ==> m@ == text@,
            r matches Err(e) ==> text_check("message", text@, limits::MAX_USER_MESSAGE_BYTES) == Err::<(), ContractError>(e),
    {
        match validate_text("message", text, limits::MAX_USER_MESSAGE_BYTES) {
            Ok(()) => Ok(UserMessage(owned(text))),
            Err(e) => Err(e),
        }
    }

    pub fn validate(&self) -> (r: Result<(), ContractError>)
        ensures
            r == text_check("message", self@, limits::MAX_USER_MESSAGE_BYTES),
    {
        validate_text("message", self.0.as_str(), limits::MAX_USER_MESSAGE_BYTES)
    }

    pub fn text(&self) -> (r: &str)
        ensures
            r@ == self@,
    {
        self.0.as_str()
    }
}

#[derive(Debug, PartialEq, Eq)]
pub struct ModelDescriptor {
    pub id: ModelId,
    pub display_name: String,
    pub supports_streaming: bool,
}

impl Clone for ModelDescriptor {
    fn clone(&self) -> (r: Self)
        ensures
            r.id@ == self.id@,
            r.display_name@ == self.display_name@,
            r.supports_streaming == self.supports_streaming,
    {
        ModelDescriptor {
            id: self.id.clone(),
            display_name: self.display_name.clone(),
            supports_streaming: self.supports_streaming,
        }
    }
}

impl ModelDescriptor {
    pub fn new(id: ModelId, display_name: &str, supports_streaming: bool) -> (r: Result<
        Self,
        ContractError,
    >)
        ensures
            r is Ok <==> text_check("display_name", display_name@, limits::MAX_DISPLAY_NAME_BYTES) is Ok,
            r matches Ok(d) ==> d.id@ == id@ && d.display_name@ == display_name@
                && d.supports_streaming == supports_streaming,
            r matches Err(e) ==> text_check("display_name", display_name@, limits::MAX_DISPLAY_NAME_BYTES) == Err::<(), ContractError>(e),
    {
        match validate_text("display_name", display_name, limits::MAX_DISPLAY_NAME_BYTES) {
            Ok(()) => Ok(ModelDescriptor { id, display_name: owned(display_name), supports_streaming }),
            Err(e) => Err(e),
        }
    }
}

#[derive(Debug, PartialEq, Eq)]
pub struct ProviderRequest {
    pub contract_version: u32,
    pub conversation: ConversationId,
    pub model: ModelId,
    pub message: UserMessage,
}

impl Clone for ProviderRequest {
    fn clone(&self) -> (r: Self)
        ensures
            r.contract_version == self.contract_version,
            r.conversation@ == self.conversation@,
            r.model@ == self.model@,
            r.message@ == self.message@,
    {
        ProviderRequest {
            contract_version: self.contract_version,
            conversation: self.conversation.clone(),
            model: self.model.clone(),
            message: self.message.clone(),
        }
    }
}

/// The outcome of validating a request: version first, then each field.
pub open spec fn request_check(
    version: u32,
    conversation: Seq<char>,
    model: Seq<char>,
    message: Seq<char>,
) -> Result<(), ContractError> {
    if version != PROVIDER_CONTRACT_VERSION {
        Err(
            ContractError::UnsupportedContractVersion {
                supported: PROVIDER_CONTRACT_VERSION,
                received: version,
            },
        )
    } else if text_check("conversation_id", conversation, limits::MAX_CONVERSATION_ID_BYTES) is Err {
        text_check("conversation_id", conversation, limits::MAX_CONVERSATION_ID_BYTES)
    } else if text_check("model_id", model, limits::MAX_MODEL_ID_BYTES) is Err {
        text_check("model_id", model, limits::MAX_MODEL_ID_BYTES)
    } else {
        text_check("message", message, limits::MAX_USER_MESSAGE_BYTES)
    }
}

impl ProviderRequest {
    pub fn new(conversation: ConversationId, model: ModelId, message: UserMessage) -> (r: Self)
        ensures
            r.contract_version == PROVIDER_CONTRACT_VERSION,
            r.conversation == conversation,
            r.model == model,
            r.message == message,
    {
        ProviderRequest { contract_version: PROVIDER_CONTRACT_VERSION, conversation, model, message }
    }

    pub fn validate(&self) -> (r: Result<(), ContractError>)
        ensures
            r == request_check(self.contract_version, self.conversation@, self.model@, self.message@),
    {
        if self.contract_version != PROVIDER_CONTRACT_VERSION {
            return Err(
                ContractError::UnsupportedContractVersion {
                    supported: PROVIDER_CONTRACT_VERSION,
                    received: self.contract_version,
                },
            );
        }
        match self.conversation.validate() {
            Ok(()) => {},
            Err(e) => return Err(e),
        }
        match self.model.validate() {
            Ok(()) => {},
            Err(e) => return Err(e),
        }
        self.message.validate()
    }
}

#[derive(Debug, Clone, Copy, PartialEq, Eq, Structural)]
pub enum StopReason {
    EndTurn,
}

#[derive(Debug, Clone, Copy, PartialEq, Eq, Structural)]
pub enum CancellationReason {
    UserRequested,
    Timeout,
}

#[derive(Debug, PartialEq, Eq)]
pub struct Completion {
    pub conversation: ConversationId,
    pub stop_reason: StopReason,
}

#[derive(Debug, PartialEq, Eq)]
pub struct Cancellation {
    pub conversation: ConversationId,
    pub reason: CancellationReason,
}

#[derive(Debug, PartialEq, Eq)]
pub enum StreamEvent {
    Started,
    TextChunk { text: String },
    Completed { completion: Completion },
    Cancelled { cancellation: Cancellation },
    Failed { error: NormalizedError },
}

/// The text-level view of a stream event.
pub enum EventView {
    Started,
    TextChunk(Seq<char>),
    Completed(Seq<char>, StopReason),
    Cancelled(Seq<char>, CancellationReason),
    Failed(ErrorCode, Seq<char>),
}

impl View for StreamEvent {
    type V = EventView;

    open spec fn view(&self) -> EventView {
        match self {
            StreamEvent::Started => EventView::Started,
            StreamEvent::TextChunk { text } => EventView::TextChunk(text@),
            StreamEvent::Completed { completion } => EventView::Completed(
                completion.conversation@,
                completion.stop_reason,
            ),
            StreamEvent::Cancelled { cancellation } => EventView::Cancelled(
                cancellation.conversation@,
                cancellation.reason,
            ),
            StreamEvent::Failed { error } => EventView::Failed(error.code, error.message@),
        }
    }
}

impl Clone for StreamEvent {
    fn clone(&self) -> (r: Self)
        ensures
            r@ == self@,
    {
        match self {
            StreamEvent::Started => StreamEvent::Started,
            StreamEvent::TextChunk { text } => StreamEvent::TextChunk { text: text.clone() },
            StreamEvent::Completed { completion } => StreamEvent::Completed {
                completion: Completion {
                    conversation: completion.conversation.clone(),
                    stop_reason: completion.stop_reason,
                },
            },
            StreamEvent::Cancelled { cancellation } => StreamEvent::Cancelled {
                cancellation: Cancellation {
                    conversation: cancellation.conversation.clone(),
                    reason: cancellation.reason,
                },
            },
            StreamEvent::Failed { error } => StreamEvent::Failed { error: error.clone() },
        }
    }
}

/// The snake_case kind of an event.
pub open spec fn event_kind(event: EventView) -> &'static str {
    match event {
        EventView::Started => "started",
        EventView::TextChunk(..) => "text_chunk",
        EventView::Completed(..) => "completed",
        EventView::Cancelled(..) => "cancelled",
        EventView::Failed(..) => "failed",
    }
}

/// Completed, cancelled and failed events end a request.
pub open spec fn is_terminal_view(event: EventView) -> bool {
    match event {
        EventView::Completed(..) | EventView::Cancelled(..) | EventView::Failed(..) => true,
        _ => false,
    }
}

impl StreamEvent {
    pub fn kind(&self) -> (r: &'static str)
        ensures
            r == event_kind(self@),
    {
        match self {
            StreamEvent::Started => "started",
            StreamEvent::TextChunk { .. } => "text_chunk",
            StreamEvent::Completed { .. } => "completed",
            StreamEvent::Cancelled { .. } => "cancelled",
            StreamEvent::Failed { .. } => "failed",
        }
    }

    /// Whether this event ends a request.
    pub fn is_terminal(&self) -> (r: bool)
        ensures
            r == is_terminal_view(self@),
    {
        match self {
            StreamEvent::Completed { .. } | StreamEvent::Cancelled { .. } | StreamEvent::Failed {
                ..
            } => true,
            _ => false,
        }
    }
}

/// The request lifecycle: `Started` opens it, chunks continue it, and one
/// terminal event closes it for good.
pub open spec fn request_step(state: RequestState, event: EventView) -> Result<RequestState, ContractError> {
    match (state, event) {
        (RequestState::Idle, EventView::Started) => Ok(RequestState::Streaming),
        (RequestState::Streaming, EventView::TextChunk(..)) => Ok(RequestState::Streaming),
        (RequestState::Streaming, EventView::Completed(..)) => Ok(RequestState::Terminal),
        (RequestState::Streaming, EventView::Cancelled(..)) => Ok(RequestState::Terminal),
        (RequestState::Streaming, EventView::Failed(..)) => Ok(RequestState::Terminal),
        _ => Err(ContractError::InvalidState { state, event: event_kind(event) }),
    }
}

impl RequestState {
    pub fn next(self, event: &StreamEvent) -> (r: Result<Self, ContractError>)
        ensures
            r == request_step(self, event@),
    {
        match (self, event) {
            (RequestState::Idle, StreamEvent::Started) => Ok(RequestState::Streaming),
            (RequestState::Streaming, StreamEvent::TextChunk { .. }) => Ok(RequestState::Streaming),
            (RequestState::Streaming, StreamEvent::Completed { .. }) => Ok(RequestState::Terminal),
            (RequestState::Streaming, StreamEvent::Cancelled { .. }) => Ok(RequestState::Terminal),
            (RequestState::Streaming, StreamEvent::Failed { .. }) => Ok(RequestState::Terminal),
            _ => Err(ContractError::InvalidState { state: self, event: event.kind() }),
        }
    }
}

/// A terminal request accepts no further event, so at most one terminal
/// event is ever accepted per request.
pub proof fn lemma_terminal_is_final(event: EventView)
    ensures
        request_step(RequestState::Terminal, event) is Err,
{
}

/// A request reaches `Terminal` only through a terminal event, and only
/// from `Streaming`.
pub proof fn lemma_terminal_only_by_terminal_event(state: RequestState, event: EventView)
    ensures
        request_step(state, event) == Ok::<RequestState, ContractError>(RequestState::Terminal)
            <==> (state == RequestState::Streaming && is_terminal_view(event)),
{
}

/// A validated text is non-blank and within its byte limit.
pub proof fn lemma_text_check_ok(field: &'static str, value: Seq<char>, limit: usize)
    ensures
        text_check(field, value, limit) is Ok <==> (!is_blank_seq(value) && byte_len(value) <= limit),
{
}

} // verus!
