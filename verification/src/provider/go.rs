//! One validated OpenCode Go protocol path: chat/completions.
//!
//! The endpoint must be the documented chat endpoint, the model comes from the
//! contract, `x-opencode-session` is a random nonsecret UUID per
//! conversation, and the server-sent event stream is parsed into neutral
//! events. There is no fallback to another model, protocol or endpoint.
use vstd::prelude::*;
use super::contract::{
    is_terminal_view, limits, text_check, Completion, ConversationId, ErrorCode, EventView,
    ModelId, NormalizedError, StopReason, StreamEvent, UserMessage,
};
use super::credential::{AuthorizationHeader, CredentialValue};
use super::discovery::BRAINROOT_USER_AGENT;
use super::failure::GoFailure;
use crate::json::{
    json_as_array, json_as_object, json_as_str, json_get, json_is_null, json_quote, json_text,
    json_view, member, parse_json, quote_json, JsonView,
};
use crate::text::{
    chars_after, has_prefix, is_blank, is_blank_seq, is_ws, join2, lemma_ascii_utf8_len, owned, starts_with,
    text_eq, trim, trim_seq,
};
use crate::provider::normalize::events_view;

verus! {

pub const GO_CHAT_COMPLETIONS_ENDPOINT: &'static str = "https://opencode.ai/zen/go/v1/chat/completions";

pub const DEFAULT_MODEL_ID: &'static str = "glm-5.3-flash";

pub const SESSION_HEADER: &'static str = "x-opencode-session";

pub const MAX_STREAM_LINE_BYTES: usize = 65536;

#[derive(Debug, PartialEq, Eq)]
pub enum GoConfigError {
    UnsupportedEndpoint { endpoint: String },
    EmptySession,
}

pub open spec fn go_config_error_text(e: GoConfigError) -> Seq<char> {
    match e {
        GoConfigError::UnsupportedEndpoint { endpoint } => "The provider endpoint "@ + endpoint@
            + " is not the supported OpenCode Go chat endpoint."@,
        GoConfigError::EmptySession => "The conversation session identifier must not be empty."@,
    }
}

impl GoConfigError {
    pub fn code(&self) -> (r: ErrorCode)
        ensures
            r == ErrorCode::InvalidInput,
    {
        ErrorCode::InvalidInput
    }

    pub fn message(&self) -> (r: String)
        ensures
            r@ == go_config_error_text(*self),
    {
        match self {
            GoConfigError::UnsupportedEndpoint { endpoint } => {
                let r = join2("The provider endpoint ", endpoint.as_str());
                join2(r.as_str(), " is not the supported OpenCode Go chat endpoint.")
            },
            GoConfigError::EmptySession => owned(
                "The conversation session identifier must not be empty.",
            ),
        }
    }
}

/// A validated chat configuration: the documented endpoint and a model.
#[derive(Debug, PartialEq, Eq)]
pub struct GoConfig {
    endpoint: String,
    model: ModelId,
}

impl Clone for GoConfig {
    fn clone(&self) -> (r: Self)
        ensures
            r.endpoint_text() == self.endpoint_text(),
            r.model_text() == self.model_text(),
    {
        GoConfig { endpoint: self.endpoint.clone(), model: self.model.clone() }
    }
}

/// The request body for one user message: the model, the message as the
/// only user turn, and streaming on.
pub open spec fn request_body(model: Seq<char>, message: Seq<char>) -> Seq<char> {
    "{\"model\":"@ + json_quote(model) + ",\"messages\":[{\"role\":\"user\",\"content\":"@
        + json_quote(message) + "}],\"stream\":true}"@
}

impl GoConfig {
    pub closed spec fn endpoint_text(&self) -> Seq<char> {
        self.endpoint@
    }

    pub closed spec fn model_text(&self) -> Seq<char> {
        self.model@
    }

    /// Accepts only the documented chat endpoint.
    pub fn new(endpoint: &str, model: ModelId) -> (r: Result<Self, GoConfigError>)
        ensures
            r is Ok <==> endpoint@ == GO_CHAT_COMPLETIONS_ENDPOINT@,
            r matches Ok(c) ==> c.endpoint_text() == endpoint@ && c.model_text() == model@,
            r matches Err(e) ==> e is UnsupportedEndpoint && e->endpoint@ == endpoint@,
    {
        if !text_eq(endpoint, GO_CHAT_COMPLETIONS_ENDPOINT) {
            return Err(GoConfigError::UnsupportedEndpoint { endpoint: owned(endpoint) });
        }
        Ok(GoConfig { endpoint: owned(endpoint), model })
    }

    /// The documented endpoint with the default model.
    pub fn default_go() -> (r: Self)
        ensures
            r.endpoint_text() == GO_CHAT_COMPLETIONS_ENDPOINT@,
            r.model_text() == DEFAULT_MODEL_ID@,
    {
        proof {
            reveal_strlit("glm-5.3-flash");
            assert(!is_ws("glm-5.3-flash"@[0]));
            lemma_ascii_utf8_len("glm-5.3-flash"@);
        }
        let model = ModelId::from_valid(DEFAULT_MODEL_ID);
        GoConfig { endpoint: owned(GO_CHAT_COMPLETIONS_ENDPOINT), model }
    }

    pub fn endpoint(&self) -> (r: &str)
        ensures
            r@ == self.endpoint_text(),
    {
        self.endpoint.as_str()
    }

    pub fn model(&self) -> (r: &ModelId)
        ensures
            r@ == self.model_text(),
    {
        &self.model
    }

    /// The JSON request body for `message`.
    pub fn build_request_body(&self, message: &UserMessage) -> (r: Result<String, GoFailure>)
        ensures
            r matches Ok(body) && body@ == request_body(self.model_text(), message@),
    {
        let body = join2("{\"model\":", quote_json(self.model.as_str()).as_str());
        let body = join2(body.as_str(), ",\"messages\":[{\"role\":\"user\",\"content\":");
        let body = join2(body.as_str(), quote_json(message.text()).as_str());
        let body = join2(body.as_str(), "}],\"stream\":true}");
        proof {
            assert(body@ =~= request_body(self.model_text(), message@));
        }
        Ok(body)
    }
}

/// Whether `c` is a lowercase hexadecimal digit.
pub open spec fn is_lower_hex(c: char) -> bool {
    ('0' <= c && c <= '9') || ('a' <= c && c <= 'f')
}

/// The hyphenated lowercase form of a UUID: 36 characters, hyphens at 8, 13,
/// 18 and 23, lowercase hexadecimal digits elsewhere.
pub open spec fn is_hyphenated_uuid(s: Seq<char>) -> bool {
    &&& s.len() == 36
    &&& forall|i: int|
        0 <= i < 36 ==> if i == 8 || i == 13 || i == 18 || i == 23 {
            s[i] == '-'
        } else {
            is_lower_hex(#[trigger] s[i])
        }
}

/// A fresh random (version 4) UUID in its hyphenated form, from
/// `uuid::Uuid::new_v4` and its `Display`. Which one comes out is chance.
#[verifier::external_body]
pub(crate) fn random_uuid_text() -> (r: String)
    ensures
        is_hyphenated_uuid(r@),
{
    uuid::Uuid::new_v4().to_string()
}

/// A nonsecret per-conversation session identifier; never blank.
#[derive(Debug, PartialEq, Eq)]
pub struct SessionId(String);

impl View for SessionId {
    type V = Seq<char>;

    closed spec fn view(&self) -> Seq<char> {
        self.0@
    }
}

impl Clone for SessionId {
    fn clone(&self) -> (r: Self)
        ensures
            r@ == self@,
    {
        SessionId(self.0.clone())
    }
}

impl SessionId {
    /// A fresh random identifier.
    pub fn generate() -> (r: Self)
        ensures
            is_hyphenated_uuid(r@),
            !is_blank_seq(r@),
    {
        let text = random_uuid_text();
        proof {
            assert(!is_ws(text@[0]));
        }
        SessionId(text)
    }

    pub fn from_value(value: &str) -> (r: Result<Self, GoConfigError>)
        ensures
            r is Err <==> is_blank_seq(value@),
            r matches Err(e) ==> e == GoConfigError::EmptySession,
            r matches Ok(s) ==> s@ == value@,
    {
        if is_blank(value) {
            return Err(GoConfigError::EmptySession);
        }
        Ok(SessionId(owned(value)))
    }

    pub fn as_str(&self) -> (r: &str)
        ensures
            r@ == self@,
    {
        self.0.as_str()
    }
}

/// The request headers, in order: the bearer credential, the user agent, the
/// session identifier and the JSON content type.
pub open spec fn request_headers(credential: Seq<char>, session: Seq<char>) -> Seq<
    (Seq<char>, Seq<char>),
> {
    seq![
        ("Authorization"@, "Bearer "@ + credential),
        ("User-Agent"@, BRAINROOT_USER_AGENT@),
        (SESSION_HEADER@, session),
        ("Content-Type"@, "application/json"@),
    ]
}

pub fn headers(credential: &CredentialValue, session: &SessionId) -> (r: Vec<(String, String)>)
    ensures
        r@.map_values(|h: (String, String)| (h.0@, h.1@)) == request_headers(
            credential@,
            session@,
        ),
{
    let authorization = AuthorizationHeader::bearer(credential);
    let mut r: Vec<(String, String)> = Vec::new();
    r.push((owned("Authorization"), owned(authorization.expose_to_core())));
    r.push((owned("User-Agent"), owned(BRAINROOT_USER_AGENT)));
    r.push((owned(SESSION_HEADER), owned(session.as_str())));
    r.push((owned("Content-Type"), owned("application/json")));
    assert(r@.map_values(|h: (String, String)| (h.0@, h.1@)) =~= request_headers(
        credential@,
        session@,
    ));
    r
}

/// A field of a streamed chunk's record: looked up by name in an object, or
/// by position in an array (the two forms a record is read from).
pub open spec fn record_field(v: JsonView, name: Seq<char>, index: int) -> Option<JsonView> {
    match v {
        JsonView::Object(_) => member(v, name),
        JsonView::Array(items) => if 0 <= index < items.len() {
            Some(items[index])
        } else {
            None
        },
        _ => None,
    }
}

/// Whether `v` can be read as a record of `fields` fields.
pub open spec fn record_shape(v: JsonView, fields: nat) -> bool {
    match v {
        JsonView::Object(_) => true,
        JsonView::Array(items) => items.len() <= fields,
        _ => false,
    }
}

/// Whether an optional text field reads: absent, null or a string.
pub open spec fn optional_text_reads(v: Option<JsonView>) -> bool {
    match v {
        None => true,
        Some(JsonView::Null) => true,
        Some(JsonView::Str(_)) => true,
        _ => false,
    }
}

/// The text of an optional text field, empty when it is absent or null.
pub open spec fn optional_text(v: Option<JsonView>) -> Seq<char> {
    match v {
        Some(JsonView::Str(s)) => s,
        _ => Seq::empty(),
    }
}

/// A `delta` record: `{content: optional text}`.
pub open spec fn delta_reads(v: JsonView) -> bool {
    record_shape(v, 1) && optional_text_reads(record_field(v, "content"@, 0))
}

/// A `choices` element: `{delta: optional delta}`.
pub open spec fn choice_reads(v: JsonView) -> bool {
    &&& record_shape(v, 1)
    &&& match record_field(v, "delta"@, 0) {
        None => true,
        Some(JsonView::Null) => true,
        Some(d) => delta_reads(d),
    }
}

/// The text a choice contributes: its delta's content, if any.
pub open spec fn choice_text(v: JsonView) -> Seq<char> {
    match record_field(v, "delta"@, 0) {
        Some(d) => if d is Null {
            Seq::empty()
        } else {
            optional_text(record_field(d, "content"@, 0))
        },
        None => Seq::empty(),
    }
}

/// The texts of the choices, concatenated in order.
pub open spec fn choices_text(items: Seq<JsonView>) -> Seq<char>
    decreases items.len(),
{
    if items.len() == 0 {
        Seq::empty()
    } else {
        choices_text(items.drop_last()) + choice_text(items.last())
    }
}

/// An `error` record: `{message: optional text}`.
pub open spec fn error_reads(v: JsonView) -> bool {
    record_shape(v, 1) && optional_text_reads(record_field(v, "message"@, 0))
}

/// A streamed chunk: `{choices: list of choices (default empty), error:
/// optional error}`; other members are ignored.
pub open spec fn chunk_reads(v: JsonView) -> bool {
    &&& record_shape(v, 2)
    &&& match record_field(v, "choices"@, 0) {
        None => true,
        Some(JsonView::Array(items)) => forall|i: int|
            0 <= i < items.len() ==> choice_reads(#[trigger] items[i]),
        _ => false,
    }
    &&& match record_field(v, "error"@, 1) {
        None => true,
        Some(JsonView::Null) => true,
        Some(e) => error_reads(e),
    }
}

/// Whether a chunk reports a provider error.
pub open spec fn chunk_failed(v: JsonView) -> bool {
    match record_field(v, "error"@, 1) {
        Some(e) => !(e is Null),
        None => false,
    }
}

/// The text a chunk carries.
pub open spec fn chunk_text(v: JsonView) -> Seq<char> {
    match record_field(v, "choices"@, 0) {
        Some(JsonView::Array(items)) => choices_text(items),
        _ => Seq::empty(),
    }
}

fn record_field_of<'a>(v: &'a serde_json::Value, name: &str, index: usize) -> (r: Option<
    &'a serde_json::Value,
>)
    ensures
        r is None <==> record_field(json_view(*v), name@, index as int) is None,
        r matches Some(x) ==> record_field(json_view(*v), name@, index as int) == Some(
            json_view(*x),
        ),
{
    if json_as_object(v).is_some() {
        return json_get(v, name);
    }
    match json_as_array(v) {
        Some(items) => {
            if index < items.len() {
                assert(items@.map_values(|x: serde_json::Value| json_view(x))[index as int]
                    == json_view(items@[index as int]));
                Some(&items[index])
            } else {
                None
            }
        },
        None => None,
    }
}

fn record_len_at_most(v: &serde_json::Value, fields: usize) -> (r: bool)
    ensures
        r == record_shape(json_view(*v), fields as nat),
{
    if json_as_object(v).is_some() {
        return true;
    }
    match json_as_array(v) {
        Some(items) => {
            assert(items@.len() == items@.map_values(|x: serde_json::Value| json_view(x)).len());
            items.len() <= fields
        },
        None => false,
    }
}

/// Reads an optional text field: `None` when it does not read, else its text.
fn read_optional_text(v: Option<&serde_json::Value>) -> (r: Option<String>)
    ensures
        r is Some <==> optional_text_reads(
            match v {
                Some(x) => Some(json_view(*x)),
                None => None,
            },
        ),
        r matches Some(t) ==> t@ == optional_text(
            match v {
                Some(x) => Some(json_view(*x)),
                None => None,
            },
        ),
{
    match v {
        None => Some(String::new()),
        Some(x) => {
            if json_is_null(x) {
                return Some(String::new());
            }
            match json_as_str(x) {
                Some(t) => Some(owned(t)),
                None => None,
            }
        },
    }
}

/// Reads a choice: `None` when it does not read, else the text it carries.
fn read_choice(v: &serde_json::Value) -> (r: Option<String>)
    ensures
        r is Some <==> choice_reads(json_view(*v)),
        r matches Some(t) ==> t@ == choice_text(json_view(*v)),
{
    if !record_len_at_most(v, 1) {
        return None;
    }
    match record_field_of(v, "delta", 0) {
        None => Some(String::new()),
        Some(d) => {
            if json_is_null(d) {
                return Some(String::new());
            }
            if !record_len_at_most(d, 1) {
                return None;
            }
            read_optional_text(record_field_of(d, "content", 0))
        },
    }
}

/// Reads a chunk: `None` when it does not read, else whether it reports an
/// error and the text it carries.
fn read_chunk(v: &serde_json::Value) -> (r: Option<(bool, String)>)
    ensures
        r is Some <==> chunk_reads(json_view(*v)),
        r matches Some(c) ==> c.0 == chunk_failed(json_view(*v)) && c.1@ == chunk_text(
            json_view(*v),
        ),
{
    if !record_len_at_most(v, 2) {
        return None;
    }
    let mut text = String::new();
    match record_field_of(v, "choices", 0) {
        None => {},
        Some(c) => match json_as_array(c) {
            Some(items) => {
                let ghost views = items@.map_values(|x: serde_json::Value| json_view(x));
                let mut i: usize = 0;
                while i < items.len()
                    invariant
                        i <= items.len(),
                        views == items@.map_values(|x: serde_json::Value| json_view(x)),
                        record_shape(json_view(*v), 2),
                        record_field(json_view(*v), "choices"@, 0) == Some(JsonView::Array(views)),
                        forall|k: int| 0 <= k < i ==> choice_reads(#[trigger] views[k]),
                        text@ == choices_text(views.subrange(0, i as int)),
                    decreases items.len() - i,
                {
                    assert(views[i as int] == json_view(items@[i as int]));
                    let part = match read_choice(&items[i]) {
                        Some(t) => t,
                        None => {
                            assert(!choice_reads(views[i as int]));
                            assert(i < views.len());
                            assert(match record_field(json_view(*v), "choices"@, 0) {
                                Some(JsonView::Array(xs)) => xs == views,
                                _ => false,
                            });
                            assert(!chunk_reads(json_view(*v)));
                            return None;
                        },
                    };
                    assert(views.subrange(0, i + 1).drop_last() =~= views.subrange(0, i as int));
                    text = join2(text.as_str(), part.as_str());
                    i = i + 1;
                }
                assert(views.subrange(0, items.len() as int) =~= views);
            },
            None => return None,
        },
    }
    let failed = match record_field_of(v, "error", 1) {
        None => false,
        Some(e) => {
            if json_is_null(e) {
                false
            } else {
                if !record_len_at_most(e, 1) {
                    return None;
                }
                match read_optional_text(record_field_of(e, "message", 0)) {
                    Some(_) => true,
                    None => return None,
                }
            }
        },
    };
    Some((failed, text))
}

/// What `String::from_utf8_lossy` makes of a byte string.
pub uninterp spec fn lossy_text(bytes: Seq<u8>) -> Seq<char>;

/// `String::from_utf8_lossy`: the text of `bytes`, with each invalid sequence
/// replaced by U+FFFD.
#[verifier::external_body]
fn utf8_lossy(bytes: &[u8]) -> (r: String)
    ensures
        r@ == lossy_text(bytes@),
{
    String::from_utf8_lossy(bytes).into_owned()
}

/// The position of the first newline byte, if any.
pub open spec fn first_newline(b: Seq<u8>) -> Option<int>
    decreases b.len(),
{
    if b.len() == 0 {
        None
    } else if b[0] == 10 {
        Some(0)
    } else {
        match first_newline(b.drop_first()) {
            Some(i) => Some(i + 1),
            None => None,
        }
    }
}

/// A chat stream parser as plain values.
pub struct ParserView {
    pub conversation: Seq<char>,
    pub buffer: Seq<u8>,
    pub started: bool,
    pub finished: bool,
}

/// The text of a line: its bytes read as UTF-8, trimmed.
pub open spec fn line_text(bytes: Seq<u8>) -> Seq<char> {
    trim_seq(lossy_text(bytes))
}

/// The event that completes a request normally.
pub open spec fn completed_event(conversation: Seq<char>) -> EventView {
    EventView::Completed(conversation, StopReason::EndTurn)
}

/// The text of the failure a provider-reported error becomes; the provider's
/// own text is never passed on.
pub open spec fn stream_error_text() -> Seq<char> {
    "The provider reported an error while streaming."@
}

/// Completes the request unless it already ended.
pub open spec fn complete_step(p: ParserView) -> (Seq<EventView>, ParserView) {
    if p.finished {
        (Seq::empty(), p)
    } else {
        (seq![completed_event(p.conversation)], ParserView { finished: true, ..p })
    }
}

/// What one line does: comments, blank lines and non-`data:` lines are
/// ignored, `[DONE]` completes, and a chunk opens the request (once) and adds
/// its text, or fails it when it reports an error. A payload that does not
/// read as a chunk is a malformed response.
pub open spec fn line_step(p: ParserView, line: Seq<char>) -> (Result<Seq<EventView>, GoFailure>, ParserView) {
    if p.finished || line.len() == 0 || has_prefix(line, ":"@) || !has_prefix(line, "data:"@) {
        (Ok(Seq::empty()), p)
    } else {
        let payload = trim_seq(line.subrange(5, line.len() as int));
        if payload == "[DONE]"@ {
            (Ok(complete_step(p).0), complete_step(p).1)
        } else {
            match json_text(payload) {
                Some(v) => if chunk_reads(v) {
                    let opened: Seq<EventView> = if p.started {
                        Seq::empty()
                    } else {
                        seq![EventView::Started]
                    };
                    if chunk_failed(v) {
                        (
                            Ok(opened.push(EventView::Failed(ErrorCode::ProviderUnavailable, stream_error_text()))),
                            ParserView { started: true, finished: true, ..p },
                        )
                    } else if chunk_text(v).len() > 0 {
                        (
                            Ok(opened.push(EventView::TextChunk(chunk_text(v)))),
                            ParserView { started: true, ..p },
                        )
                    } else {
                        (Ok(opened), ParserView { started: true, ..p })
                    }
                } else {
                    (Err(GoFailure::MalformedResponse), p)
                },
                None => (Err(GoFailure::MalformedResponse), p),
            }
        }
    }
}

/// `evs` followed by what `rest` yields.
pub open spec fn then_events(evs: Seq<EventView>, rest: Result<Seq<EventView>, GoFailure>) -> Result<
    Seq<EventView>,
    GoFailure,
> {
    match rest {
        Ok(more) => Ok(evs + more),
        Err(e) => Err(e),
    }
}

/// Processes every complete line of the buffer, in order, until one fails
/// or the request ends.
pub open spec fn drain_lines(p: ParserView) -> (Result<Seq<EventView>, GoFailure>, ParserView)
    decreases p.buffer.len(),
{
    match first_newline(p.buffer) {
        None => (Ok(Seq::empty()), p),
        Some(i) => if 0 <= i < p.buffer.len() {
            let q = ParserView { buffer: p.buffer.subrange(i + 1, p.buffer.len() as int), ..p };
            let step = line_step(q, line_text(p.buffer.subrange(0, i)));
            match step.0 {
                Err(e) => (Err(e), step.1),
                Ok(evs) => if step.1.finished {
                    (Ok(evs), step.1)
                } else {
                    let rest = drain_lines(step.1);
                    (then_events(evs, rest.0), rest.1)
                },
            }
        } else {
            (Ok(Seq::empty()), p)
        },
    }
}

/// What `push` does with a chunk of bytes: nothing once the request ended; a
/// malformed response when the pending line would exceed the line limit;
/// otherwise the events of every line the chunk completes.
pub open spec fn push_step(p: ParserView, chunk: Seq<u8>) -> (Result<Seq<EventView>, GoFailure>, ParserView) {
    if p.finished {
        (Ok(Seq::empty()), p)
    } else if p.buffer.len() + chunk.len() > MAX_STREAM_LINE_BYTES {
        (Err(GoFailure::MalformedResponse), p)
    } else {
        drain_lines(ParserView { buffer: p.buffer + chunk, ..p })
    }
}

/// What `finish` does when the stream ends: the pending partial line is
/// processed (its failure ignored) and the request completes.
pub open spec fn finish_step(p: ParserView) -> (Seq<EventView>, ParserView) {
    if p.finished {
        (Seq::empty(), p)
    } else {
        let q = ParserView { buffer: Seq::empty(), ..p };
        let partial = if p.buffer.len() > 0 {
            line_step(q, line_text(p.buffer))
        } else {
            (Ok(Seq::empty()), q)
        };
        let evs = match partial.0 {
            Ok(evs) => evs,
            Err(_) => Seq::empty(),
        };
        (evs + complete_step(partial.1).0, complete_step(partial.1).1)
    }
}

proof fn lemma_first_newline(b: Seq<u8>, k: int)
    requires
        0 <= k <= b.len(),
        forall|j: int| 0 <= j < k ==> b[j] != 10,
    ensures
        k < b.len() && b[k] == 10 ==> first_newline(b) == Some(k),
        k == b.len() ==> first_newline(b) is None,
    decreases k,
{
    if k > 0 {
        let t = b.drop_first();
        assert forall|j: int| 0 <= j < k - 1 implies t[j] != 10 by {
            assert(t[j] == b[j + 1]);
        }
        if k < b.len() {
            assert(t[k - 1] == b[k]);
        }
        lemma_first_newline(t, k - 1);
    }
}

/// The position of the first newline byte of `v`, if any.
fn newline_position(v: &Vec<u8>) -> (r: Option<usize>)
    ensures
        r matches Some(k) ==> k < v@.len() && first_newline(v@) == Some(k as int),
        r is None ==> first_newline(v@) is None,
{
    let mut k: usize = 0;
    while k < v.len() && v[k] != 10
        invariant
            k <= v.len(),
            forall|j: int| 0 <= j < k ==> v@[j] != 10,
        decreases v.len() - k,
    {
        k = k + 1;
    }
    proof {
        lemma_first_newline(v@, k as int);
    }
    if k < v.len() {
        Some(k)
    } else {
        None
    }
}

/// The bytes of `v` from `from` up to `to`.
fn bytes_range(v: &Vec<u8>, from: usize, to: usize) -> (r: Vec<u8>)
    requires
        from <= to <= v@.len(),
    ensures
        r@ == v@.subrange(from as int, to as int),
{
    let mut r: Vec<u8> = Vec::new();
    let mut i: usize = from;
    while i < to
        invariant
            from <= i <= to <= v@.len(),
            r@ == v@.subrange(from as int, i as int),
        decreases to - i,
    {
        r.push(v[i]);
        i = i + 1;
        assert(r@ =~= v@.subrange(from as int, i as int));
    }
    r
}

/// Parses an OpenCode Go chat stream into neutral events.
pub struct ChatStreamParser {
    conversation: ConversationId,
    buffer: Vec<u8>,
    started: bool,
    finished: bool,
}

impl View for ChatStreamParser {
    type V = ParserView;

    closed spec fn view(&self) -> ParserView {
        ParserView {
            conversation: self.conversation@,
            buffer: self.buffer@,
            started: self.started,
            finished: self.finished,
        }
    }
}

impl ChatStreamParser {
    pub fn new(conversation: ConversationId) -> (r: Self)
        ensures
            r@ == (ParserView {
                conversation: conversation@,
                buffer: Seq::empty(),
                started: false,
                finished: false,
            }),
    {
        ChatStreamParser { conversation, buffer: Vec::new(), started: false, finished: false }
    }

    pub fn is_finished(&self) -> (r: bool)
        ensures
            r == self@.finished,
    {
        self.finished
    }

    /// Feeds raw bytes; every complete line they finish is processed.
    pub fn push(&mut self, chunk: &[u8]) -> (r: Result<Vec<StreamEvent>, GoFailure>)
        ensures
            match push_step(old(self)@, chunk@).0 {
                Ok(evs) => r matches Ok(v) && events_view(v@) == evs,
                Err(e) => r == Err::<Vec<StreamEvent>, GoFailure>(e),
            },
            final(self)@ == push_step(old(self)@, chunk@).1,
    {
        if self.finished {
            return Ok(Vec::new());
        }
        if self.buffer.len() > MAX_STREAM_LINE_BYTES || chunk.len() > MAX_STREAM_LINE_BYTES
            - self.buffer.len() {
            return Err(GoFailure::MalformedResponse);
        }
        let ghost before = self.buffer@;
        let mut i: usize = 0;
        while i < chunk.len()
            invariant
                i <= chunk.len(),
                self.buffer@ == before + chunk@.subrange(0, i as int),
                self.conversation == old(self).conversation,
                self.started == old(self).started,
                self.finished == old(self).finished,
            decreases chunk.len() - i,
        {
            self.buffer.push(chunk[i]);
            i = i + 1;
            assert(self.buffer@ =~= before + chunk@.subrange(0, i as int));
        }
        assert(chunk@.subrange(0, chunk@.len() as int) =~= chunk@);
        let ghost start = self@;
        assert(start == ParserView { buffer: old(self)@.buffer + chunk@, ..old(self)@ });
        let mut events: Vec<StreamEvent> = Vec::new();
        let mut done = false;
        proof {
            let d = drain_lines(start);
            match d.0 {
                Ok(more) => assert(Seq::<EventView>::empty() + more =~= more),
                Err(_) => {},
            }
        }
        while !done
            invariant
                push_step(old(self)@, chunk@) == drain_lines(start),
                !done ==> !self@.finished,
                !done ==> drain_lines(start) == (
                    then_events(events_view(events@), drain_lines(self@).0),
                    drain_lines(self@).1,
                ),
                done ==> drain_lines(start) == (
                    Ok::<Seq<EventView>, GoFailure>(events_view(events@)),
                    self@,
                ),
            decreases self.buffer.len() + (if done { 0int } else { 1int }),
        {
            let ghost cur = self@;
            let ghost evs_before = events_view(events@);
            match newline_position(&self.buffer) {
                None => {
                    assert(evs_before + Seq::<EventView>::empty() =~= evs_before);
                    done = true;
                },
                Some(k) => {
                    let line_bytes = bytes_range(&self.buffer, 0, k);
                    let len = self.buffer.len();
                    let rest = bytes_range(&self.buffer, k + 1, len);
                    self.buffer = rest;
                    let text = trim(utf8_lossy(line_bytes.as_slice()).as_str());
                    assert(text@ == line_text(cur.buffer.subrange(0, k as int)));
                    let ghost q = self@;
                    let outcome = self.process_line(text.as_str(), &mut events);
                    proof {
                        let step = line_step(q, text@);
                        assert(drain_lines(cur) == match step.0 {
                            Err(e) => (Err(e), step.1),
                            Ok(evs) => if step.1.finished {
                                (Ok(evs), step.1)
                            } else {
                                (then_events(evs, drain_lines(step.1).0), drain_lines(step.1).1)
                            },
                        });
                        match step.0 {
                            Ok(evs) => {
                                if !step.1.finished {
                                    match drain_lines(step.1).0 {
                                        Ok(more) => assert(evs_before + (evs + more) =~= (
                                        evs_before + evs) + more),
                                        Err(_) => {},
                                    }
                                }
                            },
                            Err(_) => {},
                        }
                    }
                    match outcome {
                        Err(e) => return Err(e),
                        Ok(()) => {},
                    }
                    if self.finished {
                        done = true;
                    }
                },
            }
        }
        Ok(events)
    }

    /// Completes the request when the stream ends without `[DONE]`; a pending
    /// partial line is processed first.
    pub fn finish(&mut self) -> (r: Vec<StreamEvent>)
        ensures
            events_view(r@) == finish_step(old(self)@).0,
            final(self)@ == finish_step(old(self)@).1,
    {
        if self.finished {
            return Vec::new();
        }
        let mut events: Vec<StreamEvent> = Vec::new();
        if self.buffer.len() > 0 {
            let text = trim(utf8_lossy(self.buffer.as_slice()).as_str());
            self.buffer = Vec::new();
            let _ = self.process_line(text.as_str(), &mut events);
        } else {
            assert(self.buffer@ =~= Seq::<u8>::empty());
        }
        let ghost mid = events_view(events@);
        self.complete(&mut events);
        events
    }

    fn complete(&mut self, events: &mut Vec<StreamEvent>)
        ensures
            events_view(final(events)@) == events_view(old(events)@) + complete_step(old(self)@).0,
            final(self)@ == complete_step(old(self)@).1,
    {
        if self.finished {
            assert(events_view(events@) =~= events_view(events@) + Seq::<EventView>::empty());
            return;
        }
        self.finished = true;
        let ghost before = events@;
        events.push(
            StreamEvent::Completed {
                completion: Completion {
                    conversation: self.conversation.clone(),
                    stop_reason: StopReason::EndTurn,
                },
            },
        );
        assert(events_view(events@) =~= events_view(before) + complete_step(old(self)@).0);
    }

    fn process_line(&mut self, line: &str, events: &mut Vec<StreamEvent>) -> (r: Result<
        (),
        GoFailure,
    >)
        ensures
            final(self)@ == line_step(old(self)@, line@).1,
            match line_step(old(self)@, line@).0 {
                Ok(evs) => r is Ok && events_view(final(events)@) == events_view(old(events)@)
                    + evs,
                Err(e) => r == Err::<(), GoFailure>(e) && final(events)@ == old(events)@,
            },
    {
        let ghost p = self@;
        if self.finished || line.is_empty() || starts_with(line, ":") || !starts_with(
            line,
            "data:",
        ) {
            assert(events_view(events@) =~= events_view(events@) + Seq::<EventView>::empty());
            return Ok(());
        }
        proof {
            reveal_strlit("data:");
        }
        let rest = chars_after(line, 5);
        let payload = trim(rest.as_str());
        if text_eq(payload.as_str(), "[DONE]") {
            self.complete(events);
            return Ok(());
        }
        let value = match parse_json(payload.as_str()) {
            Some(v) => v,
            None => return Err(GoFailure::MalformedResponse),
        };
        let (failed, text) = match read_chunk(&value) {
            Some(c) => c,
            None => return Err(GoFailure::MalformedResponse),
        };
        let ghost before = events@;
        let ghost opened: Seq<EventView> = if self.started {
            Seq::empty()
        } else {
            seq![EventView::Started]
        };
        if !self.started {
            self.started = true;
            events.push(StreamEvent::Started);
        }
        assert(events_view(events@) =~= events_view(before) + opened);
        if failed {
            self.finished = true;
            let ghost mid = events@;
            events.push(
                StreamEvent::Failed {
                    error: NormalizedError {
                        code: ErrorCode::ProviderUnavailable,
                        message: owned("The provider reported an error while streaming."),
                    },
                },
            );
            assert(events_view(events@) =~= events_view(mid).push(
                EventView::Failed(ErrorCode::ProviderUnavailable, stream_error_text()),
            ));
            assert(events_view(events@) =~= events_view(before) + opened.push(
                EventView::Failed(ErrorCode::ProviderUnavailable, stream_error_text()),
            ));
            return Ok(());
        }
        if !text.as_str().is_empty() {
            let ghost mid = events@;
            events.push(StreamEvent::TextChunk { text });
            assert(events_view(events@) =~= events_view(before) + opened.push(
                EventView::TextChunk(chunk_text(json_view(value))),
            ));
        }
        Ok(())
    }
}

/// A terminal event, if any, comes last, and it comes exactly when the
/// request has finished.
pub open spec fn ends_right(evs: Seq<EventView>, finished: bool) -> bool {
    &&& forall|i: int| 0 <= i < evs.len() - 1 ==> !is_terminal_view(#[trigger] evs[i])
    &&& finished <==> (evs.len() > 0 && is_terminal_view(evs.last()))
}

proof fn lemma_line_step_ends_right(p: ParserView, line: Seq<char>)
    requires
        !p.finished,
    ensures
        line_step(p, line).0 matches Ok(evs) ==> ends_right(evs, line_step(p, line).1.finished),
        line_step(p, line).0 is Err ==> line_step(p, line).1 == p,
        line_step(p, line).1.conversation == p.conversation,
        line_step(p, line).1.buffer == p.buffer,
{
}

proof fn lemma_drain_ends_right(p: ParserView)
    requires
        !p.finished,
    ensures
        drain_lines(p).0 matches Ok(evs) ==> ends_right(evs, drain_lines(p).1.finished),
    decreases p.buffer.len(),
{
    match first_newline(p.buffer) {
        None => {},
        Some(i) => if 0 <= i < p.buffer.len() {
            let q = ParserView { buffer: p.buffer.subrange(i + 1, p.buffer.len() as int), ..p };
            let line = line_text(p.buffer.subrange(0, i));
            lemma_line_step_ends_right(q, line);
            let step = line_step(q, line);
            match step.0 {
                Err(_) => {},
                Ok(evs) => if !step.1.finished {
                    lemma_drain_ends_right(step.1);
                    match drain_lines(step.1).0 {
                        Ok(more) => {
                            assert(evs.len() == 0 || !is_terminal_view(evs.last()));
                            let all = evs + more;
                            assert forall|k: int| 0 <= k < all.len() - 1 implies !is_terminal_view(
                                #[trigger] all[k],
                            ) by {
                                if k < evs.len() {
                                    assert(all[k] == evs[k]);
                                    if k == evs.len() - 1 {
                                        assert(evs[k] == evs.last());
                                    }
                                } else {
                                    assert(all[k] == more[k - evs.len()]);
                                }
                            }
                            if more.len() > 0 {
                                assert(all.last() == more.last());
                            } else {
                                assert(all =~= evs);
                            }
                        },
                        Err(_) => {},
                    }
                },
            }
        } else {
        },
    }
}

/// Each push yields a terminal event at most as its last event, and exactly
/// when the parser finishes; a finished parser yields nothing and stays as it
/// is. So a stream fed in any number of pushes ends at most once.
pub proof fn lemma_push_ends_once(p: ParserView, chunk: Seq<u8>)
    ensures
        p.finished ==> push_step(p, chunk) == (
            Ok::<Seq<EventView>, GoFailure>(Seq::empty()),
            p,
        ),
        p.finished ==> finish_step(p) == (Seq::<EventView>::empty(), p),
        !p.finished ==> (push_step(p, chunk).0 matches Ok(evs) ==> ends_right(
            evs,
            push_step(p, chunk).1.finished,
        )),
{
    if !p.finished && p.buffer.len() + chunk.len() <= MAX_STREAM_LINE_BYTES {
        lemma_drain_ends_right(ParserView { buffer: p.buffer + chunk, ..p });
    }
}

/// Finishing an unfinished stream ends it with exactly one terminal event,
/// the last one.
pub proof fn lemma_finish_ends_once(p: ParserView)
    requires
        !p.finished,
    ensures
        ends_right(finish_step(p).0, true),
        finish_step(p).1.finished,
{
    let q = ParserView { buffer: Seq::empty(), ..p };
    if p.buffer.len() > 0 {
        lemma_line_step_ends_right(q, line_text(p.buffer));
    }
    let partial = if p.buffer.len() > 0 {
        line_step(q, line_text(p.buffer))
    } else {
        (Ok(Seq::empty()), q)
    };
    let evs = match partial.0 {
        Ok(evs) => evs,
        Err(_) => Seq::empty(),
    };
    let tail = complete_step(partial.1).0;
    let all = evs + tail;
    if partial.1.finished {
        assert(tail.len() == 0);
        assert(all =~= evs);
    } else {
        assert(tail == seq![completed_event(p.conversation)]);
        assert forall|k: int| 0 <= k < all.len() - 1 implies !is_terminal_view(#[trigger] all[k]) by {
            assert(all[k] == evs[k]);
        }
        assert(all.last() == completed_event(p.conversation));
    }
}

/// The parser with its pending bytes replaced.
pub open spec fn with_buffer(p: ParserView, buffer: Seq<u8>) -> ParserView {
    ParserView { buffer, ..p }
}

proof fn lemma_first_newline_concat(a: Seq<u8>, b: Seq<u8>)
    ensures
        first_newline(a) matches Some(i) ==> first_newline(a + b) == Some(i),
        first_newline(a) is None ==> first_newline(a + b) == match first_newline(b) {
            Some(j) => Some(j + a.len()),
            None => None,
        },
        first_newline(a) matches Some(i) ==> 0 <= i < a.len(),
    decreases a.len(),
{
    if a.len() == 0 {
        assert(a + b =~= b);
    } else {
        assert((a + b)[0] == a[0]);
        if a[0] != 10 {
            lemma_first_newline_concat(a.drop_first(), b);
            assert((a + b).drop_first() =~= a.drop_first() + b);
        }
    }
}

proof fn lemma_line_step_buffer(p: ParserView, line: Seq<char>, buffer: Seq<u8>)
    ensures
        line_step(with_buffer(p, buffer), line).0 == line_step(p, line).0,
        line_step(with_buffer(p, buffer), line).1 == with_buffer(line_step(p, line).1, buffer),
{
}

/// Draining a buffer that continues with more bytes: the lines of the first
/// part give the same events, and the rest is drained from what they left
/// pending followed by the new bytes.
proof fn lemma_drain_concat(p: ParserView, more: Seq<u8>)
    requires
        !p.finished,
    ensures
        ({
            let d = drain_lines(p);
            let e = drain_lines(with_buffer(p, p.buffer + more));
            match d.0 {
                Err(f) => e.0 == Err::<Seq<EventView>, GoFailure>(f),
                Ok(evs) => if d.1.finished {
                    e.0 == Ok::<Seq<EventView>, GoFailure>(evs) && e.1.finished
                } else {
                    let rest = drain_lines(with_buffer(d.1, d.1.buffer + more));
                    e == (then_events(evs, rest.0), rest.1)
                },
            }
        }),
    decreases p.buffer.len(),
{
    let b = p.buffer;
    let x = with_buffer(p, b + more);
    lemma_first_newline_concat(b, more);
    match first_newline(b) {
        None => {
            assert(with_buffer(p, p.buffer) == p);
            let rest = drain_lines(x);
            match rest.0 {
                Ok(m) => assert(Seq::<EventView>::empty() + m =~= m),
                Err(_) => {},
            }
        },
        Some(i) => {
            assert((b + more).subrange(0, i) =~= b.subrange(0, i));
            assert((b + more).subrange(i + 1, (b + more).len() as int) =~= b.subrange(
                i + 1,
                b.len() as int,
            ) + more);
            let q = ParserView { buffer: b.subrange(i + 1, b.len() as int), ..p };
            let qx = ParserView { buffer: b.subrange(i + 1, b.len() as int) + more, ..p };
            assert(qx == with_buffer(q, q.buffer + more));
            let line = line_text(b.subrange(0, i));
            lemma_line_step_buffer(q, line, q.buffer + more);
            let step = line_step(q, line);
            match step.0 {
                Err(_) => {},
                Ok(evs) => if !step.1.finished {
                    lemma_drain_concat(step.1, more);
                    let d2 = drain_lines(step.1);
                    match d2.0 {
                        Ok(m) => if !d2.1.finished {
                            let rest = drain_lines(with_buffer(d2.1, d2.1.buffer + more));
                            match rest.0 {
                                Ok(r) => assert(evs + (m + r) =~= (evs + m) + r),
                                Err(_) => {},
                            }
                        },
                        Err(_) => {},
                    }
                },
            }
        },
    }
}

/// Bytes may arrive in any split: feeding `a` and then `b` yields the events
/// of feeding `a + b` at once, in order, and leaves the same parser, as long
/// as the pending line stays within its bound. A failure in `a` is the
/// failure of `a + b`; once `a` ends the stream, `b` changes nothing that
/// can be observed.
pub proof fn lemma_push_split(p: ParserView, a: Seq<u8>, b: Seq<u8>)
    requires
        p.buffer.len() + a.len() + b.len() <= MAX_STREAM_LINE_BYTES,
    ensures
        ({
            let first = push_step(p, a);
            let whole = push_step(p, a + b);
            match first.0 {
                Err(f) => whole.0 == Err::<Seq<EventView>, GoFailure>(f),
                Ok(evs) => if first.1.finished {
                    whole.0 == Ok::<Seq<EventView>, GoFailure>(evs) && whole.1.finished
                } else {
                    let second = push_step(first.1, b);
                    whole == (then_events(evs, second.0), second.1)
                },
            }
        }),
{
    if p.finished {
        assert(Seq::<EventView>::empty() + Seq::<EventView>::empty() =~= Seq::<EventView>::empty());
    } else {
        let start = ParserView { buffer: p.buffer + a, ..p };
        lemma_drain_concat(start, b);
        assert((p.buffer + a) + b =~= p.buffer + (a + b));
        assert(with_buffer(start, start.buffer + b) == ParserView { buffer: p.buffer + (a + b), ..p });
        lemma_drain_pending(start);
    }
}

/// What draining leaves pending is a suffix of what it drained, so it is no
/// longer than that.
proof fn lemma_drain_pending(p: ParserView)
    ensures
        drain_lines(p).1.buffer.len() <= p.buffer.len(),
        drain_lines(p).1.conversation == p.conversation,
    decreases p.buffer.len(),
{
    match first_newline(p.buffer) {
        None => {},
        Some(i) => if 0 <= i < p.buffer.len() {
            let q = ParserView { buffer: p.buffer.subrange(i + 1, p.buffer.len() as int), ..p };
            let line = line_text(p.buffer.subrange(0, i));
            lemma_line_step_keeps_buffer(q, line);
            let step = line_step(q, line);
            match step.0 {
                Err(_) => {},
                Ok(_) => if !step.1.finished {
                    lemma_drain_pending(step.1);
                },
            }
        } else {
        },
    }
}

proof fn lemma_line_step_keeps_buffer(p: ParserView, line: Seq<char>)
    ensures
        line_step(p, line).1.buffer == p.buffer,
        line_step(p, line).1.conversation == p.conversation,
{
}

/// Some event before position `upto` of `evs` opens the request.
pub open spec fn has_started(evs: Seq<EventView>, upto: int) -> bool {
    exists|i: int| 0 <= i < upto && (#[trigger] evs[i]) is Started
}

/// `evs` opens the request at most once and before any text: a `Started`
/// comes only while the request is not yet open (`before` false) and no
/// earlier `Started` precedes it, every text chunk follows an opening, and
/// `after` is whether the request is open once `evs` are out.
pub open spec fn opens_right(evs: Seq<EventView>, before: bool, after: bool) -> bool {
    &&& forall|j: int|
        0 <= j < evs.len() && (#[trigger] evs[j]) is Started ==> !before && !has_started(evs, j)
    &&& forall|j: int|
        0 <= j < evs.len() && (#[trigger] evs[j]) is TextChunk ==> before || has_started(evs, j)
    &&& after == (before || has_started(evs, evs.len() as int))
}

proof fn lemma_has_started_concat(a: Seq<EventView>, c: Seq<EventView>, j: int)
    requires
        0 <= j <= c.len(),
    ensures
        has_started(a + c, a.len() + j) == (has_started(a, a.len() as int) || has_started(c, j)),
        forall|k: int| 0 <= k <= a.len() ==> has_started(a + c, k) == has_started(a, k),
{
    let all = a + c;
    if has_started(a + c, a.len() + j) {
        let i = choose|i: int| 0 <= i < a.len() + j && (#[trigger] all[i]) is Started;
        if i < a.len() {
            assert(a[i] == all[i]);
        } else {
            assert(c[i - a.len()] == all[i]);
        }
    }
    if has_started(a, a.len() as int) {
        let i = choose|i: int| 0 <= i < a.len() && (#[trigger] a[i]) is Started;
        assert(all[i] == a[i]);
    }
    if has_started(c, j) {
        let i = choose|i: int| 0 <= i < j && (#[trigger] c[i]) is Started;
        assert(all[a.len() + i] == c[i]);
    }
    assert forall|k: int| 0 <= k <= a.len() implies has_started(a + c, k) == has_started(a, k) by {
        if has_started(a + c, k) {
            let i = choose|i: int| 0 <= i < k && (#[trigger] all[i]) is Started;
            assert(a[i] == all[i]);
        }
        if has_started(a, k) {
            let i = choose|i: int| 0 <= i < k && (#[trigger] a[i]) is Started;
            assert(all[i] == a[i]);
        }
    }
}

/// Two runs that each open right, one after the other, open right together:
/// so a stream fed in any number of pushes opens at most once, before any
/// text.
pub proof fn lemma_opens_concat(a: Seq<EventView>, c: Seq<EventView>, b0: bool, b1: bool, b2: bool)
    requires
        opens_right(a, b0, b1),
        opens_right(c, b1, b2),
    ensures
        opens_right(a + c, b0, b2),
{
    let all = a + c;
    lemma_has_started_concat(a, c, c.len() as int);
    assert(all.len() == a.len() + c.len());
    assert forall|j: int| 0 <= j < all.len() && (#[trigger] all[j]) is Started implies !b0
        && !has_started(all, j) by {
        if j < a.len() {
            assert(all[j] == a[j]);
            lemma_has_started_concat(a, c, 0);
        } else {
            assert(all[j] == c[j - a.len()]);
            lemma_has_started_concat(a, c, j - a.len());
        }
    }
    assert forall|j: int| 0 <= j < all.len() && (#[trigger] all[j]) is TextChunk implies b0
        || has_started(all, j) by {
        if j < a.len() {
            assert(all[j] == a[j]);
            lemma_has_started_concat(a, c, 0);
        } else {
            assert(all[j] == c[j - a.len()]);
            lemma_has_started_concat(a, c, j - a.len());
        }
    }
}

proof fn lemma_line_opens(p: ParserView, line: Seq<char>)
    ensures
        line_step(p, line).0 matches Ok(evs) ==> opens_right(evs, p.started, line_step(p, line).1.started),
{
    let step = line_step(p, line);
    match step.0 {
        Ok(evs) => {
            assert forall|j: int| 0 <= j < evs.len() && (#[trigger] evs[j]) is Started implies !p.started
                && !has_started(evs, j) by {
                assert(j == 0);
            }
            assert forall|j: int| 0 <= j < evs.len() && (#[trigger] evs[j]) is TextChunk implies p.started
                || has_started(evs, j) by {
                if !p.started {
                    assert(evs[0] is Started);
                }
            }
            if !p.started && step.1.started {
                assert(evs[0] is Started);
            }
        },
        Err(_) => {},
    }
}

proof fn lemma_drain_opens(p: ParserView)
    ensures
        drain_lines(p).0 matches Ok(evs) ==> opens_right(evs, p.started, drain_lines(p).1.started),
    decreases p.buffer.len(),
{
    match first_newline(p.buffer) {
        None => {
            assert(!has_started(Seq::<EventView>::empty(), 0));
        },
        Some(i) => if 0 <= i < p.buffer.len() {
            let q = ParserView { buffer: p.buffer.subrange(i + 1, p.buffer.len() as int), ..p };
            let line = line_text(p.buffer.subrange(0, i));
            lemma_line_opens(q, line);
            let step = line_step(q, line);
            match step.0 {
                Err(_) => {},
                Ok(evs) => if !step.1.finished {
                    lemma_drain_opens(step.1);
                    match drain_lines(step.1).0 {
                        Ok(more) => {
                            lemma_opens_concat(evs, more, p.started, step.1.started, drain_lines(step.1).1.started);
                        },
                        Err(_) => {},
                    }
                },
            }
        } else {
            assert(!has_started(Seq::<EventView>::empty(), 0));
        },
    }
}

/// Each push that succeeds opens the request at most once, before any text,
/// and only if it was not open yet; with [`lemma_opens_concat`] the same holds
/// of every sequence of pushes.
pub proof fn lemma_push_opens_once(p: ParserView, chunk: Seq<u8>)
    ensures
        push_step(p, chunk).0 matches Ok(evs) ==> opens_right(evs, p.started, push_step(p, chunk).1.started),
{
    if p.finished {
        assert(!has_started(Seq::<EventView>::empty(), 0));
    } else if p.buffer.len() + chunk.len() <= MAX_STREAM_LINE_BYTES {
        lemma_drain_opens(ParserView { buffer: p.buffer + chunk, ..p });
    }
}

/// A `choices` element carrying `content` in its delta.
pub open spec fn delta_choice(content: Seq<char>) -> JsonView {
    JsonView::Object(seq![("delta"@, JsonView::Object(seq![("content"@, JsonView::Str(content))]))])
}

/// The `choices` elements carrying `contents`, in order.
pub open spec fn delta_choices(contents: Seq<Seq<char>>) -> Seq<JsonView> {
    contents.map_values(|c: Seq<char>| delta_choice(c))
}

/// A streamed chunk whose choices carry `contents` in their deltas, in order.
pub open spec fn delta_chunk(contents: Seq<Seq<char>>) -> JsonView {
    JsonView::Object(
        seq![("choices"@, JsonView::Array(delta_choices(contents)))],
    )
}

proof fn lemma_delta_choices_text(contents: Seq<Seq<char>>)
    ensures
        choices_text(delta_choices(contents)) == contents.flatten_alt(),
        forall|i: int|
            0 <= i < contents.len() ==> choice_reads(
                #[trigger] delta_choices(contents)[i],
            ),
    decreases contents.len(),
{
    reveal_strlit("delta");
    reveal_strlit("content");
    let items = delta_choices(contents);
    if contents.len() > 0 {
        lemma_delta_choices_text(contents.drop_last());
        assert(items.drop_last() =~= delta_choices(contents.drop_last()));
        let last = contents.last();
        assert(items.last() == delta_choice(last));
        assert(record_field(delta_choice(last), "delta"@, 0) == Some(
            JsonView::Object(seq![("content"@, JsonView::Str(last))]),
        ));
        assert(record_field(JsonView::Object(seq![("content"@, JsonView::Str(last))]), "content"@, 0)
            == Some(JsonView::Str(last)));
        assert(choice_text(items.last()) == last);
    }
    assert forall|i: int| 0 <= i < contents.len() implies choice_reads(#[trigger] items[i]) by {
        let c = contents[i];
        assert(items[i] == delta_choice(c));
        assert(record_field(delta_choice(c), "delta"@, 0) == Some(
            JsonView::Object(seq![("content"@, JsonView::Str(c))]),
        ));
        assert(record_field(JsonView::Object(seq![("content"@, JsonView::Str(c))]), "content"@, 0)
            == Some(JsonView::Str(c)));
    }
}

/// Delta text is passed on verbatim: on a stream that has not ended, a
/// `data:` line whose payload reads as a chunk whose choices carry the delta
/// contents `contents` yields exactly one text chunk, holding the contents
/// concatenated in order with no character added or removed (after
/// `Started` when the stream had not started yet).
pub proof fn lemma_delta_text_verbatim(p: ParserView, line: Seq<char>, contents: Seq<Seq<char>>)
    requires
        !p.finished,
        has_prefix(line, "data:"@),
        trim_seq(line.subrange(5, line.len() as int)) != "[DONE]"@,
        json_text(trim_seq(line.subrange(5, line.len() as int))) == Some(delta_chunk(contents)),
        contents.flatten().len() > 0,
    ensures
        line_step(p, line).0 == Ok::<Seq<EventView>, GoFailure>(
            (if p.started {
                Seq::<EventView>::empty()
            } else {
                seq![EventView::Started]
            }).push(EventView::TextChunk(contents.flatten())),
        ),
        line_step(p, line).1 == (ParserView { started: true, ..p }),
{
    reveal_strlit("data:");
    reveal_strlit(":");
    reveal_strlit("choices");
    reveal_strlit("error");
    lemma_delta_choices_text(contents);
    contents.lemma_flatten_and_flatten_alt_are_equivalent();
    let v = delta_chunk(contents);
    let items = delta_choices(contents);
    assert("data:"@.len() == 5 && "data:"@[0] == 'd');
    assert(line.subrange(0, 5)[0] == line[0]);
    assert(line[0] == 'd');
    assert(!has_prefix(line, ":"@)) by {
        assert(":"@.len() == 1 && ":"@[0] == ':');
        if has_prefix(line, ":"@) {
            assert(line.subrange(0, 1)[0] == line[0]);
        }
    }
    assert(record_field(v, "choices"@, 0) == Some(JsonView::Array(items)));
    assert(record_field(v, "error"@, 1) is None) by {
        assert("choices"@.len() == 7 && "error"@.len() == 5);
        let entries = seq![("choices"@, JsonView::Array(items))];
        assert(entries[0].0 != "error"@);
        assert(entries.drop_first().len() == 0);
        assert(crate::json::entries_lookup(entries.drop_first(), "error"@) is None);
    }
    assert(chunk_reads(v));
    assert(!chunk_failed(v));
    assert(chunk_text(v) == contents.flatten());
}

} // verus!
