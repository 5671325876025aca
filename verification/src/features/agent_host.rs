//! Agent Host: the decisions around the `opencode serve` sidecar.
//!
//! The sidecar runs with an ephemeral basic-auth password held only in memory;
//! its answers are untrusted input. This module validates what goes to the
//! sidecar, parses and bounds what comes back, classifies its event stream
//! for one session, and keeps only identifiers of its model catalog: keys,
//! URLs and prices never leave it. The password never appears in any status,
//! error or event.
use vstd::prelude::*;
use crate::json::{
    json_as_array, json_as_object, json_as_str, json_entries, json_get, json_map_view, json_quote,
    json_text, json_view, member, member_str, parse_json, quote_json, str_of, JsonView,
};
use crate::provider::contract::{limits, normalized_error, ErrorCode, NormalizedError};
use crate::provider::go::{record_field, record_shape};
use crate::text::{
    byte_len, chars_of, has_prefix, join2, owned, starts_with, string_of_chars, take_chars,
    take_chars_vec, text_eq, trim, trim_seq,
};

pub mod catalog;
pub mod decisions;

verus! {

/// Default localhost port for the sidecar.
pub const AGENT_HOST_DEFAULT_PORT: u16 = 4099;

/// Upper bound on models forwarded to the UI.
pub const MAX_MODELS: usize = 500;

pub const MAX_NAME_CHARS: usize = 200;

/// Product event name for sidecar session streams.
pub const AGENT_EVENT_NAME: &'static str = "agent_event";

pub const AGENT_CONTRACT_VERSION: u32 = 1;

/// Bounds one streamed text delta.
pub const MAX_DELTA_CHARS: usize = 65536;

/// Bounds the text of one whole send.
pub const MAX_SEND_CHARS: usize = 2097152;

/// Bounds one prompt, in characters, after its byte bound.
pub const MAX_PROMPT_CHARS: usize = 16384;

pub const MAX_VERSION_CHARS: usize = 64;

/// Redacted, frontend-safe sidecar state. No secret field exists by design.
#[derive(Debug, Clone, PartialEq, Eq)]
pub struct AgentHostStatus {
    pub running: bool,
    pub port: u16,
    pub version: Option<String>,
    pub pid: Option<u32>,
}

/// The frontend-facing lifecycle of one sidecar turn.
#[derive(Debug, PartialEq, Eq)]
pub enum AgentStreamEvent {
    Started { session: String },
    TextChunk { session: String, text: String },
    Completed { session: String },
    Failed { session: String, error: NormalizedError },
    Cancelled { session: String },
}

#[derive(Debug, PartialEq, Eq)]
pub struct AgentEventEnvelope {
    pub contract_version: u32,
    pub event: AgentStreamEvent,
}

#[derive(Debug, Clone, PartialEq, Eq)]
pub struct AgentSendAccepted {
    pub contract_version: u32,
    pub session: String,
}

/// One selectable model: identifiers only.
#[derive(Debug, PartialEq, Eq)]
pub struct AgentModelSelection {
    pub provider_id: String,
    pub model_id: String,
}

impl Clone for AgentModelSelection {
    fn clone(&self) -> (r: Self)
        ensures
            r.provider_id@ == self.provider_id@,
            r.model_id@ == self.model_id@,
    {
        AgentModelSelection { provider_id: self.provider_id.clone(), model_id: self.model_id.clone() }
    }
}

#[derive(Debug, PartialEq, Eq)]
pub struct AgentModelEntry {
    pub provider_id: String,
    pub provider_name: String,
    pub model_id: String,
    pub model_name: String,
}

#[derive(Debug, PartialEq, Eq)]
pub struct AgentModelList {
    pub models: Vec<AgentModelEntry>,
    pub selected: Option<AgentModelSelection>,
}

/// A neutral error of the agent host.
pub fn host_error(code: ErrorCode, message: &str) -> (r: NormalizedError)
    ensures
        r.code == code,
        r.message@ == message@,
{
    normalized_error(code, message)
}

pub fn validate_port(port: u16) -> (r: Result<u16, NormalizedError>)
    ensures
        port != 0 ==> r == Ok::<u16, NormalizedError>(port),
        port == 0 ==> (r matches Err(e) && e.code == ErrorCode::InvalidInput && e.message@
            == "The sidecar port must be a fixed nonzero port in R2-S01."@),
{
    if port == 0 {
        return Err(
            host_error(
                ErrorCode::InvalidInput,
                "The sidecar port must be a fixed nonzero port in R2-S01.",
            ),
        );
    }
    Ok(port)
}

/// The neutral error a sidecar HTTP status becomes.
pub open spec fn status_failure(status: u16) -> (ErrorCode, Seq<char>) {
    if status == 401 {
        (
            ErrorCode::AuthenticationFailed,
            "The sidecar rejected the session credential. Restart BrainRoot and try again."@,
        )
    } else if status == 429 {
        (ErrorCode::RateLimited, "The sidecar reported a rate limit. Wait and try again."@)
    } else {
        (
            ErrorCode::ProviderUnavailable,
            "The sidecar answered with an unexpected status. Restart it and try again."@,
        )
    }
}

pub fn error_for_status(status: u16) -> (r: NormalizedError)
    ensures
        (r.code, r.message@) == status_failure(status),
{
    match status {
        401 => host_error(
            ErrorCode::AuthenticationFailed,
            "The sidecar rejected the session credential. Restart BrainRoot and try again.",
        ),
        429 => host_error(
            ErrorCode::RateLimited,
            "The sidecar reported a rate limit. Wait and try again.",
        ),
        _ => host_error(
            ErrorCode::ProviderUnavailable,
            "The sidecar answered with an unexpected status. Restart it and try again.",
        ),
    }
}

/// The base64 digit for a six-bit value (standard alphabet).
pub open spec fn b64_digit(i: int) -> char {
    if i < 26 {
        (65 + i) as char
    } else if i < 52 {
        (97 + i - 26) as char
    } else if i < 62 {
        (48 + i - 52) as char
    } else if i == 62 {
        '+'
    } else {
        '/'
    }
}

/// The four characters that encode one group of one to three bytes; a short
/// group is padded with `=`.
pub open spec fn b64_group(b: Seq<u8>) -> Seq<char> {
    let b0 = b[0] as int;
    let b1 = if b.len() > 1 { b[1] as int } else { 0 };
    let b2 = if b.len() > 2 { b[2] as int } else { 0 };
    seq![
        b64_digit(b0 / 4),
        b64_digit((b0 % 4) * 16 + b1 / 16),
        if b.len() > 1 { b64_digit((b1 % 16) * 4 + b2 / 64) } else { '=' },
        if b.len() > 2 { b64_digit(b2 % 64) } else { '=' },
    ]
}

/// Standard base64 with padding, group by group from the front.
pub open spec fn base64(b: Seq<u8>) -> Seq<char>
    decreases b.len(),
{
    if b.len() == 0 {
        Seq::empty()
    } else if b.len() <= 3 {
        b64_group(b)
    } else {
        b64_group(b.subrange(0, 3)) + base64(b.subrange(3, b.len() as int))
    }
}

proof fn lemma_base64_append(b: Seq<u8>, i: int, k: int)
    requires
        0 <= i,
        i % 3 == 0,
        1 <= k <= 3,
        i + k <= b.len(),
    ensures
        base64(b.subrange(0, i + k)) == base64(b.subrange(0, i)) + b64_group(b.subrange(i, i + k)),
    decreases i,
{
    if i == 0 {
        assert(b.subrange(0, 0).len() == 0);
        assert(base64(b.subrange(0, 0)) =~= Seq::<char>::empty());
        assert(b.subrange(0, k) =~= b.subrange(i, i + k));
        assert(base64(b.subrange(0, k)) == b64_group(b.subrange(0, k)));
        assert(Seq::<char>::empty() + b64_group(b.subrange(0, k)) =~= b64_group(b.subrange(0, k)));
    } else {
        let c = b.subrange(3, b.len() as int);
        lemma_base64_append(c, i - 3, k);
        assert(c.subrange(0, i - 3 + k) =~= b.subrange(0, i + k).subrange(3, i + k));
        assert(b.subrange(0, i + k).subrange(0, 3) =~= b.subrange(0, 3));
        assert(c.subrange(i - 3, i - 3 + k) =~= b.subrange(i, i + k));
        assert(c.subrange(0, i - 3) =~= b.subrange(0, i).subrange(3, i));
        assert(b.subrange(0, i).subrange(0, 3) =~= b.subrange(0, 3));
        if i == 3 {
            assert(b.subrange(0, i).subrange(3, i).len() == 0);
            assert(base64(b.subrange(0, i).subrange(3, i)) =~= Seq::<char>::empty());
            assert(base64(b.subrange(0, 3)) == b64_group(b.subrange(0, 3)));
            assert(b64_group(b.subrange(0, 3)) + Seq::<char>::empty() =~= b64_group(
                b.subrange(0, 3),
            ));
        }
        assert((b64_group(b.subrange(0, 3)) + base64(c.subrange(0, i - 3))) + b64_group(
            c.subrange(i - 3, i - 3 + k),
        ) =~= b64_group(b.subrange(0, 3)) + (base64(c.subrange(0, i - 3)) + b64_group(
            c.subrange(i - 3, i - 3 + k),
        )));
    }
}

/// Base64 output is four characters for every started group of three bytes.
pub proof fn lemma_base64_len(b: Seq<u8>)
    ensures
        base64(b).len() == 4 * ((b.len() + 2) / 3),
    decreases b.len(),
{
    if b.len() > 3 {
        lemma_base64_len(b.subrange(3, b.len() as int));
    }
}

fn b64_char(i: u32) -> (c: char)
    requires
        i < 64,
    ensures
        c == b64_digit(i as int),
{
    if i < 26 {
        ((65 + i) as u8) as char
    } else if i < 52 {
        ((97 + i - 26) as u8) as char
    } else if i < 62 {
        ((48 + i - 52) as u8) as char
    } else if i == 62 {
        '+'
    } else {
        '/'
    }
}

/// Standard base64 with padding.
pub fn encode_base64(input: &[u8]) -> (r: String)
    ensures
        r@ == base64(input@),
{
    let mut out: Vec<char> = Vec::new();
    let mut i: usize = 0;
    while i < input.len()
        invariant
            i <= input@.len(),
            i % 3 == 0 || i == input@.len(),
            out@ == base64(input@.subrange(0, i as int)),
        decreases input.len() - i,
    {
        let k: usize = if input.len() - i >= 3 {
            3
        } else {
            input.len() - i
        };
        let b0 = input[i] as u32;
        let b1: u32 = if k > 1 {
            input[i + 1] as u32
        } else {
            0
        };
        let b2: u32 = if k > 2 {
            input[i + 2] as u32
        } else {
            0
        };
        let ghost group = input@.subrange(i as int, i + k);
        let ghost before = out@;
        out.push(b64_char(b0 / 4));
        out.push(b64_char((b0 % 4) * 16 + b1 / 16));
        if k > 1 {
            out.push(b64_char((b1 % 16) * 4 + b2 / 64));
        } else {
            out.push('=');
        }
        if k > 2 {
            out.push(b64_char(b2 % 64));
        } else {
            out.push('=');
        }
        proof {
            lemma_base64_append(input@, i as int, k as int);
            assert(out@ =~= before + b64_group(group));
        }
        i = i + k;
    }
    assert(input@.subrange(0, input@.len() as int) =~= input@);
    string_of_chars(out.as_slice())
}

/// The basic-auth value for the sidecar's `opencode` user.
pub open spec fn basic_auth(password: Seq<char>) -> Seq<char> {
    base64(vstd::utf8::encode_utf8("opencode:"@ + password))
}

pub fn basic_auth_value(password: &str) -> (r: String)
    ensures
        r@ == basic_auth(password@),
{
    let credentials = join2("opencode:", password);
    encode_base64(credentials.as_str().as_bytes())
}

/// A name from the sidecar: trimmed, and cut to [`MAX_NAME_CHARS`] characters.
pub open spec fn clean_name(value: Seq<char>) -> Seq<char> {
    take_chars(trim_seq(value), MAX_NAME_CHARS as nat)
}

pub fn truncate_name(value: &str) -> (r: String)
    ensures
        r@ == clean_name(value@),
{
    let trimmed = trim(value);
    let v = chars_of(trimmed.as_str());
    let cut = take_chars_vec(&v, MAX_NAME_CHARS);
    string_of_chars(cut.as_slice())
}

pub fn truncate_send(text: &str) -> (r: String)
    ensures
        r@ == take_chars(text@, MAX_PROMPT_CHARS as nat),
{
    let v = chars_of(text);
    let cut = take_chars_vec(&v, MAX_PROMPT_CHARS);
    string_of_chars(cut.as_slice())
}

/// What a prompt becomes: trimmed; refused when empty or over the message
/// byte limit; then cut to [`MAX_PROMPT_CHARS`] characters.
pub open spec fn prompt_outcome(input: Seq<char>) -> Result<Seq<char>, (ErrorCode, Seq<char>)> {
    let trimmed = trim_seq(input);
    if trimmed.len() == 0 {
        Err((ErrorCode::InvalidInput, "The prompt must not be empty."@))
    } else if byte_len(trimmed) > limits::MAX_USER_MESSAGE_BYTES {
        Err((ErrorCode::RequestTooLarge, "The prompt is larger than the 16 KiB sidecar limit."@))
    } else {
        Ok(take_chars(trimmed, MAX_PROMPT_CHARS as nat))
    }
}

pub fn validate_prompt(input: &str) -> (r: Result<String, NormalizedError>)
    ensures
        match prompt_outcome(input@) {
            Ok(p) => r matches Ok(s) && s@ == p,
            Err(e) => r matches Err(x) && (x.code, x.message@) == e,
        },
{
    let trimmed = trim(input);
    if trimmed.as_str().is_empty() {
        return Err(host_error(ErrorCode::InvalidInput, "The prompt must not be empty."));
    }
    if trimmed.as_str().len() > limits::MAX_USER_MESSAGE_BYTES {
        return Err(
            host_error(
                ErrorCode::RequestTooLarge,
                "The prompt is larger than the 16 KiB sidecar limit.",
            ),
        );
    }
    Ok(truncate_send(trimmed.as_str()))
}

/// A string value as a clean, nonempty name.
pub open spec fn plain_name(value: JsonView) -> Option<Seq<char>> {
    match value {
        JsonView::Str(t) => if clean_name(t).len() == 0 {
            None
        } else {
            Some(clean_name(t))
        },
        _ => None,
    }
}

pub fn plain_string(value: &serde_json::Value) -> (r: Option<String>)
    ensures
        match plain_name(json_view(*value)) {
            Some(n) => r matches Some(s) && s@ == n,
            None => r is None,
        },
{
    match json_as_str(value) {
        Some(text) => {
            let clean = truncate_name(text);
            if clean.as_str().is_empty() {
                None
            } else {
                Some(clean)
            }
        },
        None => None,
    }
}

/// What a model selection becomes: both names cleaned; refused when either
/// is empty, or longer than [`MAX_NAME_CHARS`] bytes.
pub open spec fn selection_outcome(provider_id: Seq<char>, model_id: Seq<char>) -> Result<
    (Seq<char>, Seq<char>),
    (ErrorCode, Seq<char>),
> {
    let p = clean_name(provider_id);
    let m = clean_name(model_id);
    if p.len() == 0 || m.len() == 0 {
        Err((ErrorCode::InvalidInput, "The provider and model identifiers must not be empty."@))
    } else if byte_len(p) > MAX_NAME_CHARS || byte_len(m) > MAX_NAME_CHARS {
        Err((ErrorCode::InvalidInput, "The provider or model identifier is too long."@))
    } else {
        Ok((p, m))
    }
}

/// Validates the shape of a model choice; availability is the sidecar's
/// to decide at send time.
pub fn validate_selection(provider_id: &str, model_id: &str) -> (r: Result<
    AgentModelSelection,
    NormalizedError,
>)
    ensures
        match selection_outcome(provider_id@, model_id@) {
            Ok((p, m)) => r matches Ok(s) && s.provider_id@ == p && s.model_id@ == m,
            Err(e) => r matches Err(x) && (x.code, x.message@) == e,
        },
{
    let provider_id = truncate_name(provider_id);
    let model_id = truncate_name(model_id);
    if provider_id.as_str().is_empty() || model_id.as_str().is_empty() {
        return Err(
            host_error(
                ErrorCode::InvalidInput,
                "The provider and model identifiers must not be empty.",
            ),
        );
    }
    if provider_id.as_str().len() > MAX_NAME_CHARS || model_id.as_str().len() > MAX_NAME_CHARS {
        return Err(
            host_error(ErrorCode::InvalidInput, "The provider or model identifier is too long."),
        );
    }
    Ok(AgentModelSelection { provider_id, model_id })
}

/// The fields of a health answer, when it reads as `{healthy: bool,
/// version: string}` (an object, or an array of the two in order).
pub open spec fn health_fields(v: JsonView) -> Option<(bool, Seq<char>)> {
    if record_shape(v, 2) && (v is Array ==> v->Array_0.len() == 2) {
        match (record_field(v, "healthy"@, 0), record_field(v, "version"@, 1)) {
            (Some(JsonView::Bool(h)), Some(JsonView::Str(s))) => Some((h, s)),
            _ => None,
        }
    } else {
        None
    }
}

/// What a health answer yields: the version, cut to
/// [`MAX_VERSION_CHARS`] characters, of a healthy sidecar.
pub open spec fn health_outcome(body: Seq<char>) -> Result<Seq<char>, (ErrorCode, Seq<char>)> {
    match json_text(body) {
        Some(v) => match health_fields(v) {
            Some((healthy, version)) => if !healthy {
                Err((ErrorCode::ProviderUnavailable, "The sidecar reported itself unhealthy."@))
            } else if trim_seq(take_chars(version, MAX_VERSION_CHARS as nat)).len() == 0 {
                Err((ErrorCode::MalformedResponse, "The sidecar answered without a version."@))
            } else {
                Ok(take_chars(version, MAX_VERSION_CHARS as nat))
            },
            None => Err(
                (ErrorCode::MalformedResponse, "The sidecar answered with malformed health data."@),
            ),
        },
        None => Err(
            (ErrorCode::MalformedResponse, "The sidecar answered with malformed health data."@),
        ),
    }
}

fn read_health(v: &serde_json::Value) -> (r: Option<(bool, String)>)
    ensures
        match health_fields(json_view(*v)) {
            Some((h, s)) => r matches Some(x) && x.0 == h && x.1@ == s,
            None => r is None,
        },
{
    let shape_ok = if json_as_object(v).is_some() {
        true
    } else {
        match json_as_array(v) {
            Some(items) => {
                assert(items@.len() == items@.map_values(|x: serde_json::Value| json_view(x)).len());
                items.len() == 2
            },
            None => false,
        }
    };
    if !shape_ok {
        return None;
    }
    let healthy = match record_field_of(v, "healthy", 0) {
        Some(h) => match crate::json::json_as_bool(h) {
            Some(b) => b,
            None => return None,
        },
        None => return None,
    };
    let version = match record_field_of(v, "version", 1) {
        Some(x) => match json_as_str(x) {
            Some(t) => owned(t),
            None => return None,
        },
        None => return None,
    };
    Some((healthy, version))
}

pub fn parse_health(body: &str) -> (r: Result<String, NormalizedError>)
    ensures
        match health_outcome(body@) {
            Ok(version) => r matches Ok(s) && s@ == version,
            Err(e) => r matches Err(x) && (x.code, x.message@) == e,
        },
{
    let value = match parse_json(body) {
        Some(v) => v,
        None => return Err(
            host_error(ErrorCode::MalformedResponse, "The sidecar answered with malformed health data."),
        ),
    };
    let (healthy, version) = match read_health(&value) {
        Some(fields) => fields,
        None => return Err(
            host_error(ErrorCode::MalformedResponse, "The sidecar answered with malformed health data."),
        ),
    };
    if !healthy {
        return Err(host_error(ErrorCode::ProviderUnavailable, "The sidecar reported itself unhealthy."));
    }
    let v = chars_of(version.as_str());
    let cut = take_chars_vec(&v, MAX_VERSION_CHARS);
    let version = string_of_chars(cut.as_slice());
    if trim(version.as_str()).as_str().is_empty() {
        return Err(host_error(ErrorCode::MalformedResponse, "The sidecar answered without a version."));
    }
    Ok(version)
}

/// The session a `/session` answer names: its string `id`, which must start
/// with `ses`.
pub open spec fn session_outcome(body: Seq<char>) -> Result<Seq<char>, (ErrorCode, Seq<char>)> {
    match json_text(body) {
        Some(v) => match member_str(v, "id"@) {
            Some(id) => if has_prefix(id, "ses"@) {
                Ok(id)
            } else {
                Err((ErrorCode::MalformedResponse, "The sidecar answered without a session id."@))
            },
            None => Err((ErrorCode::MalformedResponse, "The sidecar answered without a session id."@)),
        },
        None => Err(
            (ErrorCode::MalformedResponse, "The sidecar answered with malformed session data."@),
        ),
    }
}

pub fn session_id_of(body: &str) -> (r: Result<String, NormalizedError>)
    ensures
        match session_outcome(body@) {
            Ok(id) => r matches Ok(s) && s@ == id,
            Err(e) => r matches Err(x) && (x.code, x.message@) == e,
        },
{
    let value = match parse_json(body) {
        Some(v) => v,
        None => return Err(
            host_error(
                ErrorCode::MalformedResponse,
                "The sidecar answered with malformed session data.",
            ),
        ),
    };
    let id = match json_get(&value, "id") {
        Some(x) => json_as_str(x),
        None => None,
    };
    match id {
        Some(id) => {
            if starts_with(id, "ses") {
                Ok(owned(id))
            } else {
                Err(host_error(ErrorCode::MalformedResponse, "The sidecar answered without a session id."))
            }
        },
        None => Err(
            host_error(ErrorCode::MalformedResponse, "The sidecar answered without a session id."),
        ),
    }
}

/// One event-stream frame, classified for one session.
#[derive(Debug, PartialEq, Eq)]
pub enum FrameOutcome {
    Ignored,
    TextDelta(String),
    Done,
    Failed(String),
}

/// A classified frame as plain values.
pub enum FrameView {
    Ignored,
    TextDelta(Seq<char>),
    Done,
    Failed(Seq<char>),
}

impl View for FrameOutcome {
    type V = FrameView;

    open spec fn view(&self) -> FrameView {
        match self {
            FrameOutcome::Ignored => FrameView::Ignored,
            FrameOutcome::TextDelta(t) => FrameView::TextDelta(t@),
            FrameOutcome::Done => FrameView::Done,
            FrameOutcome::Failed(m) => FrameView::Failed(m@),
        }
    }
}

/// The envelope of a frame's fields: `data`, else `properties` (both
/// generations of the sidecar's stream).
pub open spec fn frame_container(frame: JsonView) -> Option<JsonView> {
    match member(frame, "data"@) {
        Some(c) => Some(c),
        None => member(frame, "properties"@),
    }
}

/// The text of a session error: its `message` member when there is one
/// (used only when it is a string), else its string `error` member.
pub open spec fn error_message(container: JsonView) -> Option<Seq<char>> {
    match member(container, "message"@) {
        Some(m) => str_of(m),
        None => member_str(container, "error"@),
    }
}

/// How a frame reads for `session`: frames of other sessions, non-text
/// deltas and unknown types are ignored; a nonempty text delta (cut to
/// [`MAX_DELTA_CHARS`] characters) continues the turn; `session.idle` ends
/// it; `session.error` fails it with its cleaned message.
pub open spec fn frame_outcome(session: Seq<char>, frame: JsonView) -> FrameView {
    match (member_str(frame, "type"@), frame_container(frame)) {
        (Some(t), Some(c)) => {
            let frame_session = match member_str(c, "sessionID"@) {
                Some(s) => s,
                None => Seq::empty(),
            };
            if frame_session != session {
                FrameView::Ignored
            } else if t == "message.part.delta"@ {
                let is_text = match member_str(c, "field"@) {
                    Some(f) => f == "text"@,
                    None => true,
                };
                if !is_text {
                    FrameView::Ignored
                } else {
                    match member_str(c, "delta"@) {
                        Some(d) => if d.len() > 0 {
                            FrameView::TextDelta(take_chars(d, MAX_DELTA_CHARS as nat))
                        } else {
                            FrameView::Ignored
                        },
                        None => FrameView::Ignored,
                    }
                }
            } else if t == "session.idle"@ {
                FrameView::Done
            } else if t == "session.error"@ {
                FrameView::Failed(
                    clean_name(
                        match error_message(c) {
                            Some(m) => m,
                            None => "The sidecar turn failed."@,
                        },
                    ),
                )
            } else {
                FrameView::Ignored
            }
        },
        _ => FrameView::Ignored,
    }
}

fn member_text<'a>(v: &'a serde_json::Value, key: &str) -> (r: Option<&'a str>)
    ensures
        match member_str(json_view(*v), key@) {
            Some(s) => r matches Some(t) && t@ == s,
            None => r is None,
        },
{
    match json_get(v, key) {
        Some(x) => json_as_str(x),
        None => None,
    }
}

pub fn classify_frame(session_id: &str, frame: &serde_json::Value) -> (r: FrameOutcome)
    ensures
        r@ == frame_outcome(session_id@, json_view(*frame)),
{
    let event_type = match member_text(frame, "type") {
        Some(t) => t,
        None => return FrameOutcome::Ignored,
    };
    let container = match json_get(frame, "data") {
        Some(c) => c,
        None => match json_get(frame, "properties") {
            Some(c) => c,
            None => return FrameOutcome::Ignored,
        },
    };
    let frame_session = match member_text(container, "sessionID") {
        Some(s) => s,
        None => "",
    };
    proof {
        reveal_strlit("");
        assert(frame_container(json_view(*frame)) == Some(json_view(*container)));
        assert(member_str(json_view(*frame), "type"@) == Some(event_type@));
        assert(frame_session@ == match member_str(json_view(*container), "sessionID"@) {
            Some(s) => s,
            None => Seq::<char>::empty(),
        });
    }
    if !text_eq(frame_session, session_id) {
        return FrameOutcome::Ignored;
    }
    if text_eq(event_type, "message.part.delta") {
        let is_text = match member_text(container, "field") {
            Some(f) => text_eq(f, "text"),
            None => true,
        };
        if !is_text {
            return FrameOutcome::Ignored;
        }
        match member_text(container, "delta") {
            Some(delta) => {
                if delta.is_empty() {
                    FrameOutcome::Ignored
                } else {
                    FrameOutcome::TextDelta(truncate_chars(delta, MAX_DELTA_CHARS))
                }
            },
            None => FrameOutcome::Ignored,
        }
    } else if text_eq(event_type, "session.idle") {
        FrameOutcome::Done
    } else if text_eq(event_type, "session.error") {
        let message = match json_get(container, "message") {
            Some(m) => json_as_str(m),
            None => member_text(container, "error"),
        };
        let message = match message {
            Some(m) => m,
            None => "The sidecar turn failed.",
        };
        FrameOutcome::Failed(truncate_name(message))
    } else {
        FrameOutcome::Ignored
    }
}

/// The first `n` characters of `text`.
pub fn truncate_chars(text: &str, n: usize) -> (r: String)
    ensures
        r@ == take_chars(text@, n as nat),
{
    let v = chars_of(text);
    let cut = take_chars_vec(&v, n);
    string_of_chars(cut.as_slice())
}

fn record_field_of<'a>(v: &'a serde_json::Value, name: &str, index: usize) -> (r: Option<
    &'a serde_json::Value,
>)
    ensures
        r is None <==> record_field(json_view(*v), name@, index as int) is None,
        r matches Some(x) ==> record_field(json_view(*v), name@, index as int) == Some(
            json_view(*x),
        ),
{
    if json_as_object(v).is_some() {
        return json_get(v, name);
    }
    match json_as_array(v) {
        Some(items) => {
            if index < items.len() {
                assert(items@.map_values(|x: serde_json::Value| json_view(x))[index as int]
                    == json_view(items@[index as int]));
                Some(&items[index])
            } else {
                None
            }
        },
        None => None,
    }
}

/// A model entry as plain values: provider id and name, model id and name.
pub type EntryFacts = (Seq<char>, Seq<char>, Seq<char>, Seq<char>);

pub open spec fn entry_facts(e: AgentModelEntry) -> EntryFacts {
    (e.provider_id@, e.provider_name@, e.model_id@, e.model_name@)
}

pub open spec fn entries_facts(es: Seq<AgentModelEntry>) -> Seq<EntryFacts> {
    es.map_values(|e: AgentModelEntry| entry_facts(e))
}

/// A member read as a clean, nonempty name.
pub open spec fn member_name(v: JsonView, key: Seq<char>) -> Option<Seq<char>> {
    match member(v, key) {
        Some(x) => plain_name(x),
        None => None,
    }
}

/// The model a provider's `models` entry under `key` describes: its id is its
/// clean `id` member, else the cleaned key; an entry whose id is empty is
/// skipped. Its name is its clean `name` member, else its id.
pub open spec fn entry_model(
    provider_id: Seq<char>,
    provider_name: Seq<char>,
    key: Seq<char>,
    entry: JsonView,
) -> Option<EntryFacts> {
    let model_id = match member_name(entry, "id"@) {
        Some(id) => id,
        None => clean_name(key),
    };
    if model_id.len() == 0 {
        None
    } else {
        Some(
            (
                provider_id,
                provider_name,
                model_id,
                match member_name(entry, "name"@) {
                    Some(n) => n,
                    None => model_id,
                },
            ),
        )
    }
}

/// The models of a provider's `models` object, in its order.
pub open spec fn map_models(
    provider_id: Seq<char>,
    provider_name: Seq<char>,
    entries: Seq<(Seq<char>, JsonView)>,
) -> Seq<EntryFacts>
    decreases entries.len(),
{
    if entries.len() == 0 {
        Seq::empty()
    } else {
        let rest = map_models(provider_id, provider_name, entries.drop_last());
        match entry_model(provider_id, provider_name, entries.last().0, entries.last().1) {
            Some(m) => rest.push(m),
            None => rest,
        }
    }
}

/// The models one provider lists: none unless it has a clean `id` and a
/// `models` object; its name is its clean `name`, else its id.
pub open spec fn provider_models(provider: JsonView) -> Seq<EntryFacts> {
    match member_name(provider, "id"@) {
        Some(pid) => {
            let pname = match member_name(provider, "name"@) {
                Some(n) => n,
                None => pid,
            };
            match member(provider, "models"@) {
                Some(JsonView::Object(entries)) => map_models(pid, pname, entries),
                _ => Seq::empty(),
            }
        },
        None => Seq::empty(),
    }
}

/// The models of all providers, in order.
pub open spec fn providers_models(providers: Seq<JsonView>) -> Seq<EntryFacts>
    decreases providers.len(),
{
    if providers.len() == 0 {
        Seq::empty()
    } else {
        providers_models(providers.drop_last()) + provider_models(providers.last())
    }
}

/// The first `n` items of `s`.
pub open spec fn first_n<A>(s: Seq<A>, n: nat) -> Seq<A> {
    if s.len() <= n {
        s
    } else {
        s.take(n as int)
    }
}

/// What a providers answer yields: identifiers only, at most
/// [`MAX_MODELS`] of them.
pub open spec fn models_outcome(body: Seq<char>) -> Result<Seq<EntryFacts>, (ErrorCode, Seq<char>)> {
    match json_text(body) {
        Some(v) => match member(v, "providers"@) {
            Some(JsonView::Array(providers)) => Ok(first_n(providers_models(providers), MAX_MODELS as nat)),
            _ => Err((ErrorCode::MalformedResponse, "The sidecar answered without a provider list."@)),
        },
        None => Err(
            (ErrorCode::MalformedResponse, "The sidecar answered with malformed provider data."@),
        ),
    }
}

proof fn lemma_first_n_full<A>(a: Seq<A>, b: Seq<A>, n: nat)
    requires
        a.len() >= n,
    ensures
        first_n(a + b, n) == first_n(a, n),
{
    assert((a + b).take(n as int) =~= a.take(n as int));
}

fn member_plain(v: &serde_json::Value, key: &str) -> (r: Option<String>)
    ensures
        match member_name(json_view(*v), key@) {
            Some(n) => r matches Some(s) && s@ == n,
            None => r is None,
        },
{
    match json_get(v, key) {
        Some(x) => plain_string(x),
        None => None,
    }
}

fn entry_from(provider_id: &String, provider_name: &String, key: &String, entry: &serde_json::Value) -> (r:
    Option<AgentModelEntry>)
    ensures
        match entry_model(provider_id@, provider_name@, key@, json_view(*entry)) {
            Some(f) => r matches Some(e) && entry_facts(e) == f,
            None => r is None,
        },
{
    let model_id = match member_plain(entry, "id") {
        Some(id) => id,
        None => truncate_name(key.as_str()),
    };
    if model_id.as_str().is_empty() {
        return None;
    }
    let model_name = match member_plain(entry, "name") {
        Some(n) => n,
        None => model_id.clone(),
    };
    Some(
        AgentModelEntry {
            provider_id: provider_id.clone(),
            provider_name: provider_name.clone(),
            model_id,
            model_name,
        },
    )
}

/// Keeps only identifiers from a providers answer: every other field (keys,
/// URLs, prices, limits) is dropped here. Entries past the first
/// [`MAX_MODELS`] are not kept.
pub fn extract_models(body: &str) -> (r: Result<Vec<AgentModelEntry>, NormalizedError>)
    ensures
        match models_outcome(body@) {
            Ok(ms) => r matches Ok(v) && entries_facts(v@) == ms,
            Err(e) => r matches Err(x) && (x.code, x.message@) == e,
        },
{
    let parsed = match parse_json(body) {
        Some(v) => v,
        None => return Err(
            host_error(
                ErrorCode::MalformedResponse,
                "The sidecar answered with malformed provider data.",
            ),
        ),
    };
    let providers = match json_get(&parsed, "providers") {
        Some(p) => match json_as_array(p) {
            Some(items) => items,
            None => return Err(
                host_error(ErrorCode::MalformedResponse, "The sidecar answered without a provider list."),
            ),
        },
        None => return Err(
            host_error(ErrorCode::MalformedResponse, "The sidecar answered without a provider list."),
        ),
    };
    let ghost pviews = providers@.map_values(|x: serde_json::Value| json_view(x));
    let mut models: Vec<AgentModelEntry> = Vec::new();
    let mut i: usize = 0;
    while i < providers.len()
        invariant
            i <= providers@.len(),
            pviews == providers@.map_values(|x: serde_json::Value| json_view(x)),
            models@.len() <= MAX_MODELS,
            entries_facts(models@) == first_n(providers_models(pviews.subrange(0, i as int)), MAX_MODELS as nat),
        decreases providers@.len() - i,
    {
        let provider = &providers[i];
        assert(pviews[i as int] == json_view(*provider));
        assert(pviews.subrange(0, i + 1).drop_last() =~= pviews.subrange(0, i as int));
        let ghost before = providers_models(pviews.subrange(0, i as int));
        let ghost here = provider_models(json_view(*provider));
        assert(providers_models(pviews.subrange(0, i + 1)) == before + here);
        let pid = member_plain(provider, "id");
        let map = match json_get(provider, "models") {
            Some(m) => json_as_object(m),
            None => None,
        };
        match (pid, map) {
            (Some(pid), Some(map)) => {
                let pname = match member_plain(provider, "name") {
                    Some(n) => n,
                    None => pid.clone(),
                };
                let entries = json_entries(map);
                let ghost eviews = json_map_view(*map);
                assert(here == map_models(pid@, pname@, eviews));
                let mut j: usize = 0;
                while j < entries.len()
                    invariant
                        j <= entries@.len(),
                        entries@.len() == eviews.len(),
                        forall|k: int|
                            0 <= k < entries@.len() ==> (#[trigger] entries@[k]).0@ == eviews[k].0
                                && json_view(*entries@[k].1) == eviews[k].1,
                        models@.len() <= MAX_MODELS,
                        entries_facts(models@) == first_n(
                            before + map_models(pid@, pname@, eviews.subrange(0, j as int)),
                            MAX_MODELS as nat,
                        ),
                    decreases entries@.len() - j,
                {
                    let (key, entry) = entries[j];
                    assert(eviews.subrange(0, j + 1).drop_last() =~= eviews.subrange(0, j as int));
                    let ghost acc = before + map_models(pid@, pname@, eviews.subrange(0, j as int));
                    let ghost next = before + map_models(pid@, pname@, eviews.subrange(0, j + 1));
                    proof {
                        match entry_model(pid@, pname@, key@, json_view(*entry)) {
                            Some(f) => assert(next =~= acc.push(f)),
                            None => assert(next =~= acc),
                        }
                    }
                    if models.len() < MAX_MODELS {
                        match entry_from(&pid, &pname, key, entry) {
                            Some(m) => {
                                let ghost old_models = models@;
                                models.push(m);
                                assert(entries_facts(models@) =~= entries_facts(old_models).push(
                                    entry_facts(m),
                                ));
                                assert(acc.len() < MAX_MODELS);
                                assert(first_n(next, MAX_MODELS as nat) =~= acc.push(entry_facts(m)));
                            },
                            None => {},
                        }
                    } else {
                        proof {
                            assert(acc.len() >= MAX_MODELS);
                            match entry_model(pid@, pname@, key@, json_view(*entry)) {
                                Some(f) => lemma_first_n_full(acc, seq![f], MAX_MODELS as nat),
                                None => {},
                            }
                        }
                    }
                    j = j + 1;
                }
                assert(eviews.subrange(0, eviews.len() as int) =~= eviews);
            },
            _ => {
                assert(here =~= Seq::<EntryFacts>::empty());
                assert(before + here =~= before);
            },
        }
        i = i + 1;
    }
    assert(pviews.subrange(0, pviews.len() as int) =~= pviews);
    Ok(models)
}

/// Frames of other sessions are ignored, whatever their type: a frame whose
/// envelope (`data`, else `properties`) names another session, or names none
/// while the turn has one, neither continues, ends nor fails the turn; in
/// particular a foreign `session.idle` never completes it.
pub proof fn lemma_foreign_frames_ignored(session: Seq<char>, frame: JsonView, container: JsonView)
    requires
        member(frame, "data"@) == Some(container) || (member(frame, "data"@) is None && member(
            frame,
            "properties"@,
        ) == Some(container)),
        match member_str(container, "sessionID"@) {
            Some(s) => s != session,
            None => session.len() > 0,
        },
    ensures
        frame_outcome(session, frame) == FrameView::Ignored,
{
}

/// Frames of the turn's own session drive it: `session.idle` completes the
/// turn, and a text delta of at most [`MAX_DELTA_CHARS`] characters (its
/// `field` absent or `"text"`) continues it with exactly that text.
pub proof fn lemma_own_frames_drive_the_turn(
    session: Seq<char>,
    frame: JsonView,
    container: JsonView,
    kind: Seq<char>,
)
    requires
        member(frame, "data"@) == Some(container) || (member(frame, "data"@) is None && member(
            frame,
            "properties"@,
        ) == Some(container)),
        member_str(frame, "type"@) == Some(kind),
        member_str(container, "sessionID"@) == Some(session),
    ensures
        kind == "session.idle"@ ==> frame_outcome(session, frame) == FrameView::Done,
        kind == "message.part.delta"@ ==> forall|d: Seq<char>|
            #![trigger member_str(container, "delta"@), d.len()]
            member_str(container, "delta"@) == Some(d) && 0 < d.len() <= MAX_DELTA_CHARS && (member_str(
                container,
                "field"@,
            ) is None || member_str(container, "field"@) == Some("text"@)) ==> frame_outcome(
                session,
                frame,
            ) == FrameView::TextDelta(d),
{
    reveal_strlit("session.idle");
    reveal_strlit("message.part.delta");
    assert("session.idle"@ != "message.part.delta"@) by {
        assert("session.idle"@.len() != "message.part.delta"@.len());
    }
}

proof fn lemma_map_models_all(pid: Seq<char>, pname: Seq<char>, entries: Seq<(Seq<char>, JsonView)>)
    requires
        forall|i: int| 0 <= i < entries.len() ==> (#[trigger] member_name(entries[i].1, "id"@)) is Some,
    ensures
        map_models(pid, pname, entries).len() == entries.len(),
        forall|i: int|
            0 <= i < entries.len() ==> (#[trigger] map_models(pid, pname, entries)[i]).0 == pid
                && map_models(pid, pname, entries)[i].1 == pname && map_models(pid, pname, entries)[i].2
                == member_name(entries[i].1, "id"@)->Some_0,
    decreases entries.len(),
{
    if entries.len() > 0 {
        let rest = entries.drop_last();
        assert forall|i: int| 0 <= i < rest.len() implies (#[trigger] member_name(rest[i].1, "id"@)) is Some by {
            assert(rest[i] == entries[i]);
        }
        lemma_map_models_all(pid, pname, rest);
        let last = entries.last();
        assert(member_name(entries[entries.len() - 1].1, "id"@) is Some);
        let id = member_name(last.1, "id"@)->Some_0;
        assert(id.len() > 0);
        let m = map_models(pid, pname, entries);
        assert forall|i: int| 0 <= i < entries.len() implies (#[trigger] m[i]).0 == pid && m[i].1 == pname
            && m[i].2 == member_name(entries[i].1, "id"@)->Some_0 by {
            if i < rest.len() {
                assert(m[i] == map_models(pid, pname, rest)[i]);
                assert(rest[i] == entries[i]);
            }
        }
    }
}

/// A provider lists every model of its `models` object, in order: when the
/// provider has a clean `id` and each entry has a clean `id`, there is one
/// model per entry, carrying the provider's id and the entry's id.
pub proof fn lemma_provider_lists_every_entry(provider: JsonView, entries: Seq<(Seq<char>, JsonView)>)
    requires
        member_name(provider, "id"@) is Some,
        member(provider, "models"@) == Some(JsonView::Object(entries)),
        forall|i: int| 0 <= i < entries.len() ==> (#[trigger] member_name(entries[i].1, "id"@)) is Some,
    ensures
        provider_models(provider).len() == entries.len(),
        forall|i: int|
            0 <= i < entries.len() ==> (#[trigger] provider_models(provider)[i]).0 == member_name(
                provider,
                "id"@,
            )->Some_0 && provider_models(provider)[i].2 == member_name(entries[i].1, "id"@)->Some_0,
{
    let pid = member_name(provider, "id"@)->Some_0;
    let pname = match member_name(provider, "name"@) {
        Some(n) => n,
        None => pid,
    };
    lemma_map_models_all(pid, pname, entries);
}

/// The models of each provider, provider by provider.
pub open spec fn models_by_provider(providers: Seq<JsonView>) -> Seq<Seq<EntryFacts>> {
    providers.map_values(|p: JsonView| provider_models(p))
}

proof fn lemma_providers_models_flatten(providers: Seq<JsonView>)
    ensures
        providers_models(providers) == models_by_provider(providers).flatten_alt(),
    decreases providers.len(),
{
    if providers.len() > 0 {
        lemma_providers_models_flatten(providers.drop_last());
        assert(models_by_provider(providers).drop_last() =~= models_by_provider(providers.drop_last()));
        assert(models_by_provider(providers).last() == provider_models(providers.last()));
    }
}

/// Every provider's models are listed, in order: the model list of a
/// providers answer is the models of each provider concatenated, provider
/// by provider, cut to the first [`MAX_MODELS`]; when there are no more than
/// that in all, each model of every provider is listed.
pub proof fn lemma_all_providers_listed(body: Seq<char>, v: JsonView, providers: Seq<JsonView>)
    requires
        json_text(body) == Some(v),
        member(v, "providers"@) == Some(JsonView::Array(providers)),
    ensures
        models_outcome(body) matches Ok(ms) && ms.len() == if models_by_provider(providers).flatten().len()
            <= MAX_MODELS {
            models_by_provider(providers).flatten().len()
        } else {
            MAX_MODELS as nat
        } && ms == models_by_provider(providers).flatten().take(ms.len() as int),
        models_by_provider(providers).flatten().len() <= MAX_MODELS ==> models_outcome(body)
            == Ok::<Seq<EntryFacts>, (ErrorCode, Seq<char>)>(models_by_provider(providers).flatten()),
{
    lemma_providers_models_flatten(providers);
    models_by_provider(providers).lemma_flatten_and_flatten_alt_are_equivalent();
    let all = models_by_provider(providers).flatten();
    if all.len() <= MAX_MODELS {
        assert(all.take(all.len() as int) =~= all);
    }
}

} // verus!
