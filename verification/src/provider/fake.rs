//! Deterministic fake provider.
//!
//! Speaks the fake wire format below. All content is fixed strings and time
//! appears only as scripted data: no network, thread, randomness, or clock.
//!
//! ```text
//! {"kind":"start"}
//! {"kind":"chunk","text":"…"}
//! {"kind":"end"}
//! {"kind":"error","code":"…","message":"…"}
//! ```
use vstd::prelude::*;
use std::time::Duration;
use super::contract::{limits, text_check, ModelDescriptor, ModelId};
use crate::text::{byte_len, is_blank_seq, is_ws, join2, lemma_ascii_utf8_len, owned};
use crate::time::{duration_nanos, from_secs};

verus! {

pub const FAKE_DELAY_SECS: u64 = 5;

pub const FAKE_CHUNKS: [&'static str; 3] = ["Hello", ", ", "BrainRoot"];

/// The delay the delayed scenario waits between its first frame and its chunk.
pub fn fake_delay() -> (r: Duration)
    ensures
        duration_nanos(r) == FAKE_DELAY_SECS * 1_000_000_000,
{
    from_secs(FAKE_DELAY_SECS)
}

#[derive(Debug, Clone, Copy, PartialEq, Eq, Structural)]
pub enum FakeScenario {
    Success,
    AuthFailure,
    RateLimited,
    ServerError,
    MalformedEvent,
    DelayedEvent,
    NeverEnding,
}

#[derive(Debug, PartialEq, Eq)]
pub enum FakeWireStep {
    Frame(String),
    Delay(Duration),
    Hang,
}

/// A scripted step as plain values: a frame's text, or a delay in nanoseconds.
pub enum StepView {
    Frame(Seq<char>),
    Delay(nat),
    Hang,
}

impl View for FakeWireStep {
    type V = StepView;

    open spec fn view(&self) -> StepView {
        match self {
            FakeWireStep::Frame(payload) => StepView::Frame(payload@),
            FakeWireStep::Delay(d) => StepView::Delay(duration_nanos(*d)),
            FakeWireStep::Hang => StepView::Hang,
        }
    }
}

impl Clone for FakeWireStep {
    fn clone(&self) -> (r: Self)
        ensures
            r@ == self@,
    {
        match self {
            FakeWireStep::Frame(payload) => FakeWireStep::Frame(payload.clone()),
            FakeWireStep::Delay(d) => FakeWireStep::Delay(*d),
            FakeWireStep::Hang => FakeWireStep::Hang,
        }
    }
}

pub open spec fn start_frame() -> Seq<char> {
    "{\"kind\":\"start\"}"@
}

pub open spec fn end_frame() -> Seq<char> {
    "{\"kind\":\"end\"}"@
}

/// The chunk frame carrying `text` verbatim.
pub open spec fn chunk_frame(text: Seq<char>) -> Seq<char> {
    "{\"kind\":\"chunk\",\"text\":\""@ + text + "\"}"@
}

/// The error frame carrying `code` and `message` verbatim.
pub open spec fn error_frame_text(code: Seq<char>, message: Seq<char>) -> Seq<char> {
    "{\"kind\":\"error\",\"code\":\""@ + code + "\",\"message\":\""@ + message + "\"}"@
}

/// The script of each scenario.
pub open spec fn fake_script(scenario: FakeScenario) -> Seq<StepView> {
    match scenario {
        FakeScenario::Success => seq![
            StepView::Frame(start_frame()),
            StepView::Frame(chunk_frame("Hello"@)),
            StepView::Frame(chunk_frame(", "@)),
            StepView::Frame(chunk_frame("BrainRoot"@)),
            StepView::Frame(end_frame()),
        ],
        FakeScenario::AuthFailure => seq![
            StepView::Frame(
                error_frame_text(
                    "authentication_failed"@,
                    "The provider rejected the credential."@,
                ),
            ),
        ],
        FakeScenario::RateLimited => seq![
            StepView::Frame(
                error_frame_text("rate_limited"@, "The provider temporarily limited requests."@),
            ),
        ],
        FakeScenario::ServerError => seq![
            StepView::Frame(
                error_frame_text(
                    "provider_unavailable"@,
                    "The provider is temporarily unavailable."@,
                ),
            ),
        ],
        FakeScenario::MalformedEvent => seq![
            StepView::Frame(start_frame()),
            StepView::Frame("{\"kind\":\"chunk\",\"text\":"@),
            StepView::Frame(end_frame()),
        ],
        FakeScenario::DelayedEvent => seq![
            StepView::Frame(start_frame()),
            StepView::Delay((FAKE_DELAY_SECS * 1_000_000_000) as nat),
            StepView::Frame(chunk_frame("Hello"@)),
            StepView::Frame(end_frame()),
        ],
        FakeScenario::NeverEnding => seq![
            StepView::Frame(start_frame()),
            StepView::Frame(chunk_frame("Hello"@)),
            StepView::Frame(chunk_frame(", "@)),
            StepView::Hang,
        ],
    }
}

pub open spec fn steps_view(steps: Seq<FakeWireStep>) -> Seq<StepView> {
    steps.map_values(|s: FakeWireStep| s@)
}

#[derive(Debug, Clone, Copy, PartialEq, Eq)]
pub struct FakeProvider;

fn frame(payload: &str) -> (r: FakeWireStep)
    ensures
        r@ == StepView::Frame(payload@),
{
    FakeWireStep::Frame(owned(payload))
}

fn chunk(text: &str) -> (r: FakeWireStep)
    ensures
        r@ == StepView::Frame(chunk_frame(text@)),
{
    let a = join2("{\"kind\":\"chunk\",\"text\":\"", text);
    FakeWireStep::Frame(join2(a.as_str(), "\"}"))
}

fn error_frame(code: &str, message: &str) -> (r: FakeWireStep)
    ensures
        r@ == StepView::Frame(error_frame_text(code@, message@)),
{
    let a = join2("{\"kind\":\"error\",\"code\":\"", code);
    let b = join2(a.as_str(), "\",\"message\":\"");
    let c = join2(b.as_str(), message);
    FakeWireStep::Frame(join2(c.as_str(), "\"}"))
}

impl FakeProvider {
    /// The two deterministic streaming models.
    pub fn models(&self) -> (r: Vec<ModelDescriptor>)
        ensures
            r@.len() == 2,
            r@[0].id@ == "fake-streaming"@,
            r@[0].display_name@ == "Fake Streaming"@,
            r@[1].id@ == "fake-fast"@,
            r@[1].display_name@ == "Fake Fast"@,
            r@[0].supports_streaming && r@[1].supports_streaming,
    {
        proof {
            reveal_strlit("fake-streaming");
            reveal_strlit("Fake Streaming");
            reveal_strlit("fake-fast");
            reveal_strlit("Fake Fast");
            assert(!is_ws("fake-streaming"@[0]));
            assert(!is_ws("Fake Streaming"@[0]));
            assert(!is_ws("fake-fast"@[0]));
            assert(!is_ws("Fake Fast"@[0]));
            lemma_ascii_utf8_len("fake-streaming"@);
            lemma_ascii_utf8_len("Fake Streaming"@);
            lemma_ascii_utf8_len("fake-fast"@);
            lemma_ascii_utf8_len("Fake Fast"@);
        }
        let streaming = match ModelId::new("fake-streaming") {
            Ok(id) => id,
            Err(_) => { proof { assert(false); } return Vec::new() },
        };
        let fast = match ModelId::new("fake-fast") {
            Ok(id) => id,
            Err(_) => { proof { assert(false); } return Vec::new() },
        };
        let first = match ModelDescriptor::new(streaming, "Fake Streaming", true) {
            Ok(d) => d,
            Err(_) => { proof { assert(false); } return Vec::new() },
        };
        let second = match ModelDescriptor::new(fast, "Fake Fast", true) {
            Ok(d) => d,
            Err(_) => { proof { assert(false); } return Vec::new() },
        };
        let mut r = Vec::new();
        r.push(first);
        r.push(second);
        r
    }

    /// The fixed script of `scenario`.
    pub fn script(&self, scenario: FakeScenario) -> (r: Vec<FakeWireStep>)
        ensures
            steps_view(r@) == fake_script(scenario),
    {
        let mut steps: Vec<FakeWireStep> = Vec::new();
        match scenario {
            FakeScenario::Success => {
                steps.push(frame("{\"kind\":\"start\"}"));
                steps.push(chunk(FAKE_CHUNKS[0]));
                steps.push(chunk(FAKE_CHUNKS[1]));
                steps.push(chunk(FAKE_CHUNKS[2]));
                steps.push(frame("{\"kind\":\"end\"}"));
            },
            FakeScenario::AuthFailure => {
                steps.push(error_frame("authentication_failed", "The provider rejected the credential."));
            },
            FakeScenario::RateLimited => {
                steps.push(error_frame("rate_limited", "The provider temporarily limited requests."));
            },
            FakeScenario::ServerError => {
                steps.push(error_frame("provider_unavailable", "The provider is temporarily unavailable."));
            },
            FakeScenario::MalformedEvent => {
                steps.push(frame("{\"kind\":\"start\"}"));
                steps.push(frame("{\"kind\":\"chunk\",\"text\":"));
                steps.push(frame("{\"kind\":\"end\"}"));
            },
            FakeScenario::DelayedEvent => {
                steps.push(frame("{\"kind\":\"start\"}"));
                steps.push(FakeWireStep::Delay(fake_delay()));
                steps.push(chunk(FAKE_CHUNKS[0]));
                steps.push(frame("{\"kind\":\"end\"}"));
            },
            FakeScenario::NeverEnding => {
                steps.push(frame("{\"kind\":\"start\"}"));
                steps.push(chunk(FAKE_CHUNKS[0]));
                steps.push(chunk(FAKE_CHUNKS[1]));
                steps.push(FakeWireStep::Hang);
            },
        }
        assert(steps_view(steps@) =~= fake_script(scenario));
        steps
    }
}

/// Every scenario's script is fixed: two calls give the same steps.
pub proof fn lemma_scripts_are_stable(scenario: FakeScenario, a: Seq<FakeWireStep>, b: Seq<FakeWireStep>)
    requires
        steps_view(a) == fake_script(scenario),
        steps_view(b) == fake_script(scenario),
    ensures
        steps_view(a) == steps_view(b),
{
}

} // verus!
