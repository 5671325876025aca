use brainroot::provider::contract::{limits, CancellationReason};
use brainroot::provider::execution::{
    CancellationToken, ExecutionError, ExecutionEvent, ExecutionLimits, RequestOwner,
    TerminalReason, TimeoutKind,
};
use brainroot::provider::fake::{FakeProvider, FakeScenario, FakeWireStep};
use std::time::Duration;

fn limits(connect: u64, read: u64, total: u64) -> ExecutionLimits {
    ExecutionLimits::new(
        Duration::from_secs(connect),
        Duration::from_secs(read),
        Duration::from_secs(total),
        limits::MAX_RESPONSE_BYTES,
    )
    .expect("valid limits")
}

fn owner(scenario: FakeScenario) -> RequestOwner {
    RequestOwner::start(
        FakeProvider.script(scenario),
        limits(5, 10, 120),
        CancellationToken::new(),
    )
}

fn frames(events: &[ExecutionEvent]) -> Vec<String> {
    events
        .iter()
        .filter_map(|event| match event {
            ExecutionEvent::Frame(payload) => Some(payload.clone()),
            ExecutionEvent::Terminal(_) => None,
        })
        .collect()
}

fn terminal(events: &[ExecutionEvent]) -> Option<TerminalReason> {
    events.iter().find_map(|event| match event {
        ExecutionEvent::Terminal(reason) => Some(reason.clone()),
        ExecutionEvent::Frame(_) => None,
    })
}

#[test]
fn success_runs_to_completion() {
    let mut owner = owner(FakeScenario::Success);
    let events = owner.advance(Duration::ZERO);
    let terminal_events: Vec<&ExecutionEvent> = events
        .iter()
        .filter(|event| matches!(event, ExecutionEvent::Terminal(_)))
        .collect();

    assert_eq!(terminal_events.len(), 1);
    assert_eq!(terminal(&events), Some(TerminalReason::Completed));
    assert_eq!(frames(&events).len(), 5);
    assert!(owner.is_terminal());
    assert_eq!(owner.pending_steps(), 0);
}

#[test]
fn connect_timeout_fires_before_the_first_frame() {
    let mut owner = RequestOwner::start(
        vec![
            FakeWireStep::Delay(Duration::from_secs(20)),
            FakeWireStep::Frame(r#"{"kind":"chunk","text":"late"}"#.to_string()),
        ],
        limits(5, 30, 120),
        CancellationToken::new(),
    );

    let events = owner.advance(Duration::from_secs(6));
    assert_eq!(
        terminal(&events),
        Some(TerminalReason::TimedOut(TimeoutKind::Connect))
    );
    assert!(frames(&events).is_empty());
    assert_eq!(owner.pending_steps(), 0);
}

#[test]
fn read_timeout_fires_between_events() {
    let mut owner = RequestOwner::start(
        vec![
            FakeWireStep::Frame(r#"{"kind":"start"}"#.to_string()),
            FakeWireStep::Delay(Duration::from_secs(20)),
            FakeWireStep::Frame(r#"{"kind":"end"}"#.to_string()),
        ],
        limits(5, 10, 120),
        CancellationToken::new(),
    );

    let first = owner.advance(Duration::from_secs(1));
    assert_eq!(frames(&first).len(), 1);
    assert_eq!(terminal(&first), None);

    let second = owner.advance(Duration::from_secs(11));
    assert_eq!(
        terminal(&second),
        Some(TerminalReason::TimedOut(TimeoutKind::Read))
    );
}

#[test]
fn total_timeout_bounds_a_never_ending_script() {
    let mut owner = owner(FakeScenario::NeverEnding);
    let mut terminal_reason = None;
    for _ in 0..3 {
        let events = owner.advance(Duration::from_secs(60));
        if let Some(reason) = terminal(&events) {
            terminal_reason = Some(reason);
            break;
        }
    }

    assert_eq!(
        terminal_reason,
        Some(TerminalReason::TimedOut(TimeoutKind::Total))
    );
    assert!(owner.is_terminal());
}

#[test]
fn cancellation_emits_exactly_one_terminal() {
    let mut owner = owner(FakeScenario::NeverEnding);
    let _ = owner.advance(Duration::from_secs(1));
    assert!(!owner.is_terminal());

    let event = owner.cancel(CancellationReason::UserRequested);
    assert_eq!(
        event,
        Some(ExecutionEvent::Terminal(TerminalReason::Cancelled(
            CancellationReason::UserRequested
        )))
    );
    assert!(owner.advance(Duration::from_secs(1)).is_empty());
    assert_eq!(owner.pending_steps(), 0);
}

#[test]
fn token_cancellation_is_detected_on_advance() {
    let token = CancellationToken::new();
    let mut owner = RequestOwner::start(
        FakeProvider.script(FakeScenario::Success),
        limits(5, 10, 120),
        token.clone(),
    );

    token.cancel(CancellationReason::Timeout);
    let events = owner.advance(Duration::ZERO);

    assert_eq!(
        terminal(&events),
        Some(TerminalReason::Cancelled(CancellationReason::Timeout))
    );
    assert!(owner.advance(Duration::ZERO).is_empty());
}

#[test]
fn late_cancel_after_terminal_is_a_noop() {
    let mut owner = owner(FakeScenario::Success);
    let _ = owner.advance(Duration::ZERO);
    assert!(owner.is_terminal());

    assert_eq!(owner.cancel(CancellationReason::UserRequested), None);
    assert!(owner.advance(Duration::from_secs(1)).is_empty());
}

#[test]
fn response_size_limit_terminates() {
    let mut owner = RequestOwner::start(
        FakeProvider.script(FakeScenario::Success),
        ExecutionLimits::new(
            Duration::from_secs(5),
            Duration::from_secs(10),
            Duration::from_secs(120),
            20,
        )
        .expect("valid limits"),
        CancellationToken::new(),
    );

    let events = owner.advance(Duration::ZERO);
    assert_eq!(
        terminal(&events),
        Some(TerminalReason::ResponseTooLarge { limit: 20 })
    );
}

#[test]
fn zero_limits_are_rejected() {
    let error = ExecutionLimits::new(
        Duration::ZERO,
        Duration::from_secs(10),
        Duration::from_secs(120),
        1024,
    )
    .expect_err("zero connect limit must fail");
    assert_eq!(error, ExecutionError::InvalidLimits { field: "connect" });

    let error = ExecutionLimits::new(
        Duration::from_secs(5),
        Duration::from_secs(10),
        Duration::from_secs(120),
        0,
    )
    .expect_err("zero response limit must fail");
    assert_eq!(
        error,
        ExecutionError::InvalidLimits {
            field: "max_response_bytes"
        }
    );
}

#[test]
fn script_exhaustion_completes() {
    let mut owner = RequestOwner::start(
        vec![FakeWireStep::Frame(r#"{"kind":"start"}"#.to_string())],
        limits(5, 10, 120),
        CancellationToken::new(),
    );

    let events = owner.advance(Duration::ZERO);
    assert_eq!(terminal(&events), Some(TerminalReason::Completed));
}

#[test]
fn delayed_stream_needs_enough_accumulated_time() {
    let mut owner = RequestOwner::start(
        vec![
            FakeWireStep::Frame(r#"{"kind":"start"}"#.to_string()),
            FakeWireStep::Delay(Duration::from_secs(5)),
            FakeWireStep::Frame(r#"{"kind":"chunk","text":"ok"}"#.to_string()),
            FakeWireStep::Frame(r#"{"kind":"end"}"#.to_string()),
        ],
        limits(5, 30, 120),
        CancellationToken::new(),
    );

    let first = owner.advance(Duration::from_secs(2));
    assert_eq!(frames(&first).len(), 1);
    assert_eq!(terminal(&first), None);

    let second = owner.advance(Duration::from_secs(3));
    assert_eq!(frames(&second).len(), 2);
    assert_eq!(terminal(&second), Some(TerminalReason::Completed));
}

#[test]
fn finished_owner_releases_the_script_and_ignores_time() {
    let mut owner = owner(FakeScenario::Success);
    let _ = owner.advance(Duration::ZERO);

    assert_eq!(owner.pending_steps(), 0);
    assert!(owner.advance(Duration::from_secs(3600)).is_empty());
    assert!(owner.is_terminal());
}


#[test]
fn default_limits_match_the_documented_timeouts() {
    let limits = ExecutionLimits::default();
    assert_eq!(limits.connect, Duration::from_secs(10));
    assert_eq!(limits.read, Duration::from_secs(30));
    assert_eq!(limits.total, Duration::from_secs(120));
    assert_eq!(limits.max_response_bytes, limits::MAX_RESPONSE_BYTES);
}

#[test]
fn finish_twice_yields_one_terminal() {
    let mut owner = owner(FakeScenario::NeverEnding);
    let first = owner.finish(TerminalReason::Completed);
    assert_eq!(first, Some(ExecutionEvent::Terminal(TerminalReason::Completed)));
    assert_eq!(owner.finish(TerminalReason::Completed), None);
    assert!(owner.is_terminal());
}

#[test]
fn elapsed_time_is_exposed_and_bounds_further_advances() {
    let mut owner = owner(FakeScenario::NeverEnding);
    assert_eq!(owner.elapsed_nanos(), 0);
    assert!(owner.can_advance(Duration::from_secs(2)));
    let _ = owner.advance(Duration::from_secs(2));
    assert_eq!(owner.elapsed_nanos(), 2_000_000_000);
    assert!(!owner.can_advance(Duration::MAX));
    let _ = owner.advance(Duration::from_secs(200));
    assert!(owner.is_terminal());
    assert!(owner.can_advance(Duration::MAX));
}
