//! Deterministic, bounded provider execution.
//!
//! Pull-based: the caller feeds elapsed time with [`RequestOwner::advance`];
//! there is no thread, timer or clock read. One owner bounds one request with
//! connect/read/total timeouts and a response-size limit, emits exactly one
//! terminal event, and releases its script afterwards.
use vstd::prelude::*;
use std::collections::VecDeque;
use std::sync::{Arc, OnceLock};
use std::time::Duration;
use super::contract::{limits, CancellationReason};
use super::fake::{steps_view, FakeWireStep, StepView};
use crate::json::{json_as_str, json_get, json_text, member_str, parse_json};
use crate::text::{byte_len, join2, text_eq};
use crate::time::{duration_nanos, from_secs, max_duration_nanos, nanos};

verus! {

pub const DEFAULT_CONNECT_TIMEOUT_SECS: u64 = 10;

pub const DEFAULT_READ_TIMEOUT_SECS: u64 = 30;

pub const DEFAULT_TOTAL_TIMEOUT_SECS: u64 = 120;

#[derive(Debug, Clone, Copy, PartialEq, Eq, Structural)]
pub enum TimeoutKind {
    Connect,
    Read,
    Total,
}

#[derive(Debug, Clone, Copy, PartialEq, Eq, Structural)]
pub enum TerminalReason {
    Completed,
    Cancelled(CancellationReason),
    TimedOut(TimeoutKind),
    ResponseTooLarge { limit: usize },
}

#[derive(Debug, PartialEq, Eq)]
pub enum ExecutionEvent {
    Frame(String),
    Terminal(TerminalReason),
}

/// An execution event as plain values.
pub enum ExecView {
    Frame(Seq<char>),
    Terminal(TerminalReason),
}

impl View for ExecutionEvent {
    type V = ExecView;

    open spec fn view(&self) -> ExecView {
        match self {
            ExecutionEvent::Frame(payload) => ExecView::Frame(payload@),
            ExecutionEvent::Terminal(reason) => ExecView::Terminal(*reason),
        }
    }
}

impl Clone for ExecutionEvent {
    fn clone(&self) -> (r: Self)
        ensures
            r@ == self@,
    {
        match self {
            ExecutionEvent::Frame(payload) => ExecutionEvent::Frame(payload.clone()),
            ExecutionEvent::Terminal(reason) => ExecutionEvent::Terminal(*reason),
        }
    }
}

pub open spec fn exec_events_view(events: Seq<ExecutionEvent>) -> Seq<ExecView> {
    events.map_values(|e: ExecutionEvent| e@)
}

#[derive(Debug, Clone, Copy, PartialEq, Eq)]
pub enum ExecutionError {
    InvalidLimits { field: &'static str },
}

impl ExecutionError {
    pub fn message(&self) -> (r: String)
        ensures
            match self {
                ExecutionError::InvalidLimits { field } => r@ == "The "@ + field@
                    + " limit must be greater than zero."@,
            },
    {
        match self {
            ExecutionError::InvalidLimits { field } => {
                let a = join2("The ", field);
                join2(a.as_str(), " limit must be greater than zero.")
            },
        }
    }
}

#[derive(Debug, Clone, Copy, PartialEq, Eq)]
pub struct ExecutionLimits {
    pub connect: Duration,
    pub read: Duration,
    pub total: Duration,
    pub max_response_bytes: usize,
}

/// The outcome of checking limits: the first zero field, in declaration order.
pub open spec fn limits_check(connect: nat, read: nat, total: nat, max_response_bytes: usize) -> Option<
    &'static str,
> {
    if connect == 0 {
        Some("connect")
    } else if read == 0 {
        Some("read")
    } else if total == 0 {
        Some("total")
    } else if max_response_bytes == 0 {
        Some("max_response_bytes")
    } else {
        None
    }
}

impl ExecutionLimits {
    pub fn new(connect: Duration, read: Duration, total: Duration, max_response_bytes: usize) -> (r:
        Result<Self, ExecutionError>)
        ensures
            match limits_check(
                duration_nanos(connect),
                duration_nanos(read),
                duration_nanos(total),
                max_response_bytes,
            ) {
                Some(field) => r == Err::<Self, ExecutionError>(
                    ExecutionError::InvalidLimits { field },
                ),
                None => r == Ok::<Self, ExecutionError>(
                    ExecutionLimits { connect, read, total, max_response_bytes },
                ),
            },
    {
        if nanos(connect) == 0 {
            return Err(ExecutionError::InvalidLimits { field: "connect" });
        }
        if nanos(read) == 0 {
            return Err(ExecutionError::InvalidLimits { field: "read" });
        }
        if nanos(total) == 0 {
            return Err(ExecutionError::InvalidLimits { field: "total" });
        }
        if max_response_bytes == 0 {
            return Err(ExecutionError::InvalidLimits { field: "max_response_bytes" });
        }
        Ok(ExecutionLimits { connect, read, total, max_response_bytes })
    }
}

impl Default for ExecutionLimits {
    fn default() -> (r: Self)
        ensures
            duration_nanos(r.connect) == DEFAULT_CONNECT_TIMEOUT_SECS * 1_000_000_000,
            duration_nanos(r.read) == DEFAULT_READ_TIMEOUT_SECS * 1_000_000_000,
            duration_nanos(r.total) == DEFAULT_TOTAL_TIMEOUT_SECS * 1_000_000_000,
            r.max_response_bytes == limits::MAX_RESPONSE_BYTES,
    {
        ExecutionLimits {
            connect: from_secs(DEFAULT_CONNECT_TIMEOUT_SECS),
            read: from_secs(DEFAULT_READ_TIMEOUT_SECS),
            total: from_secs(DEFAULT_TOTAL_TIMEOUT_SECS),
            max_response_bytes: limits::MAX_RESPONSE_BYTES,
        }
    }
}

#[verifier::external_type_specification]
#[verifier::external_body]
#[verifier::reject_recursive_types(T)]
pub struct ExOnceLock<T>(OnceLock<T>);

/// `OnceLock::new`: an empty cell.
#[verifier::external_body]
fn once_new() -> OnceLock<CancellationReason> {
    OnceLock::new()
}

/// `OnceLock::set`: stores `reason` only if nothing was stored before. What
/// the cell then holds is not stated: other handles share it.
#[verifier::external_body]
fn once_set(cell: &OnceLock<CancellationReason>, reason: CancellationReason) {
    let _ = cell.set(reason);
}

/// `OnceLock::get`, copied. What it returns is not stated: other handles
/// share the cell and may fill it at any time.
#[verifier::external_body]
fn once_get(cell: &OnceLock<CancellationReason>) -> Option<CancellationReason> {
    cell.get().copied()
}

/// Shared cancellation handle. Clones share one slot; the first reason
/// stored wins and is never replaced.
#[derive(Debug)]
pub struct CancellationToken {
    reason: Arc<OnceLock<CancellationReason>>,
}

impl Clone for CancellationToken {
    /// A second handle on the same slot.
    fn clone(&self) -> (r: Self)
        ensures
            r == *self,
    {
        CancellationToken { reason: self.reason.clone() }
    }
}

impl Default for CancellationToken {
    fn default() -> (r: Self) {
        CancellationToken::new()
    }
}

impl CancellationToken {
    pub fn new() -> Self {
        CancellationToken { reason: Arc::new(once_new()) }
    }

    pub fn cancel(&self, reason: CancellationReason) {
        once_set(&self.reason, reason);
    }

    pub fn reason(&self) -> Option<CancellationReason> {
        once_get(&self.reason)
    }

    pub fn is_cancelled(&self) -> bool {
        self.reason().is_some()
    }
}

/// A request owner as plain values; times are whole nanoseconds.
pub struct OwnerView {
    pub script: Seq<StepView>,
    pub connect: nat,
    pub read: nat,
    pub total_limit: nat,
    pub max_bytes: usize,
    pub credit: nat,
    pub total: nat,
    pub since: nat,
    pub received: bool,
    pub bytes: usize,
    pub terminal: Option<TerminalReason>,
}

/// The owner after `reason` ends it, and the terminal event (none when it had
/// already ended).
pub open spec fn finish_view(s: OwnerView, reason: TerminalReason) -> (OwnerView, Seq<ExecView>) {
    if s.terminal is Some {
        (s, seq![])
    } else {
        (
            OwnerView { terminal: Some(reason), script: seq![], credit: 0, ..s },
            seq![ExecView::Terminal(reason)],
        )
    }
}

/// A frame whose `kind` is `"end"`.
pub open spec fn is_end_frame(payload: Seq<char>) -> bool {
    match json_text(payload) {
        Some(v) => member_str(v, "kind"@) == Some("end"@),
        None => false,
    }
}

pub open spec fn saturating_add(a: usize, b: usize) -> usize {
    if a + b > usize::MAX {
        usize::MAX
    } else {
        (a + b) as usize
    }
}

/// Runs scripted steps while they can run: frames are emitted, delays are paid
/// from the accumulated credit, and a hang, an unpaid delay, the end of the
/// script or a terminal stops the run.
pub open spec fn run_script(s: OwnerView) -> (OwnerView, Seq<ExecView>)
    decreases s.script.len(),
{
    if s.terminal is Some || s.script.len() == 0 {
        (s, seq![])
    } else {
        match s.script[0] {
            StepView::Frame(p) => {
                let s1 = OwnerView {
                    script: s.script.drop_first(),
                    since: 0,
                    received: true,
                    bytes: saturating_add(s.bytes, byte_len(p)),
                    ..s
                };
                if s1.bytes > s.max_bytes {
                    let f = finish_view(s1, TerminalReason::ResponseTooLarge { limit: s.max_bytes });
                    (f.0, seq![ExecView::Frame(p)] + f.1)
                } else if is_end_frame(p) {
                    let f = finish_view(s1, TerminalReason::Completed);
                    (f.0, seq![ExecView::Frame(p)] + f.1)
                } else {
                    let r = run_script(s1);
                    (r.0, seq![ExecView::Frame(p)] + r.1)
                }
            },
            StepView::Delay(d) => {
                if s.credit >= d {
                    run_script(
                        OwnerView { script: s.script.drop_first(), credit: (s.credit - d) as nat, ..s },
                    )
                } else {
                    (s, seq![])
                }
            },
            StepView::Hang => (s, seq![]),
        }
    }
}

/// The checks after a run: connect timeout before the first frame, then the
/// total timeout, the read timeout, and completion of an exhausted script.
pub open spec fn timeout_check(s: OwnerView) -> (OwnerView, Seq<ExecView>) {
    if s.terminal is Some {
        (s, seq![])
    } else if !s.received {
        if s.total >= s.connect {
            finish_view(s, TerminalReason::TimedOut(TimeoutKind::Connect))
        } else {
            (s, seq![])
        }
    } else if s.total >= s.total_limit {
        finish_view(s, TerminalReason::TimedOut(TimeoutKind::Total))
    } else if s.since >= s.read {
        finish_view(s, TerminalReason::TimedOut(TimeoutKind::Read))
    } else if s.script.len() == 0 {
        finish_view(s, TerminalReason::Completed)
    } else {
        (s, seq![])
    }
}

/// One `advance` by `elapsed` nanoseconds, given the cancellation reason the
/// shared token held when it was read.
pub open spec fn advance_view(s: OwnerView, elapsed: nat, observed: Option<CancellationReason>) -> (
    OwnerView,
    Seq<ExecView>,
) {
    if s.terminal is Some {
        (s, seq![])
    } else if observed is Some {
        finish_view(s, TerminalReason::Cancelled(observed->0))
    } else {
        let s0 = OwnerView {
            total: s.total + elapsed,
            since: s.since + elapsed,
            credit: s.credit + elapsed,
            ..s
        };
        let a = run_script(s0);
        let b = timeout_check(a.0);
        (b.0, a.1 + b.1)
    }
}

pub open spec fn owner_wf(s: OwnerView) -> bool {
    &&& s.credit <= s.total
    &&& s.since <= s.total
    &&& s.total <= max_duration_nanos()
    &&& s.terminal is Some ==> s.script.len() == 0 && s.credit == 0
}

/// Counts the terminal events among `events`.
pub open spec fn terminal_count(events: Seq<ExecView>) -> nat
    decreases events.len(),
{
    if events.len() == 0 {
        0
    } else {
        terminal_count(events.drop_last()) + if events.last() is Terminal {
            1nat
        } else {
            0nat
        }
    }
}

#[derive(Debug)]
pub struct RequestOwner {
    script: VecDeque<FakeWireStep>,
    limits: ExecutionLimits,
    token: CancellationToken,
    credit: u128,
    total: u128,
    since_last_frame: u128,
    received_frame: bool,
    bytes: usize,
    terminal: Option<TerminalReason>,
}

impl View for RequestOwner {
    type V = OwnerView;

    closed spec fn view(&self) -> OwnerView {
        OwnerView {
            script: steps_view(self.script@),
            connect: duration_nanos(self.limits.connect),
            read: duration_nanos(self.limits.read),
            total_limit: duration_nanos(self.limits.total),
            max_bytes: self.limits.max_response_bytes,
            credit: self.credit as nat,
            total: self.total as nat,
            since: self.since_last_frame as nat,
            received: self.received_frame,
            bytes: self.bytes,
            terminal: self.terminal,
        }
    }
}

/// Whether the frame's `kind` member is the text `"end"`.
fn frame_is_end(payload: &str) -> (r: bool)
    ensures
        r == is_end_frame(payload@),
{
    match parse_json(payload) {
        Some(value) => match json_get(&value, "kind") {
            Some(kind) => match json_as_str(kind) {
                Some(text) => text_eq(text, "end"),
                None => false,
            },
            None => false,
        },
        None => false,
    }
}

impl RequestOwner {
    /// The owner's invariant, over its view.
    pub open spec fn wf(&self) -> bool {
        owner_wf(self@)
    }

    pub fn start(script: Vec<FakeWireStep>, limits: ExecutionLimits, token: CancellationToken) -> (r:
        Self)
        ensures
            r.wf(),
            r@ == (OwnerView {
                script: steps_view(script@),
                connect: duration_nanos(limits.connect),
                read: duration_nanos(limits.read),
                total_limit: duration_nanos(limits.total),
                max_bytes: limits.max_response_bytes,
                credit: 0,
                total: 0,
                since: 0,
                received: false,
                bytes: 0,
                terminal: None,
            }),
    {
        let mut queue: VecDeque<FakeWireStep> = VecDeque::new();
        let mut i: usize = 0;
        while i < script.len()
            invariant
                i <= script@.len(),
                queue@.len() == i,
                forall|j: int| 0 <= j < i ==> (#[trigger] queue@[j])@ == script@[j]@,
            decreases script.len() - i,
        {
            let step = script[i].clone();
            queue.push_back(step);
            i = i + 1;
        }
        assert(steps_view(queue@) =~= steps_view(script@));
        RequestOwner {
            script: queue,
            limits,
            token,
            credit: 0,
            total: 0,
            since_last_frame: 0,
            received_frame: false,
            bytes: 0,
            terminal: None,
        }
    }

    pub fn is_terminal(&self) -> (r: bool)
        ensures
            r == self@.terminal is Some,
    {
        self.terminal.is_some()
    }

    /// The time fed so far, in whole nanoseconds.
    pub fn elapsed_nanos(&self) -> (r: u128)
        ensures
            r == self@.total,
    {
        self.total
    }

    /// Whether `advance(elapsed)` may be called: an ended request takes any
    /// time; a running one only while the summed time fits a `Duration`.
    pub fn can_advance(&self, elapsed: Duration) -> (r: bool)
        ensures
            r == (self@.terminal is None ==> self@.total + duration_nanos(elapsed)
                <= max_duration_nanos()),
    {
        if self.terminal.is_some() {
            return true;
        }
        let step = nanos(elapsed);
        let limit: u128 = 18_446_744_073_709_551_615u128 * 1_000_000_000u128 + 999_999_999u128;
        if self.total > limit {
            return false;
        }
        step <= limit - self.total
    }

    pub fn pending_steps(&self) -> (r: usize)
        ensures
            r == self@.script.len(),
    {
        self.script.len()
    }

    /// Ends the request with `reason` unless it already ended.
    pub fn finish(&mut self, reason: TerminalReason) -> (r: Option<ExecutionEvent>)
        requires
            old(self).wf(),
        ensures
            final(self).wf(),
            final(self)@ == finish_view(old(self)@, reason).0,
            r is None <==> old(self)@.terminal is Some,
            match r {
                Some(e) => finish_view(old(self)@, reason).1 == seq![e@],
                None => finish_view(old(self)@, reason).1 == Seq::<ExecView>::empty(),
            },
    {
        if self.terminal.is_some() {
            return None;
        }
        self.terminal = Some(reason);
        self.script.clear();
        self.credit = 0;
        assert(steps_view(self.script@) =~= Seq::<StepView>::empty());
        Some(ExecutionEvent::Terminal(reason))
    }

    /// Cancels immediately: the reason goes to the shared token and the
    /// single terminal event is returned, or `None` when the request had
    /// already ended.
    pub fn cancel(&mut self, reason: CancellationReason) -> (r: Option<ExecutionEvent>)
        requires
            old(self).wf(),
        ensures
            final(self).wf(),
            final(self)@ == finish_view(old(self)@, TerminalReason::Cancelled(reason)).0,
            r matches Some(e) ==> finish_view(old(self)@, TerminalReason::Cancelled(reason)).1
                == seq![e@],
            r is None <==> old(self)@.terminal is Some,
    {
        let ghost before = self@;
        assert(before == old(self)@);
        self.token.cancel(reason);
        assert(self@ == before);
        let r = self.finish(TerminalReason::Cancelled(reason));
        assert(before.terminal is None ==> finish_view(before, TerminalReason::Cancelled(reason)).1.len() == 1);
        r
    }

    /// Feeds elapsed time, reading the shared token once.
    pub fn advance(&mut self, elapsed: Duration) -> (r: Vec<ExecutionEvent>)
        requires
            old(self).wf(),
            old(self)@.terminal is None ==> old(self)@.total + duration_nanos(elapsed)
                <= max_duration_nanos(),
        ensures
            final(self).wf(),
            exists|observed: Option<CancellationReason>|
                advance_view(old(self)@, duration_nanos(elapsed), observed) == (
                    final(self)@,
                    exec_events_view(r@),
                ),
    {
        let observed = self.token.reason();
        let r = self.advance_observed(elapsed, observed);
        assert(advance_view(old(self)@, duration_nanos(elapsed), observed) == (
            self@,
            exec_events_view(r@),
        ));
        r
    }

    /// Feeds elapsed time given the cancellation reason read from the token.
    pub fn advance_observed(&mut self, elapsed: Duration, observed: Option<CancellationReason>) -> (r:
        Vec<ExecutionEvent>)
        requires
            old(self).wf(),
            old(self)@.terminal is None ==> old(self)@.total + duration_nanos(elapsed)
                <= max_duration_nanos(),
        ensures
            final(self).wf(),
            advance_view(old(self)@, duration_nanos(elapsed), observed) == (
                final(self)@,
                exec_events_view(r@),
            ),
    {
        let mut events: Vec<ExecutionEvent> = Vec::new();
        if self.terminal.is_some() {
            assert(exec_events_view(events@) =~= Seq::<ExecView>::empty());
            return events;
        }
        if let Some(reason) = observed {
            let e = self.finish(TerminalReason::Cancelled(reason));
            if let Some(e) = e {
                events.push(e);
            }
            assert(exec_events_view(events@) =~= finish_view(
                old(self)@,
                TerminalReason::Cancelled(reason),
            ).1);
            return events;
        }
        let step = nanos(elapsed);
        self.total = self.total + step;
        self.since_last_frame = self.since_last_frame + step;
        self.credit = self.credit + step;
        let ghost s0 = self@;
        let ghost target = run_script(s0);
        assert(exec_events_view(events@) =~= Seq::<ExecView>::empty());
        loop
            invariant
                owner_wf(self@),
                run_script(self@).0 == target.0,
                exec_events_view(events@) + run_script(self@).1 == target.1,
            ensures
                run_script(self@) == (self@, Seq::<ExecView>::empty()),
                exec_events_view(events@) == target.1,
                self@ == target.0,
                owner_wf(self@),
            decreases self@.script.len(),
        {
            if self.terminal.is_some() || self.script.len() == 0 {
                assert(exec_events_view(events@) + Seq::<ExecView>::empty() =~= exec_events_view(
                    events@,
                ));
                break ;
            }
            let ghost before = self@;
            let is_frame = match &self.script[0] {
                FakeWireStep::Frame(_) => true,
                _ => false,
            };
            if is_frame {
                let popped = self.script.pop_front();
                let payload = match popped {
                    Some(FakeWireStep::Frame(payload)) => payload,
                    _ => {
                        proof {
                            assert(false);
                        }
                        break ;
                    },
                };
                proof {
                    assert(before.script[0] == StepView::Frame(payload@));
                    assert(steps_view(self.script@) =~= before.script.drop_first());
                }
                self.since_last_frame = 0;
                self.received_frame = true;
                self.bytes = self.bytes.saturating_add(payload.as_str().len());
                let is_end = frame_is_end(payload.as_str());
                let ghost frame_view = ExecView::Frame(payload@);
                events.push(ExecutionEvent::Frame(payload));
                let ghost s1 = self@;
                if self.bytes > self.limits.max_response_bytes {
                    let limit = self.limits.max_response_bytes;
                    let e = self.finish(TerminalReason::ResponseTooLarge { limit });
                    if let Some(e) = e {
                        events.push(e);
                    }
                    proof {
                        assert(run_script(before).1 =~= seq![frame_view] + finish_view(
                            s1,
                            TerminalReason::ResponseTooLarge { limit },
                        ).1);
                        assert(exec_events_view(events@) =~= exec_events_view(
                            events@.drop_last().drop_last(),
                        ) + run_script(before).1);
                    }
                } else if is_end {
                    let e = self.finish(TerminalReason::Completed);
                    if let Some(e) = e {
                        events.push(e);
                    }
                    proof {
                        assert(run_script(before).1 =~= seq![frame_view] + finish_view(
                            s1,
                            TerminalReason::Completed,
                        ).1);
                        assert(exec_events_view(events@) =~= exec_events_view(
                            events@.drop_last().drop_last(),
                        ) + run_script(before).1);
                    }
                } else {
                    proof {
                        assert(run_script(before).1 =~= seq![frame_view] + run_script(s1).1);
                        assert(exec_events_view(events@) =~= exec_events_view(events@.drop_last())
                            + seq![frame_view]);
                    }
                }
            } else {
                let delay = match &self.script[0] {
                    FakeWireStep::Delay(d) => Some(nanos(*d)),
                    _ => None,
                };
                match delay {
                    Some(d) => {
                        if self.credit >= d {
                            self.credit = self.credit - d;
                            let _ = self.script.pop_front();
                            proof {
                                assert(steps_view(self.script@) =~= before.script.drop_first());
                            }
                        } else {
                            assert(exec_events_view(events@) + Seq::<ExecView>::empty()
                                =~= exec_events_view(events@));
                            break ;
                        }
                    },
                    None => {
                        assert(exec_events_view(events@) + Seq::<ExecView>::empty()
                            =~= exec_events_view(events@));
                        break ;
                    },
                }
            }
        }
        let ghost a = self@;
        let t = self.post_run_checks();
        if let Some(e) = t {
            events.push(e);
        }
        assert(exec_events_view(events@) =~= target.1 + timeout_check(a).1);
        events
    }

    fn post_run_checks(&mut self) -> (r: Option<ExecutionEvent>)
        requires
            owner_wf(old(self)@),
        ensures
            owner_wf(final(self)@),
            final(self)@ == timeout_check(old(self)@).0,
            match r {
                Some(e) => timeout_check(old(self)@).1 == seq![e@],
                None => timeout_check(old(self)@).1 == Seq::<ExecView>::empty(),
            },
    {
        if self.terminal.is_some() {
            return None;
        }
        if !self.received_frame {
            if self.total >= nanos(self.limits.connect) {
                return self.finish(TerminalReason::TimedOut(TimeoutKind::Connect));
            }
            return None;
        }
        if self.total >= nanos(self.limits.total) {
            return self.finish(TerminalReason::TimedOut(TimeoutKind::Total));
        }
        if self.since_last_frame >= nanos(self.limits.read) {
            return self.finish(TerminalReason::TimedOut(TimeoutKind::Read));
        }
        if self.script.len() == 0 {
            return self.finish(TerminalReason::Completed);
        }
        None
    }
}

/// Once a request has ended, `advance` changes nothing and yields nothing,
/// and a cancel yields no second terminal event.
pub proof fn lemma_ended_request_is_inert(
    s: OwnerView,
    elapsed: nat,
    observed: Option<CancellationReason>,
    reason: TerminalReason,
)
    requires
        s.terminal is Some,
    ensures
        advance_view(s, elapsed, observed) == (s, Seq::<ExecView>::empty()),
        finish_view(s, reason) == (s, Seq::<ExecView>::empty()),
{
}

/// A run emits at most one terminal event, and emits one exactly when it
/// ends the request; an ended request holds no script.
pub proof fn lemma_run_terminal_once(s: OwnerView)
    requires
        s.terminal is None,
    ensures
        terminal_count(run_script(s).1) <= 1,
        (terminal_count(run_script(s).1) == 1) == (run_script(s).0.terminal is Some),
        run_script(s).0.terminal is Some ==> run_script(s).0.script.len() == 0,
    decreases s.script.len(),
{
    lemma_terminal_count_plain_frames(seq![]);
    if s.script.len() == 0 {
    } else {
        match s.script[0] {
            StepView::Frame(p) => {
                let s1 = OwnerView {
                    script: s.script.drop_first(),
                    since: 0,
                    received: true,
                    bytes: saturating_add(s.bytes, byte_len(p)),
                    ..s
                };
                if s1.bytes > s.max_bytes {
                    lemma_count_frame_then_terminal(p, TerminalReason::ResponseTooLarge { limit: s.max_bytes });
                } else if is_end_frame(p) {
                    lemma_count_frame_then_terminal(p, TerminalReason::Completed);
                } else {
                    lemma_run_terminal_once(s1);
                    lemma_terminal_count_prepend_frame(p, run_script(s1).1);
                }
            },
            StepView::Delay(d) => {
                if s.credit >= d {
                    lemma_run_terminal_once(
                        OwnerView { script: s.script.drop_first(), credit: (s.credit - d) as nat, ..s },
                    );
                }
            },
            StepView::Hang => {},
        }
    }
}

proof fn lemma_count_frame_then_terminal(p: Seq<char>, reason: TerminalReason)
    ensures
        terminal_count(seq![ExecView::Frame(p)] + seq![ExecView::Terminal(reason)]) == 1,
{
    let both = seq![ExecView::Frame(p)] + seq![ExecView::Terminal(reason)];
    assert(both.drop_last() =~= seq![ExecView::Frame(p)]);
    assert(both.last() == ExecView::Terminal(reason));
    lemma_count_single(ExecView::Frame(p));
}

proof fn lemma_count_single(e: ExecView)
    ensures
        terminal_count(seq![e]) == if e is Terminal { 1nat } else { 0nat },
{
    assert(seq![e].drop_last() =~= Seq::<ExecView>::empty());
    assert(terminal_count(Seq::<ExecView>::empty()) == 0);
    assert(seq![e].last() == e);
}

proof fn lemma_terminal_count_plain_frames(events: Seq<ExecView>)
    requires
        events.len() == 0,
    ensures
        terminal_count(events) == 0,
{
}

proof fn lemma_terminal_count_prepend_frame(p: Seq<char>, events: Seq<ExecView>)
    ensures
        terminal_count(seq![ExecView::Frame(p)] + events) == terminal_count(events),
    decreases events.len(),
{
    if events.len() == 0 {
        assert(seq![ExecView::Frame(p)] + events =~= seq![ExecView::Frame(p)]);
        lemma_count_single(ExecView::Frame(p));
    } else {
        lemma_terminal_count_prepend_frame(p, events.drop_last());
        assert((seq![ExecView::Frame(p)] + events).last() == events.last());
        assert((seq![ExecView::Frame(p)] + events).drop_last() =~= seq![ExecView::Frame(p)]
            + events.drop_last());
    }
}

/// Each `advance` emits at most one terminal event; after one, the request
/// is ended and has released its script.
pub proof fn lemma_advance_terminal_once(
    s: OwnerView,
    elapsed: nat,
    observed: Option<CancellationReason>,
)
    requires
        owner_wf(s),
    ensures
        terminal_count(advance_view(s, elapsed, observed).1) <= 1,
        terminal_count(advance_view(s, elapsed, observed).1) == 1 ==> advance_view(
            s,
            elapsed,
            observed,
        ).0.terminal is Some,
        advance_view(s, elapsed, observed).0.terminal is Some ==> advance_view(
            s,
            elapsed,
            observed,
        ).0.script.len() == 0,
{
    let one = seq![ExecView::Terminal(TerminalReason::Completed)];
    assert(one.drop_last() =~= Seq::<ExecView>::empty());
    if s.terminal is Some {
    } else if observed is Some {
        lemma_count_single(ExecView::Terminal(TerminalReason::Cancelled(observed->0)));
    } else {
        let s0 = OwnerView {
            total: s.total + elapsed,
            since: s.since + elapsed,
            credit: s.credit + elapsed,
            ..s
        };
        let a = run_script(s0);
        lemma_run_terminal_once(s0);
        let b = timeout_check(a.0);
        lemma_terminal_count_append(a.1, b.1);
        if b.1.len() == 1 {
            lemma_count_single(b.1[0]);
            assert(b.1 =~= seq![b.1[0]]);
        }
    }
}

proof fn lemma_terminal_count_append(a: Seq<ExecView>, b: Seq<ExecView>)
    ensures
        terminal_count(a + b) == terminal_count(a) + terminal_count(b),
    decreases b.len(),
{
    if b.len() == 0 {
        assert(a + b =~= a);
    } else {
        lemma_terminal_count_append(a, b.drop_last());
        assert((a + b).drop_last() =~= a + b.drop_last());
    }
}

proof fn lemma_run_script_shape(s: OwnerView)
    ensures
        run_script(s).0.total == s.total,
        run_script(s).0.connect == s.connect,
        run_script(s).0.total_limit == s.total_limit,
        forall|k: int|
            0 <= k < run_script(s).1.len() && (#[trigger] run_script(s).1[k]) is Terminal
                ==> k == run_script(s).1.len() - 1 && run_script(s).0.terminal is Some,
    decreases s.script.len(),
{
    if s.terminal is Some || s.script.len() == 0 {
    } else {
        match s.script[0] {
            StepView::Frame(p) => {
                let s1 = OwnerView {
                    script: s.script.drop_first(),
                    since: 0,
                    received: true,
                    bytes: saturating_add(s.bytes, byte_len(p)),
                    ..s
                };
                if s1.bytes > s.max_bytes || is_end_frame(p) {
                } else {
                    lemma_run_script_shape(s1);
                    let r = run_script(s1);
                    assert forall|k: int|
                        0 <= k < run_script(s).1.len() && (#[trigger] run_script(s).1[k]) is Terminal
                        implies k == run_script(s).1.len() - 1 && run_script(s).0.terminal is Some by {
                        assert(run_script(s).1 == seq![ExecView::Frame(p)] + r.1);
                        if k > 0 {
                            assert(run_script(s).1[k] == r.1[k - 1]);
                        }
                    }
                }
            },
            StepView::Delay(d) => {
                if s.credit >= d {
                    lemma_run_script_shape(
                        OwnerView { script: s.script.drop_first(), credit: (s.credit - d) as nat, ..s },
                    );
                }
            },
            StepView::Hang => {},
        }
    }
}

/// Within one `advance`, a terminal event is the last event returned, and it
/// leaves the request ended.
pub proof fn lemma_advance_terminal_last(
    s: OwnerView,
    elapsed: nat,
    observed: Option<CancellationReason>,
)
    ensures
        forall|k: int|
            0 <= k < advance_view(s, elapsed, observed).1.len() && (#[trigger] advance_view(
                s,
                elapsed,
                observed,
            ).1[k]) is Terminal ==> k == advance_view(s, elapsed, observed).1.len() - 1
                && advance_view(s, elapsed, observed).0.terminal is Some,
{
    if s.terminal is None && observed is None {
        let s0 = OwnerView {
            total: s.total + elapsed,
            since: s.since + elapsed,
            credit: s.credit + elapsed,
            ..s
        };
        lemma_run_script_shape(s0);
        let a = run_script(s0);
        let b = timeout_check(a.0);
        assert forall|k: int|
            0 <= k < advance_view(s, elapsed, observed).1.len() && (#[trigger] advance_view(
                s,
                elapsed,
                observed,
            ).1[k]) is Terminal implies k == advance_view(s, elapsed, observed).1.len() - 1
            && advance_view(s, elapsed, observed).0.terminal is Some by {
            assert(advance_view(s, elapsed, observed).1 == a.1 + b.1);
            if a.0.terminal is Some {
                assert(b.1 =~= Seq::<ExecView>::empty());
                assert(a.1 + b.1 =~= a.1);
            } else {
                if k < a.1.len() {
                    assert((a.1 + b.1)[k] == a.1[k]);
                } else {
                    assert((a.1 + b.1)[k] == b.1[k - a.1.len()]);
                }
            }
        }
    }
}

/// Every request ends in bounded time: a running request that is advanced
/// until its summed time reaches both its connect and its total limit has
/// ended after that advance, whatever the script and the token held.
pub proof fn lemma_advance_reaches_limit(
    s: OwnerView,
    elapsed: nat,
    observed: Option<CancellationReason>,
)
    requires
        s.total + elapsed >= s.connect,
        s.total + elapsed >= s.total_limit,
    ensures
        advance_view(s, elapsed, observed).0.terminal is Some,
{
    if s.terminal is None && observed is None {
        let s0 = OwnerView {
            total: s.total + elapsed,
            since: s.since + elapsed,
            credit: s.credit + elapsed,
            ..s
        };
        lemma_run_script_shape(s0);
    }
}

/// One call on a request owner as plain values: an `advance` by some
/// nanoseconds with the cancellation the token held when read, or a `cancel`.
pub enum OwnerCall {
    Advance(nat, Option<CancellationReason>),
    Cancel(CancellationReason),
}

/// What one call does to an owner and returns.
pub open spec fn owner_call(s: OwnerView, call: OwnerCall) -> (OwnerView, Seq<ExecView>) {
    match call {
        OwnerCall::Advance(elapsed, observed) => advance_view(s, elapsed, observed),
        OwnerCall::Cancel(reason) => finish_view(s, TerminalReason::Cancelled(reason)),
    }
}

/// What a sequence of calls does to an owner, and everything they return,
/// in order.
pub open spec fn owner_calls(s: OwnerView, calls: Seq<OwnerCall>) -> (OwnerView, Seq<ExecView>)
    decreases calls.len(),
{
    if calls.len() == 0 {
        (s, seq![])
    } else {
        let before = owner_calls(s, calls.drop_last());
        let step = owner_call(before.0, calls.last());
        (step.0, before.1 + step.1)
    }
}

/// The nanoseconds the advances among `calls` feed.
pub open spec fn advanced(calls: Seq<OwnerCall>) -> nat
    decreases calls.len(),
{
    if calls.len() == 0 {
        0
    } else {
        advanced(calls.drop_last()) + match calls.last() {
            OwnerCall::Advance(elapsed, _) => elapsed,
            OwnerCall::Cancel(_) => 0nat,
        }
    }
}

proof fn lemma_count_zero(events: Seq<ExecView>)
    requires
        terminal_count(events) == 0,
    ensures
        forall|k: int| 0 <= k < events.len() ==> !(#[trigger] events[k] is Terminal),
    decreases events.len(),
{
    if events.len() > 0 {
        lemma_count_zero(events.drop_last());
        assert forall|k: int| 0 <= k < events.len() implies !(#[trigger] events[k] is Terminal) by {
            if k < events.len() - 1 {
                assert(events[k] == events.drop_last()[k]);
            }
        }
    }
}

/// On a running request, one call returns a terminal event exactly when it
/// ends the request, and at most one; it is the last event the call returns.
proof fn lemma_call_terminal(s: OwnerView, call: OwnerCall)
    requires
        s.terminal is None,
    ensures
        terminal_count(owner_call(s, call).1) <= 1,
        (terminal_count(owner_call(s, call).1) == 1) == (owner_call(s, call).0.terminal is Some),
        forall|k: int|
            0 <= k < owner_call(s, call).1.len() && (#[trigger] owner_call(s, call).1[k]) is Terminal
                ==> k == owner_call(s, call).1.len() - 1,
{
    match call {
        OwnerCall::Advance(elapsed, observed) => {
            lemma_advance_terminal_last(s, elapsed, observed);
            if observed is Some {
                lemma_count_single(ExecView::Terminal(TerminalReason::Cancelled(observed->0)));
            } else {
                let s0 = OwnerView {
                    total: s.total + elapsed,
                    since: s.since + elapsed,
                    credit: s.credit + elapsed,
                    ..s
                };
                let a = run_script(s0);
                lemma_run_terminal_once(s0);
                let b = timeout_check(a.0);
                lemma_terminal_count_append(a.1, b.1);
                assert(Seq::<ExecView>::empty().len() == 0);
                lemma_terminal_count_plain_frames(Seq::<ExecView>::empty());
                if b.1.len() == 1 {
                    lemma_count_single(b.1[0]);
                    assert(b.1 =~= seq![b.1[0]]);
                }
            }
        },
        OwnerCall::Cancel(reason) => {
            lemma_count_single(ExecView::Terminal(TerminalReason::Cancelled(reason)));
        },
    }
}

/// Over any sequence of `advance` and `cancel` calls on a running request,
/// at most one terminal event is returned in all; it is returned exactly when
/// the request has ended, and it is the last event returned: once ended, the
/// request returns nothing more.
pub proof fn lemma_terminal_once_over_calls(s: OwnerView, calls: Seq<OwnerCall>)
    requires
        s.terminal is None,
    ensures
        terminal_count(owner_calls(s, calls).1) <= 1,
        (terminal_count(owner_calls(s, calls).1) == 1) == (owner_calls(s, calls).0.terminal is Some),
        forall|k: int|
            0 <= k < owner_calls(s, calls).1.len() && (#[trigger] owner_calls(s, calls).1[k]) is Terminal
                ==> k == owner_calls(s, calls).1.len() - 1,
    decreases calls.len(),
{
    if calls.len() == 0 {
        lemma_terminal_count_plain_frames(Seq::<ExecView>::empty());
    } else {
        let before = owner_calls(s, calls.drop_last());
        lemma_terminal_once_over_calls(s, calls.drop_last());
        let step = owner_call(before.0, calls.last());
        let all = before.1 + step.1;
        assert(owner_calls(s, calls) == (step.0, all));
        if before.0.terminal is Some {
            match calls.last() {
                OwnerCall::Advance(elapsed, observed) => {
                    lemma_ended_request_is_inert(before.0, elapsed, observed, TerminalReason::Completed);
                },
                OwnerCall::Cancel(reason) => {
                    lemma_ended_request_is_inert(before.0, 0, None, TerminalReason::Cancelled(reason));
                },
            }
            assert(step == (before.0, Seq::<ExecView>::empty()));
            assert(all =~= before.1);
        } else {
            lemma_call_terminal(before.0, calls.last());
            lemma_terminal_count_append(before.1, step.1);
            lemma_count_zero(before.1);
            assert forall|k: int| 0 <= k < all.len() && (#[trigger] all[k]) is Terminal implies k
                == all.len() - 1 by {
                if k < before.1.len() {
                    assert(all[k] == before.1[k]);
                } else {
                    assert(all[k] == step.1[k - before.1.len()]);
                }
            }
        }
    }
}

proof fn lemma_call_keeps_limits(s: OwnerView, call: OwnerCall)
    ensures
        owner_call(s, call).0.connect == s.connect,
        owner_call(s, call).0.total_limit == s.total_limit,
        s.terminal is None && owner_call(s, call).0.terminal is None ==> owner_call(s, call).0.total
            == s.total + match call {
            OwnerCall::Advance(elapsed, _) => elapsed,
            OwnerCall::Cancel(_) => 0nat,
        },
{
    match call {
        OwnerCall::Advance(elapsed, observed) => {
            if s.terminal is None && observed is None {
                let s0 = OwnerView {
                    total: s.total + elapsed,
                    since: s.since + elapsed,
                    credit: s.credit + elapsed,
                    ..s
                };
                lemma_run_script_shape(s0);
            }
        },
        OwnerCall::Cancel(_) => {},
    }
}

proof fn lemma_calls_keep_limits(s: OwnerView, calls: Seq<OwnerCall>)
    requires
        s.terminal is None,
    ensures
        owner_calls(s, calls).0.connect == s.connect,
        owner_calls(s, calls).0.total_limit == s.total_limit,
        owner_calls(s, calls).0.terminal is None ==> owner_calls(s, calls).0.total == s.total
            + advanced(calls),
    decreases calls.len(),
{
    if calls.len() > 0 {
        let before = owner_calls(s, calls.drop_last());
        lemma_calls_keep_limits(s, calls.drop_last());
        lemma_call_keeps_limits(before.0, calls.last());
        if before.0.terminal is Some {
            match calls.last() {
                OwnerCall::Advance(elapsed, observed) => {
                    lemma_ended_request_is_inert(before.0, elapsed, observed, TerminalReason::Completed);
                },
                OwnerCall::Cancel(reason) => {
                    lemma_ended_request_is_inert(before.0, 0, None, TerminalReason::Cancelled(reason));
                },
            }
        }
    }
}

/// Every request ends in bounded time: once the advances of a sequence of
/// calls have fed a running request as much time as both its connect and its
/// total limit, the request has ended, whatever the script and the token held.
pub proof fn lemma_calls_reach_limit(s: OwnerView, calls: Seq<OwnerCall>)
    requires
        s.terminal is None,
        calls.len() > 0,
        s.total + advanced(calls) >= s.connect,
        s.total + advanced(calls) >= s.total_limit,
    ensures
        owner_calls(s, calls).0.terminal is Some,
{
    let before = owner_calls(s, calls.drop_last());
    lemma_calls_keep_limits(s, calls.drop_last());
    {
        if before.0.terminal is Some {
            match calls.last() {
                OwnerCall::Advance(elapsed, observed) => {
                    lemma_ended_request_is_inert(before.0, elapsed, observed, TerminalReason::Completed);
                },
                OwnerCall::Cancel(reason) => {
                    lemma_ended_request_is_inert(before.0, 0, None, TerminalReason::Cancelled(reason));
                },
            }
        } else {
            match calls.last() {
                OwnerCall::Advance(elapsed, observed) => {
                    lemma_advance_reaches_limit(before.0, elapsed, observed);
                },
                OwnerCall::Cancel(_) => {},
            }
        }
    }
}

} // verus!
