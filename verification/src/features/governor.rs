//! The resource governor: one enforcement loop that stops a sidecar left
//! idle past its budget. The loop itself runs in the application shell; this
//! is its shared state and its budgets.
use vstd::prelude::*;
use vstd::rwlock::RwLock;
use std::sync::Arc;
use std::time::Duration;
use crate::provider::credential::AnyContents;
use crate::time::{duration_nanos, from_secs};

verus! {

/// How often the enforcement loop wakes, in seconds.
pub const TICK_SECS: u64 = 5;

/// How long a sidecar may sit idle, in seconds.
pub const SIDECAR_IDLE_LIMIT_SECS: u64 = 60;

pub fn tick() -> (r: Duration)
    ensures
        duration_nanos(r) == TICK_SECS * 1_000_000_000,
{
    from_secs(TICK_SECS)
}

pub fn sidecar_idle_limit() -> (r: Duration)
    ensures
        duration_nanos(r) == SIDECAR_IDLE_LIMIT_SECS * 1_000_000_000,
{
    from_secs(SIDECAR_IDLE_LIMIT_SECS)
}

#[derive(Debug, Clone, Copy, PartialEq, Eq, Structural)]
pub struct GovernorStatus {
    pub tick_secs: u64,
    pub sidecar_idle_secs: u64,
    pub sidecar_running: bool,
    pub auto_stops: u64,
}

/// The governor's shared state: whether its loop runs, and how many idle
/// sidecars it stopped.
pub struct GovernorState {
    running: Arc<RwLock<bool, AnyContents>>,
    auto_stops: RwLock<u64, AnyContents>,
}

impl Default for GovernorState {
    fn default() -> (r: Self) {
        GovernorState::new()
    }
}

impl GovernorState {
    pub fn new() -> (r: Self) {
        GovernorState {
            running: Arc::new(RwLock::new(false, Ghost(AnyContents))),
            auto_stops: RwLock::new(0, Ghost(AnyContents)),
        }
    }

    /// Marks the loop as running; true when it already was, in which case no
    /// second loop may start.
    pub fn begin(&self) -> (r: bool) {
        let (was_running, handle) = self.running.acquire_write();
        handle.release_write(true);
        was_running
    }

    /// Whether the loop should keep running.
    pub fn is_running(&self) -> (r: bool) {
        let read = self.running.acquire_read();
        let running = *read.borrow();
        read.release_read();
        running
    }

    /// Signals the loop to exit on its next tick.
    pub fn shutdown(&self) {
        let (_, handle) = self.running.acquire_write();
        handle.release_write(false);
    }

    /// Counts one automatic stop; the count saturates.
    pub fn note_auto_stop(&self) {
        let (count, handle) = self.auto_stops.acquire_write();
        handle.release_write(count.saturating_add(1));
    }

    /// The automatic stops so far.
    pub fn auto_stops(&self) -> (r: u64) {
        let read = self.auto_stops.acquire_read();
        let count = *read.borrow();
        read.release_read();
        count
    }

    /// The status report, given whether a sidecar runs now.
    pub fn status(&self, sidecar_running: bool) -> (r: GovernorStatus)
        ensures
            r.tick_secs == TICK_SECS,
            r.sidecar_idle_secs == SIDECAR_IDLE_LIMIT_SECS,
            r.sidecar_running == sidecar_running,
    {
        GovernorStatus {
            tick_secs: TICK_SECS,
            sidecar_idle_secs: SIDECAR_IDLE_LIMIT_SECS,
            sidecar_running,
            auto_stops: self.auto_stops(),
        }
    }
}

} // verus!
