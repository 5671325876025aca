//! The owned dev server's lifecycle decisions.
//!
//! One supervisor per process assigns a loopback port, spawns the declared
//! command in its own process group, waits for readiness within a bounded
//! time, keeps only the tail of the child's output, and stops the whole group
//! with a bounded grace. It never restarts on its own. The process, its
//! output streams and its signals belong to the application shell; the
//! phases, bounds and validations are decided here.
use vstd::prelude::*;
use crate::text::{has_prefix, owned, starts_with, trim, trim_seq};

verus! {

pub const READINESS_MIN_MS: u64 = 1000;

pub const READINESS_MAX_MS: u64 = 60000;

pub const READINESS_DEFAULT_MS: u64 = 30000;

pub const GRACE_MIN_MS: u64 = 200;

pub const GRACE_MAX_MS: u64 = 10000;

pub const GRACE_DEFAULT_MS: u64 = 5000;

/// The most bytes of each output stream that are kept.
pub const OUTPUT_CAP_BYTES: usize = 8192;

#[derive(Debug, Clone, Copy, PartialEq, Eq, Structural)]
pub enum PreviewPhase {
    Idle,
    Starting,
    Ready,
    Stopping,
    Stopped,
    Failed,
}

#[derive(Debug, PartialEq, Eq)]
pub struct PreviewStatus {
    pub phase: PreviewPhase,
    pub port: Option<u16>,
    pub reason: Option<String>,
    pub exit_code: Option<i32>,
}

#[derive(Debug, Clone, Copy, PartialEq, Eq, Structural)]
pub struct PreviewStartResponse {
    pub port: u16,
}

#[derive(Debug, Clone, Copy, PartialEq, Eq, Structural)]
pub struct PreviewStopResponse {
    pub stopped: bool,
}

#[derive(Debug, PartialEq, Eq)]
pub struct PreviewStartRequest {
    pub command: String,
    pub args: Vec<String>,
    pub cwd: String,
    pub readiness_timeout_ms: Option<u64>,
    pub stop_grace_ms: Option<u64>,
}

#[derive(Debug, PartialEq, Eq)]
pub struct PreviewError {
    pub code: String,
    pub message: String,
}

impl PreviewError {
    pub fn new(code: &str, message: &str) -> (r: Self)
        ensures
            r.code@ == code@,
            r.message@ == message@,
    {
        PreviewError { code: owned(code), message: owned(message) }
    }
}

/// `value` brought within `[min, max]`.
pub open spec fn clamp_spec(value: u64, min: u64, max: u64) -> u64 {
    if value < min {
        min
    } else if value > max {
        max
    } else {
        value
    }
}

pub fn clamp(value: u64, min: u64, max: u64) -> (r: u64)
    requires
        min <= max,
    ensures
        r == clamp_spec(value, min, max),
{
    if value < min {
        min
    } else if value > max {
        max
    } else {
        value
    }
}

/// Whether a path text is absolute (on Unix: it starts at the root).
pub open spec fn is_absolute_path(path: Seq<char>) -> bool {
    has_prefix(path, "/"@)
}

/// A validated start: the trimmed command, the trimmed working folder and
/// the clamped readiness and stop bounds.
#[derive(Debug, PartialEq, Eq)]
pub struct StartPlan {
    pub command: String,
    pub cwd: String,
    pub readiness_ms: u64,
    pub grace_ms: u64,
}

/// What a start request becomes: refused without a command or without an
/// absolute working folder; otherwise its bounds are clamped, with defaults
/// where none is given.
pub open spec fn start_plan(
    command: Seq<char>,
    cwd: Seq<char>,
    readiness: Option<u64>,
    grace: Option<u64>,
) -> Result<(Seq<char>, Seq<char>, u64, u64), Seq<char>> {
    if trim_seq(command).len() == 0 {
        Err("preview_command_missing"@)
    } else if !is_absolute_path(trim_seq(cwd)) {
        Err("preview_cwd_invalid"@)
    } else {
        Ok(
            (
                trim_seq(command),
                trim_seq(cwd),
                clamp_spec(
                    match readiness {
                        Some(v) => v,
                        None => READINESS_DEFAULT_MS,
                    },
                    READINESS_MIN_MS,
                    READINESS_MAX_MS,
                ),
                clamp_spec(
                    match grace {
                        Some(v) => v,
                        None => GRACE_DEFAULT_MS,
                    },
                    GRACE_MIN_MS,
                    GRACE_MAX_MS,
                ),
            ),
        )
    }
}

pub fn validate_start(request: &PreviewStartRequest) -> (r: Result<StartPlan, PreviewError>)
    ensures
        match start_plan(
            request.command@,
            request.cwd@,
            request.readiness_timeout_ms,
            request.stop_grace_ms,
        ) {
            Ok((command, cwd, readiness, grace)) => r matches Ok(p) && p.command@ == command
                && p.cwd@ == cwd && p.readiness_ms == readiness && p.grace_ms == grace,
            Err(code) => r matches Err(e) && e.code@ == code,
        },
{
    let command = trim(request.command.as_str());
    if command.as_str().is_empty() {
        return Err(
            PreviewError::new("preview_command_missing", "Choose a command to start the preview."),
        );
    }
    let cwd = trim(request.cwd.as_str());
    if !starts_with(cwd.as_str(), "/") {
        return Err(
            PreviewError::new(
                "preview_cwd_invalid",
                "Choose an absolute project folder for the preview.",
            ),
        );
    }
    let readiness = match request.readiness_timeout_ms {
        Some(v) => v,
        None => READINESS_DEFAULT_MS,
    };
    let grace = match request.stop_grace_ms {
        Some(v) => v,
        None => GRACE_DEFAULT_MS,
    };
    Ok(
        StartPlan {
            command,
            cwd,
            readiness_ms: clamp(readiness, READINESS_MIN_MS, READINESS_MAX_MS),
            grace_ms: clamp(grace, GRACE_MIN_MS, GRACE_MAX_MS),
        },
    )
}

/// The last `cap` items of `s`.
pub open spec fn keep_last(s: Seq<u8>, cap: nat) -> Seq<u8> {
    if s.len() <= cap {
        s
    } else {
        s.subrange(s.len() - cap, s.len() as int)
    }
}

/// One output stream of the child: everything it wrote is counted, only the
/// last [`OUTPUT_CAP_BYTES`] are kept.
pub struct BoundedBuffer {
    bytes: Vec<u8>,
    total: usize,
}

impl BoundedBuffer {
    /// The kept bytes.
    pub closed spec fn kept(&self) -> Seq<u8> {
        self.bytes@
    }

    /// How many bytes were written in all.
    pub closed spec fn total(&self) -> nat {
        self.total as nat
    }

    pub fn new() -> (r: Self)
        ensures
            r.kept() == Seq::<u8>::empty(),
            r.total() == 0,
    {
        BoundedBuffer { bytes: Vec::new(), total: 0 }
    }

    pub fn kept_len(&self) -> (r: usize)
        ensures
            r == self.kept().len(),
    {
        self.bytes.len()
    }

    pub fn total_len(&self) -> (r: usize)
        ensures
            r == self.total(),
    {
        self.total
    }

    /// Takes what the stream wrote next.
    pub fn push(&mut self, data: &[u8])
        requires
            old(self).total() + data@.len() <= usize::MAX,
        ensures
            final(self).total() == old(self).total() + data@.len(),
            final(self).kept() == keep_last(old(self).kept() + data@, OUTPUT_CAP_BYTES as nat),
    {
        self.total = self.total + data.len();
        let ghost joined = self.bytes@ + data@;
        let mut all: Vec<u8> = Vec::new();
        let mut i: usize = 0;
        while i < self.bytes.len()
            invariant
                i <= self.bytes@.len(),
                all@ == self.bytes@.subrange(0, i as int),
            decreases self.bytes.len() - i,
        {
            all.push(self.bytes[i]);
            i = i + 1;
            assert(all@ =~= self.bytes@.subrange(0, i as int));
        }
        let mut j: usize = 0;
        while j < data.len()
            invariant
                j <= data@.len(),
                all@ == self.bytes@ + data@.subrange(0, j as int),
            decreases data.len() - j,
        {
            all.push(data[j]);
            j = j + 1;
            assert(all@ =~= self.bytes@ + data@.subrange(0, j as int));
        }
        assert(data@.subrange(0, data@.len() as int) =~= data@);
        if all.len() > OUTPUT_CAP_BYTES {
            let start = all.len() - OUTPUT_CAP_BYTES;
            let mut tail: Vec<u8> = Vec::new();
            let mut k: usize = start;
            while k < all.len()
                invariant
                    start <= k <= all@.len(),
                    tail@ == all@.subrange(start as int, k as int),
                decreases all.len() - k,
            {
                tail.push(all[k]);
                k = k + 1;
                assert(tail@ =~= all@.subrange(start as int, k as int));
            }
            self.bytes = tail;
        } else {
            self.bytes = all;
        }
    }
}

/// Keeping only a tail after each write keeps the same tail as keeping
/// everything and cutting once: the buffer always holds the last bytes of
/// all that was written.
pub proof fn lemma_tail_of_tail(a: Seq<u8>, b: Seq<u8>, cap: nat)
    ensures
        keep_last(keep_last(a, cap) + b, cap) == keep_last(a + b, cap),
{
    if a.len() > cap {
        let t = a.subrange(a.len() - cap, a.len() as int);
        if t.len() + b.len() > cap {
            assert((t + b).subrange((t + b).len() - cap, (t + b).len() as int) =~= (a + b).subrange(
                (a + b).len() - cap,
                (a + b).len() as int,
            ));
        }
    }
}

/// The supervisor's lifecycle state, without the process it owns.
pub struct PreviewCore {
    pub phase: PreviewPhase,
    pub port: Option<u16>,
    pub reason: Option<String>,
    pub exit_code: Option<i32>,
    pub grace_ms: u64,
}

/// What a stop request does.
#[derive(Debug, Clone, Copy, PartialEq, Eq, Structural)]
pub enum StopStep {
    /// Nothing runs: idle or already stopped.
    NothingToStop,
    /// A failed preview is acknowledged and becomes stopped.
    Acknowledged,
    /// The process group must be terminated.
    Terminate,
}

impl PreviewCore {
    pub fn new() -> (r: Self)
        ensures
            r.phase == PreviewPhase::Idle,
            r.port is None,
            r.reason is None,
            r.exit_code is None,
            r.grace_ms == GRACE_DEFAULT_MS,
    {
        PreviewCore {
            phase: PreviewPhase::Idle,
            port: None,
            reason: None,
            exit_code: None,
            grace_ms: GRACE_DEFAULT_MS,
        }
    }

    /// Whether a preview is starting or ready.
    pub open spec fn is_active(&self) -> bool {
        self.phase is Starting || self.phase is Ready
    }

    /// Whether a new start may take the preview: refused while one is active.
    pub fn may_begin(&self) -> (r: Result<(), PreviewError>)
        ensures
            r is Ok <==> !self.is_active(),
            r matches Err(e) ==> e.code@ == "preview_already_active"@,
    {
        match self.phase {
            PreviewPhase::Starting | PreviewPhase::Ready => Err(
                PreviewError::new(
                    "preview_already_active",
                    "A preview is already running. Stop it before starting another.",
                ),
            ),
            _ => Ok(()),
        }
    }

    /// Takes the preview for a new start on `port`; a second start while one
    /// is active is refused and changes nothing.
    pub fn begin(&mut self, port: u16, grace_ms: u64) -> (r: Result<(), PreviewError>)
        ensures
            old(self).is_active() ==> (r matches Err(e) && e.code@ == "preview_already_active"@)
                && final(self).phase == old(self).phase && final(self).port == old(self).port,
            !old(self).is_active() ==> r is Ok && final(self).phase == PreviewPhase::Starting
                && final(self).port == Some(port) && final(self).reason is None
                && final(self).exit_code is None && final(self).grace_ms == grace_ms,
    {
        match self.may_begin() {
            Err(e) => Err(e),
            Ok(()) => {
                self.phase = PreviewPhase::Starting;
                self.port = Some(port);
                self.reason = None;
                self.exit_code = None;
                self.grace_ms = grace_ms;
                Ok(())
            },
        }
    }

    /// Decides a stop: nothing to do when idle or stopped; a failure is
    /// acknowledged; anything else moves to stopping and must be terminated.
    pub fn request_stop(&mut self) -> (r: StopStep)
        ensures
            (old(self).phase is Idle || old(self).phase is Stopped) ==> r == StopStep::NothingToStop
                && final(self).phase == old(self).phase,
            old(self).phase is Failed ==> r == StopStep::Acknowledged && final(self).phase
                == PreviewPhase::Stopped && final(self).reason is None && final(self).exit_code is None,
            (old(self).phase is Starting || old(self).phase is Ready || old(self).phase is Stopping)
                ==> r == StopStep::Terminate && final(self).phase == PreviewPhase::Stopping,
    {
        match self.phase {
            PreviewPhase::Idle | PreviewPhase::Stopped => StopStep::NothingToStop,
            PreviewPhase::Failed => {
                self.phase = PreviewPhase::Stopped;
                self.reason = None;
                self.exit_code = None;
                StopStep::Acknowledged
            },
            _ => {
                self.phase = PreviewPhase::Stopping;
                StopStep::Terminate
            },
        }
    }

    /// The group was terminated: the preview is stopped and owns nothing.
    pub fn finish_stop(&mut self)
        ensures
            final(self).phase == PreviewPhase::Stopped,
            final(self).port is None,
            final(self).reason is None,
            final(self).exit_code is None,
    {
        self.phase = PreviewPhase::Stopped;
        self.port = None;
        self.reason = None;
        self.exit_code = None;
    }

    /// The child exited on its own while starting or ready: the preview
    /// failed early, with its exit code.
    pub fn on_exit(&mut self, code: Option<i32>) -> (r: bool)
        ensures
            r == old(self).is_active(),
            r ==> final(self).phase == PreviewPhase::Failed && final(self).port is None
                && final(self).exit_code == code && (final(self).reason matches Some(x) && x@
                == "preview_exited_early"@),
            !r ==> final(self).phase == old(self).phase,
    {
        match self.phase {
            PreviewPhase::Starting | PreviewPhase::Ready => {
                self.phase = PreviewPhase::Failed;
                self.reason = Some(owned("preview_exited_early"));
                self.exit_code = code;
                self.port = None;
                true
            },
            _ => false,
        }
    }

    /// The port answered: a starting preview is ready.
    pub fn on_ready(&mut self)
        ensures
            old(self).phase is Starting ==> final(self).phase == PreviewPhase::Ready,
            !(old(self).phase is Starting) ==> final(self).phase == old(self).phase,
            final(self).port == old(self).port,
    {
        if self.phase == PreviewPhase::Starting {
            self.phase = PreviewPhase::Ready;
        }
    }

    /// Readiness timed out: a still-starting preview moves to stopping and
    /// must be terminated (true); otherwise nothing happens.
    pub fn on_timeout(&mut self) -> (r: bool)
        ensures
            r == old(self).phase is Starting,
            r ==> final(self).phase == PreviewPhase::Stopping,
            !r ==> final(self).phase == old(self).phase,
    {
        if self.phase == PreviewPhase::Starting {
            self.phase = PreviewPhase::Stopping;
            true
        } else {
            false
        }
    }

    /// The timed-out group was terminated: the preview failed as not ready.
    pub fn finish_timeout(&mut self)
        ensures
            final(self).phase == PreviewPhase::Failed,
            final(self).port is None,
            final(self).exit_code is None,
            final(self).reason matches Some(x) && x@ == "preview_not_ready"@,
    {
        self.phase = PreviewPhase::Failed;
        self.reason = Some(owned("preview_not_ready"));
        self.exit_code = None;
        self.port = None;
    }

    /// The status the shell shows.
    pub fn status(&self) -> (r: PreviewStatus)
        ensures
            r.phase == self.phase,
            r.port == self.port,
            r.exit_code == self.exit_code,
            crate::features::human_browser::opt_text(r.reason) == crate::features::human_browser::opt_text(
                self.reason,
            ),
    {
        PreviewStatus {
            phase: self.phase,
            port: self.port,
            reason: match &self.reason {
                Some(r) => Some(r.clone()),
                None => None,
            },
            exit_code: self.exit_code,
        }
    }
}

} // verus!
