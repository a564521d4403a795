use vstd::prelude::*;

verus! {

/// A point in wall-clock time, as its distance from the Unix epoch.
#[derive(Clone, Copy, Debug, PartialEq, Eq, Structural)]
pub struct Timestamp {
    /// Whether the point lies before the epoch rather than at or after it.
    pub before_epoch: bool,
    pub secs: u64,
    pub nanos: u32,
}

impl Timestamp {
    /// The sub-second part is below one second.
    pub open spec fn wf(self) -> bool {
        self.nanos < 1_000_000_000
    }

    /// Strictly earlier than the epoch.
    pub open spec fn precedes_epoch(self) -> bool {
        self.before_epoch && (self.secs > 0 || self.nanos > 0)
    }

    /// A point `secs` seconds and `nanos` nanoseconds after the epoch.
    pub fn since_epoch(secs: u64, nanos: u32) -> (r: Self)
        requires
            nanos < 1_000_000_000,
        ensures
            r.wf(),
            r == (Timestamp { before_epoch: false, secs, nanos }),
    {
        Timestamp { before_epoch: false, secs, nanos }
    }
}

/// Whole milliseconds since the epoch, or nothing for a point before it.
pub open spec fn unix_millis(t: Timestamp) -> Option<u128> {
    if t.precedes_epoch() {
        None
    } else {
        Some((t.secs * 1000 + t.nanos / 1_000_000) as u128)
    }
}

/// Milliseconds since the Unix epoch; `None` when the time precedes it.
pub fn system_time_to_unix_millis(time: Timestamp) -> (r: Option<u128>)
    ensures
        r == unix_millis(time),
{
    if time.before_epoch && (time.secs > 0 || time.nanos > 0) {
        None
    } else {
        let secs = time.secs as u128;
        let ms = (time.nanos / 1_000_000) as u128;
        Some(secs * 1000 + ms)
    }
}

/// Where a background process stands.
#[derive(Debug, PartialEq, Eq)]
pub enum BackgroundProcessState {
    Running,
    Exited { exit_code: Option<i32>, signal: Option<i32>, finished_at: Timestamp },
    /// Observing the exit status itself failed.
    Failed { message: String, finished_at: Timestamp },
}

impl BackgroundProcessState {
    pub open spec fn is_terminal(&self) -> bool {
        !(self is Running)
    }
}

impl Clone for BackgroundProcessState {
    fn clone(&self) -> (r: Self)
        ensures
            r == *self,
    {
        match self {
            BackgroundProcessState::Running => BackgroundProcessState::Running,
            BackgroundProcessState::Exited { exit_code, signal, finished_at } => {
                BackgroundProcessState::Exited {
                    exit_code: *exit_code,
                    signal: *signal,
                    finished_at: *finished_at,
                }
            },
            BackgroundProcessState::Failed { message, finished_at } => {
                BackgroundProcessState::Failed {
                    message: message.clone(),
                    finished_at: *finished_at,
                }
            },
        }
    }
}

/// What one poll of a child's wait status found.
#[derive(Debug, PartialEq, Eq)]
pub enum WaitOutcome {
    StillRunning,
    Exited { exit_code: Option<i32>, signal: Option<i32> },
    /// The poll itself failed, with this message.
    WaitFailed { message: String },
}

/// The state after a poll that found `outcome` at time `now`.
pub open spec fn next_state(
    state: BackgroundProcessState,
    outcome: WaitOutcome,
    now: Timestamp,
) -> BackgroundProcessState {
    if state.is_terminal() {
        state
    } else {
        match outcome {
            WaitOutcome::StillRunning => state,
            WaitOutcome::Exited { exit_code, signal } => BackgroundProcessState::Exited {
                exit_code,
                signal,
                finished_at: now,
            },
            WaitOutcome::WaitFailed { message } => BackgroundProcessState::Failed {
                message,
                finished_at: now,
            },
        }
    }
}

/// The state after a sequence of polls, each with the time it was made.
pub open spec fn state_after(
    state: BackgroundProcessState,
    polls: Seq<(WaitOutcome, Timestamp)>,
) -> BackgroundProcessState
    decreases polls.len(),
{
    if polls.len() == 0 {
        state
    } else {
        let last = polls.last();
        next_state(state_after(state, polls.drop_last()), last.0, last.1)
    }
}

/// The lifecycle of one process: running until a single commit of an outcome.
pub struct LifecycleCell {
    state: BackgroundProcessState,
}

impl View for LifecycleCell {
    type V = BackgroundProcessState;

    closed spec fn view(&self) -> BackgroundProcessState {
        self.state
    }
}

impl LifecycleCell {
    pub fn new() -> (r: Self)
        ensures
            r@ == BackgroundProcessState::Running,
    {
        LifecycleCell { state: BackgroundProcessState::Running }
    }

    /// A copy of the current state.
    pub fn current(&self) -> (r: BackgroundProcessState)
        ensures
            r == self@,
    {
        self.state.clone()
    }

    /// Records the result of one poll made at `now`. A running process takes
    /// a terminal state from an exit or a failed poll; a terminal state never
    /// changes again. Returns whether monitoring is over.
    pub fn record(&mut self, outcome: WaitOutcome, now: Timestamp) -> (done: bool)
        ensures
            final(self)@ == next_state(old(self)@, outcome, now),
            done == final(self)@.is_terminal(),
            old(self)@.is_terminal() ==> final(self)@ == old(self)@,
    {
        match self.state {
            BackgroundProcessState::Running => {},
            _ => {
                return true;
            },
        }
        match outcome {
            WaitOutcome::StillRunning => false,
            WaitOutcome::Exited { exit_code, signal } => {
                self.state = BackgroundProcessState::Exited { exit_code, signal, finished_at: now };
                true
            },
            WaitOutcome::WaitFailed { message } => {
                self.state = BackgroundProcessState::Failed { message, finished_at: now };
                true
            },
        }
    }
}

/// Once terminal, a state stays exactly as it is, whatever later polls find.
pub proof fn lemma_terminal_state_is_final(
    state: BackgroundProcessState,
    polls: Seq<(WaitOutcome, Timestamp)>,
)
    requires
        state.is_terminal(),
    ensures
        state_after(state, polls) == state,
    decreases polls.len(),
{
    if polls.len() > 0 {
        lemma_terminal_state_is_final(state, polls.drop_last());
    }
}

/// The reported form of a state: the tag and the fields that go with it.
#[derive(Debug, PartialEq, Eq)]
pub enum StateReport {
    Running,
    Exited { exit_code: Option<i32>, signal: Option<i32>, finished_at_ms: Option<u128> },
    Failed { message: String, finished_at_ms: Option<u128> },
}

impl StateReport {
    pub open spec fn spec_status(&self) -> Seq<char> {
        match self {
            StateReport::Running => "running"@,
            StateReport::Exited { .. } => "exited"@,
            StateReport::Failed { .. } => "failed"@,
        }
    }

    /// The value of the report's `status` tag.
    pub fn status(&self) -> (r: &'static str)
        ensures
            r@ == self.spec_status(),
    {
        match self {
            StateReport::Running => "running",
            StateReport::Exited { .. } => "exited",
            StateReport::Failed { .. } => "failed",
        }
    }
}

/// The report of a state, with its finishing time in epoch milliseconds.
pub open spec fn spec_report(state: BackgroundProcessState) -> StateReport {
    match state {
        BackgroundProcessState::Running => StateReport::Running,
        BackgroundProcessState::Exited { exit_code, signal, finished_at } => StateReport::Exited {
            exit_code,
            signal,
            finished_at_ms: unix_millis(finished_at),
        },
        BackgroundProcessState::Failed { message, finished_at } => StateReport::Failed {
            message,
            finished_at_ms: unix_millis(finished_at),
        },
    }
}

pub fn background_state_report(state: &BackgroundProcessState) -> (r: StateReport)
    ensures
        r == spec_report(*state),
{
    match state {
        BackgroundProcessState::Running => StateReport::Running,
        BackgroundProcessState::Exited { exit_code, signal, finished_at } => StateReport::Exited {
            exit_code: *exit_code,
            signal: *signal,
            finished_at_ms: system_time_to_unix_millis(*finished_at),
        },
        BackgroundProcessState::Failed { message, finished_at } => StateReport::Failed {
            message: message.clone(),
            finished_at_ms: system_time_to_unix_millis(*finished_at),
        },
    }
}

} // verus!
