//! The decisions of the reload scheduler.
//!
//! The scheduler checks the source once in every interval. After a check
//! that failed it tries again after a delay that doubles with every further
//! failure, and after too many failures in a row it shuts the process down
//! or clears the index. Nothing here waits or fetches: a step takes the
//! outcome of a check and says what to do next.

use vstd::arithmetic::power2::lemma2_to64;
use vstd::arithmetic::power2::pow2;
use vstd::prelude::*;

verus! {

/// The delay after the first failure, in seconds.
pub const INITIAL_BACKOFF_SECS: u64 = 5;

/// The longest delay between two tries, in seconds: five minutes.
pub const MAX_BACKOFF_SECS: u64 = 300;

/// What to do when the checks have failed too often in a row.
#[derive(Debug, Clone, Copy, PartialEq, Eq, Structural)]
pub enum FailureAction {
    /// End the process with a status that is not zero.
    Shutdown,
    /// Replace the index by an empty one and go on.
    Clear,
}

/// What a recorded failure leads to.
#[derive(Debug, Clone, Copy, PartialEq, Eq, Structural)]
pub enum FailureResponse {
    /// Try again after this many seconds.
    Backoff(u64),
    /// There were too many failures in a row: take this action.
    MaxExceeded(FailureAction),
}

/// How a check of the source ended.
#[derive(Debug, Clone, Copy, PartialEq, Eq, Structural)]
pub enum ReloadOutcome {
    /// New data was loaded and is to be installed.
    Reloaded,
    /// The source has not changed.
    Unchanged,
    /// The check failed.
    Failed,
}

/// What the scheduler does after a check.
#[derive(Debug, Clone, Copy, PartialEq, Eq, Structural)]
pub enum SchedulerAction {
    /// Install the new index, keep its metadata, and check again after the
    /// interval of this many seconds.
    Install { wait_secs: u64 },
    /// Keep the index and check again after the interval of this many
    /// seconds.
    Keep { wait_secs: u64 },
    /// Keep the index and check again after this many seconds, without
    /// waiting for the interval.
    Retry { wait_secs: u64 },
    /// Install an empty index and check again after the interval of this
    /// many seconds.
    Clear { wait_secs: u64 },
    /// End the process with a status that is not zero; the index is left as
    /// it is.
    Shutdown,
}

/// The delay before the try that follows the `failures`-th failure in a
/// row, in seconds: `min(5 * 2^(failures - 1), 300)`.
pub open spec fn backoff_secs(failures: nat) -> nat
    recommends
        failures >= 1,
{
    let doubled = 5 * pow2((failures - 1) as nat);
    if doubled < 300 {
        doubled
    } else {
        300
    }
}

/// The seconds of an interval of `minutes` minutes, or the largest number
/// of seconds that can be held if that is fewer.
pub open spec fn interval_secs_of(minutes: u64) -> u64 {
    if minutes * 60 <= u64::MAX {
        (minutes * 60) as u64
    } else {
        u64::MAX
    }
}

/// Doubling five at least six times gives more than three hundred.
proof fn lemma_backoff_capped(failures: nat)
    requires
        failures >= 7,
    ensures
        backoff_secs(failures) == 300,
{
    lemma2_to64();
    if failures > 7 {
        vstd::arithmetic::power2::lemma_pow2_strictly_increases(6, (failures - 1) as nat);
    }
}

/// The count of failures in a row, with the limit and the action that apply
/// to it.
#[derive(Debug, Clone, Copy)]
pub struct FailureTracker {
    consecutive: u32,
    max: u32,
    action: FailureAction,
}

/// What a tracker holds, as plain values.
pub ghost struct TrackerState {
    /// The failures in a row so far.
    pub consecutive: nat,
    /// The number of failures in a row at which the action is taken; 0 for
    /// no limit.
    pub max: nat,
    /// The action.
    pub action: FailureAction,
}

impl TrackerState {
    /// The state after one more failure. The count stops at the largest
    /// number that 32 bits hold.
    pub open spec fn failed(self) -> TrackerState {
        TrackerState {
            consecutive: if self.consecutive < u32::MAX {
                self.consecutive + 1
            } else {
                self.consecutive
            },
            ..self
        }
    }

    /// The state after the count was set back.
    pub open spec fn cleared(self) -> TrackerState {
        TrackerState { consecutive: 0, ..self }
    }

    /// Whether the failures in a row have reached the limit.
    pub open spec fn exceeded(self) -> bool {
        self.max > 0 && self.consecutive >= self.max
    }

    /// What the failure that led to this state leads to.
    pub open spec fn response(self) -> FailureResponse {
        if self.exceeded() {
            FailureResponse::MaxExceeded(self.action)
        } else {
            FailureResponse::Backoff(backoff_secs(self.consecutive) as u64)
        }
    }
}

impl View for FailureTracker {
    type V = TrackerState;

    closed spec fn view(&self) -> TrackerState {
        TrackerState {
            consecutive: self.consecutive as nat,
            max: self.max as nat,
            action: self.action,
        }
    }
}

/// The delay before the try that follows the `failures`-th failure.
fn backoff_for(failures: u32) -> (secs: u64)
    requires
        failures >= 1,
    ensures
        secs == backoff_secs(failures as nat),
        secs <= MAX_BACKOFF_SECS,
{
    proof {
        lemma2_to64();
        if failures >= 7 {
            lemma_backoff_capped(failures as nat);
        }
    }
    if failures >= 7 {
        MAX_BACKOFF_SECS
    } else if failures == 1 {
        INITIAL_BACKOFF_SECS
    } else if failures == 2 {
        10
    } else if failures == 3 {
        20
    } else if failures == 4 {
        40
    } else if failures == 5 {
        80
    } else {
        160
    }
}

impl FailureTracker {
    /// A tracker that has seen no failure. `max` is the number of failures
    /// in a row at which `action` is taken; with 0 it is never taken.
    pub fn new(max: u32, action: FailureAction) -> (tracker: Self)
        ensures
            tracker@ == (TrackerState { consecutive: 0, max: max as nat, action }),
    {
        FailureTracker { consecutive: 0, max, action }
    }

    /// Sets the count of failures in a row back to 0.
    pub fn reset(&mut self)
        ensures
            final(self)@ == old(self)@.cleared(),
    {
        self.consecutive = 0;
    }

    /// Counts one more failure and says what it leads to: the action, when
    /// the limit is reached, else the delay before the next try.
    pub fn record(&mut self) -> (response: FailureResponse)
        ensures
            final(self)@ == old(self)@.failed(),
            response == final(self)@.response(),
    {
        if self.consecutive < u32::MAX {
            self.consecutive = self.consecutive + 1;
        }
        if self.max > 0 && self.consecutive >= self.max {
            FailureResponse::MaxExceeded(self.action)
        } else {
            FailureResponse::Backoff(backoff_for(self.consecutive))
        }
    }

    /// The failures in a row so far.
    pub fn count(&self) -> (failures: u32)
        ensures
            failures == self@.consecutive,
    {
        self.consecutive
    }
}

/// What a scheduler holds, as plain values.
pub ghost struct SchedulerState {
    /// The interval between two checks, in seconds.
    pub interval_secs: u64,
    /// The failures.
    pub failures: TrackerState,
}

impl SchedulerState {
    /// The action after a check with this outcome.
    pub open spec fn action_after(self, outcome: ReloadOutcome) -> SchedulerAction {
        match outcome {
            ReloadOutcome::Reloaded => SchedulerAction::Install { wait_secs: self.interval_secs },
            ReloadOutcome::Unchanged => SchedulerAction::Keep { wait_secs: self.interval_secs },
            ReloadOutcome::Failed => match self.failures.failed().response() {
                FailureResponse::Backoff(secs) => SchedulerAction::Retry { wait_secs: secs },
                FailureResponse::MaxExceeded(FailureAction::Shutdown) => SchedulerAction::Shutdown,
                FailureResponse::MaxExceeded(FailureAction::Clear) => SchedulerAction::Clear {
                    wait_secs: self.interval_secs,
                },
            },
        }
    }

    /// The state after a check with this outcome: a check that went well
    /// sets the count of failures back, and so does clearing the index.
    pub open spec fn state_after(self, outcome: ReloadOutcome) -> SchedulerState {
        match outcome {
            ReloadOutcome::Reloaded => SchedulerState { failures: self.failures.cleared(), ..self },
            ReloadOutcome::Unchanged => SchedulerState {
                failures: self.failures.cleared(),
                ..self
            },
            ReloadOutcome::Failed => match self.failures.failed().response() {
                FailureResponse::MaxExceeded(FailureAction::Clear) => SchedulerState {
                    failures: self.failures.cleared(),
                    ..self
                },
                _ => SchedulerState { failures: self.failures.failed(), ..self },
            },
        }
    }

    /// The state after a run of checks with these outcomes.
    pub open spec fn state_after_all(self, outcomes: Seq<ReloadOutcome>) -> SchedulerState
        decreases outcomes.len(),
    {
        if outcomes.len() == 0 {
            self
        } else {
            self.state_after_all(outcomes.drop_last()).state_after(outcomes.last())
        }
    }
}

/// The reload scheduler: the interval between two checks and the count of
/// failures.
#[derive(Debug, Clone, Copy)]
pub struct ReloadScheduler {
    interval_secs: u64,
    failures: FailureTracker,
}

impl View for ReloadScheduler {
    type V = SchedulerState;

    closed spec fn view(&self) -> SchedulerState {
        SchedulerState { interval_secs: self.interval_secs, failures: self.failures@ }
    }
}

impl ReloadScheduler {
    /// A scheduler that checks every `interval_mins` minutes, or none where
    /// that is 0: then the data is never reloaded.
    pub fn new(interval_mins: u64, max_failures: u32, on_max_failures: FailureAction) -> (scheduler:
        Option<Self>)
        ensures
            scheduler is Some <==> interval_mins > 0,
            scheduler matches Some(created) ==> created@ == (SchedulerState {
                interval_secs: interval_secs_of(interval_mins),
                failures: TrackerState {
                    consecutive: 0,
                    max: max_failures as nat,
                    action: on_max_failures,
                },
            }),
    {
        if interval_mins == 0 {
            return None;
        }
        let interval_secs = if interval_mins <= u64::MAX / 60 {
            interval_mins * 60
        } else {
            u64::MAX
        };
        Some(
            ReloadScheduler {
                interval_secs,
                failures: FailureTracker::new(max_failures, on_max_failures),
            },
        )
    }

    /// The interval between two checks, in seconds.
    pub fn interval_secs(&self) -> (secs: u64)
        ensures
            secs == self@.interval_secs,
    {
        self.interval_secs
    }

    /// The failures in a row so far.
    pub fn consecutive_failures(&self) -> (failures: u32)
        ensures
            failures == self@.failures.consecutive,
    {
        self.failures.count()
    }

    /// Takes the outcome of a check and says what to do next.
    pub fn step(&mut self, outcome: ReloadOutcome) -> (action: SchedulerAction)
        ensures
            action == old(self)@.action_after(outcome),
            final(self)@ == old(self)@.state_after(outcome),
    {
        match outcome {
            ReloadOutcome::Reloaded => {
                self.failures.reset();
                SchedulerAction::Install { wait_secs: self.interval_secs }
            },
            ReloadOutcome::Unchanged => {
                self.failures.reset();
                SchedulerAction::Keep { wait_secs: self.interval_secs }
            },
            ReloadOutcome::Failed => match self.failures.record() {
                FailureResponse::Backoff(secs) => SchedulerAction::Retry { wait_secs: secs },
                FailureResponse::MaxExceeded(FailureAction::Shutdown) => SchedulerAction::Shutdown,
                FailureResponse::MaxExceeded(FailureAction::Clear) => {
                    self.failures.reset();
                    SchedulerAction::Clear { wait_secs: self.interval_secs }
                },
            },
        }
    }
}

} // verus!
