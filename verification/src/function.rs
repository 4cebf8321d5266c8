//! Function utilities module
//!
//! This module provides utilities for function manipulation including debouncing,
//! throttling, polling, and retry mechanisms.
//!
//! Each controller is a state machine over wall-clock instants measured in
//! milliseconds. An asynchronous driver owns the suspension points (sleeping,
//! awaiting the caller's operation) and feeds instants and task outcomes to the
//! controller, whose decisions are specified exactly here.

use crate::text::decimal_string;
use crate::text::spec_decimal;
use crate::text::str_to_string;
use vstd::prelude::*;
use vstd::string::StringExecFns;

verus! {

/// Error types for function utilities
#[derive(Debug, Clone)]
pub enum FunctionError {
    /// Timeout error
    Timeout(String),
    /// Retry exhausted error
    RetryExhausted(String),
    /// Polling error
    PollingError(String),
    /// General error
    General(String),
}

/// The rendered message of a [`FunctionError`].
pub open spec fn spec_function_error_message(e: FunctionError) -> Seq<char> {
    match e {
        FunctionError::Timeout(m) => "Timeout error: "@ + m@,
        FunctionError::RetryExhausted(m) => "Retry exhausted: "@ + m@,
        FunctionError::PollingError(m) => "Polling error: "@ + m@,
        FunctionError::General(m) => "Function error: "@ + m@,
    }
}

impl FunctionError {
    /// The rendered message, as the error displays itself.
    pub fn to_string(&self) -> (r: String)
        ensures
            r@ == spec_function_error_message(*self),
    {
        match self {
            FunctionError::Timeout(m) => {
                let mut r = str_to_string("Timeout error: ");
                r.append(m.as_str());
                r
            },
            FunctionError::RetryExhausted(m) => {
                let mut r = str_to_string("Retry exhausted: ");
                r.append(m.as_str());
                r
            },
            FunctionError::PollingError(m) => {
                let mut r = str_to_string("Polling error: ");
                r.append(m.as_str());
                r
            },
            FunctionError::General(m) => {
                let mut r = str_to_string("Function error: ");
                r.append(m.as_str());
                r
            },
        }
    }
}

/// Milliseconds elapsed from `earlier` to `now`; zero when the clock moved back.
pub open spec fn elapsed_millis(earlier: u64, now: u64) -> int {
    if now >= earlier {
        now - earlier
    } else {
        0
    }
}

fn elapsed(earlier: u64, now: u64) -> (r: u64)
    ensures
        r == elapsed_millis(earlier, now),
{
    if now >= earlier {
        now - earlier
    } else {
        0
    }
}

/// Relies on chrono's `Utc::now`: the current wall-clock time in milliseconds
/// since the Unix epoch. Nothing is assumed of the value.
#[verifier::external_body]
fn now_millis_raw() -> i64 {
    chrono::Utc::now().timestamp_millis()
}

/// The current wall-clock instant, clamped to the representable range.
pub fn now_millis() -> u64 {
    let t = now_millis_raw();
    if t < 0 {
        0
    } else {
        t as u64
    }
}

/// Debounce options
#[derive(Debug, Clone)]
pub struct DebounceOptions {
    /// Execute on leading edge
    pub leading: bool,
    /// Execute on trailing edge
    pub trailing: bool,
}

impl Default for DebounceOptions {
    /// The default policy: trailing edge only.
    fn default() -> (r: Self)
        ensures
            !r.leading,
            r.trailing,
    {
        DebounceOptions { leading: false, trailing: true }
    }
}

/// What the debounced call does before any suspension.
#[derive(Debug, Clone, PartialEq, Eq, Structural)]
pub enum DebouncePhase {
    /// Leading edge: run the operation at once.
    RunNow,
    /// Trailing edge: suspend for the given number of milliseconds, then decide.
    WaitFor(u64),
}

/// Debounce controller
#[derive(Debug)]
pub struct Debouncer {
    /// The quiet window, in milliseconds.
    pub wait_millis: u64,
    /// The edge policy.
    pub options: DebounceOptions,
    /// The instant of the most recent call, if any.
    pub last_call: Option<u64>,
    /// Whether `cancel` has been called.
    pub cancelled: bool,
}

impl Debouncer {
    /// Create a new debouncer
    pub fn new(wait_millis: u64, options: DebounceOptions) -> (r: Self)
        ensures
            r.wait_millis == wait_millis,
            r.options == options,
            r.last_call is None,
            !r.cancelled,
    {
        Debouncer { wait_millis, options, last_call: None, cancelled: false }
    }

    /// Whether a call waking at `now` runs on the trailing edge: not cancelled,
    /// trailing enabled, and the quiet window has elapsed since the last
    /// recorded call.
    pub open spec fn runs_trailing_at(self, now: u64) -> bool {
        &&& !self.cancelled
        &&& self.options.trailing
        &&& match self.last_call {
            Some(t) => elapsed_millis(t, now) >= self.wait_millis,
            None => false,
        }
    }

    /// Whether less than the quiet window has elapsed since the last call.
    pub open spec fn pending_at(self, now: u64) -> bool {
        match self.last_call {
            Some(t) => elapsed_millis(t, now) < self.wait_millis,
            None => false,
        }
    }

    /// Record a call at instant `now_millis` and choose its edge. On the
    /// leading edge the operation runs at once; otherwise the caller suspends
    /// for the quiet window and then asks `decide_after_wait`.
    pub fn note_call(&mut self, now_millis: u64) -> (phase: DebouncePhase)
        ensures
            final(self).last_call == Some(now_millis),
            final(self).wait_millis == old(self).wait_millis,
            final(self).options == old(self).options,
            final(self).cancelled == old(self).cancelled,
            phase == (if old(self).options.leading {
                DebouncePhase::RunNow
            } else {
                DebouncePhase::WaitFor(old(self).wait_millis)
            }),
    {
        self.last_call = Some(now_millis);
        if self.options.leading {
            DebouncePhase::RunNow
        } else {
            DebouncePhase::WaitFor(self.wait_millis)
        }
    }

    /// The trailing-edge decision at wake-up instant `now_millis`: run the
    /// operation exactly when `runs_trailing_at` holds; otherwise report why.
    pub fn decide_after_wait(&self, now_millis: u64) -> (r: Result<(), FunctionError>)
        ensures
            r is Ok <==> self.runs_trailing_at(now_millis),
            self.cancelled ==> (r matches Err(e) && e matches FunctionError::General(m) && m@
                == "Debouncer was cancelled"@),
            !self.cancelled && !self.runs_trailing_at(now_millis) ==> (r matches Err(e)
                && e matches FunctionError::General(m) && m@ == "Function execution was debounced"@),
    {
        if self.cancelled {
            return Err(FunctionError::General(str_to_string("Debouncer was cancelled")));
        }
        let should_execute = match self.last_call {
            Some(t) => elapsed(t, now_millis) >= self.wait_millis,
            None => false,
        };
        if should_execute && self.options.trailing {
            Ok(())
        } else {
            Err(FunctionError::General(str_to_string("Function execution was debounced")))
        }
    }

    /// Cancel the debouncer
    pub fn cancel(&mut self)
        ensures
            final(self).cancelled,
            final(self).wait_millis == old(self).wait_millis,
            final(self).options == old(self).options,
            final(self).last_call == old(self).last_call,
    {
        self.cancelled = true;
    }

    /// Whether a call waking at `now_millis` would still be within the window.
    pub fn is_pending_at(&self, now_millis: u64) -> (r: bool)
        ensures
            r == self.pending_at(now_millis),
    {
        match self.last_call {
            Some(t) => elapsed(t, now_millis) < self.wait_millis,
            None => false,
        }
    }

    /// Check if debouncer is pending, against the wall clock.
    pub fn is_pending(&self) -> (r: bool)
        ensures
            self.last_call is None ==> !r,
            exists|now: u64| r == self.pending_at(now),
    {
        let now = now_millis();
        let r = self.is_pending_at(now);
        proof {
            assert(r == self.pending_at(now));
        }
        r
    }
}

/// Law: a cancelled debouncer never runs the trailing edge, whatever the
/// wake-up instant.
pub proof fn lemma_debounce_cancelled_never_runs(d: Debouncer)
    requires
        d.cancelled,
    ensures
        forall|now: u64| !d.runs_trailing_at(now),
{
}

/// Law: a single isolated call runs on the trailing edge. If the last recorded
/// call is still this call's own instant `t`, trailing is enabled, the
/// controller was not cancelled, and the wake-up happens once the quiet window
/// has elapsed, the decision is to run.
pub proof fn lemma_debounce_isolated_call_runs(d: Debouncer, t: u64, now: u64)
    requires
        !d.cancelled,
        d.options.trailing,
        d.last_call == Some(t),
        now >= t,
        now - t >= d.wait_millis,
    ensures
        d.runs_trailing_at(now),
{
}

/// Law: a call superseded by a more recent one does not run: if the last
/// recorded call is newer than this call's wake-up instant minus the window,
/// the trailing decision is to reject.
pub proof fn lemma_debounce_superseded_call_rejected(d: Debouncer, t: u64, now: u64)
    requires
        d.last_call == Some(t),
        elapsed_millis(t, now) < d.wait_millis,
    ensures
        !d.runs_trailing_at(now),
{
}

/// Throttle options
#[derive(Debug, Clone)]
pub struct ThrottleOptions {
    /// Execute on leading edge
    pub leading: bool,
    /// Execute on trailing edge
    pub trailing: bool,
}

impl Default for ThrottleOptions {
    /// The default policy: trailing edge only.
    fn default() -> (r: Self)
        ensures
            !r.leading,
            r.trailing,
    {
        ThrottleOptions { leading: false, trailing: true }
    }
}

/// Throttle controller
#[derive(Debug)]
pub struct Throttler {
    /// The rate window, in milliseconds.
    pub wait_millis: u64,
    /// The edge policy.
    pub options: ThrottleOptions,
    /// The instant of the most recent execution slot, if any.
    pub last_execution: Option<u64>,
    /// Whether `cancel` has been called.
    pub cancelled: bool,
}

impl Throttler {
    /// Create a new throttler
    pub fn new(wait_millis: u64, options: ThrottleOptions) -> (r: Self)
        ensures
            r.wait_millis == wait_millis,
            r.options == options,
            r.last_execution is None,
            !r.cancelled,
    {
        Throttler { wait_millis, options, last_execution: None, cancelled: false }
    }

    /// Whether a call at `now` is allowed to run: not cancelled, and either the
    /// window has elapsed since the last execution, or this is the first call
    /// and the leading edge is enabled.
    pub open spec fn allows_at(self, now: u64) -> bool {
        &&& !self.cancelled
        &&& match self.last_execution {
            None => self.options.leading,
            Some(t) => elapsed_millis(t, now) >= self.wait_millis,
        }
    }

    /// The controller state after a call at `now`. The slot timestamp is
    /// consumed by the first call and refreshed by each allowed call; a
    /// throttled or cancelled call mutates nothing else.
    pub open spec fn next_at(self, now: u64) -> Throttler {
        if self.cancelled {
            self
        } else {
            match self.last_execution {
                None => (Throttler { last_execution: Some(now), ..self }),
                Some(t) => if elapsed_millis(t, now) >= self.wait_millis {
                    (Throttler { last_execution: Some(now), ..self })
                } else {
                    self
                },
            }
        }
    }

    /// Evaluate one call's invocation slot at instant `now_millis`. `Ok` means
    /// the caller runs the operation; `Err` reports cancellation or throttling.
    pub fn try_acquire(&mut self, now_millis: u64) -> (r: Result<(), FunctionError>)
        ensures
            *final(self) == old(self).next_at(now_millis),
            r is Ok <==> old(self).allows_at(now_millis),
            old(self).cancelled ==> (r matches Err(e) && e matches FunctionError::General(m) && m@
                == "Throttler was cancelled"@),
            !old(self).cancelled && !old(self).allows_at(now_millis) ==> (r matches Err(e)
                && e matches FunctionError::General(m) && m@ == "Function execution was throttled"@),
    {
        if self.cancelled {
            return Err(FunctionError::General(str_to_string("Throttler was cancelled")));
        }
        let should_execute = match self.last_execution {
            Some(t) => {
                if elapsed(t, now_millis) >= self.wait_millis {
                    self.last_execution = Some(now_millis);
                    true
                } else {
                    false
                }
            },
            None => {
                self.last_execution = Some(now_millis);
                self.options.leading
            },
        };
        if should_execute {
            Ok(())
        } else {
            Err(FunctionError::General(str_to_string("Function execution was throttled")))
        }
    }

    /// Cancel the throttler
    pub fn cancel(&mut self)
        ensures
            final(self).cancelled,
            final(self).wait_millis == old(self).wait_millis,
            final(self).options == old(self).options,
            final(self).last_execution == old(self).last_execution,
    {
        self.cancelled = true;
    }
}

/// Law: once cancelled, every call is rejected and the state never changes.
pub proof fn lemma_throttle_cancelled_rejects_all(t: Throttler)
    requires
        t.cancelled,
    ensures
        forall|now: u64| !t.allows_at(now),
        forall|now: u64| t.next_at(now) == t,
{
}

/// Law: with the leading edge enabled, the first call on a fresh throttler
/// runs, and a second call before the window has elapsed is rejected without
/// refreshing the slot.
pub proof fn lemma_throttle_leading_window(t: Throttler, t1: u64, t2: u64)
    requires
        !t.cancelled,
        t.last_execution is None,
        t.options.leading,
        t1 <= t2,
        t2 - t1 < t.wait_millis,
    ensures
        t.allows_at(t1),
        !t.next_at(t1).allows_at(t2),
        t.next_at(t1).next_at(t2) == t.next_at(t1),
{
}

/// Polling options
#[derive(Debug, Clone)]
pub struct PollingOptions {
    /// Polling interval, in milliseconds
    pub interval_millis: u64,
    /// Maximum number of retries on error
    pub max_retries: usize,
    /// Whether to quit on error after max retries
    pub quit_on_error: bool,
    /// Whether to execute immediately
    pub immediate: bool,
    /// Maximum number of executions
    pub max_executions: usize,
}

impl Default for PollingOptions {
    /// The default policy: a five-second interval, three retries, quit on
    /// error, no immediate run, and an effectively unbounded execution count.
    fn default() -> (r: Self)
        ensures
            r.interval_millis == 5000,
            r.max_retries == 3,
            r.quit_on_error,
            !r.immediate,
            r.max_executions == usize::MAX,
    {
        PollingOptions {
            interval_millis: 5000,
            max_retries: 3,
            quit_on_error: true,
            immediate: false,
            max_executions: usize::MAX,
        }
    }
}

/// Polling status
#[derive(Debug, Clone)]
pub struct PollingStatus {
    /// Whether polling is active
    pub is_active: bool,
    /// Current retry count
    pub retry_count: usize,
    /// Current execution count
    pub execution_count: usize,
}

/// The decision at the top of one polling iteration.
#[derive(Debug, Clone, PartialEq, Eq, Structural)]
pub enum PollTick {
    /// Leave the loop; the run ends with a "polling stopped" failure.
    Stop,
    /// Suspend for the given number of milliseconds, then run the task.
    Sleep(u64),
}

/// The decision after one task invocation inside the loop.
#[derive(Debug)]
pub enum PollOutcome {
    /// The stop condition held: the run ends successfully with this result.
    Finish,
    /// Keep looping.
    Continue,
    /// The retry budget is exhausted: the run ends with this failure.
    Fail(FunctionError),
}

/// Polling controller
#[derive(Debug)]
pub struct Poller {
    /// The polling policy.
    pub options: PollingOptions,
    /// Whether a run is active; `stop` clears it.
    pub is_active: bool,
    /// Failed task invocations, cumulative across runs.
    pub retry_count: usize,
    /// Loop iterations begun, cumulative across runs.
    pub execution_count: usize,
}

impl Poller {
    /// Create a new poller
    pub fn new(options: PollingOptions) -> (r: Self)
        ensures
            r.options == options,
            !r.is_active,
            r.retry_count == 0,
            r.execution_count == 0,
    {
        Poller { options, is_active: false, retry_count: 0, execution_count: 0 }
    }

    /// Whether the next loop check halts the run instead of sleeping.
    pub open spec fn tick_stops(self) -> bool {
        !self.is_active || self.execution_count + 1 > self.options.max_executions
    }

    /// Mark the controller active at the top of a run. Counters are cumulative
    /// across runs and deliberately not reset.
    pub fn begin(&mut self)
        ensures
            final(self).is_active,
            final(self).options == old(self).options,
            final(self).retry_count == old(self).retry_count,
            final(self).execution_count == old(self).execution_count,
    {
        self.is_active = true;
    }

    /// Account the result of the immediate run made before the loop. Returns
    /// whether the run finishes at once (success whose stop condition held).
    /// A failure counts against the retry budget but is not checked here;
    /// only the loop body enforces the budget.
    pub fn on_immediate_result(&mut self, succeeded: bool, stop_satisfied: bool) -> (finish: bool)
        requires
            old(self).retry_count < usize::MAX,
        ensures
            finish == (succeeded && stop_satisfied),
            succeeded ==> *final(self) == *old(self),
            !succeeded ==> *final(self) == (Poller {
                retry_count: (old(self).retry_count + 1) as usize,
                ..*old(self)
            }),
    {
        if succeeded {
            stop_satisfied
        } else {
            self.retry_count = self.retry_count + 1;
            false
        }
    }

    /// The decision at the top of one loop iteration: halt if the controller
    /// went inactive or the execution budget is spent, else count the
    /// iteration and sleep for the interval.
    pub fn tick(&mut self) -> (t: PollTick)
        requires
            old(self).execution_count < usize::MAX,
        ensures
            t is Stop <==> old(self).tick_stops(),
            !old(self).is_active ==> *final(self) == *old(self),
            old(self).is_active ==> *final(self) == (Poller {
                execution_count: (old(self).execution_count + 1) as usize,
                ..*old(self)
            }),
            t is Sleep ==> t == PollTick::Sleep(old(self).options.interval_millis),
    {
        if !self.is_active {
            return PollTick::Stop;
        }
        self.execution_count = self.execution_count + 1;
        if self.execution_count > self.options.max_executions {
            PollTick::Stop
        } else {
            PollTick::Sleep(self.options.interval_millis)
        }
    }

    /// Whether the run is still active after the sleep; an intervening `stop`
    /// aborts the loop here, before the task is invoked.
    pub fn still_active(&self) -> (r: bool)
        ensures
            r == self.is_active,
    {
        self.is_active
    }

    /// Account one task invocation made inside the loop. A success whose stop
    /// condition held finishes the run; a failure spends the retry budget and,
    /// once `quit_on_error` and the budget allow no more, fails the run.
    pub fn on_task_result(&mut self, succeeded: bool, stop_satisfied: bool) -> (o: PollOutcome)
        requires
            old(self).retry_count < usize::MAX,
        ensures
            succeeded && stop_satisfied ==> (o is Finish && *final(self) == (Poller {
                is_active: false,
                ..*old(self)
            })),
            succeeded && !stop_satisfied ==> (o is Continue && *final(self) == *old(self)),
            !succeeded ==> final(self).retry_count == old(self).retry_count + 1
                && final(self).execution_count == old(self).execution_count && final(self).options
                == old(self).options,
            !succeeded && old(self).options.quit_on_error && old(self).retry_count + 1 >= old(
                self,
            ).options.max_retries ==> (!final(self).is_active && (o matches PollOutcome::Fail(e)
                && e matches FunctionError::PollingError(m) && m@ == "Max retries exceeded"@)),
            !succeeded && !(old(self).options.quit_on_error && old(self).retry_count + 1 >= old(
                self,
            ).options.max_retries) ==> (o is Continue && final(self).is_active == old(
                self,
            ).is_active),
    {
        if succeeded {
            if stop_satisfied {
                self.is_active = false;
                PollOutcome::Finish
            } else {
                PollOutcome::Continue
            }
        } else {
            self.retry_count = self.retry_count + 1;
            if self.options.quit_on_error && self.retry_count >= self.options.max_retries {
                self.is_active = false;
                PollOutcome::Fail(
                    FunctionError::PollingError(str_to_string("Max retries exceeded")),
                )
            } else {
                PollOutcome::Continue
            }
        }
    }

    /// Stop polling
    pub fn stop(&mut self)
        ensures
            !final(self).is_active,
            final(self).options == old(self).options,
            final(self).retry_count == old(self).retry_count,
            final(self).execution_count == old(self).execution_count,
    {
        self.is_active = false;
    }

    /// Get polling status
    pub fn status(&self) -> (s: PollingStatus)
        ensures
            s.is_active == self.is_active,
            s.retry_count == self.retry_count,
            s.execution_count == self.execution_count,
    {
        PollingStatus {
            is_active: self.is_active,
            retry_count: self.retry_count,
            execution_count: self.execution_count,
        }
    }
}

/// The failure a run ends with when the loop exits without a success or a
/// spent retry budget, as after an external `stop`.
pub fn polling_stopped_error() -> (e: FunctionError)
    ensures
        e matches FunctionError::PollingError(m) && m@ == "Polling stopped"@,
{
    FunctionError::PollingError(str_to_string("Polling stopped"))
}

/// Law: once `stop` clears the active flag, the next loop check halts the run,
/// so a poll loop whose stop condition never triggers still terminates.
pub proof fn lemma_poller_stop_halts(p: Poller)
    requires
        !p.is_active,
    ensures
        p.tick_stops(),
{
}

/// Retry options
#[derive(Debug, Clone)]
pub struct RetryOptions {
    /// Maximum number of retries
    pub max_retries: usize,
    /// Delay between retries, in milliseconds
    pub delay_millis: u64,
}

impl Default for RetryOptions {
    /// The default policy: three retries, no delay.
    fn default() -> (r: Self)
        ensures
            r.max_retries == 3,
            r.delay_millis == 0,
    {
        RetryOptions { max_retries: 3, delay_millis: 0 }
    }
}

/// The failure message when the retry budget is spent.
pub open spec fn spec_retry_exhausted_message(max_retries: usize, last_error: Seq<char>) -> Seq<
    char,
> {
    "Function failed after "@ + spec_decimal(max_retries as nat) + " retries. Last error: "@
        + last_error
}

/// Whether a run that has recorded this many failed attempts gives up.
pub open spec fn spec_retry_gives_up(options: RetryOptions, failures_recorded: nat) -> bool {
    failures_recorded > options.max_retries
}

/// The next step after one failed attempt.
#[derive(Debug)]
pub enum RetryStep {
    /// Invoke the operation again at once.
    RetryNow,
    /// Suspend for the given number of milliseconds, then invoke again.
    RetryAfter(u64),
    /// The budget is spent: the run ends with this failure.
    GiveUp(FunctionError),
}

/// One retrying run: invoke, and on failure ask the run what to do next.
#[derive(Debug)]
pub struct RetryRun {
    /// The retry policy.
    pub options: RetryOptions,
    /// Failed attempts recorded so far.
    pub retry_count: usize,
}

impl RetryRun {
    /// A fresh run, before the first attempt.
    pub fn new(options: RetryOptions) -> (r: Self)
        ensures
            r.options == options,
            r.retry_count == 0,
    {
        RetryRun { options, retry_count: 0 }
    }

    /// Record one failed attempt and decide what follows: retry (at once when
    /// the delay is zero, else after the delay), or give up with a message
    /// naming the retry budget and the last error.
    pub fn record_failure(&mut self, error_message: &str) -> (step: RetryStep)
        requires
            old(self).retry_count < usize::MAX,
        ensures
            final(self).options == old(self).options,
            final(self).retry_count == old(self).retry_count + 1,
            !spec_retry_gives_up(old(self).options, (old(self).retry_count + 1) as nat) ==> (
            if old(self).options.delay_millis == 0 {
                step is RetryNow
            } else {
                step matches RetryStep::RetryAfter(d) && d == old(self).options.delay_millis
            }),
            spec_retry_gives_up(old(self).options, (old(self).retry_count + 1) as nat) ==> (
            step matches RetryStep::GiveUp(e) && e matches FunctionError::RetryExhausted(m) && m@
                == spec_retry_exhausted_message(old(self).options.max_retries, error_message@)),
            step is GiveUp <==> spec_retry_gives_up(
                old(self).options,
                (old(self).retry_count + 1) as nat,
            ),
            step is RetryAfter ==> old(self).options.delay_millis > 0,
    {
        self.retry_count = self.retry_count + 1;
        if self.retry_count <= self.options.max_retries {
            if self.options.delay_millis == 0 {
                RetryStep::RetryNow
            } else {
                RetryStep::RetryAfter(self.options.delay_millis)
            }
        } else {
            let mut m = str_to_string("Function failed after ");
            let d = decimal_string(self.options.max_retries as u64);
            m.append(d.as_str());
            m.append(" retries. Last error: ");
            m.append(error_message);
            RetryStep::GiveUp(FunctionError::RetryExhausted(m))
        }
    }
}

/// Law: a permanently failing operation is invoked exactly `max_retries + 1`
/// times. The driver invokes the operation once before each recorded failure;
/// failure number `k` keeps the run retrying while `k <= max_retries`, and the
/// first failure that gives up is number `max_retries + 1`.
pub proof fn lemma_retry_attempt_count(options: RetryOptions)
    ensures
        forall|k: nat| k <= options.max_retries ==> !spec_retry_gives_up(options, k),
        spec_retry_gives_up(options, (options.max_retries + 1) as nat),
        forall|k: nat| spec_retry_gives_up(options, k) <==> k >= options.max_retries + 1,
{
}

} // verus!
