//! The time-based suspension primitive: a deferred unit of work that reports
//! `Pending` until its deadline has elapsed and `Complete` on every poll made
//! at or after it.

use vstd::prelude::*;

verus! {

/// Outcome of polling a suspendable computation once.
#[derive(Clone, Copy, Debug, PartialEq, Eq, Structural)]
pub enum TaskPoll {
    /// The computation has finished; it must not be polled again.
    Complete,
    /// The computation has not finished yet; poll it again later.
    Pending,
}

/// The recoverable failures the executor and its primitives report.
#[derive(Clone, Copy, Debug, PartialEq, Eq, Structural)]
pub enum ExecError {
    /// The wall clock could not be read, or read earlier than a recorded
    /// start time. Reported loudly instead of pretending the work is pending.
    ClockUnavailable,
    /// Work was submitted to a runtime that has no worker to drain it.
    SpawnAfterShutdown,
}

/// `std::time::SystemTime`, declared so the clock readings below can pass
/// through signatures; the library never looks inside a value of it.
#[verifier::external_type_specification]
#[verifier::external_body]
pub struct ExSystemTime(std::time::SystemTime);

/// Relies on `std::time::SystemTime::now`: the current wall-clock time.
/// Nothing is promised of the value: it depends on the wall clock.
#[verifier::external_body]
fn clock_now() -> std::time::SystemTime {
    std::time::SystemTime::now()
}

/// Relies on `std::time::SystemTime::duration_since(UNIX_EPOCH)`: `Ok` is
/// the time since the Unix epoch, converted here to whole milliseconds, and
/// `Err` means `t` reads earlier than the epoch. Nothing is promised of the
/// value: it depends on the wall clock.
#[verifier::external_body]
fn millis_since_epoch(t: &std::time::SystemTime) -> Option<u128> {
    match t.duration_since(std::time::UNIX_EPOCH) {
        Ok(d) => Some(d.as_millis()),
        Err(_) => None,
    }
}

/// Read the wall clock as milliseconds since the Unix epoch; `None` when the
/// clock reads earlier than the epoch.
pub(crate) fn now_millis() -> Option<u128> {
    millis_since_epoch(&clock_now())
}

/// A non-blocking sleep: the one concrete task body the executor ships with.
///
/// The check is level-triggered, not edge-triggered: no state changes between
/// polls other than the immutable start time, and a poll is complete exactly
/// when the requested delay has elapsed since creation. Polling after
/// completion idempotently reports `Complete` again.
#[derive(Clone, Copy, Debug)]
pub struct Sleep {
    /// Milliseconds since the epoch when the instance was created; `None`
    /// when the clock could not be read at creation.
    start: Option<u128>,
    /// Requested delay in milliseconds; fixed at creation, never mutated.
    duration: u128,
}

impl Sleep {
    /// The recorded start time, if the clock could be read at creation.
    pub closed spec fn start_spec(self) -> Option<u128> {
        self.start
    }

    /// The requested delay in milliseconds.
    pub closed spec fn duration_spec(self) -> u128 {
        self.duration
    }

    /// What one poll at wall-clock time `now` reports: `Complete` exactly
    /// when `now - start >= duration`, `Pending` otherwise. A start time that
    /// is missing, or a clock that reads before it, is a clock failure.
    pub open spec fn poll_spec(self, now: u128) -> Result<TaskPoll, ExecError> {
        match self.start_spec() {
            None => Err(ExecError::ClockUnavailable),
            Some(s) => if now < s {
                Err(ExecError::ClockUnavailable)
            } else if now - s >= self.duration_spec() {
                Ok(TaskPoll::Complete)
            } else {
                Ok(TaskPoll::Pending)
            },
        }
    }

    /// Record the current time and the requested delay. Never fails: a clock
    /// failure at creation is deferred to `poll`, which then reports it.
    pub fn new(ms: u128) -> (r: Sleep)
        ensures
            r.duration_spec() == ms,
    {
        Sleep { start: now_millis(), duration: ms }
    }

    /// A sleep whose start time is given instead of read from the clock, so
    /// that schedules can be driven deterministically.
    pub fn starting_at(start_ms: u128, ms: u128) -> (r: Sleep)
        ensures
            r.start_spec() == Some(start_ms),
            r.duration_spec() == ms,
    {
        Sleep { start: Some(start_ms), duration: ms }
    }

    /// Side-effect-free completion check against an explicit clock reading.
    /// May be called any number of times; the result is a pure function of
    /// the sleep and `now`.
    pub fn poll_at(&self, now: u128) -> (r: Result<TaskPoll, ExecError>)
        ensures
            r == self.poll_spec(now),
    {
        match self.start {
            None => Err(ExecError::ClockUnavailable),
            Some(s) => {
                if now < s {
                    Err(ExecError::ClockUnavailable)
                } else if now - s >= self.duration {
                    Ok(TaskPoll::Complete)
                } else {
                    Ok(TaskPoll::Pending)
                }
            },
        }
    }

    /// Read the clock and check completion. Fails loudly with
    /// `ClockUnavailable` when the clock cannot be read, rather than
    /// reporting `Pending` forever; otherwise the result is the completion
    /// check at the time that was read. A zero-duration sleep is never
    /// observed `Pending`: its very first poll already reports `Complete`.
    pub fn poll(&self) -> (r: Result<TaskPoll, ExecError>)
        ensures
            r is Err ==> r == Err::<TaskPoll, ExecError>(ExecError::ClockUnavailable),
            self.start_spec() is None ==> r is Err,
            r is Ok ==> exists|n: u128| self.poll_spec(n) == r,
            self.duration_spec() == 0 ==> r != Ok::<TaskPoll, ExecError>(TaskPoll::Pending),
    {
        match now_millis() {
            None => Err(ExecError::ClockUnavailable),
            Some(n) => {
                let r = self.poll_at(n);
                proof {
                    assert(self.poll_spec(n) == r);
                }
                r
            },
        }
    }
}

/// For every sleep whose requested delay is zero, the very first poll — and
/// every poll at or after the recorded start time — reports `Complete`.
pub proof fn lemma_zero_duration_first_poll(s: Sleep, st: u128, now: u128)
    requires
        s.duration_spec() == 0,
        s.start_spec() == Some(st),
        now >= st,
    ensures
        s.poll_spec(now) == Ok::<TaskPoll, ExecError>(TaskPoll::Complete),
{
}

/// For every positive delay, a poll made before the delay has elapsed
/// reports `Pending`, and a poll made at or after it reports `Complete` —
/// each exactly then.
pub proof fn lemma_poll_threshold(s: Sleep, st: u128, now: u128)
    requires
        s.duration_spec() > 0,
        s.start_spec() == Some(st),
        now >= st,
    ensures
        s.poll_spec(now) == Ok::<TaskPoll, ExecError>(TaskPoll::Pending) <==> now - st < s.duration_spec(),
        s.poll_spec(now) == Ok::<TaskPoll, ExecError>(TaskPoll::Complete) <==> now - st >= s.duration_spec(),
{
}

} // verus!
