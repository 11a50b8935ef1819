//! The limit on failed logins.
//!
//! There is one account to protect, so there is one counter for all clients: changing addresses
//! does not get around it. The counter is kept in the database too, so that a restart does not
//! clear it.
use vstd::prelude::*;

use crate::db::queries::{rfc3339_parse, LoginFailureRow};

verus! {

/// Counts failed logins within a window of time, and says when there were too many.
#[derive(Debug, Clone)]
pub struct LoginLimiter {
    window_secs: u64,
    max_attempts: u32,
    state: LimiterState,
}

#[derive(Debug, Clone)]
struct LimiterState {
    failures: u32,
    /// In seconds since the epoch, so that it can be stored.
    window_start_unix: i64,
}

/// What a limiter holds.
pub struct LimiterView {
    /// The length of the window, in seconds.
    pub window: int,
    /// The number of failures at which logins are refused.
    pub max: int,
    /// The failures that were counted in the current window.
    pub failures: int,
    /// When the current window began.
    pub start: int,
}

/// What is to be stored after a change of the counter.
#[derive(Debug, Clone, Copy, PartialEq, Eq)]
pub struct LoginRecord {
    pub count: u32,
    pub window_start_unix: i64,
}

/// What became of a failed login.
#[derive(Debug, Clone, Copy, PartialEq, Eq)]
pub struct Failure {
    /// Whether the limit has not been reached yet.
    pub allowed: bool,
    pub record: LoginRecord,
}

impl LimiterView {
    /// The age of the window at `now`; none if the clock says that it has yet to begin.
    pub open spec fn age(self, now: int) -> int {
        if now > self.start {
            now - self.start
        } else {
            0
        }
    }

    /// Whether the window is still running at `now`.
    pub open spec fn running(self, now: int) -> bool {
        self.age(now) < self.window
    }

    /// Whether logins are refused at `now`.
    pub open spec fn blocked(self, now: int) -> bool {
        self.running(now) && self.failures >= self.max
    }

    /// The state after a failure at `now`: one more in a window that is running, the first one
    /// of a new window otherwise.
    pub open spec fn after_failure(self, now: int) -> LimiterView {
        if self.running(now) {
            LimiterView { failures: self.failures + 1, ..self }
        } else {
            LimiterView { failures: 1, start: now, ..self }
        }
    }

    /// The state after a successful login at `now`.
    pub open spec fn after_reset(self, now: int) -> LimiterView {
        LimiterView { failures: 0, start: now, ..self }
    }

    /// The state after the stored row was read at `now`.
    pub open spec fn after_load(self, row: LoginFailureRow, now: int) -> LimiterView {
        LimiterView {
            failures: row.count as u32 as int,
            start: match crate::db::queries::rfc3339_seconds(row.window_start@) {
                Some(start) => start as int,
                None => now,
            },
            ..self
        }
    }

    /// The state after failures at the given times.
    pub open spec fn after_failures(self, times: Seq<int>) -> LimiterView
        decreases times.len(),
    {
        if times.len() == 0 {
            self
        } else {
            self.after_failures(times.drop_last()).after_failure(times.last())
        }
    }
}

/// The seconds since the epoch, by the system's clock: `std::time::SystemTime::elapsed` of the
/// epoch, and zero where the clock is set before it. Nothing is known of the time but that it was
/// read.
#[verifier::external_body]
pub(crate) fn epoch_secs_now() -> (r: i64)
    ensures
        crate::clock::was_read(r as int),
{
    std::time::UNIX_EPOCH.elapsed().map(|d| d.as_secs() as i64).unwrap_or(0)
}

impl View for LoginLimiter {
    type V = LimiterView;

    closed spec fn view(&self) -> LimiterView {
        LimiterView {
            window: self.window_secs as int,
            max: self.max_attempts as int,
            failures: self.state.failures as int,
            start: self.state.window_start_unix as int,
        }
    }
}

impl LoginLimiter {
    /// A limiter whose first window begins at `now`.
    pub fn new_at(window_secs: u64, max_attempts: u32, now: i64) -> (r: Self)
        ensures
            r@ == (LimiterView {
                window: window_secs as int,
                max: max_attempts as int,
                failures: 0,
                start: now as int,
            }),
    {
        LoginLimiter {
            window_secs,
            max_attempts,
            state: LimiterState { failures: 0, window_start_unix: now },
        }
    }

    /// A limiter whose first window begins now.
    pub fn new(window_secs: u64, max_attempts: u32) -> (r: Self)
        ensures
            r@.window == window_secs,
            r@.max == max_attempts,
            r@.failures == 0,
            crate::clock::was_read(r@.start),
    {
        LoginLimiter::new_at(window_secs, max_attempts, epoch_secs_now())
    }

    /// Whether the window is still running at `now`.
    fn running_at(&self, now: i64) -> (r: bool)
        ensures
            r == self@.running(now as int),
    {
        let start: i64 = self.state.window_start_unix;
        let age: i128 = if now > start {
            now as i128 - start as i128
        } else {
            0
        };
        age < self.window_secs as i128
    }

    /// The failures in the current window.
    pub fn failures(&self) -> (r: u32)
        ensures
            r == self@.failures,
    {
        self.state.failures
    }

    /// Takes over the counter that an earlier run stored. Where its time is not readable, the
    /// window begins at `now`.
    pub fn load_at(&mut self, row: &LoginFailureRow, now: i64)
        ensures
            final(self)@ == old(self)@.after_load(*row, now as int),
    {
        let start: i64 = match rfc3339_parse(row.window_start.as_str()) {
            Some(seconds) => seconds,
            None => now,
        };
        self.state.failures = #[verifier::truncate] (row.count as u32);
        self.state.window_start_unix = start;
    }

    /// Takes over the counter that an earlier run stored.
    pub fn load_from_db(&mut self, row: &LoginFailureRow)
        ensures
            exists|now: int|
                crate::clock::was_read(now) && final(self)@ == #[trigger] old(self)@.after_load(
                    *row,
                    now,
                ),
    {
        self.load_at(row, epoch_secs_now());
    }

    /// Whether logins are refused at `now`.
    pub fn is_blocked_at(&self, now: i64) -> (r: bool)
        ensures
            r == self@.blocked(now as int),
    {
        self.running_at(now) && self.state.failures >= self.max_attempts
    }

    /// Whether logins are refused now.
    pub fn is_blocked(&self) -> (r: bool)
        ensures
            exists|now: int| crate::clock::was_read(now) && r == #[trigger] self@.blocked(now),
            r ==> self@.failures >= self@.max && self@.window > 0,
    {
        self.is_blocked_at(epoch_secs_now())
    }

    /// Counts a login that failed at `now`.
    pub fn record_failure_at(&mut self, now: i64) -> (r: Failure)
        requires
            old(self)@.running(now as int) ==> old(self)@.failures < u32::MAX,
        ensures
            final(self)@ == old(self)@.after_failure(now as int),
            r.allowed == (final(self)@.failures < final(self)@.max),
            r.record.count == final(self)@.failures,
            r.record.window_start_unix == final(self)@.start,
    {
        if self.running_at(now) {
            self.state.failures = self.state.failures + 1;
        } else {
            self.state.failures = 1;
            self.state.window_start_unix = now;
        }
        Failure { allowed: self.state.failures < self.max_attempts, record: self.record() }
    }

    /// Counts a login that failed now. True in the answer as long as the limit has not been
    /// reached.
    pub fn record_failure(&mut self) -> (r: Failure)
        requires
            old(self)@.failures < u32::MAX,
        ensures
            exists|now: int|
                crate::clock::was_read(now) && final(self)@ == #[trigger] old(
                    self,
                )@.after_failure(now),
            r.allowed == (final(self)@.failures < final(self)@.max),
            r.record.count == final(self)@.failures,
            r.record.window_start_unix == final(self)@.start,
    {
        self.record_failure_at(epoch_secs_now())
    }

    /// Clears the counter after a login that succeeded at `now`.
    pub fn reset_at(&mut self, now: i64) -> (r: LoginRecord)
        ensures
            final(self)@ == old(self)@.after_reset(now as int),
            r.count == 0,
            r.window_start_unix == now,
    {
        self.state.failures = 0;
        self.state.window_start_unix = now;
        self.record()
    }

    /// Clears the counter after a login that succeeded now.
    pub fn reset(&mut self) -> (r: LoginRecord)
        ensures
            final(self)@ == old(self)@.after_reset(r.window_start_unix as int),
            r.count == 0,
            crate::clock::was_read(r.window_start_unix as int),
    {
        self.reset_at(epoch_secs_now())
    }

    /// What is to be stored.
    fn record(&self) -> (r: LoginRecord)
        ensures
            r.count == self@.failures,
            r.window_start_unix == self@.start,
    {
        LoginRecord {
            count: self.state.failures,
            window_start_unix: self.state.window_start_unix,
        }
    }
}

/// The answer to a failure tells the state that it leaves: the limit is reached exactly when
/// logins are refused from then on, as long as the window runs.
pub proof fn refusal_follows_the_answer(before: LimiterView, now: int, later: int)
    requires
        before.after_failure(now).running(later),
    ensures
        before.after_failure(now).blocked(later) <==> !(before.after_failure(now).failures
            < before.max),
{
}

/// Failures within one window add up, and do not move it.
pub proof fn failures_add_up(fresh: LimiterView, times: Seq<int>)
    requires
        forall|i: int| 0 <= i < times.len() ==> #[trigger] fresh.running(times[i]),
    ensures
        fresh.after_failures(times) == (LimiterView {
            failures: fresh.failures + times.len(),
            ..fresh
        }),
    decreases times.len(),
{
    if times.len() > 0 {
        let rest = times.drop_last();
        assert forall|i: int| 0 <= i < rest.len() implies #[trigger] fresh.running(rest[i]) by {
            assert(rest[i] == times[i]);
        }
        failures_add_up(fresh, rest);
        assert(fresh.running(times[times.len() - 1]));
    }
}

/// From a reset on, logins are refused after as many failures as the limit says, and not before,
/// as long as the window of the reset runs.
pub proof fn limit_is_reached_by_count(v: LimiterView, at: int, times: Seq<int>, now: int)
    requires
        forall|i: int|
            0 <= i < times.len() ==> #[trigger] v.after_reset(at).running(times[i]),
        v.after_reset(at).running(now),
    ensures
        v.after_reset(at).after_failures(times).blocked(now) <==> times.len() >= v.max,
{
    failures_add_up(v.after_reset(at), times);
}

/// Nothing is refused right after a reset, unless the limit is zero.
pub proof fn reset_unblocks(v: LimiterView, at: int, now: int)
    requires
        v.max > 0,
    ensures
        !v.after_reset(at).blocked(now),
{
}

/// Nothing is refused once the window has passed, however many failures there were.
pub proof fn window_end_unblocks(v: LimiterView, now: int)
    requires
        now - v.start >= v.window,
        v.window >= 0,
    ensures
        !v.blocked(now),
{
}

/// What was stored after a change is what a later run takes over: its counter and its window are
/// the same, where the start of the window is in the years that the stored form can name.
pub proof fn counter_survives_a_restart(
    old_run: LimiterView,
    record: LoginRecord,
    row: LoginFailureRow,
    new_run: LimiterView,
    now: int,
)
    requires
        record.count == old_run.failures,
        record.window_start_unix == old_run.start,
        crate::db::queries::stores(row, record),
        crate::db::queries::has_rfc3339(record.window_start_unix),
    ensures
        new_run.after_load(row, now).failures == old_run.failures,
        new_run.after_load(row, now).start == old_run.start,
{
}

/// Logins are refused exactly while the window runs and there were as many failures as the limit
/// says. The window runs from its start until its length has passed; one without a length never
/// does.
pub proof fn logins_are_refused_while_the_window_runs(v: LimiterView, now: int)
    ensures
        v.running(now) <==> v.window > 0 && now < v.start + v.window,
        v.blocked(now) <==> v.window > 0 && now < v.start + v.window && v.failures >= v.max,
{
}

/// A failure within the window is one more; the first one behind its end begins a new window. A
/// success leaves no failures, and begins a new window. Neither changes the length of the window
/// or the limit.
pub proof fn failures_are_counted_by_window(v: LimiterView, now: int)
    ensures
        v.window > 0 && now < v.start + v.window ==> v.after_failure(now).failures == v.failures + 1
            && v.after_failure(now).start == v.start,
        v.window <= 0 || now >= v.start + v.window ==> v.after_failure(now).failures == 1 && v.after_failure(
            now,
        ).start == now,
        v.after_failure(now).window == v.window,
        v.after_failure(now).max == v.max,
        v.after_reset(now).failures == 0,
        v.after_reset(now).start == now,
        v.after_reset(now).window == v.window,
        v.after_reset(now).max == v.max,
{
}

/// A stored counter is taken over as it stands, with the time that it states, or the present one
/// where that cannot be read; the length of the window and the limit are those of this run.
pub proof fn stored_counter_is_taken_over(v: LimiterView, row: LoginFailureRow, now: int)
    ensures
        0 <= row.count <= 0xffff_ffff ==> v.after_load(row, now).failures == row.count,
        crate::db::queries::rfc3339_seconds(row.window_start@) matches Some(start) ==> v.after_load(
            row,
            now,
        ).start == start,
        crate::db::queries::rfc3339_seconds(row.window_start@) is None ==> v.after_load(
            row,
            now,
        ).start == now,
        v.after_load(row, now).window == v.window,
        v.after_load(row, now).max == v.max,
{
}

} // verus!
