//! Refreshable interval watchdog.
//!
//! A `Timer` tracks the last moment liveness evidence was seen and reports a
//! timeout once a full interval has elapsed without a refresh. Detection can
//! be paused with nested `freeze`/`unfreeze` calls. Timestamps are
//! milliseconds of a monotonic clock supplied by the caller; the interval is
//! a positive number of whole seconds. Elapsed time is truncated to whole
//! seconds before it is compared against the interval.

use vstd::prelude::*;

verus! {

/// Milliseconds per second: the ratio between caller timestamps and the
/// interval unit.
pub const MS_PER_SEC: u64 = 1000;

/// Whole seconds elapsed from `last` to `now` (both in milliseconds),
/// truncated; zero if the clock appears to have gone backwards.
pub open spec fn elapsed_secs(last: u64, now: u64) -> int {
    if now >= last {
        (now - last) / (MS_PER_SEC as int)
    } else {
        0
    }
}

pub struct Timer {
    /// Milliseconds of the monotonic clock at the last refresh.
    last_time: u64,
    /// Timeout interval in seconds; at least one.
    interval: u64,
    /// Number of outstanding freezes; detection is paused while positive.
    freeze_count: usize,
}

impl Timer {
    pub closed spec fn spec_last_time(&self) -> u64 {
        self.last_time
    }

    pub closed spec fn spec_interval(&self) -> u64 {
        self.interval
    }

    pub closed spec fn spec_freeze_count(&self) -> usize {
        self.freeze_count
    }

    /// A well-formed timer has a positive interval.
    pub open spec fn wf(&self) -> bool {
        1 <= self.spec_interval()
    }

    pub open spec fn is_frozen(&self) -> bool {
        self.spec_freeze_count() > 0
    }

    /// The timeout rule: timed out exactly when detection is not frozen and a
    /// full interval has elapsed since the last refresh.
    pub open spec fn spec_timed_out(&self, now: u64) -> bool {
        &&& !self.is_frozen()
        &&& elapsed_secs(self.spec_last_time(), now) >= self.spec_interval()
    }

    /// The earliest instant at which the timeout condition can become true,
    /// saturated at the largest representable timestamp.
    pub open spec fn spec_deadline(&self) -> int {
        let d = self.spec_last_time() + self.spec_interval() * (MS_PER_SEC as int);
        if d <= u64::MAX {
            d
        } else {
            u64::MAX as int
        }
    }

    pub fn new(interval: u64, now: u64) -> (t: Timer)
        requires
            interval >= 1,
        ensures
            t.wf(),
            t.spec_interval() == interval,
            t.spec_last_time() == now,
            t.spec_freeze_count() == 0,
    {
        Timer { last_time: now, interval, freeze_count: 0 }
    }

    pub fn last_time(&self) -> (r: u64)
        ensures
            r == self.spec_last_time(),
    {
        self.last_time
    }

    pub fn freeze_count(&self) -> (r: usize)
        ensures
            r == self.spec_freeze_count(),
    {
        self.freeze_count
    }

    /// Pause timeout detection; freezes nest, so detection resumes only once
    /// every freeze has been matched by an unfreeze.
    pub fn freeze(&mut self)
        requires
            old(self).spec_freeze_count() < usize::MAX,
        ensures
            final(self).spec_freeze_count() == old(self).spec_freeze_count() + 1,
            final(self).spec_last_time() == old(self).spec_last_time(),
            final(self).spec_interval() == old(self).spec_interval(),
    {
        self.freeze_count = self.freeze_count + 1;
    }

    /// Undo one freeze. The refresh happens before the count drops, so the
    /// moment detection resumes the elapsed-time window starts clean: time
    /// that passed while frozen never counts toward a timeout.
    pub fn unfreeze(&mut self, now: u64)
        requires
            old(self).spec_freeze_count() >= 1,
        ensures
            final(self).spec_freeze_count() == old(self).spec_freeze_count() - 1,
            final(self).spec_last_time() == now,
            final(self).spec_interval() == old(self).spec_interval(),
    {
        self.last_time = now;
        self.freeze_count = self.freeze_count - 1;
    }

    /// Record fresh liveness evidence: the elapsed-time window restarts at
    /// `now`.
    pub fn refresh(&mut self, now: u64)
        ensures
            final(self).spec_last_time() == now,
            final(self).spec_freeze_count() == old(self).spec_freeze_count(),
            final(self).spec_interval() == old(self).spec_interval(),
    {
        self.last_time = now;
    }

    /// Evaluate the timeout condition at `now`. While frozen this reports no
    /// timeout and refreshes instead, so no stale elapsed time accumulates
    /// silently during a freeze.
    pub fn is_timeout(&mut self, now: u64) -> (r: bool)
        ensures
            r == old(self).spec_timed_out(now),
            final(self).spec_last_time() == if old(self).is_frozen() {
                now
            } else {
                old(self).spec_last_time()
            },
            final(self).spec_freeze_count() == old(self).spec_freeze_count(),
            final(self).spec_interval() == old(self).spec_interval(),
    {
        if self.freeze_count != 0 {
            self.last_time = now;
            false
        } else {
            let elapsed_ms = if now >= self.last_time {
                now - self.last_time
            } else {
                0
            };
            elapsed_ms / MS_PER_SEC >= self.interval
        }
    }

    /// Fused check-and-refresh: report a timeout without touching the state,
    /// or record `now` as fresh liveness evidence. As one operation it leaves
    /// no window in which a concurrent caller's refresh could be lost between
    /// a plain check and a separate refresh.
    pub fn is_timeout_refresh(&mut self, now: u64) -> (r: bool)
        ensures
            check_and_refresh_rel(*old(self), now, r, *final(self)),
    {
        if self.is_timeout(now) {
            return true;
        }
        self.last_time = now;
        false
    }

    /// The instant to sleep until before the timeout condition is worth
    /// re-evaluating, saturated at the largest representable timestamp.
    pub fn may_timeout_at(&self) -> (d: u64)
        ensures
            d == self.spec_deadline(),
    {
        if self.interval <= (u64::MAX - self.last_time) / MS_PER_SEC {
            assert(self.interval * MS_PER_SEC <= u64::MAX - self.last_time) by (nonlinear_arith)
                requires
                    self.interval <= (u64::MAX - self.last_time) / (MS_PER_SEC as int),
                    MS_PER_SEC == 1000,
            ;
            self.last_time + self.interval * MS_PER_SEC
        } else {
            assert(self.spec_last_time() + self.spec_interval() * (MS_PER_SEC as int) > u64::MAX)
                by (nonlinear_arith)
                requires
                    self.interval > (u64::MAX - self.last_time) / (MS_PER_SEC as int),
                    MS_PER_SEC == 1000,
            ;
            u64::MAX
        }
    }
}

/// Exactly what `is_timeout_refresh` does to the state: the result is the
/// timeout rule at `now`; on a timeout the state is untouched, otherwise the
/// last-refresh time becomes `now`.
pub open spec fn check_and_refresh_rel(pre: Timer, now: u64, r: bool, post: Timer) -> bool {
    &&& r == pre.spec_timed_out(now)
    &&& post.spec_interval() == pre.spec_interval()
    &&& post.spec_freeze_count() == pre.spec_freeze_count()
    &&& post.spec_last_time() == if r {
        pre.spec_last_time()
    } else {
        now
    }
}

/// An unfrozen, well-formed timer times out exactly when a full interval of
/// milliseconds has elapsed since its last refresh: never sooner, and
/// always once that much time has passed.
pub proof fn lemma_timeout_threshold(t: Timer, now: u64)
    requires
        t.wf(),
        !t.is_frozen(),
        now >= t.spec_last_time(),
    ensures
        t.spec_timed_out(now) <==> now - t.spec_last_time() >= t.spec_interval() * (
        MS_PER_SEC as int),
{
    let last = t.spec_last_time() as int;
    let iv = t.spec_interval() as int;
    assert((now - last) / (MS_PER_SEC as int) >= iv <==> now - last >= iv * (MS_PER_SEC as int))
        by (nonlinear_arith)
        requires
            now >= last,
            iv >= 1,
            MS_PER_SEC == 1000,
    ;
}

/// The sleep deadline is exact: an unfrozen, well-formed timer whose deadline
/// is representable times out at `now` exactly when `now` has reached the
/// deadline. Sleeping until the deadline therefore neither wakes before the
/// timeout condition can hold nor sleeps past the instant it first holds.
pub proof fn lemma_deadline_exact(t: Timer, now: u64)
    requires
        t.wf(),
        !t.is_frozen(),
        t.spec_last_time() + t.spec_interval() * (MS_PER_SEC as int) <= u64::MAX,
    ensures
        t.spec_timed_out(now) <==> now >= t.spec_deadline(),
{
    if now >= t.spec_last_time() {
        lemma_timeout_threshold(t, now);
    } else {
        assert(elapsed_secs(t.spec_last_time(), now) == 0);
    }
}

/// A freshly constructed watchdog that receives no refresh and no freeze
/// times out exactly once a full interval has elapsed since construction.
pub proof fn lemma_fresh_timer_timeout(interval: u64, start: u64, t: Timer, now: u64)
    requires
        interval >= 1,
        t.spec_interval() == interval,
        t.spec_last_time() == start,
        t.spec_freeze_count() == 0,
        now >= start,
    ensures
        t.spec_timed_out(now) <==> now - start >= interval * (MS_PER_SEC as int),
{
    lemma_timeout_threshold(t, now);
}

/// A refresh restarts the elapsed-time window: after refreshing at `t1`, an
/// unfrozen timer reports a timeout at `now` exactly when a full interval
/// has elapsed since `t1`, regardless of how stale the window was before.
pub proof fn lemma_refresh_restarts_window(pre: Timer, t1: u64, post: Timer, now: u64)
    requires
        pre.wf(),
        post.spec_last_time() == t1,
        post.spec_interval() == pre.spec_interval(),
        post.spec_freeze_count() == pre.spec_freeze_count(),
        !post.is_frozen(),
        now >= t1,
    ensures
        post.spec_timed_out(now) <==> now - t1 >= pre.spec_interval() * (MS_PER_SEC as int),
{
    lemma_timeout_threshold(post, now);
}

/// While at least one freeze is outstanding, no amount of elapsed time makes
/// the watchdog report a timeout.
pub proof fn lemma_frozen_never_times_out(t: Timer, now: u64)
    requires
        t.is_frozen(),
    ensures
        !t.spec_timed_out(now),
{
}

/// Freezes nest: after two freezes, one unfreeze leaves detection paused for
/// every instant, and only the matching second unfreeze resumes it.
pub proof fn lemma_nested_freeze(t0: Timer, t1: Timer, t2: Timer, u1: u64, t3: Timer, u2: u64, t4: Timer)
    requires
        !t0.is_frozen(),
        // two freezes
        t1.spec_freeze_count() == t0.spec_freeze_count() + 1,
        t2.spec_freeze_count() == t1.spec_freeze_count() + 1,
        // one unfreeze at u1, then a second at u2
        t3.spec_freeze_count() == t2.spec_freeze_count() - 1,
        t3.spec_last_time() == u1,
        t4.spec_freeze_count() == t3.spec_freeze_count() - 1,
        t4.spec_last_time() == u2,
    ensures
        t1.is_frozen(),
        t2.is_frozen(),
        t3.is_frozen(),
        forall|now: u64| !t3.spec_timed_out(now),
        !t4.is_frozen(),
{
}

/// The final unfreeze starts a clean window: even if the real time spent
/// frozen already exceeds the interval, no timeout is reported before a full
/// interval has elapsed since the unfreeze itself.
pub proof fn lemma_unfreeze_fresh_window(pre: Timer, at: u64, post: Timer, now: u64)
    requires
        pre.wf(),
        pre.spec_freeze_count() == 1,
        post.spec_freeze_count() == pre.spec_freeze_count() - 1,
        post.spec_last_time() == at,
        post.spec_interval() == pre.spec_interval(),
        at <= now,
        now - at < pre.spec_interval() * (MS_PER_SEC as int),
    ensures
        !post.spec_timed_out(now),
{
    lemma_timeout_threshold(post, now);
}

/// A refresh recorded by one fused check is visible to the next: after a
/// check at `n1` that refreshed, an unfrozen timer's next check at `n2`
/// reports a timeout exactly when a full interval separates the two calls.
pub proof fn lemma_check_refresh_visibility(
    t0: Timer,
    n1: u64,
    r1: bool,
    t1: Timer,
    n2: u64,
    r2: bool,
    t2: Timer,
)
    requires
        t0.wf(),
        check_and_refresh_rel(t0, n1, r1, t1),
        check_and_refresh_rel(t1, n2, r2, t2),
        !r1,
        !t1.is_frozen(),
        n2 >= n1,
    ensures
        r2 <==> n2 - n1 >= t0.spec_interval() * (MS_PER_SEC as int),
{
    lemma_timeout_threshold(t1, n2);
}

} // verus!
