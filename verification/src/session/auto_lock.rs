//! Inactivity auto-lock: a deadline that is pushed forward by activity and
//! after which the vault should lock.
//!
//! Time comes from a [`Clock`], so the logic is the same against the real
//! monotonic clock ([`SystemClock`]) and a manually advanced one
//! ([`TestClock`]). Every operation has a core that takes the current time as
//! an argument; the clock-reading methods call those cores.

use std::sync::atomic::{AtomicU64, Ordering};
use std::sync::Arc;
use std::time::Instant;
use vstd::prelude::*;

verus! {

/// A monotonic source of "now" in milliseconds.
pub trait Clock {
    /// Milliseconds since an arbitrary fixed origin, never decreasing.
    fn now_millis(&self) -> u64;
}

impl<T: Clock> Clock for Arc<T> {
    fn now_millis(&self) -> u64 {
        (**self).now_millis()
    }
}

/// Declares `std::time::Instant`, the origin of [`SystemClock`], to Verus.
#[verifier::external_type_specification]
#[verifier::external_body]
pub struct ExInstant(Instant);

/// Calls `Instant::now`. Nothing is claimed of the instant.
#[verifier::external_body]
fn instant_now() -> Instant {
    Instant::now()
}

/// Calls `Instant::elapsed` and `Duration::as_millis`, narrowed to `u64`.
/// The result depends on the time and is not described.
#[verifier::external_body]
fn millis_since(base: &Instant) -> u64 {
    base.elapsed().as_millis() as u64
}

/// The production clock: milliseconds since the clock was created, from the
/// OS monotonic clock.
pub struct SystemClock {
    base: Instant,
}

impl SystemClock {
    /// A clock whose origin is now.
    pub fn new() -> Self {
        SystemClock { base: instant_now() }
    }
}

impl Default for SystemClock {
    fn default() -> Self {
        SystemClock::new()
    }
}

impl Clock for SystemClock {
    fn now_millis(&self) -> u64 {
        millis_since(&self.base)
    }
}

/// The reading `millis` milliseconds after `now`, saturating at the end of
/// time.
pub fn clock_after(now: u64, millis: u64) -> (r: u64)
    ensures
        r == (if now + millis > u64::MAX { u64::MAX as int } else { now + millis }),
{
    now.saturating_add(millis)
}

/// Calls `AtomicU64::fetch_update` with [`clock_after`] as the update, which
/// always succeeds. vstd models no value inside a std atomic, so nothing is
/// claimed of the stored reading.
#[verifier::external_body]
fn advance_atomic(now: &AtomicU64, millis: u64) {
    let _ = now.fetch_update(Ordering::SeqCst, Ordering::SeqCst, |v| Some(clock_after(v, millis)));
}

/// A clock that only moves when told to, for exercising timeouts
/// deterministically. It starts at 0 and can be shared.
pub struct TestClock {
    now: AtomicU64,
}

impl TestClock {
    /// A clock at time 0.
    pub fn new() -> Self {
        TestClock { now: AtomicU64::new(0) }
    }

    /// Move the clock forward by `millis` milliseconds, stopping at the end
    /// of time so that the clock never runs backwards.
    pub fn advance(&self, millis: u64) {
        advance_atomic(&self.now, millis);
    }

    /// Move the clock forward by `secs` seconds (saturating).
    pub fn advance_secs(&self, secs: u64) {
        let millis = if secs > u64::MAX / 1000 { u64::MAX } else { secs * 1000 };
        self.advance(millis);
    }
}

impl Default for TestClock {
    fn default() -> Self {
        TestClock::new()
    }
}

impl Clock for TestClock {
    fn now_millis(&self) -> u64 {
        self.now.load(Ordering::SeqCst)
    }
}

/// The abstract state of an [`AutoLock`]: the configured timeout and the
/// current deadline, if armed.
pub struct AutoLockState {
    pub timeout_secs: u32,
    pub at_millis: Option<u64>,
}

/// The deadline `timeout_secs` seconds after `now` (saturating at the end of
/// time); none when the timeout is 0, which disables auto-lock.
pub open spec fn deadline_after(now: u64, timeout_secs: u32) -> Option<u64> {
    if timeout_secs == 0 {
        None
    } else if now + timeout_secs * 1000 > u64::MAX {
        Some(u64::MAX)
    } else {
        Some((now + timeout_secs * 1000) as u64)
    }
}

/// Whether the auto-lock has fired at time `now`: armed and the deadline
/// reached.
pub open spec fn expired_at(s: AutoLockState, now: u64) -> bool {
    match s.at_millis {
        Some(at) => now >= at,
        None => false,
    }
}

/// The state after arming with `timeout_secs` at time `now`.
pub open spec fn armed(timeout_secs: u32, now: u64) -> AutoLockState {
    AutoLockState { timeout_secs, at_millis: deadline_after(now, timeout_secs) }
}

/// The state after activity at time `now`: an armed deadline restarts from
/// `now` with the configured timeout; a disarmed one stays disarmed, so only
/// arming again can make the auto-lock fire.
pub open spec fn after_activity(s: AutoLockState, now: u64) -> AutoLockState {
    AutoLockState {
        timeout_secs: s.timeout_secs,
        at_millis: if s.at_millis is None { None } else { deadline_after(now, s.timeout_secs) },
    }
}

/// The inactivity deadline, read against a [`Clock`].
pub struct AutoLock<C: Clock> {
    clock: C,
    timeout_secs: u32,
    at_millis: Option<u64>,
}

impl<C: Clock> View for AutoLock<C> {
    type V = AutoLockState;

    closed spec fn view(&self) -> AutoLockState {
        AutoLockState { timeout_secs: self.timeout_secs, at_millis: self.at_millis }
    }
}

fn compute_deadline(now: u64, timeout_secs: u32) -> (r: Option<u64>)
    ensures
        r == deadline_after(now, timeout_secs),
{
    if timeout_secs == 0 {
        None
    } else {
        let span: u64 = (timeout_secs as u64) * 1000;
        Some(now.saturating_add(span))
    }
}

impl<C: Clock> AutoLock<C> {
    /// An unarmed auto-lock with auto-lock disabled.
    pub fn new(clock: C) -> (a: Self)
        ensures
            a@ == (AutoLockState { timeout_secs: 0, at_millis: None }),
    {
        AutoLock { clock, timeout_secs: 0, at_millis: None }
    }

    /// Set the timeout and start the countdown from `now`.
    pub fn arm_at(&mut self, timeout_secs: u32, now: u64)
        ensures
            final(self)@ == armed(timeout_secs, now),
    {
        self.timeout_secs = timeout_secs;
        self.at_millis = compute_deadline(now, timeout_secs);
    }

    /// Set the timeout and start the countdown from the clock's now (a
    /// timeout of 0 leaves it unarmed).
    pub fn arm(&mut self, timeout_secs: u32)
        ensures
            exists|now: u64| final(self)@ == #[trigger] armed(timeout_secs, now),
    {
        let now = self.clock.now_millis();
        self.arm_at(timeout_secs, now);
    }

    /// Restart a pending countdown from `now` with the current timeout; a
    /// disarmed deadline stays disarmed.
    pub fn record_activity_at(&mut self, now: u64)
        ensures
            final(self)@ == after_activity(old(self)@, now),
    {
        if self.at_millis.is_some() {
            self.at_millis = compute_deadline(now, self.timeout_secs);
        }
    }

    /// The clock's current reading.
    pub fn now_millis(&self) -> u64 {
        self.clock.now_millis()
    }

    /// Restart a pending countdown from the clock's now (nothing is armed
    /// when auto-lock is disabled or the deadline was disarmed).
    pub fn record_activity(&mut self)
        ensures
            exists|now: u64| final(self)@ == #[trigger] after_activity(old(self)@, now),
    {
        let now = self.clock.now_millis();
        self.record_activity_at(now);
    }

    /// Change the timeout; the countdown restarts with the new duration.
    pub fn set_timeout(&mut self, timeout_secs: u32)
        ensures
            exists|now: u64| final(self)@ == #[trigger] armed(timeout_secs, now),
    {
        self.arm(timeout_secs);
    }

    /// Cancel the deadline (the timeout is kept).
    pub fn disarm(&mut self)
        ensures
            final(self)@ == (AutoLockState { timeout_secs: old(self)@.timeout_secs, at_millis: None }),
    {
        self.at_millis = None;
    }

    /// Whether the deadline has been reached at time `now`.
    pub fn is_expired_at(&self, now: u64) -> (r: bool)
        ensures
            r == expired_at(self@, now),
    {
        match self.at_millis {
            Some(at) => now >= at,
            None => false,
        }
    }

    /// Whether the deadline has been reached by the clock's now. Never when
    /// unarmed.
    pub fn is_expired(&self) -> (r: bool)
        ensures
            exists|now: u64| r == #[trigger] expired_at(self@, now),
            self@.at_millis is None ==> !r,
    {
        let now = self.clock.now_millis();
        self.is_expired_at(now)
    }

    /// The configured timeout in seconds (0 = disabled).
    pub fn timeout_secs(&self) -> (t: u32)
        ensures
            t == self@.timeout_secs,
    {
        self.timeout_secs
    }

    /// Whether a deadline is pending.
    pub fn is_armed(&self) -> (b: bool)
        ensures
            b == self@.at_millis is Some,
    {
        self.at_millis.is_some()
    }
}

/// A timeout of 0 disables auto-lock: arming with it sets no deadline, and
/// neither activity nor any amount of time ever makes it expire.
pub proof fn lemma_disabled_never_expires(now: u64, later: u64, activity: u64)
    ensures
        armed(0, now).at_millis is None,
        !expired_at(armed(0, now), later),
        !expired_at(after_activity(armed(0, now), activity), later),
{
}

/// Armed with `timeout_secs > 0` at time `now`, the auto-lock expires
/// exactly when `timeout_secs` seconds have passed (up to the end of time).
pub proof fn lemma_expires_exactly_at_timeout(timeout_secs: u32, now: u64, later: u64)
    requires
        timeout_secs > 0,
        now + timeout_secs * 1000 <= u64::MAX,
    ensures
        expired_at(armed(timeout_secs, now), later) <==> later >= now + timeout_secs * 1000,
{
}

/// Activity pushes a pending deadline: after activity at time `t`, the
/// auto-lock expires exactly when the configured timeout has passed since
/// `t`, whatever the earlier deadline was.
pub proof fn lemma_activity_resets_deadline(s: AutoLockState, t: u64, later: u64)
    requires
        s.timeout_secs > 0,
        s.at_millis is Some,
        t + s.timeout_secs * 1000 <= u64::MAX,
    ensures
        expired_at(after_activity(s, t), later) <==> later >= t + s.timeout_secs * 1000,
        after_activity(s, t).timeout_secs == s.timeout_secs,
{
}

/// A disarmed auto-lock never expires, and activity does not re-arm it:
/// only arming again can make it fire.
pub proof fn lemma_disarmed_never_expires(timeout_secs: u32, activity: u64, later: u64)
    ensures
        !expired_at(AutoLockState { timeout_secs, at_millis: None }, later),
        after_activity(AutoLockState { timeout_secs, at_millis: None }, activity)
            == (AutoLockState { timeout_secs, at_millis: None }),
{
}

} // verus!
