//! The restart policy of a supervised child process.
//!
//! A child that crashes must come back, but one that dies at once must not be respawned in a tight
//! loop. The policy is a small deterministic state machine: exponential backoff on consecutive fast
//! failures, capped, and reset once a run lasts long enough to count as healthy. It never gives up.
//! The loop that spawns and waits for the real process lives with the program, not here.

use std::time::Duration;
use vstd::prelude::*;

verus! {

/// The length of a `Duration` in nanoseconds, as `Duration::as_nanos` returns it.
pub uninterp spec fn duration_nanos(d: Duration) -> nat;

/// The length of `Duration::MAX` in nanoseconds.
pub open spec fn duration_max_nanos() -> nat {
    18_446_744_073_709_551_615nat * 1_000_000_000nat + 999_999_999nat
}

/// `Duration::as_nanos`: the total number of whole nanoseconds the duration holds.
#[verifier::external_body]
pub(crate) fn as_nanos(d: &Duration) -> (n: u128)
    ensures
        n == duration_nanos(*d),
        n <= duration_max_nanos(),
{
    d.as_nanos()
}

/// `Duration::from_secs`: a duration of whole seconds.
#[verifier::external_body]
pub(crate) fn from_secs(secs: u64) -> (d: Duration)
    ensures
        duration_nanos(d) == secs as nat * 1_000_000_000,
{
    Duration::from_secs(secs)
}

/// `Duration::from_micros`: a duration of whole microseconds.
#[verifier::external_body]
pub(crate) fn from_micros(micros: u64) -> (d: Duration)
    ensures
        duration_nanos(d) == micros as nat * 1_000,
{
    Duration::from_micros(micros)
}

/// Whether `a` lasts at least as long as `b`.
fn at_least(a: &Duration, b: &Duration) -> (r: bool)
    ensures
        r == (duration_nanos(*a) >= duration_nanos(*b)),
{
    as_nanos(a) >= as_nanos(b)
}

/// `Duration::checked_mul`: the product, or `None` where it would exceed `Duration::MAX`.
#[verifier::external_body]
fn checked_mul(d: Duration, k: u32) -> (r: Option<Duration>)
    ensures
        match r {
            Some(p) => duration_nanos(p) == duration_nanos(d) * k && duration_nanos(d) * k
                <= duration_max_nanos(),
            None => duration_nanos(d) * k > duration_max_nanos(),
        },
{
    d.checked_mul(k)
}

/// The shorter of two durations, the first where both are as long, as `Ord::min` picks.
fn shorter(a: Duration, b: Duration) -> (r: Duration)
    ensures
        r == (if duration_nanos(a) <= duration_nanos(b) { a } else { b }),
{
    if as_nanos(&a) <= as_nanos(&b) {
        a
    } else {
        b
    }
}

/// `2^n`.
pub open spec fn pow2(n: nat) -> nat
    decreases n,
{
    if n == 0 {
        1
    } else {
        2 * pow2((n - 1) as nat)
    }
}

/// The factor that multiplies the base delay after `failures` consecutive fast failures:
/// `2^(failures - 1)`, held to what fits in a `u32`.
pub open spec fn backoff_factor(failures: nat) -> nat {
    let shift = (failures - 1) as nat;
    if shift < 32 {
        pow2(shift)
    } else {
        u32::MAX as nat
    }
}

/// The delay, in nanoseconds, after `failures` consecutive fast failures: the base times the
/// factor, or the cap where the product overflows a `Duration`, and never more than the cap.
pub open spec fn backoff_nanos(base: nat, cap: nat, failures: nat) -> nat {
    let product = base * backoff_factor(failures);
    let delay = if product <= duration_max_nanos() {
        product
    } else {
        cap
    };
    if delay <= cap {
        delay
    } else {
        cap
    }
}

/// The failure count after an exit: back to zero after a healthy run, then one more, saturating.
pub open spec fn next_failures(failures: u32, healthy: bool) -> u32 {
    let start: u32 = if healthy {
        0
    } else {
        failures
    };
    if start == u32::MAX {
        start
    } else {
        (start + 1) as u32
    }
}

/// Decides how long to wait before restarting a child, based on how long it just ran.
#[derive(Debug, Clone, Copy)]
pub struct RestartPolicy {
    /// Delay after the first failure.
    pub base: Duration,
    /// Maximum delay between restarts.
    pub cap: Duration,
    /// A run lasting at least this long is healthy and resets the backoff.
    pub healthy_after: Duration,
    consecutive_failures: u32,
}

impl RestartPolicy {
    /// The number of consecutive fast failures the policy has counted.
    pub closed spec fn failures(self) -> u32 {
        self.consecutive_failures
    }

    /// The base delay, the cap and the healthy run length, in that order.
    pub closed spec fn durations(self) -> (Duration, Duration, Duration) {
        (self.base, self.cap, self.healthy_after)
    }

    /// Creates a policy. `base` doubles each consecutive fast failure up to `cap`; a run of at
    /// least `healthy_after` resets the count.
    pub fn new(base: Duration, cap: Duration, healthy_after: Duration) -> (p: Self)
        ensures
            p.durations() == (base, cap, healthy_after),
            p.failures() == 0,
    {
        RestartPolicy { base, cap, healthy_after, consecutive_failures: 0 }
    }

    /// Records that a child ran for `run_duration` and exited, and returns how long to wait
    /// before restarting it.
    pub fn record_exit(&mut self, run_duration: Duration) -> (delay: Duration)
        ensures
            final(self).durations() == old(self).durations(),
            final(self).failures() == next_failures(
                old(self).failures(),
                duration_nanos(run_duration) >= duration_nanos(old(self).durations().2),
            ),
            duration_nanos(delay) == backoff_nanos(
                duration_nanos(old(self).durations().0),
                duration_nanos(old(self).durations().1),
                final(self).failures() as nat,
            ),
            duration_nanos(delay) <= duration_nanos(old(self).durations().1),
    {
        if at_least(&run_duration, &self.healthy_after) {
            self.consecutive_failures = 0;
        }
        self.consecutive_failures = self.consecutive_failures.saturating_add(1);
        let shift: u32 = self.consecutive_failures - 1;
        let factor: u32 = if shift < 32 {
            let mut f: u32 = 1;
            let mut i: u32 = 0;
            proof {
                lemma_pow2_monotone(0, 31);
            }
            while i < shift
                invariant
                    i <= shift,
                    shift < 32,
                    f as nat == pow2(i as nat),
                    pow2(i as nat) <= pow2(31),
                decreases shift - i,
            {
                proof {
                    lemma_pow2_monotone((i + 1) as nat, 31);
                }
                f = f * 2;
                i = i + 1;
            }
            proof {
                lemma_pow2_monotone(31, 31);
            }
            f
        } else {
            u32::MAX
        };
        assert(factor as nat == backoff_factor(self.consecutive_failures as nat));
        let ghost product = duration_nanos(self.base) * backoff_factor(self.consecutive_failures as nat);
        let delay = match checked_mul(self.base, factor) {
            Some(d) => d,
            None => self.cap,
        };
        assert(duration_nanos(delay) == (if product <= duration_max_nanos() { product } else { duration_nanos(self.cap) }));
        shorter(delay, self.cap)
    }

    /// Consecutive fast failures since the last healthy run.
    pub fn consecutive_failures(&self) -> (n: u32)
        ensures
            n == self.failures(),
    {
        self.consecutive_failures
    }
}

impl Default for RestartPolicy {
    /// One second after the first failure, at most thirty, healthy after a minute.
    fn default() -> (p: Self)
        ensures
            duration_nanos(p.durations().0) == 1_000_000_000,
            duration_nanos(p.durations().1) == 30_000_000_000,
            duration_nanos(p.durations().2) == 60_000_000_000,
            p.failures() == 0,
    {
        RestartPolicy::new(from_secs(1), from_secs(30), from_secs(60))
    }
}

/// `2^i <= 2^j` where `i <= j`.
pub proof fn lemma_pow2_monotone(i: nat, j: nat)
    requires
        i <= j,
    ensures
        pow2(i) <= pow2(j),
        pow2(31) == 2_147_483_648,
    decreases j,
{
    reveal_with_fuel(pow2, 32);
    if i < j {
        lemma_pow2_monotone(i, (j - 1) as nat);
    }
}

/// A run that lasts at least the healthy length resets the backoff: whatever the count was, the
/// next delay is the one after a first failure, the base held to the cap.
pub proof fn lemma_healthy_run_resets(failures: u32, base: nat, cap: nat)
    requires
        base <= duration_max_nanos(),
    ensures
        next_failures(failures, true) == 1,
        backoff_nanos(base, cap, next_failures(failures, true) as nat) == (if base <= cap {
            base
        } else {
            cap
        }),
{
    assert(backoff_factor(1) == 1);
    assert(base * 1 == base);
}

/// Each further fast failure doubles the delay, until the cap is reached.
pub proof fn lemma_backoff_doubles(base: nat, cap: nat, failures: nat)
    requires
        1 <= failures < 32,
        base * pow2(failures) <= duration_max_nanos(),
    ensures
        backoff_nanos(base, cap, failures + 1) == (if 2 * (base * pow2(
            (failures - 1) as nat,
        )) <= cap {
            2 * (base * pow2((failures - 1) as nat))
        } else {
            cap
        }),
{
    let k = (failures - 1) as nat;
    assert(pow2(failures) == 2 * pow2(k));
    assert(base * pow2(failures) == 2 * (base * pow2(k))) by (nonlinear_arith)
        requires
            pow2(failures) == 2 * pow2(k),
    ;
    lemma_pow2_monotone(k, failures);
    assert(base * pow2(k) <= base * pow2(failures)) by (nonlinear_arith)
        requires
            pow2(k) <= pow2(failures),
    ;
}

/// A crash loop never shortens the wait: the delay after one more fast failure is at least the
/// delay before it.
pub proof fn lemma_backoff_never_shrinks(base: nat, cap: nat, failures: nat)
    requires
        failures >= 1,
    ensures
        backoff_nanos(base, cap, failures) <= backoff_nanos(base, cap, failures + 1),
{
    let f0 = backoff_factor(failures);
    let f1 = backoff_factor(failures + 1);
    if failures < 32 {
        let k = (failures - 1) as nat;
        assert(pow2(failures) == 2 * pow2(k));
        assert(f1 == pow2(failures));
        assert(f0 <= f1);
    } else if failures == 32 {
        lemma_pow2_monotone(31, 31);
        assert(f0 <= f1);
    } else {
        assert(f0 == f1);
    }
    assert(base * f0 <= base * f1) by (nonlinear_arith)
        requires
            f0 <= f1,
    ;
}

/// The count of consecutive failures saturates instead of wrapping: the policy keeps retrying at
/// the cap for ever.
pub proof fn lemma_failures_saturate()
    ensures
        next_failures(u32::MAX, false) == u32::MAX,
        forall|f: u32| f < u32::MAX ==> #[trigger] next_failures(f, false) == f + 1,
{
}

/// A signal the supervisor checks to know when to stop restarting and return.
pub trait StopSignal {
    /// True once the supervisor should stop.
    fn should_stop(&self) -> bool;
}

} // verus!
