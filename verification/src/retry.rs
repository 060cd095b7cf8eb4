//! Retry and rate-limiting rules.
//!
//! Exponential backoff for transient failures, and the pause that keeps
//! requests at least a minimum interval apart.
use vstd::prelude::*;
use std::time::Duration;
use crate::number::Amount;
use crate::time::{duration_from_millis, duration_of_millis};

verus! {

/// `2^n`.
pub open spec fn pow2(n: nat) -> nat
    decreases n,
{
    if n == 0 {
        1
    } else {
        2 * pow2((n - 1) as nat)
    }
}

/// Exponential backoff retry policy.
#[derive(Debug, Clone, Copy, PartialEq, Eq, Structural)]
pub struct RetryPolicy {
    pub max_retries: u32,
    pub base_delay_ms: u64,
    pub max_delay_ms: u64,
}

impl Default for RetryPolicy {
    /// Three retries, starting at one second, capped at thirty seconds.
    fn default() -> (res: Self)
        ensures
            res == (RetryPolicy { max_retries: 3, base_delay_ms: 1000, max_delay_ms: 30000 }),
    {
        RetryPolicy { max_retries: 3, base_delay_ms: 1000, max_delay_ms: 30000 }
    }
}

impl RetryPolicy {
    /// `base_delay_ms * 2^attempt` can be computed in `u64` (the delay of a
    /// retry attempt overflows, and panics, otherwise).
    pub open spec fn delay_defined(&self, attempt: u32) -> bool {
        pow2(attempt as nat) <= u64::MAX && self.base_delay_ms * pow2(attempt as nat) <= u64::MAX
    }

    /// The delay in milliseconds before retry `attempt` (0-indexed):
    /// `min(base_delay_ms * 2^attempt, max_delay_ms)`.
    pub open spec fn delay_ms(&self, attempt: u32) -> nat {
        let d = self.base_delay_ms * pow2(attempt as nat);
        if d <= self.max_delay_ms {
            d as nat
        } else {
            self.max_delay_ms as nat
        }
    }

    /// Whether [`RetryPolicy::delay_for_attempt`] is defined for `attempt`.
    pub fn delay_is_defined(&self, attempt: u32) -> (res: bool)
        ensures
            res == self.delay_defined(attempt),
    {
        self.checked_delay(attempt).is_some()
    }

    /// `base_delay_ms * 2^attempt`, if it fits.
    fn checked_delay(&self, attempt: u32) -> (res: Option<u64>)
        ensures
            res is Some <==> self.delay_defined(attempt),
            res matches Some(d) ==> d == self.base_delay_ms * pow2(attempt as nat),
    {
        let mut p: u64 = 1;
        let mut i: u32 = 0;
        while i < attempt
            invariant
                i <= attempt,
                p as nat == pow2(i as nat),
            decreases attempt - i,
        {
            if p > u64::MAX / 2 {
                proof {
                    lemma_pow2_grows(i as nat, attempt as nat);
                }
                return None;
            }
            p = p * 2;
            i += 1;
        }
        if self.base_delay_ms > 0 && p > u64::MAX / self.base_delay_ms {
            assert(self.base_delay_ms * p > u64::MAX) by (nonlinear_arith)
                requires self.base_delay_ms > 0, p > u64::MAX / self.base_delay_ms;
            return None;
        }
        assert(self.base_delay_ms * p <= u64::MAX) by (nonlinear_arith)
            requires self.base_delay_ms == 0 || p <= u64::MAX / self.base_delay_ms;
        Some(self.base_delay_ms * p)
    }

    /// The delay in milliseconds before retry `attempt` (0-indexed).
    pub fn delay_ms_for_attempt(&self, attempt: u32) -> (res: u64)
        requires
            self.delay_defined(attempt),
        ensures
            res as nat == self.delay_ms(attempt),
    {
        let d = self.checked_delay(attempt).unwrap();
        if d <= self.max_delay_ms {
            d
        } else {
            self.max_delay_ms
        }
    }

    /// The delay before retry `attempt` (0-indexed):
    /// `min(base_delay_ms * 2^attempt, max_delay_ms)` milliseconds.
    pub fn delay_for_attempt(&self, attempt: u32) -> (res: Duration)
        requires
            self.delay_defined(attempt),
        ensures
            res == duration_of_millis(self.delay_ms(attempt)),
    {
        duration_from_millis(self.delay_ms_for_attempt(attempt))
    }
}

proof fn lemma_pow2_grows(i: nat, j: nat)
    requires
        i < j,
        pow2(i) > u64::MAX / 2,
    ensures
        pow2(j) > u64::MAX,
    decreases j - i,
{
    if j > i + 1 {
        lemma_pow2_grows(i, (j - 1) as nat);
        lemma_pow2_mono(i, (j - 1) as nat);
    }
}

proof fn lemma_pow2_mono(i: nat, j: nat)
    requires
        i <= j,
    ensures
        pow2(i) <= pow2(j),
    decreases j - i,
{
    if j > i {
        lemma_pow2_mono(i, (j - 1) as nat);
    }
}

/// Rate limiter configuration.
#[derive(Debug, Clone)]
pub struct RateLimiter {
    pub requests_per_second: Amount,
    pub min_interval_ms: u64,
}

impl Default for RateLimiter {
    /// Two requests per second, at least 500 ms apart.
    fn default() -> (res: Self)
        ensures
            res.requests_per_second@ == (2nat, 0nat),
            res.min_interval_ms == 500,
    {
        RateLimiter { requests_per_second: Amount::from_int(2), min_interval_ms: 500 }
    }
}

impl RateLimiter {
    /// The minimum interval between requests.
    pub fn min_interval(&self) -> (res: Duration)
        ensures
            res == duration_of_millis(self.min_interval_ms as nat),
    {
        duration_from_millis(self.min_interval_ms)
    }

    /// The pause in nanoseconds before the next request, given the time
    /// elapsed since the previous one (`None` if there was none): what is
    /// left of the minimum interval.
    pub fn wait_nanos(&self, elapsed_nanos: Option<u128>) -> (res: u128)
        ensures
            res == pause_nanos(
                self.min_interval_ms as nat,
                match elapsed_nanos {
                    Some(e) => Some(e as nat),
                    None => None,
                },
            ),
    {
        match elapsed_nanos {
            Some(e) => {
                let min = (self.min_interval_ms as u128) * 1_000_000;
                if e < min {
                    min - e
                } else {
                    0
                }
            },
            None => 0,
        }
    }
}

/// The pause in nanoseconds before a request, for a minimum interval of
/// `min_ms` milliseconds, given the nanoseconds elapsed since the previous
/// request ended (`None` if there was none).
pub open spec fn pause_nanos(min_ms: nat, elapsed: Option<nat>) -> nat {
    match elapsed {
        Some(e) => if e < min_ms * 1_000_000 {
            (min_ms * 1_000_000 - e) as nat
        } else {
            0
        },
        None => 0,
    }
}

/// The instants, in nanoseconds, at which successive waits of one limiter
/// end, for waits that start at `starts`: each ends after its pause, and the
/// pause counts from where the previous wait ended.
pub open spec fn wait_ends(min_ms: nat, starts: Seq<nat>) -> Seq<nat>
    decreases starts.len(),
{
    if starts.len() == 0 {
        seq![]
    } else {
        let prev = wait_ends(min_ms, starts.drop_last());
        let t = starts.last();
        let elapsed = if prev.len() == 0 {
            None
        } else {
            Some((t - prev.last()) as nat)
        };
        prev.push(t + pause_nanos(min_ms, elapsed))
    }
}

/// The spacing that the rate limiter keeps over successive waits, each
/// starting after the previous one has ended: the first returns at once,
/// no wait lasts longer than the minimum interval, and the instants at which
/// successive waits end are at least the minimum interval apart.
pub proof fn lemma_wait_spacing(min_ms: nat, starts: Seq<nat>)
    requires
        forall|i: int| 0 <= i < starts.len() - 1 ==> starts[i + 1] >= #[trigger] wait_ends(min_ms, starts)[i],
    ensures
        wait_ends(min_ms, starts).len() == starts.len(),
        starts.len() > 0 ==> wait_ends(min_ms, starts)[0] == starts[0],
        forall|i: int|
            0 <= i < starts.len() ==> starts[i] <= #[trigger] wait_ends(min_ms, starts)[i] <= starts[i]
                + min_ms * 1_000_000,
        forall|i: int|
            0 <= i < starts.len() - 1 ==> #[trigger] wait_ends(min_ms, starts)[i + 1] >= wait_ends(
                min_ms,
                starts,
            )[i] + min_ms * 1_000_000,
    decreases starts.len(),
{
    if starts.len() > 0 {
        let s1 = starts.drop_last();
        let ends = wait_ends(min_ms, starts);
        let prev = wait_ends(min_ms, s1);
        assert forall|i: int| 0 <= i < s1.len() - 1 implies s1[i + 1] >= #[trigger] prev[i] by {
            lemma_wait_ends_len(min_ms, s1);
            assert(ends[i] == prev[i]);
            assert(starts[i + 1] >= ends[i]);
        }
        lemma_wait_spacing(min_ms, s1);
        lemma_wait_ends_len(min_ms, s1);
        assert forall|i: int| 0 <= i < starts.len() - 1 implies #[trigger] ends[i + 1] >= ends[i]
            + min_ms * 1_000_000 by {
            if i + 1 < s1.len() {
                assert(ends[i + 1] == prev[i + 1] && ends[i] == prev[i]);
            } else {
                assert(ends[i] == prev.last());
                assert(starts[i + 1] >= ends[i]);
            }
        }
        assert forall|i: int| 0 <= i < starts.len() implies starts[i] <= #[trigger] ends[i]
            <= starts[i] + min_ms * 1_000_000 by {
            if i < s1.len() {
                assert(ends[i] == prev[i]);
                assert(s1[i] == starts[i]);
            }
        }
        if s1.len() > 0 {
            assert(ends[0] == prev[0]);
        }
    }
}

proof fn lemma_wait_ends_len(min_ms: nat, starts: Seq<nat>)
    ensures
        wait_ends(min_ms, starts).len() == starts.len(),
    decreases starts.len(),
{
    if starts.len() > 0 {
        lemma_wait_ends_len(min_ms, starts.drop_last());
    }
}

/// 429 and the 5xx statuses are worth retrying.
pub open spec fn retryable(status: u16) -> bool {
    status == 429 || (500 <= status < 600)
}

/// Whether an HTTP status code is retryable (429 or 5xx).
pub fn is_retryable_status(status: u16) -> (res: bool)
    ensures
        res == retryable(status),
{
    status == 429 || (500 <= status && status < 600)
}

/// Retry delays never shrink from one attempt to the next, and never exceed
/// the cap.
pub proof fn lemma_delay_monotone_capped(policy: RetryPolicy, a: u32, b: u32)
    requires
        a <= b,
        policy.delay_defined(b),
    ensures
        policy.delay_defined(a),
        policy.delay_ms(a) <= policy.delay_ms(b),
        policy.delay_ms(b) <= policy.max_delay_ms,
{
    lemma_pow2_mono(a as nat, b as nat);
    assert(policy.base_delay_ms * pow2(a as nat) <= policy.base_delay_ms * pow2(b as nat)) by (nonlinear_arith)
        requires pow2(a as nat) <= pow2(b as nat);
}

} // verus!
