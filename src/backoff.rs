//! Growth of the wait between attempts.

use core::time::Duration;
use vstd::prelude::*;

use crate::time::{as_millis, as_nanos, duration_new, from_millis, millis_of, nanos_of};

verus! {

/// The interval that follows `current` when it may not pass `max`:
/// `min(current * 1.5, max)`, rounded down to the unit it is counted in.
pub open spec fn next_interval(current: nat, max: nat) -> nat {
    if current + current / 2 > max {
        max
    } else {
        current + current / 2
    }
}

/// The wait that follows `current`: one and a half times it, to the
/// nanosecond, and never more than `max`.
pub fn calculate_next_interval(current: Duration, max: Duration) -> (r: Duration)
    ensures
        nanos_of(r) == next_interval(nanos_of(current) as nat, nanos_of(max) as nat),
        nanos_of(current) + nanos_of(current) / 2 > nanos_of(max) ==> r == max,
{
    let c = as_nanos(current);
    let m = as_nanos(max);
    let grown = c + c / 2;
    if grown > m {
        max
    } else {
        let secs = grown / 1000000000;
        let sub = grown % 1000000000;
        duration_new(secs as u64, sub as u32)
    }
}

/// The next interval is `min(current * 1.5, max)`, and it never falls below a
/// positive `current` that is within the bound.
pub proof fn lemma_next_interval(current: nat, max: nat)
    requires
        current <= max,
    ensures
        next_interval(current, max) == if current * 3 / 2 > max {
            max
        } else {
            current * 3 / 2
        },
        current > 0 ==> next_interval(current, max) >= current,
{
    assert(current * 3 / 2 == current + current / 2);
}

/// A policy for the waits between attempts, for callers to supply their own.
pub trait AsyncRetryStrategy {
    /// The wait after attempt number `attempt`, which followed a wait of
    /// `last_interval`.
    fn next_interval(&mut self, attempt: u32, last_interval: Duration) -> Duration;

    /// Whether attempt number `attempt`, `elapsed` after the start, may be
    /// followed by another.
    fn should_retry(&self, attempt: u32, elapsed: Duration, max_retries: Option<u32>, timeout: Duration) -> bool;

    /// Forgets what the policy learned of the previous target.
    fn reset(&mut self);

    /// The name of the policy.
    fn name(&self) -> &'static str;
}

/// Another attempt may follow: the deadline has not come, and the attempts,
/// where capped, are not used up.
pub open spec fn retry_allowed(attempt: u32, elapsed_ms: u128, max_retries: Option<u32>, timeout_ms: u128) -> bool {
    elapsed_ms < timeout_ms && match max_retries {
        Some(m) => attempt < m,
        None => true,
    }
}

/// Whether another attempt may follow, comparing times in whole milliseconds.
pub fn retry_decision(attempt: u32, elapsed: Duration, max_retries: Option<u32>, timeout: Duration) -> (r: bool)
    ensures
        r == retry_allowed(attempt, millis_of(elapsed), max_retries, millis_of(timeout)),
{
    if as_millis(elapsed) >= as_millis(timeout) {
        return false;
    }
    match max_retries {
        Some(m) => attempt < m,
        None => true,
    }
}

/// Waits that grow by a fixed step up to a bound.
pub struct LinearBackoffStrategy {
    increment: Duration,
    max_interval: Duration,
}

/// The wait after `last_ms` grows by `step_ms`, saturating, up to `max_ms`.
pub open spec fn linear_next_ms(last_ms: u128, step_ms: u128, max_ms: u128) -> u128 {
    let next = if last_ms + step_ms > u64::MAX {
        u64::MAX as u128
    } else {
        (last_ms + step_ms) as u128
    };
    if next > max_ms {
        max_ms
    } else {
        next
    }
}

impl LinearBackoffStrategy {
    /// Waits that grow by `increment`, never past `max_interval`.
    pub fn new(increment: Duration, max_interval: Duration) -> (r: LinearBackoffStrategy)
        ensures
            r.increment_spec() == increment,
            r.max_interval_spec() == max_interval,
    {
        LinearBackoffStrategy { increment, max_interval }
    }

    /// The step.
    pub closed spec fn increment_spec(&self) -> Duration {
        self.increment
    }

    /// The bound.
    pub closed spec fn max_interval_spec(&self) -> Duration {
        self.max_interval
    }

    /// The wait after `last_interval`: one step longer, in whole
    /// milliseconds, and never past the bound.
    pub fn grow(&self, last_interval: Duration) -> (r: Duration)
        ensures
            millis_of(r) == linear_next_ms(millis_of(last_interval), millis_of(self.increment_spec()), millis_of(self.max_interval_spec())),
    {
        let last = as_millis(last_interval);
        let step = as_millis(self.increment);
        let max = as_millis(self.max_interval);
        let next: u64 = if last > u64::MAX as u128 || step > u64::MAX as u128 - last {
            u64::MAX
        } else {
            (last + step) as u64
        };
        if next as u128 > max {
            self.max_interval
        } else {
            from_millis(next)
        }
    }
}

impl AsyncRetryStrategy for LinearBackoffStrategy {
    fn next_interval(&mut self, attempt: u32, last_interval: Duration) -> Duration {
        self.grow(last_interval)
    }

    fn should_retry(&self, attempt: u32, elapsed: Duration, max_retries: Option<u32>, timeout: Duration) -> bool {
        retry_decision(attempt, elapsed, max_retries, timeout)
    }

    fn reset(&mut self) {
    }

    fn name(&self) -> &'static str {
        "linear_backoff"
    }
}

/// The strategy that waits for every target.
pub struct WaitForAllStrategy;

/// The strategy that waits for the first ready target.
pub struct WaitForAnyStrategy;

/// The strategy that waits for every target, probing a bounded number at a
/// time.
pub struct ConcurrentProgressStrategy {
    concurrency_limit: usize,
}

/// The checker that makes real connection attempts.
pub struct DefaultTargetChecker;

impl WaitForAllStrategy {
    /// The strategy's name.
    pub fn name(&self) -> (r: &'static str)
        ensures
            r@ == "wait_for_all"@,
    {
        proof {
            reveal_strlit("wait_for_all");
        }
        "wait_for_all"
    }
}

impl WaitForAnyStrategy {
    /// The strategy's name.
    pub fn name(&self) -> (r: &'static str)
        ensures
            r@ == "wait_for_any"@,
    {
        proof {
            reveal_strlit("wait_for_any");
        }
        "wait_for_any"
    }
}

impl DefaultTargetChecker {
    /// The checker's name.
    pub fn name(&self) -> (r: &'static str)
        ensures
            r@ == "default"@,
    {
        proof {
            reveal_strlit("default");
        }
        "default"
    }
}

/// The `k`-th batch of `n` targets cut in batches of `size`: its first index
/// and the index after its last.
pub open spec fn batch_bounds(n: nat, size: nat, k: nat) -> (nat, nat) {
    (k * size, if (k + 1) * size <= n {
        (k + 1) * size
    } else {
        n
    })
}

impl ConcurrentProgressStrategy {
    /// At most `concurrency_limit` targets probed at a time.
    pub fn new(concurrency_limit: usize) -> (r: ConcurrentProgressStrategy)
        ensures
            r.limit_spec() == concurrency_limit,
    {
        ConcurrentProgressStrategy { concurrency_limit }
    }

    /// The bound on targets probed at a time.
    pub closed spec fn limit_spec(&self) -> usize {
        self.concurrency_limit
    }

    /// The bound on targets probed at a time.
    pub fn concurrency_limit(&self) -> (r: usize)
        ensures
            r == self.limit_spec(),
    {
        self.concurrency_limit
    }

    /// The strategy's name.
    pub fn name(&self) -> (r: &'static str)
        ensures
            r@ == "concurrent_progress"@,
    {
        proof {
            reveal_strlit("concurrent_progress");
        }
        "concurrent_progress"
    }

    /// How `n` targets are cut into batches probed one after another: each
    /// batch but the last holds exactly the limit.
    pub fn batches(&self, n: usize) -> (r: Vec<(usize, usize)>)
        requires
            self.limit_spec() > 0,
        ensures
            r@.len() == (n + self.limit_spec() - 1) / self.limit_spec() as int,
            forall|k: int|
                0 <= k < r@.len() ==> (#[trigger] r@[k]).0 as nat == batch_bounds(n as nat, self.limit_spec() as nat, k as nat).0
                    && r@[k].1 as nat == batch_bounds(n as nat, self.limit_spec() as nat, k as nat).1,
    {
        let size = self.concurrency_limit;
        let mut out: Vec<(usize, usize)> = Vec::new();
        let mut start: usize = 0;
        assert(out@.len() * size == 0) by (nonlinear_arith)
            requires
                out@.len() == 0,
        ;
        while start < n
            invariant
                size == self.limit_spec(),
                size > 0,
                start as int == if out@.len() * size <= n { out@.len() * size } else { n as int },
                out@.len() > 0 ==> (out@.len() - 1) * size < n,
                forall|k: int|
                    0 <= k < out@.len() ==> (#[trigger] out@[k]).0 as nat == batch_bounds(n as nat, size as nat, k as nat).0
                        && out@[k].1 as nat == batch_bounds(n as nat, size as nat, k as nat).1,
            decreases n - start,
        {
            let ghost k = out@.len() as int;
            proof {
                assert(k * size <= n);
                assert((k + 1) * size == k * size + size) by (nonlinear_arith);
            }
            let end = if size <= n - start {
                start + size
            } else {
                n
            };
            out.push((start, end));
            start = end;
        }
        proof {
            let k = out@.len() as int;
            assert(k * size >= n);
            assert(k == (n + size - 1) / size as int) by (nonlinear_arith)
                requires
                    k * size >= n,
                    k > 0 ==> (k - 1) * size < n,
                    k >= 0,
                    size > 0,
                    n >= 0,
            ;
        }
        out
    }
}

} // verus!
