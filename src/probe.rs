//! The decisions of the per-target retry loop, and how the outcomes of
//! several targets combine into one result.

use core::time::Duration;
use tokio_util::sync::CancellationToken;
use vstd::prelude::*;
use vstd::string::*;

use crate::backoff::next_interval;
use crate::error::WaitForError;
use crate::rate_limit::{rate_key, recent, times_for, RateLimiter};
use crate::security::{target_allowed, SecurityValidator};
use crate::target::{display_of, opt_view, Target};
use crate::text::{decimal, decimal_text, join2, join3};
use crate::time::{clamp_u64, duration_to_millis_u64, from_millis, from_secs, millis_of};

verus! {

/// The policy of one run.
#[derive(Debug, Clone)]
pub struct WaitConfig {
    /// The overall deadline of each target, from its first attempt.
    pub timeout: Duration,
    /// The wait after the first failed attempt.
    pub initial_interval: Duration,
    /// The longest wait between two attempts.
    pub max_interval: Duration,
    /// Whether one ready target is enough.
    pub wait_for_any: bool,
    /// The most attempts on one target, if capped.
    pub max_retries: Option<u32>,
    /// The longest one attempt may take.
    pub connection_timeout: Duration,
    /// The signal that stops the run early, if any.
    pub cancellation_token: Option<CancellationToken>,
    /// The checks of each target before each attempt, if any.
    pub security_validator: Option<SecurityValidator>,
    /// The cap on attempts per target, shared by all targets of a run, if any.
    pub rate_limiter: Option<RateLimiter>,
}

impl Default for WaitConfig {
    /// A 30 s deadline, waits from 1 s up to 30 s, 10 s per attempt, all
    /// targets, no cap on attempts.
    fn default() -> (r: WaitConfig)
        ensures
            millis_of(r.timeout) == 30000,
            millis_of(r.initial_interval) == 1000,
            millis_of(r.max_interval) == 30000,
            !r.wait_for_any,
            r.max_retries is None,
            millis_of(r.connection_timeout) == 10000,
            r.cancellation_token is None,
            r.security_validator is None,
            r.rate_limiter is None,
    {
        WaitConfig {
            timeout: from_secs(30),
            initial_interval: from_secs(1),
            max_interval: from_secs(30),
            wait_for_any: false,
            max_retries: None,
            connection_timeout: from_secs(10),
            cancellation_token: None,
            security_validator: None,
            rate_limiter: None,
        }
    }
}

impl WaitConfig {
    /// The default policy with the deadline `timeout`.
    pub fn from_timeout(timeout: Duration) -> (r: WaitConfig)
        ensures
            r.timeout == timeout,
            millis_of(r.initial_interval) == 1000,
            millis_of(r.max_interval) == 30000,
            !r.wait_for_any,
            r.max_retries is None,
            millis_of(r.connection_timeout) == 10000,
    {
        WaitConfig { timeout, ..WaitConfig::default() }
    }
}

/// The text of a failure when the deadline passed.
pub open spec fn timeout_message() -> Seq<char> {
    "overall timeout exceeded"@
}

/// The text of a failure when the attempts ran out after `last`.
pub open spec fn exhausted_message(max: u32, last: Seq<char>) -> Seq<char> {
    "Max retries ("@ + decimal(max as nat) + ") exceeded. Last error: "@ + last
}

/// How one target ended.
pub struct ProbeOutcome {
    pub success: bool,
    pub elapsed_ms: u64,
    pub attempts: u32,
    pub error: Option<String>,
}

/// What the loop does next.
pub enum ProbeStep {
    /// Stop: the cancellation signal is set.
    Cancelled,
    /// Make one attempt, allowed `timeout_ms` at most.
    Attempt { timeout_ms: u64 },
    /// Wait `duration_ms` (nothing when zero), racing the cancellation signal.
    Sleep { duration_ms: u64 },
    /// Stop with this outcome.
    Finished(ProbeOutcome),
}

/// The state of the retry loop of one target; all times are milliseconds
/// on one clock.
pub struct ProbeState {
    pub start_ms: u64,
    pub deadline_ms: u64,
    pub attempts: u32,
    pub current_interval_ms: u64,
    pub max_interval_ms: u64,
    pub connection_timeout_ms: u64,
    pub max_retries: Option<u32>,
}

/// `a - b`, or zero when `b` is later.
pub open spec fn since(a: u64, b: u64) -> u64 {
    if a >= b {
        (a - b) as u64
    } else {
        0
    }
}

/// `a + b`, saturating at `u64::MAX`.
pub open spec fn sat_add(a: u64, b: u64) -> u64 {
    if a + b > u64::MAX {
        u64::MAX
    } else {
        (a + b) as u64
    }
}

/// `r` stops the loop with this outcome.
pub open spec fn finished_with(r: ProbeStep, success: bool, elapsed_ms: u64, attempts: u32, error: Option<Seq<char>>) -> bool {
    match r {
        ProbeStep::Finished(o) => o.success == success && o.elapsed_ms == elapsed_ms && o.attempts == attempts
            && opt_view(o.error) == error,
        _ => false,
    }
}

/// The text of a failed attempt.
pub open spec fn failure_text(result: Result<(), String>) -> Seq<char> {
    match result {
        Err(m) => m@,
        Ok(()) => Seq::empty(),
    }
}

/// The attempt failed and no attempt is left.
pub open spec fn exhausted(s: ProbeState, result: Result<(), String>) -> bool {
    result is Err && s.max_retries is Some && s.attempts >= s.max_retries->0
}

impl ProbeState {
    /// The state before the first attempt of a target probed from `now_ms`:
    /// its deadline is fixed once, `timeout` after the start.
    pub fn start(config: &WaitConfig, now_ms: u64) -> (r: ProbeState)
        ensures
            r.start_ms == now_ms,
            r.deadline_ms == sat_add(now_ms, clamp_u64(millis_of(config.timeout))),
            r.attempts == 0,
            r.current_interval_ms == clamp_u64(millis_of(config.initial_interval)),
            r.max_interval_ms == clamp_u64(millis_of(config.max_interval)),
            r.connection_timeout_ms == clamp_u64(millis_of(config.connection_timeout)),
            r.max_retries == config.max_retries,
    {
        let timeout = duration_to_millis_u64(config.timeout);
        let deadline = if timeout > u64::MAX - now_ms {
            u64::MAX
        } else {
            now_ms + timeout
        };
        ProbeState {
            start_ms: now_ms,
            deadline_ms: deadline,
            attempts: 0,
            current_interval_ms: duration_to_millis_u64(config.initial_interval),
            max_interval_ms: duration_to_millis_u64(config.max_interval),
            connection_timeout_ms: duration_to_millis_u64(config.connection_timeout),
            max_retries: config.max_retries,
        }
    }

    /// The decision at the top of the loop, at `now_ms`: stop when cancelled
    /// or when the deadline has come, else count and make an attempt that
    /// may not outlast the deadline.
    pub fn begin(&mut self, now_ms: u64, cancelled: bool) -> (r: ProbeStep)
        requires
            old(self).attempts < u32::MAX,
        ensures
            cancelled ==> r is Cancelled && *final(self) == *old(self),
            !cancelled && now_ms >= old(self).deadline_ms ==> *final(self) == *old(self) && finished_with(
                r,
                false,
                since(now_ms, old(self).start_ms),
                old(self).attempts,
                Some(timeout_message()),
            ),
            !cancelled && now_ms < old(self).deadline_ms ==> {
                &&& *final(self) == (ProbeState { attempts: (old(self).attempts + 1) as u32, ..*old(self) })
                &&& r == (ProbeStep::Attempt {
                    timeout_ms: if old(self).connection_timeout_ms < old(self).deadline_ms - now_ms {
                        old(self).connection_timeout_ms
                    } else {
                        (old(self).deadline_ms - now_ms) as u64
                    },
                })
            },
    {
        if cancelled {
            return ProbeStep::Cancelled;
        }
        if now_ms >= self.deadline_ms {
            let elapsed = if now_ms >= self.start_ms {
                now_ms - self.start_ms
            } else {
                0
            };
            proof {
                reveal_strlit("overall timeout exceeded");
            }
            return ProbeStep::Finished(
                ProbeOutcome {
                    success: false,
                    elapsed_ms: elapsed,
                    attempts: self.attempts,
                    error: Some(String::from_str("overall timeout exceeded")),
                },
            );
        }
        self.attempts = self.attempts + 1;
        let remaining = self.deadline_ms - now_ms;
        let timeout_ms = if self.connection_timeout_ms < remaining {
            self.connection_timeout_ms
        } else {
            remaining
        };
        ProbeStep::Attempt { timeout_ms }
    }

    /// The decision after an attempt made at `attempt_ms` ended at `now_ms`:
    /// stop on success or when the attempts ran out, else sleep the current
    /// interval, cut at the deadline, and grow the interval.
    pub fn after_attempt(&mut self, result: Result<(), String>, attempt_ms: u64, now_ms: u64) -> (r: ProbeStep)
        ensures
            result is Ok ==> *final(self) == *old(self) && finished_with(
                r,
                true,
                since(attempt_ms, old(self).start_ms),
                old(self).attempts,
                None,
            ),
            exhausted(*old(self), result) ==> *final(self) == *old(self) && finished_with(
                r,
                false,
                since(attempt_ms, old(self).start_ms),
                old(self).attempts,
                Some(exhausted_message(old(self).max_retries->0, failure_text(result))),
            ),
            result is Err && !exhausted(*old(self), result) ==> {
                &&& *final(self) == (ProbeState {
                    current_interval_ms: next_interval(
                        old(self).current_interval_ms as nat,
                        old(self).max_interval_ms as nat,
                    ) as u64,
                    ..*old(self)
                })
                &&& r == (ProbeStep::Sleep {
                    duration_ms: if now_ms >= old(self).deadline_ms {
                        0
                    } else if old(self).current_interval_ms < old(self).deadline_ms - now_ms {
                        old(self).current_interval_ms
                    } else {
                        (old(self).deadline_ms - now_ms) as u64
                    },
                })
            },
    {
        let elapsed = if attempt_ms >= self.start_ms {
            attempt_ms - self.start_ms
        } else {
            0
        };
        match result {
            Ok(()) => ProbeStep::Finished(
                ProbeOutcome { success: true, elapsed_ms: elapsed, attempts: self.attempts, error: None },
            ),
            Err(msg) => {
                match self.max_retries {
                    Some(m) => {
                        if self.attempts >= m {
                            let head = join3("Max retries (", decimal_text(m as u64).as_str(), ") exceeded. Last error: ");
                            let text = join2(head.as_str(), msg.as_str());
                            proof {
                                reveal_strlit("Max retries (");
                                reveal_strlit(") exceeded. Last error: ");
                            }
                            return ProbeStep::Finished(
                                ProbeOutcome {
                                    success: false,
                                    elapsed_ms: elapsed,
                                    attempts: self.attempts,
                                    error: Some(text),
                                },
                            );
                        }
                    },
                    None => {},
                }
                let sleep = if now_ms >= self.deadline_ms {
                    0
                } else if self.current_interval_ms < self.deadline_ms - now_ms {
                    self.current_interval_ms
                } else {
                    self.deadline_ms - now_ms
                };
                self.current_interval_ms = next_interval_u64(self.current_interval_ms, self.max_interval_ms);
                ProbeStep::Sleep { duration_ms: sleep }
            },
        }
    }
}

/// `min(current * 1.5, max)` on millisecond counts.
pub fn next_interval_u64(current: u64, max: u64) -> (r: u64)
    ensures
        r == next_interval(current as nat, max as nat),
{
    let half = current / 2;
    if current > max || half > max - current {
        max
    } else {
        current + half
    }
}

/// How one target ended, with the target.
#[derive(Debug, Clone)]
pub struct TargetResult {
    pub target: Target,
    pub success: bool,
    pub elapsed: Duration,
    pub attempts: u32,
    pub error: Option<String>,
}

/// How a whole run ended.
#[derive(Debug, Clone)]
pub struct WaitResult {
    pub success: bool,
    pub elapsed: Duration,
    pub attempts: u32,
    pub target_results: Vec<TargetResult>,
}

impl TargetResult {
    /// The result of `target` that ended with `outcome`.
    pub fn from_outcome(target: Target, outcome: ProbeOutcome) -> (r: TargetResult)
        ensures
            r.target@ == target@,
            r.success == outcome.success,
            millis_of(r.elapsed) == outcome.elapsed_ms as u128,
            r.attempts == outcome.attempts,
            opt_view(r.error) == opt_view(outcome.error),
    {
        TargetResult {
            target,
            success: outcome.success,
            elapsed: from_millis(outcome.elapsed_ms),
            attempts: outcome.attempts,
            error: outcome.error,
        }
    }
}

/// The attempts of all results, added up.
pub open spec fn total_attempts(rs: Seq<TargetResult>) -> nat
    decreases rs.len(),
{
    if rs.len() == 0 {
        0
    } else {
        total_attempts(rs.drop_last()) + rs.last().attempts as nat
    }
}

/// Every result succeeded.
pub open spec fn all_succeeded(rs: Seq<TargetResult>) -> bool {
    forall|i: int| 0 <= i < rs.len() ==> (#[trigger] rs[i]).success
}

/// The names of the targets whose results failed, in order.
pub open spec fn failed_names(rs: Seq<TargetResult>) -> Seq<Seq<char>>
    decreases rs.len(),
{
    if rs.len() == 0 {
        Seq::empty()
    } else if rs.last().success {
        failed_names(rs.drop_last())
    } else {
        failed_names(rs.drop_last()).push(display_of(rs.last().target@))
    }
}

/// The names of all the targets of the results, in order.
pub open spec fn all_names(rs: Seq<TargetResult>) -> Seq<Seq<char>>
    decreases rs.len(),
{
    if rs.len() == 0 {
        Seq::empty()
    } else {
        all_names(rs.drop_last()).push(display_of(rs.last().target@))
    }
}

/// The names one after the other, with `, ` between two.
pub open spec fn comma_joined(names: Seq<Seq<char>>) -> Seq<char>
    decreases names.len(),
{
    if names.len() == 0 {
        Seq::empty()
    } else if names.len() == 1 {
        names[0]
    } else {
        comma_joined(names.drop_last()) + ", "@ + names.last()
    }
}

/// The names joined by `, `.
fn join_names(names: &Vec<String>) -> (r: String)
    ensures
        r@ == comma_joined(names@.map_values(|s: String| s@)),
{
    let ghost v = names@.map_values(|s: String| s@);
    if names.len() == 0 {
        return String::new();
    }
    let mut out = String::from_str(names[0].as_str());
    let mut i: usize = 1;
    proof {
        reveal_strlit(", ");
        assert(v.subrange(0, 1).drop_last() =~= Seq::<Seq<char>>::empty());
    }
    while i < names.len()
        invariant
            1 <= i <= names@.len(),
            v == names@.map_values(|s: String| s@),
            out@ == comma_joined(v.subrange(0, i as int)),
        decreases names@.len() - i,
    {
        assert(v.subrange(0, i + 1).drop_last() =~= v.subrange(0, i as int));
        out = out.concat(", ");
        out = out.concat(names[i].as_str());
        i += 1;
    }
    assert(v.subrange(0, names@.len() as int) =~= v);
    out
}

/// The names of the targets of `results`, of the failed ones only when
/// `failed_only`.
fn names_of(results: &Vec<TargetResult>, failed_only: bool) -> (r: Vec<String>)
    ensures
        r@.map_values(|s: String| s@) == if failed_only {
            failed_names(results@)
        } else {
            all_names(results@)
        },
{
    let mut out: Vec<String> = Vec::new();
    let mut i: usize = 0;
    while i < results.len()
        invariant
            i <= results@.len(),
            out@.map_values(|s: String| s@) == if failed_only {
                failed_names(results@.subrange(0, i as int))
            } else {
                all_names(results@.subrange(0, i as int))
            },
        decreases results@.len() - i,
    {
        assert(results@.subrange(0, i + 1).drop_last() =~= results@.subrange(0, i as int));
        let ghost before = out@;
        if !failed_only || !results[i].success {
            out.push(results[i].target.display());
            assert(out@.map_values(|s: String| s@) =~= before.map_values(|s: String| s@).push(out@.last()@));
        }
        i += 1;
    }
    assert(results@.subrange(0, results@.len() as int) =~= results@);
    out
}

/// The result of a run that waited for every target: successful when every
/// target succeeded, with all the results and their attempts added up.
pub fn summarize_all(results: Vec<TargetResult>, elapsed_ms: u64) -> (r: WaitResult)
    requires
        total_attempts(results@) <= u32::MAX,
    ensures
        r.success == all_succeeded(results@),
        r.attempts == total_attempts(results@),
        r.target_results@ == results@,
        millis_of(r.elapsed) == elapsed_ms as u128,
{
    let mut total: u32 = 0;
    let mut all_ok = true;
    let mut i: usize = 0;
    while i < results.len()
        invariant
            i <= results@.len(),
            total_attempts(results@) <= u32::MAX,
            total == total_attempts(results@.subrange(0, i as int)),
            all_ok == all_succeeded(results@.subrange(0, i as int)),
        decreases results@.len() - i,
    {
        let ghost pre = results@.subrange(0, i as int);
        let ghost next = results@.subrange(0, i + 1);
        assert(next.drop_last() =~= pre);
        proof {
            lemma_total_prefix(results@, i + 1);
        }
        total = total + results[i].attempts;
        if !results[i].success {
            all_ok = false;
            assert(!next[i as int].success);
            assert(!all_succeeded(next));
        } else {
            assert forall|j: int| 0 <= j < i + 1 && all_ok implies (#[trigger] next[j]).success by {
                if j < i {
                    assert(next[j] == pre[j]);
                }
            }
        }
        i += 1;
    }
    assert(results@.subrange(0, results@.len() as int) =~= results@);
    WaitResult { success: all_ok, elapsed: from_millis(elapsed_ms), attempts: total, target_results: results }
}

/// The attempts of all results, added up, saturating at `u64::MAX`.
pub fn total_attempts_of(results: &Vec<TargetResult>) -> (r: u64)
    ensures
        r == if total_attempts(results@) > u64::MAX {
            u64::MAX as nat
        } else {
            total_attempts(results@)
        },
{
    let mut total: u64 = 0;
    let mut saturated = false;
    let mut i: usize = 0;
    while i < results.len()
        invariant
            i <= results@.len(),
            saturated ==> total_attempts(results@.subrange(0, i as int)) > u64::MAX,
            !saturated ==> total == total_attempts(results@.subrange(0, i as int)),
        decreases results@.len() - i,
    {
        assert(results@.subrange(0, i + 1).drop_last() =~= results@.subrange(0, i as int));
        if !saturated {
            let a = results[i].attempts as u64;
            if a > u64::MAX - total {
                saturated = true;
            } else {
                total = total + a;
            }
        }
        i += 1;
    }
    assert(results@.subrange(0, results@.len() as int) =~= results@);
    if saturated {
        proof {
            lemma_total_prefix(results@, results@.len() as int);
        }
        u64::MAX
    } else {
        total
    }
}

/// The attempts of a prefix are no more than those of all results.
proof fn lemma_total_prefix(rs: Seq<TargetResult>, k: int)
    requires
        0 <= k <= rs.len(),
    ensures
        total_attempts(rs.subrange(0, k)) <= total_attempts(rs),
    decreases rs.len() - k,
{
    if k < rs.len() {
        lemma_total_prefix(rs, k + 1);
        assert(rs.subrange(0, k + 1).drop_last() =~= rs.subrange(0, k));
    } else {
        assert(rs.subrange(0, k) =~= rs);
    }
}

/// The outcome of a run that waited for every target: the summary when all
/// succeeded; else `TargetsFailed`, naming each failed target (joined by
/// `, `) and carrying the unsuccessful summary with every result.
pub fn wait_all_outcome(results: Vec<TargetResult>, elapsed_ms: u64) -> (r: Result<WaitResult, WaitForError>)
    requires
        total_attempts(results@) <= u32::MAX,
    ensures
        r is Ok <==> all_succeeded(results@),
        r matches Ok(w) ==> w.success && w.attempts == total_attempts(results@) && w.target_results@ == results@
            && millis_of(w.elapsed) == elapsed_ms as u128,
        r matches Err(e) ==> e matches WaitForError::TargetsFailed { targets, result } && {
            &&& targets@ == comma_joined(failed_names(results@))
            &&& !result.success
            &&& result.attempts == total_attempts(results@)
            &&& result.target_results@ == results@
            &&& millis_of(result.elapsed) == elapsed_ms as u128
        },
{
    let names = names_of(&results, true);
    let summary = summarize_all(results, elapsed_ms);
    if summary.success {
        Ok(summary)
    } else {
        Err(WaitForError::TargetsFailed { targets: join_names(&names), result: summary })
    }
}

/// The outcome of a run that waited for any target, from the results in the
/// order they ended: the first success alone, or `Timeout` naming every
/// target when none succeeded.
pub fn combine_any(results: Vec<TargetResult>, elapsed_ms: u64) -> (r: Result<WaitResult, WaitForError>)
    ensures
        r is Ok <==> exists|i: int| 0 <= i < results@.len() && (#[trigger] results@[i]).success,
        r matches Ok(w) ==> {
            &&& w.success
            &&& w.target_results@.len() == 1
            &&& exists|i: int|
                0 <= i < results@.len() && #[trigger] results@[i] == w.target_results@[0] && results@[i].success
                    && forall|j: int| 0 <= j < i ==> !(#[trigger] results@[j]).success
            &&& w.attempts == w.target_results@[0].attempts
            &&& millis_of(w.elapsed) == elapsed_ms as u128
        },
        r matches Err(e) ==> e matches WaitForError::Timeout { targets } && targets@ == comma_joined(
            all_names(results@),
        ),
{
    let mut i: usize = 0;
    while i < results.len()
        invariant
            i <= results@.len(),
            forall|j: int| 0 <= j < i ==> !(#[trigger] results@[j]).success,
        decreases results@.len() - i,
    {
        if results[i].success {
            let mut rs = results;
            let ghost orig = rs@;
            let winner = rs.remove(i);
            let attempts = winner.attempts;
            let mut list: Vec<TargetResult> = Vec::new();
            list.push(winner);
            assert(orig[i as int] == list@[0]);
            return Ok(WaitResult { success: true, elapsed: from_millis(elapsed_ms), attempts, target_results: list });
        }
        i += 1;
    }
    let names = names_of(&results, false);
    Err(WaitForError::Timeout { targets: join_names(&names) })
}

/// The checks before one attempt on `target` at `now_ms`: the validator's
/// first, then the rate limiter's; the first refusal is the result.
pub fn policy_gate(
    validator: &Option<SecurityValidator>,
    limiter: &mut Option<RateLimiter>,
    target: &Target,
    now_ms: u64,
) -> (r: Result<(), WaitForError>)
    requires
        (*old(limiter)) matches Some(l) ==> l.wf(),
    ensures
        (*final(limiter)) matches Some(l) ==> l.wf(),
        (*final(limiter)) is Some <==> (*old(limiter)) is Some,
        validator matches Some(v) && !target_allowed(v@, target@) ==> r is Err && *final(limiter) == *old(limiter),
        (validator matches Some(v) ==> target_allowed(v@, target@)) ==> match *old(limiter) {
            None => r is Ok,
            Some(l) => {
                let k = rate_key(target@);
                let before = recent(times_for(l@.entries, k), now_ms);
                &&& r is Ok <==> before.len() < l@.max_requests_per_minute
                &&& r is Ok ==> recent(times_for(final(limiter)->0@.entries, k), now_ms) == before.push(now_ms)
                &&& r is Err ==> recent(times_for(final(limiter)->0@.entries, k), now_ms) == before
            },
        },
{
    match validator {
        Some(v) => {
            match v.validate_target(target) {
                Ok(()) => {},
                Err(e) => {
                    return Err(e);
                },
            }
        },
        None => {},
    }
    match limiter {
        Some(l) => l.check_rate_limit_at(target, now_ms),
        None => Ok(()),
    }
}

} // verus!
