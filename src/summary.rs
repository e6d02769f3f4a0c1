//! Counting the results of a run.

use core::time::Duration;
use vstd::prelude::*;

use crate::probe::{total_attempts, TargetResult, WaitResult};
use crate::text::{decimal, decimal_text, join3};
use crate::time::{as_millis, clamp_u64, from_millis, millis_of};

verus! {

/// Counts over the results of a run.
#[derive(Debug, Clone, PartialEq, Eq)]
pub struct ResultSummary {
    pub total_targets: usize,
    pub successful_count: usize,
    pub failed_count: usize,
    pub total_attempts: u32,
    pub total_elapsed: Duration,
    pub fastest_response: Option<Duration>,
    pub slowest_response: Option<Duration>,
}

/// How many results succeeded.
pub open spec fn success_count(rs: Seq<TargetResult>) -> nat
    decreases rs.len(),
{
    if rs.len() == 0 {
        0
    } else {
        success_count(rs.drop_last()) + if rs.last().success {
            1nat
        } else {
            0nat
        }
    }
}

/// The elapsed milliseconds of all results, added up.
pub open spec fn elapsed_sum(rs: Seq<TargetResult>) -> nat
    decreases rs.len(),
{
    if rs.len() == 0 {
        0
    } else {
        elapsed_sum(rs.drop_last()) + millis_of(rs.last().elapsed) as nat
    }
}

/// `d` is the elapsed time of one of the results that `pick` keeps, and no
/// kept result took fewer (when `least`) or more milliseconds.
pub open spec fn extreme(rs: Seq<TargetResult>, d: Duration, only_successful: bool, least: bool) -> bool {
    &&& exists|i: int| 0 <= i < rs.len() && (!only_successful || rs[i].success) && #[trigger] rs[i].elapsed == d
    &&& forall|i: int|
        0 <= i < rs.len() && (!only_successful || rs[i].success) ==> if least {
            millis_of(d) <= millis_of(#[trigger] rs[i].elapsed)
        } else {
            millis_of(d) >= millis_of(#[trigger] rs[i].elapsed)
        }
}

/// Some result is kept.
pub open spec fn any_kept(rs: Seq<TargetResult>, only_successful: bool) -> bool {
    exists|i: int| 0 <= i < rs.len() && (!only_successful || (#[trigger] rs[i]).success)
}

/// The shortest (when `least`) or longest elapsed time among the results,
/// of the successful ones only when `only_successful`.
fn pick(rs: &[TargetResult], only_successful: bool, least: bool) -> (r: Option<Duration>)
    ensures
        r is Some <==> any_kept(rs@, only_successful),
        r matches Some(d) ==> extreme(rs@, d, only_successful, least),
{
    let mut best: Option<Duration> = None;
    let mut best_ms: u128 = 0;
    let mut i: usize = 0;
    while i < rs.len()
        invariant
            i <= rs@.len(),
            best is None ==> forall|j: int| 0 <= j < i ==> !(!only_successful || (#[trigger] rs@[j]).success),
            best matches Some(d) ==> best_ms == millis_of(d) && extreme(rs@.subrange(0, i as int), d, only_successful, least),
        decreases rs@.len() - i,
    {
        let ghost pre = rs@.subrange(0, i as int);
        let ghost next = rs@.subrange(0, i + 1);
        if !only_successful || rs[i].success {
            let ms = as_millis(rs[i].elapsed);
            let better = match best {
                None => true,
                Some(_) => if least {
                    ms < best_ms
                } else {
                    ms > best_ms
                },
            };
            if better {
                best = Some(rs[i].elapsed);
                best_ms = ms;
            }
        }
        proof {
            match best {
                Some(d) => {
                    assert forall|j: int| 0 <= j < next.len() && (!only_successful || next[j].success) implies if least {
                        millis_of(d) <= millis_of(#[trigger] next[j].elapsed)
                    } else {
                        millis_of(d) >= millis_of(#[trigger] next[j].elapsed)
                    } by {
                        if j < i {
                            assert(next[j] == pre[j]);
                        }
                    }
                    if exists|j: int| 0 <= j < pre.len() && (!only_successful || pre[j].success) && #[trigger] pre[j].elapsed == d {
                        let j = choose|j: int| 0 <= j < pre.len() && (!only_successful || pre[j].success) && #[trigger] pre[j].elapsed == d;
                        assert(next[j] == pre[j]);
                    } else {
                        assert(next[i as int].elapsed == d);
                    }
                },
                None => {},
            }
        }
        i += 1;
    }
    assert(rs@.subrange(0, rs@.len() as int) =~= rs@);
    best
}

/// The number of successful results and the attempts and milliseconds of
/// all, added up; the milliseconds saturate.
fn count_results(rs: &[TargetResult]) -> (r: (usize, u32, u64))
    requires
        total_attempts(rs@) <= u32::MAX,
    ensures
        r.0 == success_count(rs@),
        r.0 <= rs@.len(),
        r.1 == total_attempts(rs@),
        r.2 == clamp_u64(if elapsed_sum(rs@) > u128::MAX { u128::MAX } else { elapsed_sum(rs@) as u128 }),
{
    let mut ok: usize = 0;
    let mut attempts: u32 = 0;
    let mut ms: u128 = 0;
    let mut saturated = false;
    let mut i: usize = 0;
    while i < rs.len()
        invariant
            i <= rs@.len(),
            total_attempts(rs@) <= u32::MAX,
            ok == success_count(rs@.subrange(0, i as int)),
            ok <= i,
            attempts == total_attempts(rs@.subrange(0, i as int)),
            saturated ==> elapsed_sum(rs@.subrange(0, i as int)) > u64::MAX,
            !saturated ==> ms == elapsed_sum(rs@.subrange(0, i as int)) && ms <= u64::MAX,
        decreases rs@.len() - i,
    {
        let ghost pre = rs@.subrange(0, i as int);
        assert(rs@.subrange(0, i + 1).drop_last() =~= pre);
        proof {
            lemma_attempts_prefix(rs@, i + 1);
        }
        if rs[i].success {
            ok = ok + 1;
        }
        attempts = attempts + rs[i].attempts;
        let e = as_millis(rs[i].elapsed);
        if !saturated {
            if e > u64::MAX as u128 - ms {
                saturated = true;
            } else {
                ms = ms + e;
            }
        }
        i += 1;
    }
    assert(rs@.subrange(0, rs@.len() as int) =~= rs@);
    (ok, attempts, if saturated { u64::MAX } else { ms as u64 })
}

/// The attempts of a prefix are no more than those of all results.
proof fn lemma_attempts_prefix(rs: Seq<TargetResult>, k: int)
    requires
        0 <= k <= rs.len(),
    ensures
        total_attempts(rs.subrange(0, k)) <= total_attempts(rs),
    decreases rs.len() - k,
{
    if k < rs.len() {
        lemma_attempts_prefix(rs, k + 1);
        assert(rs.subrange(0, k + 1).drop_last() =~= rs.subrange(0, k));
    } else {
        assert(rs.subrange(0, k) =~= rs);
    }
}

/// The counts over `results`: their elapsed times added up, the shortest
/// and the longest of all.
pub fn summary_of(results: &[TargetResult]) -> (r: ResultSummary)
    requires
        total_attempts(results@) <= u32::MAX,
    ensures
        r.total_targets == results@.len(),
        r.successful_count == success_count(results@),
        r.failed_count == results@.len() - success_count(results@),
        r.total_attempts == total_attempts(results@),
        millis_of(r.total_elapsed) == if elapsed_sum(results@) > u64::MAX {
            u64::MAX as nat
        } else {
            elapsed_sum(results@)
        },
        r.fastest_response is Some <==> results@.len() > 0,
        r.fastest_response matches Some(d) ==> extreme(results@, d, false, true),
        r.slowest_response is Some <==> results@.len() > 0,
        r.slowest_response matches Some(d) ==> extreme(results@, d, false, false),
{
    let (ok, attempts, ms) = count_results(results);
    let fastest = pick(results, false, true);
    let slowest = pick(results, false, false);
    proof {
        if results@.len() > 0 {
            assert(any_kept(results@, false)) by {
                assert(results@[0] == results@[0]);
            }
        }
    }
    ResultSummary {
        total_targets: results.len(),
        successful_count: ok,
        failed_count: results.len() - ok,
        total_attempts: attempts,
        total_elapsed: from_millis(ms),
        fastest_response: fastest,
        slowest_response: slowest,
    }
}

impl ResultSummary {
    /// `Targets: ok/total successful, n attempts, elapsed: …ms`.
    pub fn to_text(&self) -> (r: String)
        ensures
            r@ == "Targets: "@ + decimal(self.successful_count as nat) + "/"@ + decimal(self.total_targets as nat)
                + " successful, "@ + decimal(self.total_attempts as nat) + " attempts, elapsed: "@ + decimal(
                clamp_u64(millis_of(self.total_elapsed)) as nat,
            ) + "ms"@,
    {
        let a = join3("Targets: ", decimal_text(self.successful_count as u64).as_str(), "/");
        let b = join3(a.as_str(), decimal_text(self.total_targets as u64).as_str(), " successful, ");
        let c = join3(b.as_str(), decimal_text(self.total_attempts as u64).as_str(), " attempts, elapsed: ");
        let ms = as_millis(self.total_elapsed);
        let ms64: u64 = if ms > u64::MAX as u128 {
            u64::MAX
        } else {
            ms as u64
        };
        join3(c.as_str(), decimal_text(ms64).as_str(), "ms")
    }
}

impl WaitResult {
    /// The results that succeeded, in order.
    pub fn successful_results(&self) -> (r: Vec<&TargetResult>)
        ensures
            forall|i: int| 0 <= i < r@.len() ==> (#[trigger] r@[i]).success,
            r@.len() == success_count(self.target_results@),
    {
        let mut out: Vec<&TargetResult> = Vec::new();
        let mut i: usize = 0;
        while i < self.target_results.len()
            invariant
                i <= self.target_results@.len(),
                forall|j: int| 0 <= j < out@.len() ==> (#[trigger] out@[j]).success,
                out@.len() == success_count(self.target_results@.subrange(0, i as int)),
            decreases self.target_results@.len() - i,
        {
            assert(self.target_results@.subrange(0, i + 1).drop_last() =~= self.target_results@.subrange(0, i as int));
            if self.target_results[i].success {
                out.push(&self.target_results[i]);
            }
            i += 1;
        }
        assert(self.target_results@.subrange(0, self.target_results@.len() as int) =~= self.target_results@);
        out
    }

    /// The results that failed, in order.
    pub fn failed_results(&self) -> (r: Vec<&TargetResult>)
        ensures
            forall|i: int| 0 <= i < r@.len() ==> !(#[trigger] r@[i]).success,
            r@.len() == self.target_results@.len() - success_count(self.target_results@),
    {
        let mut out: Vec<&TargetResult> = Vec::new();
        let mut i: usize = 0;
        while i < self.target_results.len()
            invariant
                i <= self.target_results@.len(),
                forall|j: int| 0 <= j < out@.len() ==> !(#[trigger] out@[j]).success,
                out@.len() == i - success_count(self.target_results@.subrange(0, i as int)),
                success_count(self.target_results@.subrange(0, i as int)) <= i,
            decreases self.target_results@.len() - i,
        {
            assert(self.target_results@.subrange(0, i + 1).drop_last() =~= self.target_results@.subrange(0, i as int));
            if !self.target_results[i].success {
                out.push(&self.target_results[i]);
            }
            i += 1;
        }
        assert(self.target_results@.subrange(0, self.target_results@.len() as int) =~= self.target_results@);
        out
    }

    /// The counts over this run: its own elapsed time, the shortest time of
    /// a successful target and the longest of all.
    pub fn summary(&self) -> (r: ResultSummary)
        requires
            total_attempts(self.target_results@) <= u32::MAX,
        ensures
            r.total_targets == self.target_results@.len(),
            r.successful_count == success_count(self.target_results@),
            r.failed_count == self.target_results@.len() - success_count(self.target_results@),
            r.total_attempts == total_attempts(self.target_results@),
            r.total_elapsed == self.elapsed,
            r.fastest_response is Some <==> any_kept(self.target_results@, true),
            r.fastest_response matches Some(d) ==> extreme(self.target_results@, d, true, true),
            r.slowest_response is Some <==> self.target_results@.len() > 0,
            r.slowest_response matches Some(d) ==> extreme(self.target_results@, d, false, false),
    {
        let (ok, attempts, _) = count_results(self.target_results.as_slice());
        let fastest = pick(self.target_results.as_slice(), true, true);
        let slowest = pick(self.target_results.as_slice(), false, false);
        proof {
            if self.target_results@.len() > 0 {
                assert(any_kept(self.target_results@, false)) by {
                    assert(self.target_results@[0] == self.target_results@[0]);
                }
            }
        }
        ResultSummary {
            total_targets: self.target_results.len(),
            successful_count: ok,
            failed_count: self.target_results.len() - ok,
            total_attempts: attempts,
            total_elapsed: self.elapsed,
            fastest_response: fastest,
            slowest_response: slowest,
        }
    }
}

} // verus!
