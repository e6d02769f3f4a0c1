//! Properties that relate several operations of the library.

use vstd::prelude::*;

use crate::duration::parsed_duration;
use core::time::Duration;
use crate::probe::{all_succeeded, exhausted_message, failed_names, timeout_message, total_attempts, TargetResult};
use crate::error::WaitForError;
use crate::rate_limit::{rate_step, recent, times_for, within_minute, RateView};
use crate::security::{port_allowed, private_host, target_allowed, ValidatorView};
use crate::target::{display_of, parsed_target, TargetView};
use crate::types::{ipv4_octet, is_ipv4};

verus! {

/// A run over no targets succeeds, with no attempt and no result.
pub proof fn lemma_empty_run(results: Seq<TargetResult>)
    requires
        results.len() == 0,
    ensures
        all_succeeded(results),
        total_attempts(results) == 0,
        failed_names(results).len() == 0,
{
}

/// A run that waits for every target fails as soon as one target failed,
/// and names that target among the failed ones.
pub proof fn lemma_all_fails_on_one_failure(results: Seq<TargetResult>, i: int)
    requires
        0 <= i < results.len(),
        !results[i].success,
    ensures
        !all_succeeded(results),
        failed_names(results).contains(display_of(results[i].target@)),
    decreases results.len(),
{
    let name = display_of(results[i].target@);
    if i < results.len() - 1 {
        lemma_all_fails_on_one_failure(results.drop_last(), i);
        assert(results.drop_last()[i] == results[i]);
        let before = failed_names(results.drop_last());
        let j = choose|j: int| 0 <= j < before.len() && before[j] == name;
        if !results.last().success {
            assert(before.push(display_of(results.last().target@))[j] == name);
        }
    } else {
        let before = failed_names(results.drop_last());
        assert(before.push(name)[before.len() as int] == name);
    }
}

/// The error of a target that failed is never empty: the deadline and the
/// exhaustion of attempts both say so in words.
pub proof fn lemma_failure_text_nonempty(max: u32, last: Seq<char>)
    ensures
        timeout_message().len() > 0,
        exhausted_message(max, last).len() > 0,
{
    reveal_strlit("overall timeout exceeded");
    reveal_strlit("Max retries (");
}

/// An attempt that counts at a later time counted at every earlier time.
proof fn lemma_window_back(t: u64, now: u64, later: u64)
    requires
        now <= later,
        within_minute(t, later),
    ensures
        within_minute(t, now),
{
}

/// Moving the window forward only drops attempts: pruning at `now` and then
/// counting at a later time counts what counting at that time alone counts.
pub proof fn lemma_window_forward(ts: Seq<u64>, now: u64, later: u64)
    requires
        now <= later,
    ensures
        recent(recent(ts, now), later) == recent(ts, later),
    decreases ts.len(),
{
    if ts.len() > 0 {
        lemma_window_forward(ts.drop_last(), now, later);
        let r = recent(ts.drop_last(), now);
        if within_minute(ts.last(), now) {
            assert(r.push(ts.last()).drop_last() =~= r);
        } else if within_minute(ts.last(), later) {
            lemma_window_back(ts.last(), now, later);
        }
    }
}

/// The production policy refuses port 22 on any host, and any host written
/// as a private IPv4 address, such as 192.168.1.1.
pub proof fn lemma_production_refuses(v: ValidatorView, host: Seq<char>, port: u16)
    requires
        v.allowed_ports == Some(seq![80u16, 443, 8080, 8443]),
        !v.allow_private_ips,
        v.blocked_ports.contains(22),
    ensures
        !target_allowed(v, TargetView::Tcp { host, port: 22 }),
        is_ipv4(host) && ipv4_octet(host, 0) == 192 && ipv4_octet(host, 1) == 168 ==> !target_allowed(
            v,
            TargetView::Tcp { host, port },
        ),
{
    assert(!port_allowed(v, 22));
    if is_ipv4(host) && ipv4_octet(host, 0) == 192 && ipv4_octet(host, 1) == 168 {
        assert(private_host(host));
    }
}

/// Reading the same text twice gives bit-identical durations, or fails
/// both times.
pub proof fn lemma_duration_read_twice(s: Seq<char>, first: Option<Duration>, second: Option<Duration>)
    requires
        first == parsed_duration(s),
        second == parsed_duration(s),
    ensures
        first == second,
{
}

/// Parsing the same text twice gives equal targets.
pub proof fn lemma_target_parse_twice(s: Seq<char>, status: u16, first: TargetView, second: TargetView)
    requires
        parsed_target(s, status) == Some(first),
        parsed_target(s, status) == Some(second),
    ensures
        first == second,
{
}

/// Attempts admitted on a key at times within the last minute of `later`
/// all still count at `later`.
pub proof fn lemma_admitted_count(states: Seq<RateView>, times: Seq<u64>, k: Seq<char>, later: u64)
    requires
        states.len() == times.len() + 1,
        forall|i: int| 0 <= i < times.len() ==> #[trigger] rate_step(states[i], states[i + 1], k, times[i], Ok(())),
        forall|i: int| 0 <= i < times.len() ==> #[trigger] times[i] <= later && within_minute(times[i], later),
    ensures
        recent(times_for(states.last().entries, k), later).len() >= times.len(),
    decreases times.len(),
{
    let n = times.len();
    if n > 0 {
        let ps = states.drop_last();
        let pt = times.drop_last();
        assert forall|i: int| 0 <= i < pt.len() implies #[trigger] rate_step(ps[i], ps[i + 1], k, pt[i], Ok(())) by {
            assert(rate_step(states[i], states[i + 1], k, times[i], Ok(())));
        }
        assert forall|i: int| 0 <= i < pt.len() implies #[trigger] pt[i] <= later && within_minute(pt[i], later) by {
            assert(times[i] <= later && within_minute(times[i], later));
        }
        lemma_admitted_count(ps, pt, k, later);
        let t = times[n - 1];
        assert(t <= later && within_minute(t, later));
        assert(rate_step(states[n - 1], states[n as int], k, t, Ok(())));
        let x = times_for(states[n as int].entries, k);
        let y = times_for(states[n - 1].entries, k);
        assert(ps.last() == states[n - 1]);
        lemma_window_forward(x, t, later);
        lemma_window_forward(y, t, later);
        let ry = recent(y, t);
        assert(ry.push(t).drop_last() =~= ry);
        assert(recent(ry.push(t), later) == recent(ry, later).push(t));
    }
}

/// With a ceiling of `max`, once `max` attempts on a key were admitted
/// within the last minute, the next check on that key fails; checks on
/// other keys leave the count of this one as it was.
pub proof fn lemma_rate_limit_ceiling(
    states: Seq<RateView>,
    times: Seq<u64>,
    k: Seq<char>,
    later: u64,
    after: RateView,
    r: Result<(), WaitForError>,
)
    requires
        states.len() == times.len() + 1,
        times.len() == states.last().max_requests_per_minute,
        forall|i: int| 0 <= i < times.len() ==> #[trigger] rate_step(states[i], states[i + 1], k, times[i], Ok(())),
        forall|i: int| 0 <= i < times.len() ==> #[trigger] times[i] <= later && within_minute(times[i], later),
        rate_step(states.last(), after, k, later, r),
    ensures
        r is Err,
{
    lemma_admitted_count(states, times, k, later);
}

} // verus!
