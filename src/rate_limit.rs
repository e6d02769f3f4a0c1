//! A sliding-window cap on attempts per target.

use core::time::Duration;
use std::time::SystemTime;
use vstd::prelude::*;
use vstd::string::*;

use crate::error::WaitForError;
use crate::target::{Target, TargetView};
use crate::text::{decimal, decimal_text, join2, join3, same_text};
use crate::time::duration_to_millis_u64;
use crate::probe::since;

verus! {

/// The length of the window, in milliseconds.
pub const WINDOW_MS: u64 = 60000;

/// The default wait between two prunings of old attempts, in milliseconds.
pub const CLEANUP_INTERVAL_MS: u64 = 300000;

/// An attempt at `t` still counts at `now`: less than a minute has passed.
pub open spec fn within_minute(t: u64, now: u64) -> bool {
    (now as int) - (t as int) < WINDOW_MS as int
}

/// The attempts of `ts` that still count at `now`, in their order.
pub open spec fn recent(ts: Seq<u64>, now: u64) -> Seq<u64>
    decreases ts.len(),
{
    if ts.len() == 0 {
        ts
    } else if within_minute(ts.last(), now) {
        recent(ts.drop_last(), now).push(ts.last())
    } else {
        recent(ts.drop_last(), now)
    }
}

/// The port that an HTTP target uses when its URL names none.
pub open spec fn default_port(scheme: Seq<char>) -> u16 {
    if scheme == "https"@ {
        443
    } else {
        80
    }
}

/// The key under which attempts on a target are counted:
/// `tcp://host:port`, or `http://host:port` for HTTP and HTTPS alike.
pub open spec fn rate_key(t: TargetView) -> Seq<char> {
    match t {
        TargetView::Tcp { host, port } => "tcp://"@ + host + ":"@ + decimal(port as nat),
        TargetView::Http { url, .. } => "http://"@ + match url.host {
            Some(h) => h,
            None => "unknown"@,
        } + ":"@ + decimal(
            match url.port {
                Some(p) => p,
                None => default_port(url.scheme),
            } as nat,
        ),
    }
}

/// The attempts recorded for `key`: those of its entry, or none.
pub open spec fn times_for(entries: Seq<(Seq<char>, Seq<u64>)>, key: Seq<char>) -> Seq<u64>
    decreases entries.len(),
{
    if entries.len() == 0 {
        Seq::empty()
    } else if entries[0].0 == key {
        entries[0].1
    } else {
        times_for(entries.drop_first(), key)
    }
}

/// No two entries share a key.
pub open spec fn distinct_keys(entries: Seq<(Seq<char>, Seq<u64>)>) -> bool {
    forall|i: int, j: int| 0 <= i < j < entries.len() ==> entries[i].0 != entries[j].0
}

/// What a rate limiter holds.
pub struct RateView {
    pub entries: Seq<(Seq<char>, Seq<u64>)>,
    pub max_requests_per_minute: u32,
    pub cleanup_interval_ms: u64,
    pub last_cleanup_ms: u64,
}

#[derive(Debug)]
struct RateEntry {
    key: String,
    times: Vec<u64>,
}

/// Caps the attempts on each target within any minute.
#[derive(Debug)]
pub struct RateLimiter {
    limits: Vec<RateEntry>,
    max_requests_per_minute: u32,
    cleanup_interval_ms: u64,
    last_cleanup_ms: u64,
}

/// The entries as pairs of key and attempt times.
spec fn entry_views(v: Seq<RateEntry>) -> Seq<(Seq<char>, Seq<u64>)> {
    v.map_values(|e: RateEntry| (e.key@, e.times@))
}

impl View for RateLimiter {
    type V = RateView;

    closed spec fn view(&self) -> RateView {
        RateView {
            entries: entry_views(self.limits@),
            max_requests_per_minute: self.max_requests_per_minute,
            cleanup_interval_ms: self.cleanup_interval_ms,
            last_cleanup_ms: self.last_cleanup_ms,
        }
    }
}

/// Relies on `SystemTime::now`: the time on the system clock.
#[verifier::external_body]
fn system_now() -> (r: SystemTime) {
    SystemTime::now()
}

/// Relies on `SystemTime::duration_since`: the time from the Unix epoch to
/// `t`, or zero for a time before it.
#[verifier::external_body]
fn since_epoch(t: SystemTime) -> (r: Duration) {
    t.duration_since(std::time::UNIX_EPOCH).unwrap_or_default()
}

/// The milliseconds since the Unix epoch, saturating.
fn now_millis() -> (r: u64) {
    duration_to_millis_u64(since_epoch(system_now()))
}

/// Keeping what counts at `now` twice keeps the same attempts.
proof fn lemma_recent_idem(ts: Seq<u64>, now: u64)
    ensures
        recent(recent(ts, now), now) == recent(ts, now),
    decreases ts.len(),
{
    if ts.len() > 0 {
        lemma_recent_idem(ts.drop_last(), now);
        let r = recent(ts.drop_last(), now);
        if within_minute(ts.last(), now) {
            assert(r.push(ts.last()).drop_last() =~= r);
        }
    }
}

/// With distinct keys, the attempts of a key are those of its entry, or none.
proof fn lemma_lookup(e: Seq<(Seq<char>, Seq<u64>)>, key: Seq<char>)
    requires
        distinct_keys(e),
    ensures
        forall|i: int| 0 <= i < e.len() && #[trigger] e[i].0 == key ==> times_for(e, key) == e[i].1,
        (forall|i: int| 0 <= i < e.len() ==> #[trigger] e[i].0 != key) ==> times_for(e, key) == Seq::<u64>::empty(),
    decreases e.len(),
{
    if e.len() > 0 {
        let t = e.drop_first();
        assert(distinct_keys(t)) by {
            assert forall|i: int, j: int| 0 <= i < j < t.len() implies t[i].0 != t[j].0 by {
                assert(t[i] == e[i + 1] && t[j] == e[j + 1]);
            }
        }
        lemma_lookup(t, key);
        assert forall|i: int| 0 <= i < e.len() && #[trigger] e[i].0 == key implies times_for(e, key) == e[i].1 by {
            if i > 0 {
                assert(t[i - 1] == e[i]);
                assert(e[0].0 != key);
            }
        }
        if forall|i: int| 0 <= i < e.len() ==> #[trigger] e[i].0 != key {
            assert forall|i: int| 0 <= i < t.len() implies #[trigger] t[i].0 != key by {
                assert(t[i] == e[i + 1]);
            }
        }
    }
}

/// The attempts of `ts` that still count at `now`.
fn recent_times(ts: &Vec<u64>, now: u64) -> (r: Vec<u64>)
    ensures
        r@ == recent(ts@, now),
{
    let mut r: Vec<u64> = Vec::new();
    let mut i: usize = 0;
    while i < ts.len()
        invariant
            i <= ts@.len(),
            r@ == recent(ts@.subrange(0, i as int), now),
        decreases ts@.len() - i,
    {
        let t = ts[i];
        assert(ts@.subrange(0, i + 1).drop_last() =~= ts@.subrange(0, i as int));
        if now < t || now - t < WINDOW_MS {
            r.push(t);
        }
        i += 1;
    }
    assert(ts@.subrange(0, ts@.len() as int) =~= ts@);
    r
}

/// The key under which attempts on `target` are counted.
pub fn rate_limit_key(target: &Target) -> (r: String)
    ensures
        r@ == rate_key(target@),
{
    proof {
        reveal_strlit("tcp://");
        reveal_strlit("http://");
        reveal_strlit(":");
        reveal_strlit("unknown");
        reveal_strlit("https");
    }
    match target {
        Target::Tcp { host, port } => {
            let head = join3("tcp://", host.as_str(), ":");
            join2(head.as_str(), decimal_text(port.get() as u64).as_str())
        },
        Target::Http { url, .. } => {
            let host = match url.host_str() {
                Some(h) => h,
                None => "unknown",
            };
            let port: u16 = match url.port() {
                Some(p) => p,
                None => if same_text(url.scheme(), "https") {
                    443
                } else {
                    80
                },
            };
            let head = join3("http://", host, ":");
            join2(head.as_str(), decimal_text(port as u64).as_str())
        },
    }
}

/// One check on the key `k` at `now`, from `before` to `after`, with
/// outcome `r`: admitted exactly when fewer than the ceiling of attempts
/// count at `now`, and then recorded; other keys keep the attempts that count.
pub open spec fn rate_step(before: RateView, after: RateView, k: Seq<char>, now: u64, r: Result<(), WaitForError>) -> bool {
    let counted = recent(times_for(before.entries, k), now);
    &&& after.max_requests_per_minute == before.max_requests_per_minute
    &&& after.cleanup_interval_ms == before.cleanup_interval_ms
    &&& (r is Ok <==> counted.len() < before.max_requests_per_minute)
    &&& (r is Ok ==> recent(times_for(after.entries, k), now) == counted.push(now))
    &&& (r is Err ==> recent(times_for(after.entries, k), now) == counted)
    &&& (r is Err ==> r == Err::<(), WaitForError>(
        WaitForError::RetryLimitExceeded { limit: before.max_requests_per_minute },
    ))
    &&& forall|k2: Seq<char>|
        k2 != k ==> #[trigger] recent(times_for(after.entries, k2), now) == recent(times_for(before.entries, k2), now)
}

impl RateLimiter {
    /// Keys are distinct.
    pub closed spec fn wf(&self) -> bool {
        distinct_keys(self@.entries)
    }

    /// A limiter that admits `max_requests_per_minute` attempts per target in
    /// any minute, with no attempt recorded yet.
    pub fn new(max_requests_per_minute: u32) -> (r: RateLimiter)
        ensures
            r.wf(),
            r@.max_requests_per_minute == max_requests_per_minute,
            r@.cleanup_interval_ms == CLEANUP_INTERVAL_MS,
            forall|k: Seq<char>| #[trigger] times_for(r@.entries, k) == Seq::<u64>::empty(),
    {
        let r = RateLimiter {
            limits: Vec::new(),
            max_requests_per_minute,
            cleanup_interval_ms: CLEANUP_INTERVAL_MS,
            last_cleanup_ms: now_millis(),
        };
        assert(r@.entries =~= Seq::<(Seq<char>, Seq<u64>)>::empty());
        r
    }

    /// A limiter with the same ceiling, interval and recorded attempts,
    /// whose last pruning is now.
    pub fn duplicate(&self) -> (r: RateLimiter)
        ensures
            r.wf() == self.wf(),
            r@.entries == self@.entries,
            r@.max_requests_per_minute == self@.max_requests_per_minute,
            r@.cleanup_interval_ms == self@.cleanup_interval_ms,
    {
        let mut limits: Vec<RateEntry> = Vec::new();
        let mut i: usize = 0;
        while i < self.limits.len()
            invariant
                i <= self.limits@.len(),
                limits@.len() == i,
                forall|j: int| 0 <= j < i ==> #[trigger] entry_views(limits@)[j] == entry_views(self.limits@)[j],
            decreases self.limits@.len() - i,
        {
            let mut times: Vec<u64> = Vec::new();
            let mut k: usize = 0;
            while k < self.limits[i].times.len()
                invariant
                    i < self.limits@.len(),
                    k <= self.limits@[i as int].times@.len(),
                    times@ == self.limits@[i as int].times@.subrange(0, k as int),
                decreases self.limits@[i as int].times@.len() - k,
            {
                times.push(self.limits[i].times[k]);
                k += 1;
                assert(times@ =~= self.limits@[i as int].times@.subrange(0, k as int));
            }
            assert(times@ =~= self.limits@[i as int].times@);
            let ghost before = limits@;
            let key = self.limits[i].key.clone();
            let ghost tv = times@;
            limits.push(RateEntry { key, times });
            proof {
                assert(limits@[i as int].key@ == self.limits@[i as int].key@);
                assert(limits@[i as int].times@ == tv);
                assert(entry_views(limits@)[i as int] == entry_views(self.limits@)[i as int]);
                assert forall|j: int| 0 <= j < i + 1 implies #[trigger] entry_views(limits@)[j]
                    == entry_views(self.limits@)[j] by {
                    if j < i {
                        assert(limits@[j] == before[j]);
                        assert(entry_views(before)[j] == entry_views(self.limits@)[j]);
                    }
                }
            }
            i += 1;
        }
        let r = RateLimiter {
            limits,
            max_requests_per_minute: self.max_requests_per_minute,
            cleanup_interval_ms: self.cleanup_interval_ms,
            last_cleanup_ms: now_millis(),
        };
        assert(r@.entries =~= self@.entries);
        r
    }

    /// Whether no two entries share a key.
    pub fn is_well_formed(&self) -> (r: bool)
        ensures
            r == self.wf(),
    {
        let n = self.limits.len();
        let mut i: usize = 0;
        while i < n
            invariant
                n == self@.entries.len(),
                n == self.limits@.len(),
                i <= n,
                forall|a: int, b: int| 0 <= a < b < n && a < i ==> self@.entries[a].0 != self@.entries[b].0,
            decreases n - i,
        {
            let mut j: usize = i + 1;
            while j < n
                invariant
                    n == self@.entries.len(),
                    n == self.limits@.len(),
                    i < n,
                    i + 1 <= j <= n,
                    forall|a: int, b: int| 0 <= a < b < n && a < i ==> self@.entries[a].0 != self@.entries[b].0,
                    forall|b: int| i < b < j ==> self@.entries[i as int].0 != self@.entries[b].0,
                decreases n - j,
            {
                if same_text(self.limits[i].key.as_str(), self.limits[j].key.as_str()) {
                    assert(self@.entries[i as int].0 == self@.entries[j as int].0);
                    return false;
                }
                j += 1;
            }
            i += 1;
        }
        true
    }

    /// The index of the entry for `key`, if there is one.
    fn find_key(&self, key: &str) -> (r: Option<usize>)
        ensures
            r matches Some(i) ==> i < self@.entries.len() && self@.entries[i as int].0 == key@,
            r is None ==> forall|j: int| 0 <= j < self@.entries.len() ==> #[trigger] self@.entries[j].0 != key@,
    {
        let mut i: usize = 0;
        while i < self.limits.len()
            invariant
                i <= self@.entries.len(),
                self@.entries.len() == self.limits@.len(),
                forall|j: int| 0 <= j < i ==> #[trigger] self@.entries[j].0 != key@,
            decreases self.limits@.len() - i,
        {
            if same_text(self.limits[i].key.as_str(), key) {
                return Some(i);
            }
            i += 1;
        }
        None
    }

    /// Prunes, from every key, the attempts that no longer count at `now_ms`,
    /// once more than the cleanup interval has passed since the last pruning.
    #[verifier::spinoff_prover]
    fn cleanup_if_needed(&mut self, now_ms: u64)
        requires
            old(self).wf(),
        ensures
            final(self).wf(),
            final(self)@.max_requests_per_minute == old(self)@.max_requests_per_minute,
            final(self)@.cleanup_interval_ms == old(self)@.cleanup_interval_ms,
            final(self)@.entries.len() == old(self)@.entries.len(),
            forall|i: int|
                0 <= i < old(self)@.entries.len() ==> #[trigger] final(self)@.entries[i].0 == old(self)@.entries[i].0
                    && recent(final(self)@.entries[i].1, now_ms) == recent(old(self)@.entries[i].1, now_ms),
            since(now_ms, old(self)@.last_cleanup_ms) > old(self)@.cleanup_interval_ms ==> {
                &&& final(self)@.last_cleanup_ms == now_ms
                &&& forall|i: int|
                    0 <= i < old(self)@.entries.len() ==> #[trigger] final(self)@.entries[i].1 == recent(
                        old(self)@.entries[i].1,
                        now_ms,
                    )
            },
            since(now_ms, old(self)@.last_cleanup_ms) <= old(self)@.cleanup_interval_ms ==> final(self)@ == old(self)@,
    {
        let elapsed: u64 = if now_ms > self.last_cleanup_ms {
            now_ms - self.last_cleanup_ms
        } else {
            0
        };
        if elapsed <= self.cleanup_interval_ms {
            return;
        }
        let ghost before = self@;
        self.last_cleanup_ms = now_ms;
        let ghost orig = self@;
        assert(orig.entries == before.entries);
        let mut i: usize = 0;
        while i < self.limits.len()
            invariant
                i <= self.limits@.len(),
                self@.entries.len() == self.limits@.len(),
                self@.entries.len() == orig.entries.len(),
                self@.max_requests_per_minute == orig.max_requests_per_minute,
                self@.cleanup_interval_ms == orig.cleanup_interval_ms,
                distinct_keys(orig.entries),
                self@.last_cleanup_ms == now_ms,
                forall|j: int|
                    0 <= j < orig.entries.len() ==> #[trigger] self@.entries[j].0 == orig.entries[j].0
                        && recent(self@.entries[j].1, now_ms) == recent(orig.entries[j].1, now_ms),
                forall|j: int| 0 <= j < i ==> #[trigger] self@.entries[j].1 == recent(orig.entries[j].1, now_ms),
                forall|j: int| i <= j < orig.entries.len() ==> #[trigger] self@.entries[j] == orig.entries[j],
            decreases self.limits@.len() - i,
        {
            let pruned = recent_times(&self.limits[i].times, now_ms);
            let key = self.limits[i].key.clone();
            proof {
                lemma_recent_idem(self@.entries[i as int].1, now_ms);
            }
            let ghost prev = self.limits@;
            let ghost prev_e = self@.entries;
            let ghost pv = pruned@;
            self.limits.set(i, RateEntry { key, times: pruned });
            proof {
                assert forall|j: int| 0 <= j < self.limits@.len() && j != i implies #[trigger] self@.entries[j]
                    == prev_e[j] by {
                    assert(self.limits@[j] == prev[j]);
                }
                assert(self@.entries[i as int].1 == pv);
                assert(prev_e[i as int] == orig.entries[i as int]);
                assert(self@.entries[i as int].0 == prev_e[i as int].0);
                assert(recent(pv, now_ms) == recent(prev_e[i as int].1, now_ms));
            }
            i += 1;
        }
        assert(distinct_keys(self@.entries));
    }

    /// Records an attempt on `target` at `now_ms` when fewer than the ceiling
    /// of attempts on its key count at that time; otherwise refuses it with
    /// `RetryLimitExceeded`. Other keys keep the attempts that count.
    #[verifier::spinoff_prover]
    pub fn check_rate_limit_at(&mut self, target: &Target, now_ms: u64) -> (r: Result<(), WaitForError>)
        requires
            old(self).wf(),
        ensures
            final(self).wf(),
            rate_step(old(self)@, final(self)@, rate_key(target@), now_ms, r),
    {
        let key = rate_limit_key(target);
        let ghost k = key@;
        let ghost e0 = self@.entries;
        self.cleanup_if_needed(now_ms);
        let ghost e1 = self@.entries;
        proof {
            lemma_entries_agree(e0, e1, now_ms);
        }
        let max = self.max_requests_per_minute;
        match self.find_key(key.as_str()) {
            None => {
                let mut times: Vec<u64> = Vec::new();
                let ok = 0 < max;
                if ok {
                    times.push(now_ms);
                }
                self.limits.push(RateEntry { key, times });
                proof {
                    let e2 = self@.entries;
                    assert(e2 =~= e1.push(e2.last()));
                    assert(distinct_keys(e2));
                    lemma_lookup(e1, k);
                    lemma_lookup(e2, k);
                    assert(e2[e2.len() - 1].0 == k);
                    assert(recent(Seq::<u64>::empty(), now_ms) == Seq::<u64>::empty());
                    assert(recent(seq![now_ms], now_ms) =~= seq![now_ms]) by {
                        assert(seq![now_ms].drop_last() =~= Seq::<u64>::empty());
                    }
                    assert(Seq::<u64>::empty().push(now_ms) =~= seq![now_ms]);
                    assert(recent(times_for(e1, k), now_ms) == recent(times_for(e0, k), now_ms));
                    assert(times_for(e1, k) == Seq::<u64>::empty());
                    assert(times_for(e2, k) == e2[e2.len() - 1].1);
                    lemma_push_other(e1, e2, k);
                }
                if ok {
                    Ok(())
                } else {
                    Err(WaitForError::RetryLimitExceeded { limit: max })
                }
            },
            Some(i) => {
                let mut kept = recent_times(&self.limits[i].times, now_ms);
                proof {
                    lemma_lookup(e1, k);
                    lemma_recent_idem(e1[i as int].1, now_ms);
                }
                let ok = kept.len() < max as usize;
                if ok {
                    kept.push(now_ms);
                }
                let ghost kept_v = kept@;
                self.limits.set(i, RateEntry { key, times: kept });
                proof {
                    let e2 = self@.entries;
                    assert(e2 =~= e1.update(i as int, (k, kept_v)));
                    assert(distinct_keys(e2));
                    lemma_lookup(e2, k);
                    assert(e2[i as int].0 == k);
                    assert(times_for(e2, k) == kept_v);
                    let before = recent(e1[i as int].1, now_ms);
                    assert(recent(times_for(e1, k), now_ms) == recent(times_for(e0, k), now_ms));
                    assert(times_for(e1, k) == e1[i as int].1);
                    if ok {
                        assert(kept_v.drop_last() =~= before);
                        assert(recent(kept_v, now_ms) == recent(kept_v.drop_last(), now_ms).push(now_ms));
                    } else {
                        assert(kept_v == before);
                    }
                    lemma_update_other(e1, e2, i as int, k);
                }
                if ok {
                    Ok(())
                } else {
                    Err(WaitForError::RetryLimitExceeded { limit: max })
                }
            },
        }
    }

    /// Records an attempt on `target` now, as `check_rate_limit_at` does.
    pub fn check_rate_limit(&mut self, target: &Target) -> (r: Result<(), WaitForError>)
        requires
            old(self).wf(),
        ensures
            final(self).wf(),
            exists|now: u64| rate_step(old(self)@, final(self)@, rate_key(target@), now, r),
    {
        let now = now_millis();
        self.check_rate_limit_at(target, now)
    }
}

/// Entries with the same keys, in order, and the same attempts counting at
/// `now`, give every key the same attempts counting at `now`.
proof fn lemma_entries_agree(a: Seq<(Seq<char>, Seq<u64>)>, b: Seq<(Seq<char>, Seq<u64>)>, now: u64)
    requires
        distinct_keys(a),
        a.len() == b.len(),
        forall|i: int| 0 <= i < a.len() ==> #[trigger] b[i].0 == a[i].0 && recent(b[i].1, now) == recent(a[i].1, now),
    ensures
        distinct_keys(b),
        forall|k: Seq<char>| #[trigger] recent(times_for(b, k), now) == recent(times_for(a, k), now),
{
    assert(distinct_keys(b)) by {
        assert forall|i: int, j: int| 0 <= i < j < b.len() implies b[i].0 != b[j].0 by {
            assert(b[i].0 == a[i].0 && b[j].0 == a[j].0);
        }
    }
    assert forall|k: Seq<char>| #[trigger] recent(times_for(b, k), now) == recent(times_for(a, k), now) by {
        lemma_lookup(a, k);
        lemma_lookup(b, k);
        if exists|i: int| 0 <= i < a.len() && a[i].0 == k {
            let i = choose|i: int| 0 <= i < a.len() && a[i].0 == k;
            assert(b[i].0 == k);
        } else {
            assert forall|i: int| 0 <= i < b.len() implies #[trigger] b[i].0 != k by {
                assert(b[i].0 == a[i].0);
            }
            assert forall|i: int| 0 <= i < a.len() implies #[trigger] a[i].0 != k by {}
        }
    }
}

/// Replacing the entry of `k` leaves every other key as it was.
proof fn lemma_update_other(a: Seq<(Seq<char>, Seq<u64>)>, b: Seq<(Seq<char>, Seq<u64>)>, i: int, k: Seq<char>)
    requires
        distinct_keys(a),
        distinct_keys(b),
        0 <= i < a.len(),
        a[i].0 == k,
        b.len() == a.len(),
        b[i].0 == k,
        forall|j: int| 0 <= j < a.len() && j != i ==> #[trigger] b[j] == a[j],
    ensures
        forall|k2: Seq<char>| k2 != k ==> #[trigger] times_for(b, k2) == times_for(a, k2),
{
    assert forall|k2: Seq<char>| k2 != k implies #[trigger] times_for(b, k2) == times_for(a, k2) by {
        lemma_lookup(a, k2);
        lemma_lookup(b, k2);
        if exists|j: int| 0 <= j < a.len() && a[j].0 == k2 {
            let j = choose|j: int| 0 <= j < a.len() && a[j].0 == k2;
            assert(b[j] == a[j]);
        } else {
            assert forall|j: int| 0 <= j < b.len() implies #[trigger] b[j].0 != k2 by {
                if j != i {
                    assert(b[j] == a[j]);
                }
            }
            assert forall|j: int| 0 <= j < a.len() implies #[trigger] a[j].0 != k2 by {}
        }
    }
}

/// Adding an entry for a new key `k` leaves every other key as it was.
proof fn lemma_push_other(a: Seq<(Seq<char>, Seq<u64>)>, b: Seq<(Seq<char>, Seq<u64>)>, k: Seq<char>)
    requires
        distinct_keys(a),
        distinct_keys(b),
        b.len() == a.len() + 1,
        b[a.len() as int].0 == k,
        forall|j: int| 0 <= j < a.len() ==> #[trigger] b[j] == a[j],
    ensures
        forall|k2: Seq<char>| k2 != k ==> #[trigger] times_for(b, k2) == times_for(a, k2),
{
    assert forall|k2: Seq<char>| k2 != k implies #[trigger] times_for(b, k2) == times_for(a, k2) by {
        lemma_lookup(a, k2);
        lemma_lookup(b, k2);
        if exists|j: int| 0 <= j < a.len() && a[j].0 == k2 {
            let j = choose|j: int| 0 <= j < a.len() && a[j].0 == k2;
            assert(b[j] == a[j]);
        } else {
            assert forall|j: int| 0 <= j < b.len() implies #[trigger] b[j].0 != k2 by {
                if j < a.len() {
                    assert(b[j] == a[j]);
                }
            }
            assert forall|j: int| 0 <= j < a.len() implies #[trigger] a[j].0 != k2 by {}
        }
    }
}

impl Clone for RateLimiter {
    fn clone(&self) -> RateLimiter {
        self.duplicate()
    }
}

} // verus!
