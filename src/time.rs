//! Durations: their whole milliseconds and nanoseconds, and the durations
//! made from them.

use core::time::Duration;
use vstd::prelude::*;

use crate::text::{decimal, decimal_text, join2};

verus! {

/// The number of whole milliseconds in a duration, as `Duration::as_millis` gives it.
pub uninterp spec fn millis_of(d: Duration) -> u128;

/// Relies on `Duration::as_millis`: the whole milliseconds held by `d`.
#[verifier::external_body]
pub(crate) fn as_millis(d: Duration) -> (r: u128)
    ensures
        r == millis_of(d),
{
    d.as_millis()
}

/// The number of nanoseconds in a duration, as `Duration::as_nanos` gives it.
pub uninterp spec fn nanos_of(d: Duration) -> u128;

/// The most nanoseconds a duration holds: `Duration::MAX`, `u64::MAX`
/// seconds and 999 999 999 nanoseconds.
pub open spec fn max_nanos() -> nat {
    u64::MAX as nat * 1000000000 + 999999999
}

/// Relies on `Duration::as_nanos`: the nanoseconds held by `d`, never more
/// than `Duration::MAX` holds.
#[verifier::external_body]
pub(crate) fn as_nanos(d: Duration) -> (r: u128)
    ensures
        r == nanos_of(d),
        r <= max_nanos(),
{
    d.as_nanos()
}

/// The duration that `Duration::from_millis` makes of `ms`.
pub uninterp spec fn millis_duration(ms: u64) -> Duration;

/// Relies on `Duration::from_millis`: a duration of exactly `ms` milliseconds.
#[verifier::external_body]
pub(crate) fn from_millis(ms: u64) -> (d: Duration)
    ensures
        d == millis_duration(ms),
        millis_of(d) == ms as u128,
        nanos_of(d) == ms as u128 * 1000000,
{
    Duration::from_millis(ms)
}

/// Relies on `Duration::new`: a duration of `secs` seconds and `nanos`
/// nanoseconds, which stays below one second, so that nothing carries over.
#[verifier::external_body]
pub(crate) fn duration_new(secs: u64, nanos: u32) -> (d: Duration)
    requires
        nanos < 1000000000,
    ensures
        nanos_of(d) == secs as u128 * 1000000000 + nanos as u128,
        millis_of(d) == secs as u128 * 1000 + nanos as u128 / 1000000,
{
    Duration::new(secs, nanos)
}

/// Relies on `Duration`'s `Clone`, which copies the value.
pub assume_specification[ <Duration as Clone>::clone ](d: &Duration) -> (r: Duration)
    ensures
        r == *d,
;

/// The duration that `Duration::from_secs` makes of `secs`.
pub uninterp spec fn secs_duration(secs: u64) -> Duration;

/// Relies on `Duration::from_secs`: a duration of exactly `secs` seconds.
#[verifier::external_body]
pub(crate) fn from_secs(secs: u64) -> (d: Duration)
    ensures
        d == secs_duration(secs),
        millis_of(d) == secs as u128 * 1000,
        nanos_of(d) == secs as u128 * 1000000000,
{
    Duration::from_secs(secs)
}

/// A millisecond count clamped to what a `u64` holds.
pub open spec fn clamp_u64(ms: u128) -> u64 {
    if ms > u64::MAX as u128 {
        u64::MAX
    } else {
        ms as u64
    }
}

/// The whole milliseconds in `duration`, saturating at `u64::MAX`.
pub fn duration_to_millis_u64(duration: Duration) -> (r: u64)
    ensures
        r == clamp_u64(millis_of(duration)),
{
    let ms = as_millis(duration);
    if ms > u64::MAX as u128 {
        u64::MAX
    } else {
        ms as u64
    }
}

/// A duration that a user wrote, such as `30s`, `5m`, `2h` or `500ms`.
#[derive(Debug, Clone, Copy, PartialEq, Eq, PartialOrd, Ord)]
pub struct ValidatedDuration {
    value: Duration,
}

impl View for ValidatedDuration {
    type V = u128;

    /// The whole milliseconds of the duration.
    closed spec fn view(&self) -> u128 {
        millis_of(self.value)
    }
}

/// How a duration of `ms` milliseconds is shown: in the largest unit of
/// hours, minutes, seconds and milliseconds that it fills, rounded down.
pub open spec fn duration_text(ms: u64) -> Seq<char> {
    if ms >= 3600000 {
        decimal((ms / 3600000) as nat) + "h"@
    } else if ms >= 60000 {
        decimal((ms / 60000) as nat) + "m"@
    } else if ms >= 1000 {
        decimal((ms / 1000) as nat) + "s"@
    } else {
        decimal(ms as nat) + "ms"@
    }
}

impl ValidatedDuration {
    /// The duration `duration`.
    pub fn new(duration: Duration) -> (r: ValidatedDuration)
        ensures
            r.get_spec() == duration,
    {
        ValidatedDuration { value: duration }
    }

    /// The duration held.
    pub closed spec fn get_spec(&self) -> Duration {
        self.value
    }

    /// The duration held.
    pub fn get(&self) -> (r: Duration)
        ensures
            r == self.get_spec(),
            millis_of(r) == self@,
    {
        self.value
    }

    /// A duration of `secs` seconds.
    pub fn from_secs(secs: u64) -> (r: ValidatedDuration)
        ensures
            r.get_spec() == secs_duration(secs),
            r@ == secs as u128 * 1000,
    {
        ValidatedDuration { value: from_secs(secs) }
    }

    /// A duration of `millis` milliseconds.
    pub fn from_millis(millis: u64) -> (r: ValidatedDuration)
        ensures
            r.get_spec() == millis_duration(millis),
            r@ == millis as u128,
    {
        ValidatedDuration { value: from_millis(millis) }
    }

    /// The duration as a user would write it, in its largest whole unit.
    pub fn to_text(&self) -> (r: String)
        ensures
            r@ == duration_text(clamp_u64(self@)),
    {
        let ms = duration_to_millis_u64(self.value);
        proof {
            reveal_strlit("h");
            reveal_strlit("m");
            reveal_strlit("s");
            reveal_strlit("ms");
        }
        if ms >= 3600000 {
            join2(decimal_text(ms / 3600000).as_str(), "h")
        } else if ms >= 60000 {
            join2(decimal_text(ms / 60000).as_str(), "m")
        } else if ms >= 1000 {
            join2(decimal_text(ms / 1000).as_str(), "s")
        } else {
            join2(decimal_text(ms).as_str(), "ms")
        }
    }
}

} // verus!
