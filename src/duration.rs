//! Reading durations written as `30`, `30s`, `1.5m`, `2h` or `500ms`.

use vstd::prelude::*;
use vstd::string::*;

use crate::error::WaitForError;
use crate::target::{all_digits, lemma_digits_grow, unsigned_digits};
use crate::text::same_text;
use crate::time::{millis_duration, secs_duration, ValidatedDuration};
use core::time::Duration;
use crate::types::{digits_value, is_digit};

verus! {

/// The text with white space cut from both ends, as `str::trim` gives it.
pub uninterp spec fn trim_of(s: Seq<char>) -> Seq<char>;

/// Relies on `str::trim`: the text without leading and trailing white space.
#[verifier::external_body]
pub(crate) fn trimmed(s: &str) -> (r: &str)
    ensures
        r@ == trim_of(s@),
{
    s.trim()
}

/// The most fraction digits that count; later ones are ignored.
pub const FRACTION_DIGITS: usize = 18;

/// Ten to the power `k`.
pub open spec fn pow10(k: nat) -> nat
    decreases k,
{
    if k == 0 {
        1
    } else {
        10 * pow10((k - 1) as nat)
    }
}

/// The number that `str::parse::<u64>` reads from `p`: decimal digits after
/// an optional `+`, at most `u64::MAX`.
pub open spec fn u64_value(p: Seq<char>) -> Option<u64> {
    let d = unsigned_digits(p);
    if d.len() > 0 && all_digits(d) && digits_value(d) <= u64::MAX {
        Some(digits_value(d) as u64)
    } else {
        None
    }
}

/// A character of a number: a digit or a dot.
pub open spec fn is_num_char(c: char) -> bool {
    is_digit(c) || c == '.'
}

/// `i` is where the unit starts: the first character that is not part of
/// the number.
pub open spec fn unit_start(t: Seq<char>, i: int) -> bool {
    &&& 0 <= i < t.len()
    &&& !is_num_char(t[i])
    &&& forall|k: int| 0 <= k < i ==> is_num_char(#[trigger] t[k])
}

/// The milliseconds in one of the unit: `ms`, `s`, `m` or `h`.
pub open spec fn unit_millis(u: Seq<char>) -> Option<nat> {
    if u == "ms"@ {
        Some(1)
    } else if u == "s"@ {
        Some(1000)
    } else if u == "m"@ {
        Some(60000)
    } else if u == "h"@ {
        Some(3600000)
    } else {
        None
    }
}

/// The only dot of `n` is at `d`, with digits on both sides.
pub open spec fn single_dot(n: Seq<char>, d: int) -> bool {
    &&& 0 <= d < n.len()
    &&& n[d] == '.'
    &&& all_digits(n.subrange(0, d))
    &&& all_digits(n.subrange(d + 1, n.len() as int))
}

/// Whole part times `unit`, plus the fraction (its first eighteen digits)
/// times `unit`, rounded down.
pub open spec fn scaled(whole: Seq<char>, frac: Seq<char>, unit: nat) -> nat {
    let k = if frac.len() < FRACTION_DIGITS {
        frac.len()
    } else {
        FRACTION_DIGITS as nat
    };
    digits_value(whole) * unit + digits_value(frac.subrange(0, k as int)) * unit / pow10(k)
}

/// The milliseconds of the number `n` in the unit of `unit` milliseconds:
/// digits with at most one dot and at least one digit.
pub open spec fn number_millis(n: Seq<char>, unit: nat) -> Option<nat> {
    if n.len() > 0 && all_digits(n) {
        Some(digits_value(n) * unit)
    } else if n.len() > 1 && exists|d: int| single_dot(n, d) {
        let d = choose|d: int| single_dot(n, d);
        Some(scaled(n.subrange(0, d), n.subrange(d + 1, n.len() as int), unit))
    } else {
        None
    }
}

/// What reading a duration from its trimmed text gives.
pub enum DurationReading {
    Seconds(u64),
    Millis(u64),
    BadFormat,
    BadUnit,
    BadNumber,
}

/// A plain number is seconds; otherwise a number, then one of the units
/// `ms`, `s`, `m`, `h`; milliseconds saturate at `u64::MAX`.
pub open spec fn read_duration(t: Seq<char>) -> DurationReading {
    if u64_value(t) is Some {
        DurationReading::Seconds(u64_value(t)->0)
    } else if forall|k: int| 0 <= k < t.len() ==> is_num_char(#[trigger] t[k]) {
        DurationReading::BadFormat
    } else {
        let i = choose|i: int| unit_start(t, i);
        match unit_millis(t.subrange(i, t.len() as int)) {
            None => DurationReading::BadUnit,
            Some(unit) => match number_millis(t.subrange(0, i), unit) {
                None => DurationReading::BadNumber,
                Some(v) => DurationReading::Millis(
                    if v > u64::MAX {
                        u64::MAX
                    } else {
                        v as u64
                    },
                ),
            },
        }
    }
}

/// The duration that the text `s` writes: a plain number is that many
/// seconds, exactly as `Duration::from_secs` makes it; a number with a unit
/// is its whole milliseconds, exactly as `Duration::from_millis` makes them.
pub open spec fn parsed_duration(s: Seq<char>) -> Option<Duration> {
    match read_duration(trim_of(s)) {
        DurationReading::Seconds(secs) => Some(secs_duration(secs)),
        DurationReading::Millis(ms) => Some(millis_duration(ms)),
        _ => None,
    }
}

/// The whole milliseconds of a reading that succeeded.
pub open spec fn reading_millis(r: DurationReading) -> nat {
    match r {
        DurationReading::Seconds(secs) => secs as nat * 1000,
        DurationReading::Millis(ms) => ms as nat,
        _ => 0,
    }
}

/// The value of the digits `t[from..to]`, capped at `cap + 1`, if they are
/// all digits.
fn digits_capped(t: &str, from: usize, to: usize, cap: u64) -> (r: Option<u128>)
    requires
        from <= to <= t@.len(),
    ensures
        r is Some <==> all_digits(t@.subrange(from as int, to as int)),
        r matches Some(v) ==> v == if digits_value(t@.subrange(from as int, to as int)) > cap {
            cap as nat + 1
        } else {
            digits_value(t@.subrange(from as int, to as int))
        },
{
    let ghost d = t@.subrange(from as int, to as int);
    let mut v: u128 = 0;
    let mut i = from;
    while i < to
        invariant
            from <= i <= to <= t@.len(),
            d == t@.subrange(from as int, to as int),
            forall|k: int| 0 <= k < i - from ==> is_digit(#[trigger] d[k]),
            v == if digits_value(d.subrange(0, i - from)) > cap {
                cap as nat + 1
            } else {
                digits_value(d.subrange(0, i - from))
            },
        decreases to - i,
    {
        let c = t.get_char(i);
        if !('0' <= c && c <= '9') {
            assert(d[i - from] == c);
            return None;
        }
        let ghost before = d.subrange(0, i - from);
        let ghost after = d.subrange(0, i + 1 - from);
        assert(after.drop_last() =~= before);
        if v <= cap as u128 {
            v = v * 10 + (c as u32 - '0' as u32) as u128;
            if v > cap as u128 {
                v = cap as u128 + 1;
            }
        } else {
            proof {
                lemma_digits_grow(after, i - from);
                assert(after.subrange(0, i - from) =~= before);
            }
        }
        i += 1;
    }
    assert(d.subrange(0, to - from) =~= d);
    Some(v)
}

/// Where the dots of `t[0..to]` are: none, exactly one at the given place,
/// or at least two.
enum Dots {
    NoDot,
    One(usize),
    Several,
}

/// The dots of `t[0..to]`.
fn scan_dots(t: &str, to: usize) -> (r: Dots)
    requires
        to <= t@.len(),
    ensures
        r is NoDot ==> forall|k: int| 0 <= k < to ==> t@[k] != '.',
        r matches Dots::One(d) ==> d < to && t@[d as int] == '.' && forall|k: int| 0 <= k < to && k != d ==> t@[k] != '.',
        r is Several ==> exists|a: int, b: int| 0 <= a < b < to && t@[a] == '.' && t@[b] == '.',
{
    let mut first: Option<usize> = None;
    let mut i: usize = 0;
    while i < to
        invariant
            i <= to <= t@.len(),
            first is None ==> forall|k: int| 0 <= k < i ==> t@[k] != '.',
            first matches Some(d) ==> d < i && t@[d as int] == '.' && forall|k: int| 0 <= k < i && k != d ==> t@[k] != '.',
        decreases to - i,
    {
        if t.get_char(i) == '.' {
            match first {
                Some(d) => {
                    assert(t@[d as int] == '.' && t@[i as int] == '.');
                    return Dots::Several;
                },
                None => {
                    first = Some(i);
                },
            }
        }
        i += 1;
    }
    match first {
        Some(d) => Dots::One(d),
        None => Dots::NoDot,
    }
}

/// Ten to the power `k`, for small `k`.
fn pow10_exec(k: usize) -> (r: u128)
    requires
        k <= FRACTION_DIGITS,
    ensures
        r == pow10(k as nat),
        r >= 1,
        r <= 1000000000000000000,
{
    proof {
        reveal_with_fuel(pow10, 19);
        assert(pow10(18) == 1000000000000000000);
    }
    let mut p: u128 = 1;
    let mut i: usize = 0;
    while i < k
        invariant
            i <= k <= FRACTION_DIGITS,
            p == pow10(i as nat),
            pow10(FRACTION_DIGITS as nat) == 1000000000000000000,
        decreases k - i,
    {
        proof {
            lemma_pow10_mono(i as nat, FRACTION_DIGITS as nat);
            lemma_pow10_mono((i + 1) as nat, FRACTION_DIGITS as nat);
        }
        p = p * 10;
        i += 1;
    }
    proof {
        lemma_pow10_mono(k as nat, FRACTION_DIGITS as nat);
        lemma_pow10_pos(k as nat);
    }
    p
}

/// Powers of ten grow with the exponent.
proof fn lemma_pow10_mono(a: nat, b: nat)
    requires
        a <= b,
    ensures
        pow10(a) <= pow10(b),
    decreases b,
{
    if a < b {
        lemma_pow10_mono(a, (b - 1) as nat);
        lemma_pow10_pos((b - 1) as nat);
    }
}

/// Powers of ten are at least one.
proof fn lemma_pow10_pos(k: nat)
    ensures
        pow10(k) >= 1,
    decreases k,
{
    if k > 0 {
        lemma_pow10_pos((k - 1) as nat);
    }
}

/// Where the unit of `t` starts, if some character is neither a digit nor a
/// dot.
fn find_unit(t: &str) -> (r: Option<usize>)
    ensures
        r matches Some(i) ==> unit_start(t@, i as int),
        r is None ==> forall|k: int| 0 <= k < t@.len() ==> is_num_char(#[trigger] t@[k]),
{
    let n = t.unicode_len();
    let mut i: usize = 0;
    while i < n
        invariant
            n == t@.len(),
            i <= n,
            forall|k: int| 0 <= k < i ==> is_num_char(#[trigger] t@[k]),
        decreases n - i,
    {
        let c = t.get_char(i);
        if !(('0' <= c && c <= '9') || c == '.') {
            return Some(i);
        }
        i += 1;
    }
    None
}

/// `k` digits write a number below ten to the `k`.
proof fn lemma_digits_below_pow(p: Seq<char>)
    requires
        all_digits(p),
    ensures
        digits_value(p) < pow10(p.len()),
    decreases p.len(),
{
    if p.len() > 0 {
        let q = p.drop_last();
        assert(all_digits(q)) by {
            assert forall|k: int| 0 <= k < q.len() implies is_digit(#[trigger] q[k]) by {
                assert(q[k] == p[k]);
            }
        }
        lemma_digits_below_pow(q);
        assert(is_digit(p[p.len() - 1]));
        assert(pow10(p.len()) == 10 * pow10(q.len()));
    }
}

/// The milliseconds `whole * unit + (frac * unit) as int / (scale as int)`, saturating.
fn combine_millis(whole: u128, unit: u128, frac: u128, scale: u128) -> (r: u64)
    requires
        whole <= u64::MAX as u128 + 1,
        1 <= unit <= 3600000,
        frac < 1000000000000000000,
        1 <= scale,
    ensures
        r == if whole * unit + (frac * unit) as int / (scale as int) > u64::MAX {
            u64::MAX as int
        } else {
            whole * unit + (frac * unit) as int / (scale as int)
        },
{
    assert(whole * unit <= (u64::MAX as u128 + 1) * 3600000) by (nonlinear_arith)
        requires
            whole <= u64::MAX as u128 + 1,
            unit <= 3600000,
    ;
    assert(frac * unit <= 1000000000000000000 * 3600000) by (nonlinear_arith)
        requires
            frac < 1000000000000000000,
            unit <= 3600000,
    ;
    assert((frac * unit) as int / (scale as int) <= frac * unit) by (nonlinear_arith)
        requires
            scale >= 1,
            frac * unit >= 0,
    ;
    let total = whole * unit + frac * unit / scale;
    if total > u64::MAX as u128 {
        u64::MAX
    } else {
        total as u64
    }
}

/// The milliseconds of the number `t[0..i]` in a unit of `unit`
/// milliseconds, saturating, if it is a number.
fn number_at(t: &str, i: usize, unit: u128) -> (r: Option<u64>)
    requires
        i <= t@.len(),
        1 <= unit <= 3600000,
        forall|k: int| 0 <= k < i ==> is_num_char(#[trigger] t@[k]),
    ensures
        r is Some <==> number_millis(t@.subrange(0, i as int), unit as nat) is Some,
        r matches Some(ms) ==> ms == if number_millis(t@.subrange(0, i as int), unit as nat)->0 > u64::MAX {
            u64::MAX as nat
        } else {
            number_millis(t@.subrange(0, i as int), unit as nat)->0
        },
{
    let ghost tv = t@;
    let ghost num = tv.subrange(0, i as int);
        let ms: u64 = match scan_dots(t, i) {
            Dots::NoDot => {
                if i == 0 {
                    assert(number_millis(num, unit as nat) is None);
                    return None;
                }
                let w = match digits_capped(t, 0, i, u64::MAX) {
                    Some(w) => w,
                    None => {
                        assert(all_digits(num)) by {
                            assert forall|k: int| 0 <= k < num.len() implies is_digit(#[trigger] num[k]) by {
                                assert(num[k] == tv[k]);
                                assert(is_num_char(tv[k]));
                            }
                        }
                        return None;
                    },
                };
                assert(all_digits(num)) by {
                    assert forall|k: int| 0 <= k < num.len() implies is_digit(#[trigger] num[k]) by {
                        assert(num[k] == tv[k]);
                        assert(is_num_char(tv[k]));
                    }
                }
                proof {
                    assert(number_millis(num, unit as nat) == Some(digits_value(num) * (unit as nat)));
                    assert((0 * unit) as int / (1 as int) == 0) by (nonlinear_arith);
                    if digits_value(num) > u64::MAX {
                        assert(digits_value(num) * unit >= digits_value(num)) by (nonlinear_arith)
                            requires
                                unit >= 1,
                        ;
                        assert(w * unit > u64::MAX) by (nonlinear_arith)
                            requires
                                w == u64::MAX as nat + 1,
                                unit >= 1,
                        ;
                    }
                }
                combine_millis(w, unit, 0, 1)
            },
            Dots::One(d) => {
                if i < 2 {
                    assert(number_millis(num, unit as nat) is None) by {
                        assert(!all_digits(num)) by {
                            assert(num[d as int] == '.');
                        }
                    }
                    return None;
                }
                let whole = digits_capped(t, 0, d, u64::MAX);
                let fl = i - d - 1;
                let k = if fl < FRACTION_DIGITS {
                    fl
                } else {
                    FRACTION_DIGITS
                };
                let frac = digits_capped(t, d + 1, d + 1 + k, u64::MAX);
                let ghost wv = tv.subrange(0, d as int);
                let ghost fv = tv.subrange(d + 1, i as int);
                proof {
                    assert(num.subrange(0, d as int) =~= wv);
                    assert(num.subrange(d + 1, num.len() as int) =~= fv);
                    assert(all_digits(wv)) by {
                        assert forall|q: int| 0 <= q < wv.len() implies is_digit(#[trigger] wv[q]) by {
                            assert(wv[q] == tv[q]);
                            assert(is_num_char(tv[q]));
                        }
                    }
                    assert(all_digits(fv)) by {
                        assert forall|q: int| 0 <= q < fv.len() implies is_digit(#[trigger] fv[q]) by {
                            assert(fv[q] == tv[d + 1 + q]);
                            assert(is_num_char(tv[d + 1 + q]));
                        }
                    }
                    assert(single_dot(num, d as int));
                    assert forall|e: int| single_dot(num, e) implies e == d by {
                        if e < d {
                            assert(num.subrange(e + 1, num.len() as int)[d - e - 1] == '.');
                        } else if e > d {
                            assert(num.subrange(0, e)[d as int] == '.');
                        }
                    }
                    assert(!all_digits(num)) by {
                        assert(num[d as int] == '.');
                    }
                    assert(fv.subrange(0, k as int) =~= tv.subrange(d + 1, d + 1 + k));
                    assert(all_digits(fv.subrange(0, k as int))) by {
                        assert forall|q: int| 0 <= q < k implies is_digit(#[trigger] fv.subrange(0, k as int)[q]) by {
                            assert(fv.subrange(0, k as int)[q] == fv[q]);
                        }
                    }
                    lemma_digits_below_pow(fv.subrange(0, k as int));
                    lemma_pow10_mono(k as nat, FRACTION_DIGITS as nat);
                    reveal_with_fuel(pow10, 19);
                }
                let w = match whole {
                    Some(w) => w,
                    None => {
                        return None;
                    },
                };
                let f = match frac {
                    Some(f) => f,
                    None => {
                        return None;
                    },
                };
                let scale = pow10_exec(k);
                proof {
                    assert(f == digits_value(fv.subrange(0, k as int)));
                    assert(number_millis(num, unit as nat) == Some(scaled(wv, fv, unit as nat)));
                    if digits_value(wv) > u64::MAX {
                        assert(digits_value(wv) * unit + (f * unit) as int / (scale as int) >= digits_value(wv)) by (nonlinear_arith)
                            requires
                                unit >= 1,
                                (f * unit) as int / (scale as int) >= 0,
                        ;
                        assert(w * unit + (f * unit) as int / (scale as int) > u64::MAX) by (nonlinear_arith)
                            requires
                                w == u64::MAX as nat + 1,
                                unit >= 1,
                                (f * unit) as int / (scale as int) >= 0,
                        ;
                    }
                    assert((f * unit) as int / (scale as int) >= 0) by (nonlinear_arith)
                        requires
                            f >= 0,
                            unit >= 1,
                            scale >= 1,
                    ;
                }
                combine_millis(w, unit, f, scale)
            },
            Dots::Several => {
                assert(number_millis(num, unit as nat) is None) by {
                    let (a, b) = choose|a: int, b: int| 0 <= a < b < i && tv[a] == '.' && tv[b] == '.';
                    assert(num[a] == '.' && num[b] == '.');
                    assert(!all_digits(num)) by {
                        assert(!is_digit(num[a]));
                    }
                    assert forall|e: int| !single_dot(num, e) by {
                        if 0 <= e < num.len() && num[e] == '.' {
                            if e != a {
                                if a < e {
                                    assert(num.subrange(0, e)[a] == '.');
                                } else {
                                    assert(num.subrange(e + 1, num.len() as int)[a - e - 1] == '.');
                                }
                            } else {
                                assert(num.subrange(e + 1, num.len() as int)[b - e - 1] == '.');
                            }
                        }
                    }
                }
                return None;
            },
        };
        Some(ms)
}

impl ValidatedDuration {
    /// The duration that `s` writes, as `read_duration` reads its trimmed
    /// text; `InvalidTimeout` when it writes none.
    pub fn parse(s: &str) -> (r: Result<ValidatedDuration, WaitForError>)
        ensures
            r is Ok <==> parsed_duration(s@) is Some,
            r matches Ok(d) ==> Some(d.get_spec()) == parsed_duration(s@),
            r matches Ok(d) ==> d@ == reading_millis(read_duration(trim_of(s@))),
            r matches Err(e) ==> e is InvalidTimeout,
    {
        let t = trimmed(s);
        let ghost tv = t@;
        let n = t.unicode_len();
        let from: usize = if n > 0 && t.get_char(0) == '+' {
            1
        } else {
            0
        };
        proof {
            assert(unsigned_digits(tv) =~= tv.subrange(from as int, n as int));
        }
        if from < n {
            match digits_capped(t, from, n, u64::MAX) {
                Some(v) => {
                    if v <= u64::MAX as u128 {
                        return Ok(ValidatedDuration::from_secs(v as u64));
                    }
                },
                None => {},
            }
        }
        assert(u64_value(tv) is None);
        let i = match find_unit(t) {
            Some(i) => i,
            None => {
                return Err(WaitForError::InvalidTimeout(String::from_str(t), String::from_str("Invalid duration format")));
            },
        };
        proof {
            assert forall|j: int| unit_start(tv, j) implies j == i by {
                if j < i {
                    assert(is_num_char(tv[j]));
                } else if j > i {
                    assert(is_num_char(tv[i as int]));
                }
            }
            assert(!(forall|k: int| 0 <= k < tv.len() ==> is_num_char(#[trigger] tv[k]))) by {
                assert(!is_num_char(tv[i as int]));
            }
        }
        let unit_text = t.substring_char(i, n);
        proof {
            reveal_strlit("ms");
            reveal_strlit("s");
            reveal_strlit("m");
            reveal_strlit("h");
        }
        let unit: u128 = if same_text(unit_text, "ms") {
            1
        } else if same_text(unit_text, "s") {
            1000
        } else if same_text(unit_text, "m") {
            60000
        } else if same_text(unit_text, "h") {
            3600000
        } else {
            return Err(WaitForError::InvalidTimeout(String::from_str(t), String::from_str("Unknown time unit (use: ms, s, m, h)")));
        };
        assert(unit_millis(tv.subrange(i as int, n as int)) == Some(unit as nat));
        let ms = match number_at(t, i, unit) {
            Some(ms) => ms,
            None => {
                return Err(WaitForError::InvalidTimeout(String::from_str(t), String::from_str("Invalid number")));
            },
        };
        Ok(ValidatedDuration::from_millis(ms))
    }
}


impl core::str::FromStr for ValidatedDuration {
    type Err = WaitForError;

    fn from_str(s: &str) -> Result<ValidatedDuration, WaitForError> {
        ValidatedDuration::parse(s)
    }
}

} // verus!
