//! Validated building blocks of a target: ports and host names.

use vstd::prelude::*;
use vstd::string::*;

use crate::error::WaitForError;

verus! {

/// The longest host name accepted, in characters.
pub const MAX_HOSTNAME_LENGTH: usize = 253;

/// The longest label of a host name, in characters.
pub const MAX_LABEL_LENGTH: usize = 63;

/// A TCP port number, never zero.
#[derive(Debug, Clone, Copy, PartialEq, Eq, Hash, PartialOrd, Ord, Structural)]
pub struct Port {
    value: u16,
}

impl View for Port {
    type V = u16;

    closed spec fn view(&self) -> u16 {
        self.value
    }
}

impl Port {
    #[verifier::type_invariant]
    spec fn inv(self) -> bool {
        self.value != 0
    }

    /// The port `port`, or `None` when it is zero.
    pub fn new(port: u16) -> (r: Option<Port>)
        ensures
            r is Some <==> port != 0,
            r matches Some(p) ==> p@ == port,
    {
        if port == 0 {
            None
        } else {
            Some(Port { value: port })
        }
    }

    /// The port `port`, which the caller knows to be non-zero.
    pub fn new_unchecked(port: u16) -> (r: Port)
        requires
            port != 0,
        ensures
            r@ == port,
    {
        Port { value: port }
    }

    /// The port number.
    pub fn get(self) -> (r: u16)
        ensures
            r == self@,
            r != 0,
    {
        proof {
            use_type_invariant(&self);
        }
        self.value
    }

    /// The port `port`, or `InvalidPort(port)` when it is zero.
    pub fn try_from_u16(port: u16) -> (r: Result<Port, WaitForError>)
        ensures
            r is Ok <==> port != 0,
            r matches Ok(p) ==> p@ == port,
            r matches Err(e) ==> e == WaitForError::InvalidPort(port),
    {
        if port == 0 {
            Err(WaitForError::InvalidPort(port))
        } else {
            Ok(Port { value: port })
        }
    }
}

/// An ASCII letter or digit.
pub open spec fn is_alnum(c: char) -> bool {
    ('a' <= c && c <= 'z') || ('A' <= c && c <= 'Z') || ('0' <= c && c <= '9')
}

/// The pieces of `s` between dots, in order, as `str::split('.')` cuts them:
/// a string with `k` dots has `k + 1` pieces, some of which may be empty.
pub open spec fn split_dots(s: Seq<char>) -> Seq<Seq<char>>
    decreases s.len(),
{
    if s.len() == 0 {
        seq![Seq::<char>::empty()]
    } else if s.last() == '.' {
        split_dots(s.drop_last()).push(Seq::<char>::empty())
    } else {
        let p = split_dots(s.drop_last());
        p.update(p.len() - 1, p.last().push(s.last()))
    }
}

/// A label of a host name: 1 to 63 letters, digits and hyphens, neither
/// starting nor ending with a hyphen.
pub open spec fn valid_label(l: Seq<char>) -> bool {
    &&& 0 < l.len() <= MAX_LABEL_LENGTH
    &&& l[0] != '-'
    &&& l.last() != '-'
    &&& forall|k: int| 0 <= k < l.len() ==> is_alnum(#[trigger] l[k]) || l[k] == '-'
}

/// A host name: 1 to 253 characters whose dot-separated labels are all valid.
pub open spec fn valid_hostname(s: Seq<char>) -> bool {
    &&& 0 < s.len() <= MAX_HOSTNAME_LENGTH
    &&& forall|i: int| 0 <= i < split_dots(s).len() ==> valid_label(#[trigger] split_dots(s)[i])
}

/// Every text has at least one dot-separated piece.
proof fn lemma_split_dots_nonempty(s: Seq<char>)
    ensures
        split_dots(s).len() >= 1,
    decreases s.len(),
{
    if s.len() > 0 {
        lemma_split_dots_nonempty(s.drop_last());
    }
}

/// Whether `c` is an ASCII letter or digit.
fn char_is_alnum(c: char) -> (r: bool)
    ensures
        r == is_alnum(c),
{
    ('a' <= c && c <= 'z') || ('A' <= c && c <= 'Z') || ('0' <= c && c <= '9')
}

/// Whether the characters `s[start..end]` form a valid label.
fn label_ok(s: &str, start: usize, end: usize) -> (r: bool)
    requires
        start <= end <= s@.len(),
    ensures
        r == valid_label(s@.subrange(start as int, end as int)),
{
    if end == start || end - start > MAX_LABEL_LENGTH {
        return false;
    }
    if s.get_char(start) == '-' || s.get_char(end - 1) == '-' {
        return false;
    }
    let ghost l = s@.subrange(start as int, end as int);
    let mut i = start;
    while i < end
        invariant
            start <= i <= end <= s@.len(),
            l == s@.subrange(start as int, end as int),
            forall|k: int| 0 <= k < i - start ==> is_alnum(#[trigger] l[k]) || l[k] == '-',
        decreases end - i,
    {
        let c = s.get_char(i);
        if !char_is_alnum(c) && c != '-' {
            assert(l[i - start] == c);
            return false;
        }
        i += 1;
    }
    true
}

/// Whether `s` is a valid host name.
pub fn hostname_is_valid(s: &str) -> (r: bool)
    ensures
        r == valid_hostname(s@),
{
    let n = s.unicode_len();
    if n == 0 || n > MAX_HOSTNAME_LENGTH {
        return false;
    }
    let mut start: usize = 0;
    let mut i: usize = 0;
    while i < n
        invariant
            n == s@.len(),
            start <= i <= n,
            split_dots(s@.subrange(0, i as int)).len() >= 1,
            split_dots(s@.subrange(0, i as int)).last() == s@.subrange(start as int, i as int),
            forall|j: int|
                0 <= j < split_dots(s@.subrange(0, i as int)).len() - 1 ==> valid_label(
                    #[trigger] split_dots(s@.subrange(0, i as int))[j],
                ),
        decreases n - i,
    {
        let c = s.get_char(i);
        let ghost pre = s@.subrange(0, i as int);
        let ghost next = s@.subrange(0, i + 1);
        assert(next.drop_last() =~= pre);
        if c == '.' {
            if !label_ok(s, start, i) {
                assert(!valid_hostname(s@)) by {
                    lemma_split_prefix_bad(s@, i as int, start as int);
                }
                return false;
            }
            start = i + 1;
            assert(s@.subrange(start as int, i + 1) =~= Seq::<char>::empty());
        } else {
            assert(s@.subrange(start as int, i + 1) =~= s@.subrange(start as int, i as int).push(c));
        }
        i += 1;
    }
    assert(s@.subrange(0, n as int) =~= s@);
    label_ok(s, start, n)
}

/// A label that a prefix of `s` has finished at a dot is a label of `s`.
proof fn lemma_split_prefix_bad(s: Seq<char>, i: int, start: int)
    requires
        0 <= start <= i < s.len(),
        s[i] == '.',
        split_dots(s.subrange(0, i)).len() >= 1,
        split_dots(s.subrange(0, i)).last() == s.subrange(start, i),
        !valid_label(s.subrange(start, i)),
    ensures
        !valid_hostname(s),
{
    lemma_split_extends(s, i + 1);
    let p = split_dots(s.subrange(0, i));
    let q = split_dots(s.subrange(0, i + 1));
    assert(s.subrange(0, i + 1).drop_last() =~= s.subrange(0, i));
    assert(q[p.len() - 1] == p.last());
    assert(split_dots(s)[p.len() - 1] == q[p.len() - 1]);
}

/// The pieces of a prefix, all but its last, stay pieces of the whole.
proof fn lemma_split_extends(s: Seq<char>, i: int)
    requires
        0 <= i <= s.len(),
    ensures
        split_dots(s.subrange(0, i)).len() <= split_dots(s).len(),
        forall|j: int|
            0 <= j < split_dots(s.subrange(0, i)).len() - 1 ==> #[trigger] split_dots(s)[j]
                == split_dots(s.subrange(0, i))[j],
    decreases s.len() - i,
{
    if i < s.len() {
        lemma_split_extends(s, i + 1);
        let a = s.subrange(0, i);
        let b = s.subrange(0, i + 1);
        assert(b.drop_last() =~= a);
        lemma_split_dots_nonempty(a);
    } else {
        assert(s.subrange(0, i) =~= s);
    }
}

/// The bounds of each dot-separated piece of `s`, in order.
pub fn dot_pieces(s: &str) -> (r: Vec<(usize, usize)>)
    ensures
        r@.len() == split_dots(s@).len(),
        forall|j: int|
            #![trigger r@[j]]
            0 <= j < r@.len() ==> {
                &&& r@[j].0 <= r@[j].1 <= s@.len()
                &&& s@.subrange(r@[j].0 as int, r@[j].1 as int) == split_dots(s@)[j]
            },
{
    let n = s.unicode_len();
    let mut r: Vec<(usize, usize)> = Vec::new();
    let mut start: usize = 0;
    let mut i: usize = 0;
    while i < n
        invariant
            n == s@.len(),
            start <= i <= n,
            split_dots(s@.subrange(0, i as int)).len() == r@.len() + 1,
            split_dots(s@.subrange(0, i as int)).last() == s@.subrange(start as int, i as int),
            forall|j: int|
                #![trigger r@[j]]
                0 <= j < r@.len() ==> {
                    &&& r@[j].0 <= r@[j].1 <= s@.len()
                    &&& s@.subrange(r@[j].0 as int, r@[j].1 as int) == split_dots(
                        s@.subrange(0, i as int),
                    )[j]
                },
        decreases n - i,
    {
        let c = s.get_char(i);
        let ghost pre = s@.subrange(0, i as int);
        let ghost next = s@.subrange(0, i + 1);
        assert(next.drop_last() =~= pre);
        let ghost old_r = r@;
        if c == '.' {
            r.push((start, i));
            start = i + 1;
            assert(s@.subrange(start as int, i + 1) =~= Seq::<char>::empty());
            assert forall|j: int| 0 <= j < r@.len() - 1 implies #[trigger] split_dots(next)[j]
                == split_dots(pre)[j] && r@[j] == old_r[j] by {}
        } else {
            assert(s@.subrange(start as int, i + 1) =~= s@.subrange(start as int, i as int).push(c));
            assert forall|j: int| 0 <= j < r@.len() implies #[trigger] split_dots(next)[j]
                == split_dots(pre)[j] by {}
        }
        i += 1;
    }
    assert(s@.subrange(0, n as int) =~= s@);
    let ghost before = r@;
    r.push((start, n));
    assert forall|j: int| 0 <= j < r@.len() - 1 implies r@[j] == before[j] by {}
    r
}

/// An ASCII decimal digit.
pub open spec fn is_digit(c: char) -> bool {
    '0' <= c && c <= '9'
}

/// The number that a string of decimal digits writes.
pub open spec fn digits_value(p: Seq<char>) -> nat
    decreases p.len(),
{
    if p.len() == 0 {
        0
    } else {
        digits_value(p.drop_last()) * 10 + (p.last() as nat - '0' as nat) as nat
    }
}

/// One part of a dotted IPv4 address: 1 to 3 digits without a leading zero,
/// at most 255.
pub open spec fn valid_octet(p: Seq<char>) -> bool {
    &&& 1 <= p.len() <= 3
    &&& forall|k: int| 0 <= k < p.len() ==> is_digit(#[trigger] p[k])
    &&& (p.len() == 1 || p[0] != '0')
    &&& digits_value(p) <= 255
}

/// A dotted IPv4 address: four valid octets.
pub open spec fn is_ipv4(s: Seq<char>) -> bool {
    &&& split_dots(s).len() == 4
    &&& forall|i: int| 0 <= i < 4 ==> valid_octet(#[trigger] split_dots(s)[i])
}

/// The `i`-th octet of a dotted IPv4 address.
pub open spec fn ipv4_octet(s: Seq<char>, i: int) -> nat {
    digits_value(split_dots(s)[i])
}

/// The value of the octet `s[start..end]`, if it is a valid one.
fn octet_at(s: &str, start: usize, end: usize) -> (r: Option<u8>)
    requires
        start <= end <= s@.len(),
    ensures
        r is Some <==> valid_octet(s@.subrange(start as int, end as int)),
        r matches Some(v) ==> v as nat == digits_value(s@.subrange(start as int, end as int)),
{
    let ghost p = s@.subrange(start as int, end as int);
    if end == start || end - start > 3 {
        return None;
    }
    if end - start > 1 && s.get_char(start) == '0' {
        return None;
    }
    let mut v: u32 = 0;
    let mut i = start;
    while i < end
        invariant
            start <= i <= end <= s@.len(),
            end - start <= 3,
            p == s@.subrange(start as int, end as int),
            forall|k: int| 0 <= k < i - start ==> is_digit(#[trigger] p[k]),
            v as nat == digits_value(p.subrange(0, i - start)),
            v < 1000,
        decreases end - i,
    {
        let c = s.get_char(i);
        if !('0' <= c && c <= '9') {
            assert(p[i - start] == c);
            return None;
        }
        assert(p.subrange(0, i + 1 - start).drop_last() =~= p.subrange(0, i - start));
        assert(v as nat * 10 + (c as nat - '0' as nat) < 1000) by {
            assert(i - start < 3);
            lemma_digits_bound(p.subrange(0, i - start));
        }
        v = v * 10 + (c as u32 - '0' as u32);
        i += 1;
    }
    assert(p.subrange(0, end - start) =~= p);
    if v > 255 {
        None
    } else {
        Some(v as u8)
    }
}

/// One or two digits write at most 9 or 99.
proof fn lemma_digits_bound(p: Seq<char>)
    requires
        forall|k: int| 0 <= k < p.len() ==> is_digit(#[trigger] p[k]),
    ensures
        p.len() <= 1 ==> digits_value(p) <= 9,
        p.len() <= 2 ==> digits_value(p) <= 99,
    decreases p.len(),
{
    if p.len() > 0 {
        lemma_digits_bound(p.drop_last());
        assert(is_digit(p[p.len() - 1]));
    }
}

/// The four octets of `s` when it is a dotted IPv4 address.
pub fn parse_ipv4(s: &str) -> (r: Option<(u8, u8, u8, u8)>)
    ensures
        r is Some <==> is_ipv4(s@),
        r matches Some(o) ==> {
            &&& o.0 as nat == ipv4_octet(s@, 0)
            &&& o.1 as nat == ipv4_octet(s@, 1)
            &&& o.2 as nat == ipv4_octet(s@, 2)
            &&& o.3 as nat == ipv4_octet(s@, 3)
        },
{
    let pieces = dot_pieces(s);
    if pieces.len() != 4 {
        return None;
    }
    let (s0, e0) = pieces[0];
    let (s1, e1) = pieces[1];
    let (s2, e2) = pieces[2];
    let (s3, e3) = pieces[3];
    assert(s@.subrange(s0 as int, e0 as int) == split_dots(s@)[0]);
    assert(s@.subrange(s1 as int, e1 as int) == split_dots(s@)[1]);
    assert(s@.subrange(s2 as int, e2 as int) == split_dots(s@)[2]);
    assert(s@.subrange(s3 as int, e3 as int) == split_dots(s@)[3]);
    let a = octet_at(s, s0, e0);
    let b = octet_at(s, s1, e1);
    let c = octet_at(s, s2, e2);
    let d = octet_at(s, s3, e3);
    match (a, b, c, d) {
        (Some(a), Some(b), Some(c), Some(d)) => {
            assert(forall|i: int| 0 <= i < 4 ==> valid_octet(#[trigger] split_dots(s@)[i])) by {
                assert forall|i: int| 0 <= i < 4 implies valid_octet(#[trigger] split_dots(s@)[i]) by {
                    if i == 0 {
                    } else if i == 1 {
                    } else if i == 2 {
                    } else {
                    }
                }
            }
            Some((a, b, c, d))
        },
        _ => None,
    }
}

/// A host name, as the text that names it.
#[derive(Debug, Clone, PartialEq, Eq, Hash)]
pub struct Hostname {
    name: String,
}

impl View for Hostname {
    type V = Seq<char>;

    closed spec fn view(&self) -> Seq<char> {
        self.name@
    }
}

/// Why `s` is not a host name, in the words of the first rule it breaks.
fn hostname_problem(s: &str) -> String {
    let n = s.unicode_len();
    if n == 0 {
        String::from_str("Hostname cannot be empty")
    } else if n > MAX_HOSTNAME_LENGTH {
        String::from_str("Hostname too long (max 253 characters)")
    } else if s.get_char(0) == '-' || s.get_char(n - 1) == '-' {
        String::from_str("Hostname cannot start or end with hyphen")
    } else {
        String::from_str("Hostname labels must be 1 to 63 letters, digits or inner hyphens")
    }
}

impl Hostname {
    /// The host name `hostname`, or `InvalidHostname` when it breaks the
    /// rules of `valid_hostname`.
    pub fn new(hostname: &str) -> (r: Result<Hostname, WaitForError>)
        ensures
            r is Ok <==> valid_hostname(hostname@),
            r matches Ok(h) ==> h@ == hostname@,
            r matches Err(e) ==> e is InvalidHostname,
    {
        if hostname_is_valid(hostname) {
            Ok(Hostname { name: String::from_str(hostname) })
        } else {
            Err(WaitForError::InvalidHostname(hostname_problem(hostname)))
        }
    }

    /// The host name `hostname`, taken as it is.
    pub fn from_static(hostname: &'static str) -> (r: Hostname)
        ensures
            r@ == hostname@,
    {
        Hostname { name: String::from_str(hostname) }
    }

    /// `localhost`.
    pub fn localhost() -> (r: Hostname)
        ensures
            r@ == "localhost"@,
    {
        Hostname::from_static("localhost")
    }

    /// The IPv4 loopback address, `127.0.0.1`.
    pub fn loopback() -> (r: Hostname)
        ensures
            r@ == "127.0.0.1"@,
    {
        Hostname::from_static("127.0.0.1")
    }

    /// The IPv6 loopback address, `::1`.
    pub fn loopback_v6() -> (r: Hostname)
        ensures
            r@ == "::1"@,
    {
        Hostname::from_static("::1")
    }

    /// The wildcard address, `0.0.0.0`.
    pub fn any() -> (r: Hostname)
        ensures
            r@ == "0.0.0.0"@,
    {
        Hostname::from_static("0.0.0.0")
    }

    /// The host named by the dotted IPv4 address `ip`, or `InvalidHostname`
    /// when `ip` is not one.
    pub fn ipv4(ip: &str) -> (r: Result<Hostname, WaitForError>)
        ensures
            r is Ok <==> is_ipv4(ip@),
            r matches Ok(h) ==> h@ == ip@,
            r matches Err(e) ==> e is InvalidHostname,
    {
        match parse_ipv4(ip) {
            Some(_) => Ok(Hostname { name: String::from_str(ip) }),
            None => Err(WaitForError::InvalidHostname(String::from_str("Invalid IPv4 format"))),
        }
    }

    /// Another host name with the same text.
    pub fn duplicate(&self) -> (r: Hostname)
        ensures
            r@ == self@,
    {
        Hostname { name: self.name.clone() }
    }

    /// The text of the host name.
    pub fn as_str(&self) -> (r: &str)
        ensures
            r@ == self@,
    {
        self.name.as_str()
    }
}

} // verus!
