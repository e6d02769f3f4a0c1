//! Small fixed-capacity helpers: bounded strings, port ranges and a fixed
//! retry policy.

use vstd::prelude::*;
use vstd::string::*;
use vstd::utf8::encode_utf8;

use crate::target::{display_of, Target};
use crate::text::char_text;

verus! {

/// A bounded string had no room left.
#[derive(Debug, Clone, Copy, PartialEq, Eq, Structural)]
pub struct CapacityError;

/// The length in bytes of the UTF-8 form of `s`.
pub open spec fn byte_len(s: Seq<char>) -> nat {
    encode_utf8(s).len()
}

/// The UTF-8 form of two texts side by side is their forms side by side.
proof fn lemma_encode_concat(a: Seq<char>, b: Seq<char>)
    ensures
        encode_utf8(a + b) == encode_utf8(a) + encode_utf8(b),
    decreases a.len(),
{
    if a.len() == 0 {
        assert(a + b =~= b);
        assert(encode_utf8(a) =~= Seq::<u8>::empty());
        assert(encode_utf8(a) + encode_utf8(b) =~= encode_utf8(b));
    } else {
        lemma_encode_concat(a.drop_first(), b);
        assert((a + b).drop_first() =~= a.drop_first() + b);
        assert((a + b)[0] == a[0]);
        let h = vstd::utf8::encode_scalar(a[0] as u32);
        assert(h + (encode_utf8(a.drop_first()) + encode_utf8(b)) =~= (h + encode_utf8(a.drop_first())) + encode_utf8(b));
    }
}

/// The byte length of `s`, as `str::len` gives it.
fn str_bytes(s: &str) -> (r: usize)
    ensures
        r as nat == byte_len(s@),
{
    s.as_bytes().len()
}

/// A string builder that never holds more than `N` bytes.
pub struct StringBuilder<const N: usize> {
    buffer: String,
}

impl<const N: usize> View for StringBuilder<N> {
    type V = Seq<char>;

    closed spec fn view(&self) -> Seq<char> {
        self.buffer@
    }
}

impl<const N: usize> StringBuilder<N> {
    /// Holds no more than `N` bytes.
    pub open spec fn wf(&self) -> bool {
        byte_len(self@) <= N
    }

    /// An empty builder.
    pub fn new() -> (r: StringBuilder<N>)
        ensures
            r@ == Seq::<char>::empty(),
            r.wf(),
    {
        let r = StringBuilder { buffer: String::new() };
        assert(encode_utf8(r@) =~= Seq::<u8>::empty());
        r
    }

    /// Appends `s` when the result fits in `N` bytes; otherwise changes
    /// nothing and fails.
    pub fn push_str(&mut self, s: &str) -> (r: Result<(), CapacityError>)
        requires
            old(self).wf(),
        ensures
            final(self).wf(),
            r is Ok <==> byte_len(old(self)@) + byte_len(s@) <= N,
            r is Ok ==> final(self)@ == old(self)@ + s@,
            r is Err ==> final(self)@ == old(self)@,
    {
        let have = str_bytes(self.buffer.as_str());
        let more = str_bytes(s);
        if more > N - have {
            return Err(CapacityError);
        }
        proof {
            lemma_encode_concat(self@, s@);
        }
        self.buffer.append(s);
        Ok(())
    }

    /// Appends the character `c` when it fits, as `push_str` does.
    pub fn push_char(&mut self, c: char) -> (r: Result<(), CapacityError>)
        requires
            old(self).wf(),
        ensures
            final(self).wf(),
            r is Ok <==> byte_len(old(self)@) + byte_len(seq![c]) <= N,
            r is Ok ==> final(self)@ == old(self)@.push(c),
            r is Err ==> final(self)@ == old(self)@,
    {
        let one = char_text(c);
        let r = self.push_str(one.as_str());
        assert(old(self)@ + seq![c] =~= old(self)@.push(c));
        r
    }

    /// The text built so far.
    pub fn as_str(&self) -> (r: &str)
        ensures
            r@ == self@,
    {
        self.buffer.as_str()
    }

    /// The text built, as a `String`.
    pub fn into_string(self) -> (r: String)
        ensures
            r@ == self@,
    {
        self.buffer
    }

    /// Empties the builder.
    pub fn clear(&mut self)
        ensures
            final(self)@ == Seq::<char>::empty(),
            final(self).wf(),
    {
        self.buffer = String::new();
        assert(encode_utf8(final(self)@) =~= Seq::<u8>::empty());
    }
}

/// A string of at most `N` bytes.
#[derive(Debug, Clone)]
pub struct SmallString<const N: usize> {
    data: String,
}

impl<const N: usize> View for SmallString<N> {
    type V = Seq<char>;

    closed spec fn view(&self) -> Seq<char> {
        self.data@
    }
}

impl<const N: usize> SmallString<N> {
    /// Holds no more than `N` bytes.
    pub open spec fn wf(&self) -> bool {
        byte_len(self@) <= N
    }

    /// The empty string.
    pub fn new() -> (r: SmallString<N>)
        ensures
            r@ == Seq::<char>::empty(),
            r.wf(),
    {
        let r = SmallString { data: String::new() };
        assert(encode_utf8(r@) =~= Seq::<u8>::empty());
        r
    }

    /// The string `s`, or `None` when it is longer than `N` bytes.
    pub fn try_from_str(s: &str) -> (r: Option<SmallString<N>>)
        ensures
            r is Some <==> byte_len(s@) <= N,
            r matches Some(x) ==> x@ == s@ && x.wf(),
    {
        if str_bytes(s) > N {
            None
        } else {
            Some(SmallString { data: String::from_str(s) })
        }
    }

    /// The text.
    pub fn as_str(&self) -> (r: &str)
        ensures
            r@ == self@,
    {
        self.data.as_str()
    }

    /// The length in bytes.
    pub fn len(&self) -> (r: usize)
        ensures
            r as nat == byte_len(self@),
    {
        str_bytes(self.data.as_str())
    }

    /// Whether the string is empty.
    pub fn is_empty(&self) -> (r: bool)
        ensures
            r == (self@.len() == 0),
    {
        self.data.as_str().is_empty()
    }

    /// Appends `s` when the result fits in `N` bytes; otherwise changes
    /// nothing and fails.
    pub fn push_str(&mut self, s: &str) -> (r: Result<(), CapacityError>)
        requires
            old(self).wf(),
        ensures
            final(self).wf(),
            r is Ok <==> byte_len(old(self)@) + byte_len(s@) <= N,
            r is Ok ==> final(self)@ == old(self)@ + s@,
            r is Err ==> final(self)@ == old(self)@,
    {
        let have = str_bytes(self.data.as_str());
        let more = str_bytes(s);
        if more > N - have {
            return Err(CapacityError);
        }
        proof {
            lemma_encode_concat(self@, s@);
        }
        self.data.append(s);
        Ok(())
    }
}

/// A port number within `MIN..=MAX`, never zero.
pub struct ValidatedPort<const MIN: u16, const MAX: u16> {
    port: u16,
}

impl<const MIN: u16, const MAX: u16> View for ValidatedPort<MIN, MAX> {
    type V = u16;

    closed spec fn view(&self) -> u16 {
        self.port
    }
}

impl<const MIN: u16, const MAX: u16> ValidatedPort<MIN, MAX> {
    /// The port, if it lies within the range and is not zero.
    pub fn new(port: u16) -> (r: Option<ValidatedPort<MIN, MAX>>)
        ensures
            r is Some <==> MIN <= port <= MAX && port != 0,
            r matches Some(p) ==> p@ == port,
    {
        if port >= MIN && port <= MAX && port != 0 {
            Some(ValidatedPort { port })
        } else {
            None
        }
    }

    /// The port number.
    pub fn get(&self) -> (r: u16)
        ensures
            r == self@,
    {
        self.port
    }
}

/// Well-known ports, reserved for system services.
pub type WellKnownPort = ValidatedPort<1, 1023>;

/// Registered ports, for user applications.
pub type RegisteredPort = ValidatedPort<1024, 49151>;

/// Dynamic ports, for temporary connections.
pub type DynamicPort = ValidatedPort<49152, 65535>;

/// A retry policy fixed at compile time: at most `MAX_ATTEMPTS` attempts,
/// `INTERVAL_MS` milliseconds apart.
pub struct ConstRetryStrategy<const MAX_ATTEMPTS: u32, const INTERVAL_MS: u64>;

impl<const MAX_ATTEMPTS: u32, const INTERVAL_MS: u64> ConstRetryStrategy<MAX_ATTEMPTS, INTERVAL_MS> {
    /// The policy.
    pub fn new() -> (r: ConstRetryStrategy<MAX_ATTEMPTS, INTERVAL_MS>) {
        ConstRetryStrategy
    }

    /// The most attempts.
    pub fn max_attempts(&self) -> (r: u32)
        ensures
            r == MAX_ATTEMPTS,
    {
        MAX_ATTEMPTS
    }

    /// The wait between attempts, in milliseconds.
    pub fn interval_ms(&self) -> (r: u64)
        ensures
            r == INTERVAL_MS,
    {
        INTERVAL_MS
    }

    /// Whether another attempt follows attempt number `attempt`.
    pub fn should_retry(&self, attempt: u32) -> (r: bool)
        ensures
            r == (attempt < MAX_ATTEMPTS),
    {
        attempt < MAX_ATTEMPTS
    }
}

/// Shows a target as `host:port` or as its URL, on demand.
pub struct TargetDisplay<'a> {
    target: &'a Target,
}

impl<'a> TargetDisplay<'a> {
    /// A display of `target`.
    pub fn new(target: &'a Target) -> (r: TargetDisplay<'a>)
        ensures
            r.target_spec() == target,
    {
        TargetDisplay { target }
    }

    /// The target shown.
    pub closed spec fn target_spec(&self) -> &'a Target {
        self.target
    }

    /// The text of the target.
    pub fn to_text(&self) -> (r: String)
        ensures
            r@ == display_of(self.target_spec()@),
    {
        self.target.display()
    }
}

/// Items handed out in chunks of a fixed size, in order.
pub struct ChunkedTargets<T> {
    items: Vec<T>,
    next: usize,
    chunk_size: usize,
}

impl<T: Clone> ChunkedTargets<T> {
    /// Chunks of `chunk_size` items of `items`.
    pub fn new(items: Vec<T>, chunk_size: usize) -> (r: ChunkedTargets<T>)
        ensures
            r.items_spec() == items@,
            r.position() == 0,
            r.chunk_size_spec() == chunk_size,
    {
        ChunkedTargets { items, next: 0, chunk_size }
    }

    /// All the items.
    pub closed spec fn items_spec(&self) -> Seq<T> {
        self.items@
    }

    /// How many items were handed out.
    pub closed spec fn position(&self) -> nat {
        self.next as nat
    }

    /// The size of a chunk.
    pub closed spec fn chunk_size_spec(&self) -> usize {
        self.chunk_size
    }

    /// The next chunk: up to `chunk_size` items after those handed out, or
    /// `None` when none is left or the chunk size is zero.
    pub fn next_chunk(&mut self) -> (r: Option<Vec<T>>)
        requires
            old(self).position() <= old(self).items_spec().len(),
        ensures
            final(self).items_spec() == old(self).items_spec(),
            final(self).chunk_size_spec() == old(self).chunk_size_spec(),
            final(self).position() <= final(self).items_spec().len(),
            ({
                let start = old(self).position() as int;
                let end = if start + old(self).chunk_size_spec() <= old(self).items_spec().len() {
                    start + old(self).chunk_size_spec()
                } else {
                    old(self).items_spec().len() as int
                };
                &&& r is None <==> end == start
                &&& final(self).position() == end
                &&& r matches Some(c) ==> c@.len() == end - start && forall|i: int|
                    0 <= i < c@.len() ==> cloned::<T>(old(self).items_spec()[start + i], #[trigger] c@[i])
            }),
    {
        let n = self.items.len();
        let end = if self.chunk_size <= n - self.next {
            self.next + self.chunk_size
        } else {
            n
        };
        if end == self.next {
            return None;
        }
        let start = self.next;
        let mut chunk: Vec<T> = Vec::new();
        let mut i = start;
        while i < end
            invariant
                start <= i <= end <= n == self.items@.len(),
                chunk@.len() == i - start,
                forall|j: int| 0 <= j < chunk@.len() ==> cloned::<T>(self.items@[start + j], #[trigger] chunk@[j]),
            decreases end - i,
        {
            chunk.push(self.items[i].clone());
            i += 1;
        }
        self.next = end;
        Some(chunk)
    }
}

/// A message made from a template whose `{}` marks are filled with the
/// arguments in order; a mark without an argument is left out.
pub struct ErrorMessage {
    template: &'static str,
    args: Vec<String>,
}

/// `t` with each `{}` mark replaced, from the left, by the next of `args`
/// starting at the `k`-th; marks past the last argument are left out.
pub open spec fn render(t: Seq<char>, args: Seq<Seq<char>>, k: nat) -> Seq<char>
    decreases t.len(),
{
    if t.len() < 2 {
        t
    } else if t[0] == '{' && t[1] == '}' {
        (if k < args.len() {
            args[k as int]
        } else {
            Seq::empty()
        }) + render(t.subrange(2, t.len() as int), args, k + 1)
    } else {
        seq![t[0]] + render(t.subrange(1, t.len() as int), args, k)
    }
}

impl ErrorMessage {
    /// The message of `template` filled with `args`.
    pub fn new(template: &'static str, args: Vec<String>) -> (r: ErrorMessage)
        ensures
            r.template_spec() == template@,
            r.args_spec() == args@.map_values(|s: String| s@),
    {
        ErrorMessage { template, args }
    }

    /// The template.
    pub closed spec fn template_spec(&self) -> Seq<char> {
        self.template@
    }

    /// The arguments.
    pub closed spec fn args_spec(&self) -> Seq<Seq<char>> {
        self.args@.map_values(|s: String| s@)
    }

    /// The message.
    pub fn to_text(&self) -> (r: String)
        ensures
            r@ == render(self.template_spec(), self.args_spec(), 0),
    {
        let t = self.template;
        let n = t.unicode_len();
        let ghost args = self.args_spec();
        let mut out = String::new();
        let mut i: usize = 0;
        let mut k: usize = 0;
        proof {
            assert(t@.subrange(0, n as int) =~= t@);
            assert(out@ + render(t@, args, 0) =~= render(t@, args, 0));
        }
        while i < n
            invariant
                n == t@.len(),
                i <= n,
                k <= i,
                args == self.args_spec(),
                args.len() == self.args@.len(),
                out@ + render(t@.subrange(i as int, n as int), args, k as nat) == render(t@, args, 0),
            decreases n - i,
        {
            let ghost rest = t@.subrange(i as int, n as int);
            if i + 1 < n && t.get_char(i) == '{' && t.get_char(i + 1) == '}' {
                proof {
                    assert(rest.subrange(2, rest.len() as int) =~= t@.subrange(i + 2, n as int));
                }
                let ghost before = out@;
                if k < self.args.len() {
                    out.append(self.args[k].as_str());
                    proof {
                        assert(args[k as int] == self.args@[k as int]@);
                    }
                }
                proof {
                    assert(before + render(rest, args, k as nat) =~= out@ + render(t@.subrange(i + 2, n as int), args, (k + 1) as nat));
                }
                i = i + 2;
                k = k + 1;
            } else {
                let c = t.get_char(i);
                let one = char_text(c);
                let ghost before = out@;
                out.append(one.as_str());
                proof {
                    assert(rest.subrange(1, rest.len() as int) =~= t@.subrange(i + 1, n as int));
                    if rest.len() >= 2 {
                        assert(rest[0] == c);
                        assert(before + render(rest, args, k as nat) =~= out@ + render(t@.subrange(i + 1, n as int), args, k as nat));
                    } else {
                        assert(render(rest, args, k as nat) == rest);
                        assert(rest =~= seq![c]);
                        assert(t@.subrange(i + 1, n as int) =~= Seq::<char>::empty());
                        assert(before + render(rest, args, k as nat) =~= out@ + render(t@.subrange(i + 1, n as int), args, k as nat));
                    }
                }
                i = i + 1;
            }
        }
        proof {
            assert(t@.subrange(n as int, n as int) =~= Seq::<char>::empty());
            assert(out@ + Seq::<char>::empty() =~= out@);
        }
        out
    }
}

} // verus!
