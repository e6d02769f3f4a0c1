//! Targets: a TCP host and port, or an HTTP URL with the status it must answer.

use vstd::prelude::*;
use vstd::string::*;

use crate::error::WaitForError;
use crate::text::{decimal, decimal_text, join2, join3, starts_with};
use crate::types::{
    digits_value, is_alnum, is_digit, valid_hostname, Hostname, Port,
};

verus! {

/// Whether `url::Url::parse` accepts the text.
pub uninterp spec fn url_parses(s: Seq<char>) -> bool;

/// The serialization of a parsed URL, as `url::Url::as_str` gives it.
pub uninterp spec fn url_text(s: Seq<char>) -> Seq<char>;

/// The lower-case scheme of a parsed URL, as `url::Url::scheme` gives it.
pub uninterp spec fn url_scheme(s: Seq<char>) -> Seq<char>;

/// The host of a parsed URL, as `url::Url::host_str` gives it.
pub uninterp spec fn url_host(s: Seq<char>) -> Option<Seq<char>>;

/// The explicit, non-default port of a parsed URL, as `url::Url::port` gives it.
pub uninterp spec fn url_port(s: Seq<char>) -> Option<u16>;

/// What this library keeps of a parsed URL.
pub struct UrlView {
    pub text: Seq<char>,
    pub scheme: Seq<char>,
    pub host: Option<Seq<char>>,
    pub port: Option<u16>,
}

/// The URL that the text `s` parses to.
pub open spec fn url_of(s: Seq<char>) -> UrlView {
    UrlView { text: url_text(s), scheme: url_scheme(s), host: url_host(s), port: url_port(s) }
}

/// A parsed HTTP(S) URL: its text and the parts that the checks read.
#[derive(Debug, Clone, PartialEq, Eq)]
pub struct HttpUrl {
    text: String,
    scheme: String,
    host: Option<String>,
    port: Option<u16>,
}

/// Relies on `url::Url::parse`, and on `as_str`, `scheme`, `host_str` and
/// `port` of the parsed URL: the parts of the URL that `s` writes.
#[verifier::external_body]
fn parse_url(s: &str) -> (r: Result<HttpUrl, url::ParseError>)
    ensures
        r is Ok <==> url_parses(s@),
        r matches Ok(u) ==> u@.text == url_text(s@),
        r matches Ok(u) ==> u@.scheme == url_scheme(s@),
        r matches Ok(u) ==> u@.host == url_host(s@),
        r matches Ok(u) ==> u@.port == url_port(s@),
{
    let u = url::Url::parse(s)?;
    Ok(HttpUrl {
        text: u.as_str().to_string(),
        scheme: u.scheme().to_string(),
        host: u.host_str().map(|h| h.to_string()),
        port: u.port(),
    })
}

/// The view of an optional string.
pub open spec fn opt_view(o: Option<String>) -> Option<Seq<char>> {
    match o {
        Some(s) => Some(s@),
        None => None,
    }
}

impl View for HttpUrl {
    type V = UrlView;

    closed spec fn view(&self) -> UrlView {
        UrlView {
            text: self.text@,
            scheme: self.scheme@,
            host: opt_view(self.host),
            port: self.port,
        }
    }
}

impl HttpUrl {
    /// The URL that `s` writes, or `UrlParse` when it writes none.
    pub fn parse(s: &str) -> (r: Result<HttpUrl, WaitForError>)
        ensures
            r is Ok <==> url_parses(s@),
            r matches Ok(u) ==> u@ == url_of(s@),
            r matches Err(e) ==> e is UrlParse,
    {
        match parse_url(s) {
            Ok(u) => {
                assert(u@ == url_of(s@));
                Ok(u)
            },
            Err(e) => Err(WaitForError::UrlParse(e)),
        }
    }

    /// The whole URL.
    pub fn as_str(&self) -> (r: &str)
        ensures
            r@ == self@.text,
    {
        self.text.as_str()
    }

    /// The scheme, in lower case.
    pub fn scheme(&self) -> (r: &str)
        ensures
            r@ == self@.scheme,
    {
        self.scheme.as_str()
    }

    /// The host, if the URL has one.
    pub fn host_str(&self) -> (r: Option<&str>)
        ensures
            r is Some <==> self@.host is Some,
            r matches Some(h) ==> self@.host == Some(h@),
    {
        match &self.host {
            Some(h) => Some(h.as_str()),
            None => None,
        }
    }

    /// The port, when the URL names one that is not its scheme's default.
    pub fn port(&self) -> (r: Option<u16>)
        ensures
            r == self@.port,
    {
        self.port
    }
}

/// Whether the scheme is `http` or `https`.
pub open spec fn is_web_scheme(scheme: Seq<char>) -> bool {
    scheme == "http"@ || scheme == "https"@
}

/// An HTTP status code that a target may expect: 100 to 599.
pub open spec fn valid_status(status: u16) -> bool {
    100 <= status <= 599
}

/// A header: a non-empty name of letters, digits, `-` and `_`, and a
/// non-empty value.
pub open spec fn valid_header(name: Seq<char>, value: Seq<char>) -> bool {
    &&& name.len() > 0
    &&& value.len() > 0
    &&& forall|k: int| 0 <= k < name.len() ==> is_alnum(#[trigger] name[k]) || name[k] == '-' || name[k] == '_'
}

/// Every header of the list is valid.
pub open spec fn valid_headers(h: Seq<(String, String)>) -> bool {
    forall|i: int| 0 <= i < h.len() ==> valid_header(#[trigger] h[i].0@, h[i].1@)
}

/// What a target is.
pub enum TargetView {
    Tcp { host: Seq<char>, port: u16 },
    Http { url: UrlView, expected_status: u16, headers: Option<Seq<(String, String)>> },
}

/// The two kinds of target.
#[derive(Debug, Clone, Copy, PartialEq, Eq, Hash, Structural)]
pub enum TargetKind {
    Tcp,
    Http,
}

/// An endpoint to probe.
#[derive(Debug, Clone, PartialEq, Eq)]
pub enum Target {
    Tcp { host: Hostname, port: Port },
    Http { url: HttpUrl, expected_status: u16, headers: Option<Vec<(String, String)>> },
}

impl View for Target {
    type V = TargetView;

    open spec fn view(&self) -> TargetView {
        match self {
            Target::Tcp { host, port } => TargetView::Tcp { host: host@, port: port@ },
            Target::Http { url, expected_status, headers } => TargetView::Http {
                url: url@,
                expected_status: *expected_status,
                headers: match headers {
                    Some(h) => Some(h@),
                    None => None,
                },
            },
        }
    }
}

/// The text that names a target: `host:port`, or the URL.
pub open spec fn display_of(t: TargetView) -> Seq<char> {
    match t {
        TargetView::Tcp { host, port } => host + ":"@ + decimal(port as nat),
        TargetView::Http { url, .. } => url.text,
    }
}

/// Whether a header name holds only letters, digits, `-` and `_`.
fn header_name_ok(name: &str) -> (r: bool)
    ensures
        r == forall|k: int| 0 <= k < name@.len() ==> is_alnum(#[trigger] name@[k]) || name@[k] == '-' || name@[k] == '_',
{
    let n = name.unicode_len();
    let mut i: usize = 0;
    while i < n
        invariant
            n == name@.len(),
            i <= n,
            forall|k: int| 0 <= k < i ==> is_alnum(#[trigger] name@[k]) || name@[k] == '-' || name@[k] == '_',
        decreases n - i,
    {
        let c = name.get_char(i);
        if !(('a' <= c && c <= 'z') || ('A' <= c && c <= 'Z') || ('0' <= c && c <= '9') || c == '-' || c == '_') {
            return false;
        }
        i += 1;
    }
    true
}

/// Whether `name: value` is a valid header; `InvalidTarget` says why not.
pub fn validate_header(name: &str, value: &str) -> (r: Result<(), WaitForError>)
    ensures
        r is Ok <==> valid_header(name@, value@),
        r matches Err(e) ==> e is InvalidTarget,
{
    if name.unicode_len() == 0 {
        return Err(WaitForError::InvalidTarget(String::from_str("HTTP header key cannot be empty")));
    }
    if value.unicode_len() == 0 {
        return Err(WaitForError::InvalidTarget(String::from_str("HTTP header value cannot be empty")));
    }
    if !header_name_ok(name) {
        return Err(WaitForError::InvalidTarget(join2("Invalid HTTP header name: ", name)));
    }
    Ok(())
}

/// Whether the scheme, status and headers of an HTTP target are valid;
/// `InvalidTarget` says which is not.
pub fn validate_http_config(url: &HttpUrl, expected_status: u16, headers: Option<&Vec<(String, String)>>) -> (r: Result<(), WaitForError>)
    ensures
        r is Ok <==> is_web_scheme(url@.scheme) && valid_status(expected_status) && match headers {
            Some(h) => valid_headers(h@),
            None => true,
        },
        r matches Err(e) ==> e is InvalidTarget,
{
    let scheme = url.scheme();
    let is_http = crate::text::same_text(scheme, "http");
    let is_https = crate::text::same_text(scheme, "https");
    proof {
        reveal_strlit("http");
        reveal_strlit("https");
    }
    if !is_http && !is_https {
        return Err(WaitForError::InvalidTarget(join2("Unsupported URL scheme: ", scheme)));
    }
    if expected_status < 100 || expected_status > 599 {
        return Err(WaitForError::InvalidTarget(join2("Invalid HTTP status code: ", decimal_text(expected_status as u64).as_str())));
    }
    match headers {
        Some(h) => validate_headers(h),
        None => Ok(()),
    }
}

/// Whether every header of `h` is valid; `InvalidTarget` names the first
/// that is not.
pub fn validate_headers(h: &Vec<(String, String)>) -> (r: Result<(), WaitForError>)
    ensures
        r is Ok <==> valid_headers(h@),
        r matches Err(e) ==> e is InvalidTarget,
{
    let mut i: usize = 0;
    while i < h.len()
        invariant
            i <= h@.len(),
            forall|j: int| 0 <= j < i ==> valid_header(#[trigger] h@[j].0@, h@[j].1@),
        decreases h@.len() - i,
    {
        match validate_header(h[i].0.as_str(), h[i].1.as_str()) {
            Ok(()) => {},
            Err(e) => {
                assert(!valid_header(h@[i as int].0@, h@[i as int].1@));
                return Err(e);
            },
        }
        i += 1;
    }
    Ok(())
}

/// The digits of `p` after an optional leading `+`.
pub open spec fn unsigned_digits(p: Seq<char>) -> Seq<char> {
    if p.len() > 0 && p[0] == '+' {
        p.drop_first()
    } else {
        p
    }
}

/// Every character of `d` is a decimal digit.
pub open spec fn all_digits(d: Seq<char>) -> bool {
    forall|k: int| 0 <= k < d.len() ==> is_digit(#[trigger] d[k])
}

/// The number that `str::parse::<u16>` reads from `p`: decimal digits after
/// an optional `+`, at most 65535.
pub open spec fn u16_value(p: Seq<char>) -> Option<u16> {
    let d = unsigned_digits(p);
    if d.len() > 0 && all_digits(d) && digits_value(d) <= 65535 {
        Some(digits_value(d) as u16)
    } else {
        None
    }
}

/// A prefix of a digit string writes no larger a number.
pub(crate) proof fn lemma_digits_grow(p: Seq<char>, k: int)
    requires
        0 <= k <= p.len(),
    ensures
        digits_value(p.subrange(0, k)) <= digits_value(p),
    decreases p.len() - k,
{
    if k < p.len() {
        lemma_digits_grow(p, k + 1);
        assert(p.subrange(0, k + 1).drop_last() =~= p.subrange(0, k));
    } else {
        assert(p.subrange(0, k) =~= p);
    }
}

/// The number written by `s[from..to]`, read as `str::parse::<u16>` does.
pub(crate) fn parse_u16_at(s: &str, from: usize, to: usize) -> (r: Option<u16>)
    requires
        from <= to <= s@.len(),
    ensures
        r == u16_value(s@.subrange(from as int, to as int)),
{
    let ghost p = s@.subrange(from as int, to as int);
    let mut i = from;
    if i < to && s.get_char(i) == '+' {
        i += 1;
    }
    let ghost d = s@.subrange(i as int, to as int);
    assert(d =~= unsigned_digits(p));
    if i == to {
        return None;
    }
    let start = i;
    let mut v: u32 = 0;
    while i < to
        invariant
            start <= i <= to <= s@.len(),
            d == s@.subrange(start as int, to as int),
            d == unsigned_digits(p),
            p == s@.subrange(from as int, to as int),
            forall|k: int| 0 <= k < i - start ==> is_digit(#[trigger] d[k]),
            v as nat == digits_value(d.subrange(0, i - start)),
            v <= 65535,
        decreases to - i,
    {
        let c = s.get_char(i);
        if !('0' <= c && c <= '9') {
            assert(d[i - start] == c);
            assert(!is_digit(d[i - start]));
            assert(!all_digits(d));
            return None;
        }
        assert(d.subrange(0, i + 1 - start).drop_last() =~= d.subrange(0, i - start));
        v = v * 10 + (c as u32 - '0' as u32);
        i += 1;
        if v > 65535 {
            proof {
                lemma_digits_grow(d, i - start);
                assert(digits_value(d) > 65535);
                assert(u16_value(p) is None);
            }
            return None;
        }
    }
    assert(d.subrange(0, to - start) =~= d);
    Some(v as u16)
}

/// Whether `s` starts with `http://` or `https://`.
pub open spec fn has_web_prefix(s: Seq<char>) -> bool {
    ||| (7 <= s.len() && s.subrange(0, 7) == "http://"@)
    ||| (8 <= s.len() && s.subrange(0, 8) == "https://"@)
}

/// `i` is the position of the first `:` in `s`.
pub open spec fn first_colon(s: Seq<char>, i: int) -> bool {
    &&& 0 <= i < s.len()
    &&& s[i] == ':'
    &&& forall|k: int| 0 <= k < i ==> s[k] != ':'
}

/// The position of the first `:` in `s`, if it has one.
pub(crate) fn find_colon(s: &str) -> (r: Option<usize>)
    ensures
        r matches Some(i) ==> first_colon(s@, i as int),
        r is None ==> forall|k: int| 0 <= k < s@.len() ==> s@[k] != ':',
{
    let n = s.unicode_len();
    let mut i: usize = 0;
    while i < n
        invariant
            n == s@.len(),
            i <= n,
            forall|k: int| 0 <= k < i ==> s@[k] != ':',
        decreases n - i,
    {
        if s.get_char(i) == ':' {
            return Some(i);
        }
        i += 1;
    }
    None
}

/// The target that `s` names when `Target::parse` accepts it.
pub open spec fn parsed_target(s: Seq<char>, default_http_status: u16) -> Option<TargetView> {
    if has_web_prefix(s) {
        if url_parses(s) && valid_status(default_http_status) {
            Some(TargetView::Http { url: url_of(s), expected_status: default_http_status, headers: None })
        } else {
            None
        }
    } else if exists|i: int| first_colon(s, i) {
        let i = choose|i: int| first_colon(s, i);
        let host = s.subrange(0, i);
        let port = u16_value(s.subrange(i + 1, s.len() as int));
        if valid_hostname(host) && port is Some && port->0 != 0 {
            Some(TargetView::Tcp { host, port: port->0 })
        } else {
            None
        }
    } else {
        None
    }
}

impl Target {
    /// Which kind of target this is.
    pub fn kind(&self) -> (r: TargetKind)
        ensures
            r == TargetKind::Tcp <==> self is Tcp,
    {
        match self {
            Target::Tcp { .. } => TargetKind::Tcp,
            Target::Http { .. } => TargetKind::Http,
        }
    }

    /// A TCP target; `InvalidHostname` when `host` is not a valid host name,
    /// else `InvalidPort(0)` when the port is zero.
    pub fn tcp(host: &str, port: u16) -> (r: Result<Target, WaitForError>)
        ensures
            r is Ok <==> valid_hostname(host@) && port != 0,
            r matches Ok(t) ==> t@ == (TargetView::Tcp { host: host@, port }),
            !valid_hostname(host@) ==> (r matches Err(e) && e is InvalidHostname),
            valid_hostname(host@) && port == 0 ==> (r matches Err(e) && e == WaitForError::InvalidPort(0)),
    {
        let hostname = match Hostname::new(host) {
            Ok(h) => h,
            Err(_) => {
                return Err(WaitForError::InvalidHostname(join3("Invalid hostname '", host, "'")));
            },
        };
        match Port::try_from_u16(port) {
            Ok(p) => Ok(Target::Tcp { host: hostname, port: p }),
            Err(e) => Err(e),
        }
    }

    fn tcp_with_hostname(hostname: Hostname, port: u16) -> (r: Result<Target, WaitForError>)
        ensures
            r is Ok <==> port != 0,
            r matches Ok(t) ==> t@ == (TargetView::Tcp { host: hostname@, port }),
            r matches Err(e) ==> e == WaitForError::InvalidPort(port),
    {
        match Port::try_from_u16(port) {
            Ok(p) => Ok(Target::Tcp { host: hostname, port: p }),
            Err(e) => Err(e),
        }
    }

    /// A TCP target on `localhost`; `InvalidPort(0)` when the port is zero.
    pub fn localhost(port: u16) -> (r: Result<Target, WaitForError>)
        ensures
            r is Ok <==> port != 0,
            r matches Ok(t) ==> t@ == (TargetView::Tcp { host: "localhost"@, port }),
            r matches Err(e) ==> e == WaitForError::InvalidPort(port),
    {
        Target::tcp_with_hostname(Hostname::localhost(), port)
    }

    /// A TCP target on `127.0.0.1`; `InvalidPort(0)` when the port is zero.
    pub fn loopback(port: u16) -> (r: Result<Target, WaitForError>)
        ensures
            r is Ok <==> port != 0,
            r matches Ok(t) ==> t@ == (TargetView::Tcp { host: "127.0.0.1"@, port }),
            r matches Err(e) ==> e == WaitForError::InvalidPort(port),
    {
        Target::tcp_with_hostname(Hostname::loopback(), port)
    }

    /// A TCP target on `::1`; `InvalidPort(0)` when the port is zero.
    pub fn loopback_v6(port: u16) -> (r: Result<Target, WaitForError>)
        ensures
            r is Ok <==> port != 0,
            r matches Ok(t) ==> t@ == (TargetView::Tcp { host: "::1"@, port }),
            r matches Err(e) ==> e == WaitForError::InvalidPort(port),
    {
        Target::tcp_with_hostname(Hostname::loopback_v6(), port)
    }

    /// A TCP target from a host name and port that are valid already.
    pub fn from_parts(host: Hostname, port: Port) -> (r: Target)
        ensures
            r@ == (TargetView::Tcp { host: host@, port: port@ }),
    {
        Target::Tcp { host, port }
    }

    /// An HTTP target without headers; `InvalidTarget` when the scheme is not
    /// `http` or `https` or the status is outside 100 to 599.
    pub fn http(url: HttpUrl, expected_status: u16) -> (r: Result<Target, WaitForError>)
        ensures
            r is Ok <==> is_web_scheme(url@.scheme) && valid_status(expected_status),
            r matches Ok(t) ==> t@ == (TargetView::Http { url: url@, expected_status, headers: None }),
            r matches Err(e) ==> e is InvalidTarget,
    {
        match validate_http_config(&url, expected_status, None) {
            Ok(()) => Ok(Target::Http { url, expected_status, headers: None }),
            Err(e) => Err(e),
        }
    }

    /// An HTTP target from the text of its URL; `UrlParse` when the text is
    /// no URL, else as `http`.
    pub fn http_url(url: &str, expected_status: u16) -> (r: Result<Target, WaitForError>)
        ensures
            r is Ok <==> url_parses(url@) && is_web_scheme(url_scheme(url@)) && valid_status(expected_status),
            r matches Ok(t) ==> t@ == (TargetView::Http { url: url_of(url@), expected_status, headers: None }),
            !url_parses(url@) ==> (r matches Err(e) && e is UrlParse),
            url_parses(url@) ==> (r matches Err(e) ==> e is InvalidTarget),
    {
        match HttpUrl::parse(url) {
            Ok(u) => Target::http(u, expected_status),
            Err(e) => Err(e),
        }
    }

    /// An HTTP target that sends `headers`; `InvalidTarget` when the scheme,
    /// the status or a header is not valid.
    pub fn http_with_headers(url: HttpUrl, expected_status: u16, headers: Vec<(String, String)>) -> (r: Result<Target, WaitForError>)
        ensures
            r is Ok <==> is_web_scheme(url@.scheme) && valid_status(expected_status) && valid_headers(headers@),
            r matches Ok(t) ==> t@ == (TargetView::Http { url: url@, expected_status, headers: Some(headers@) }),
            r matches Err(e) ==> e is InvalidTarget,
    {
        match validate_http_config(&url, expected_status, Some(&headers)) {
            Ok(()) => Ok(Target::Http { url, expected_status, headers: Some(headers) }),
            Err(e) => Err(e),
        }
    }

    /// An HTTP target on `localhost` at `port`, expecting status 200.
    pub fn http_localhost(port: u16) -> (r: Result<Target, WaitForError>)
        ensures
            ({
                let text = "http://localhost:"@ + decimal(port as nat);
                &&& r is Ok <==> url_parses(text) && is_web_scheme(url_scheme(text))
                &&& r matches Ok(t) ==> t@ == (TargetView::Http { url: url_of(text), expected_status: 200, headers: None })
            }),
    {
        let text = join2("http://localhost:", decimal_text(port as u64).as_str());
        proof {
            reveal_strlit("http://localhost:");
        }
        Target::http_url(text.as_str(), 200)
    }

    /// The target that `target_str` names: an HTTP target expecting
    /// `default_http_status` when it starts with `http://` or `https://`, else
    /// a TCP target written `host:port`.
    pub fn parse(target_str: &str, default_http_status: u16) -> (r: Result<Target, WaitForError>)
        ensures
            r is Ok <==> parsed_target(target_str@, default_http_status) is Some,
            r matches Ok(t) ==> Some(t@) == parsed_target(target_str@, default_http_status),
            has_web_prefix(target_str@) ==> {
                &&& r is Ok <==> url_parses(target_str@) && valid_status(default_http_status)
                &&& r matches Ok(t) ==> t@ == (TargetView::Http {
                    url: url_of(target_str@),
                    expected_status: default_http_status,
                    headers: None,
                })
                &&& !url_parses(target_str@) ==> (r matches Err(e) && e is UrlParse)
                &&& url_parses(target_str@) && !valid_status(default_http_status) ==> (r matches Err(e)
                    && e is InvalidTarget)
            },
            !has_web_prefix(target_str@) && (forall|k: int| 0 <= k < target_str@.len() ==> target_str@[k] != ':')
                ==> (r matches Err(e) && e is InvalidTarget),
            forall|i: int| !has_web_prefix(target_str@) && #[trigger] first_colon(target_str@, i) ==> {
                let host = target_str@.subrange(0, i);
                let port = u16_value(target_str@.subrange(i + 1, target_str@.len() as int));
                &&& r is Ok <==> valid_hostname(host) && (port matches Some(p) && p != 0)
                &&& r matches Ok(t) ==> t@ == (TargetView::Tcp { host, port: port->0 })
                &&& !valid_hostname(host) ==> (r matches Err(e) && e is InvalidHostname)
                &&& valid_hostname(host) && port is None ==> (r matches Err(e) && e is InvalidTarget)
                &&& valid_hostname(host) && port == Some(0u16) ==> (r matches Err(e) && e == WaitForError::InvalidPort(0))
            },
    {
        let http = starts_with(target_str, "http://");
        let https = starts_with(target_str, "https://");
        proof {
            reveal_strlit("http://");
            reveal_strlit("https://");
        }
        if http || https {
            let url = match HttpUrl::parse(target_str) {
                Ok(url) => url,
                Err(e) => {
                    return Err(e);
                },
            };
            if default_http_status < 100 || default_http_status > 599 {
                return Err(
                    WaitForError::InvalidTarget(
                        join2("Invalid HTTP status code: ", decimal_text(default_http_status as u64).as_str()),
                    ),
                );
            }
            return Ok(Target::Http { url, expected_status: default_http_status, headers: None });
        }
        let colon = match find_colon(target_str) {
            Some(i) => i,
            None => {
                return Err(WaitForError::InvalidTarget(String::from_str(target_str)));
            },
        };
        proof {
            assert forall|j: int| first_colon(target_str@, j) implies j == colon by {
                if j < colon {
                    assert(target_str@[j] == ':');
                } else if j > colon {
                    assert(target_str@[colon as int] == ':');
                }
            }
        }
        let n = target_str.unicode_len();
        let host_str = target_str.substring_char(0, colon);
        let hostname = match Hostname::new(host_str) {
            Ok(h) => h,
            Err(_) => {
                return Err(WaitForError::InvalidHostname(join3("Invalid hostname '", host_str, "' in target")));
            },
        };
        let port_num = match parse_u16_at(target_str, colon + 1, n) {
            Some(p) => p,
            None => {
                return Err(WaitForError::InvalidTarget(join2("Invalid port in target: ", target_str)));
            },
        };
        match Port::try_from_u16(port_num) {
            Ok(p) => Ok(Target::Tcp { host: hostname, port: p }),
            Err(e) => Err(e),
        }
    }

    /// The host name of the target, or `unknown` for a URL without a host.
    pub fn hostname(&self) -> (r: &str)
        ensures
            self is Tcp ==> r@ == self->Tcp_host@,
            self is Http ==> r@ == match self->Http_url@.host {
                Some(h) => h,
                None => "unknown"@,
            },
    {
        match self {
            Target::Tcp { host, .. } => host.as_str(),
            Target::Http { url, .. } => match url.host_str() {
                Some(h) => h,
                None => {
                    proof {
                        reveal_strlit("unknown");
                    }
                    "unknown"
                },
            },
        }
    }

    /// The port of the target: always one for TCP, and the URL's explicit one
    /// for HTTP.
    pub fn port(&self) -> (r: Option<u16>)
        ensures
            self is Tcp ==> r == Some(self->Tcp_port@),
            self is Http ==> r == self->Http_url@.port,
    {
        match self {
            Target::Tcp { port, .. } => Some(port.get()),
            Target::Http { url, .. } => url.port(),
        }
    }

    /// The text that names the target: `host:port`, or the URL.
    pub fn display(&self) -> (r: String)
        ensures
            r@ == display_of(self@),
    {
        match self {
            Target::Tcp { host, port } => {
                let digits = decimal_text(port.get() as u64);
                proof {
                    reveal_strlit(":");
                }
                join3(host.as_str(), ":", digits.as_str())
            },
            Target::Http { url, .. } => String::from_str(url.as_str()),
        }
    }
}

impl Target {
    /// TCP targets for each host and port, in order; the first error when
    /// one of them is not valid.
    pub fn tcp_batch(targets: &[(&str, u16)]) -> (r: Result<Vec<Target>, WaitForError>)
        ensures
            r is Ok <==> forall|i: int| 0 <= i < targets@.len() ==> valid_hostname((#[trigger] targets@[i]).0@) && targets@[i].1 != 0,
            r matches Ok(v) ==> v@.len() == targets@.len() && forall|i: int| 0 <= i < v@.len() ==> (#[trigger] v@[i])@ == (TargetView::Tcp { host: targets@[i].0@, port: targets@[i].1 }),
    {
        let mut out: Vec<Target> = Vec::new();
        let mut i: usize = 0;
        while i < targets.len()
            invariant
                i <= targets@.len(),
                out@.len() == i,
                forall|j: int| 0 <= j < i ==> valid_hostname((#[trigger] targets@[j]).0@) && targets@[j].1 != 0,
                forall|j: int| 0 <= j < i ==> (#[trigger] out@[j])@ == (TargetView::Tcp { host: targets@[j].0@, port: targets@[j].1 }),
            decreases targets@.len() - i,
        {
            let (host, port) = targets[i];
            match Target::tcp(host, port) {
                Ok(t) => out.push(t),
                Err(e) => {
                    return Err(e);
                },
            }
            i += 1;
        }
        Ok(out)
    }

    /// TCP targets for each port of one host, in order; the first error when
    /// the host or a port is not valid.
    pub fn tcp_ports(host: &str, ports: &[u16]) -> (r: Result<Vec<Target>, WaitForError>)
        ensures
            r is Ok <==> valid_hostname(host@) && forall|i: int| 0 <= i < ports@.len() ==> #[trigger] ports@[i] != 0,
            r matches Ok(v) ==> v@.len() == ports@.len() && forall|i: int| 0 <= i < v@.len() ==> (#[trigger] v@[i])@ == (TargetView::Tcp { host: host@, port: ports@[i] }),
    {
        let hostname = match Hostname::new(host) {
            Ok(h) => h,
            Err(_) => {
                return Err(WaitForError::InvalidHostname(join3("Invalid hostname '", host, "'")));
            },
        };
        let mut out: Vec<Target> = Vec::new();
        let mut i: usize = 0;
        while i < ports.len()
            invariant
                i <= ports@.len(),
                out@.len() == i,
                hostname@ == host@,
                valid_hostname(host@),
                forall|j: int| 0 <= j < i ==> #[trigger] ports@[j] != 0,
                forall|j: int| 0 <= j < i ==> (#[trigger] out@[j])@ == (TargetView::Tcp { host: host@, port: ports@[j] }),
            decreases ports@.len() - i,
        {
            match Port::try_from_u16(ports[i]) {
                Ok(p) => out.push(Target::Tcp { host: hostname.duplicate(), port: p }),
                Err(e) => {
                    return Err(e);
                },
            }
            i += 1;
        }
        Ok(out)
    }

    /// HTTP targets for each URL, all expecting `default_status`; the first
    /// error when one of them is not valid.
    pub fn http_batch(urls: &[&str], default_status: u16) -> (r: Result<Vec<Target>, WaitForError>)
        ensures
            r is Ok <==> valid_status(default_status) && forall|i: int| 0 <= i < urls@.len() ==> url_parses(#[trigger] urls@[i]@) && is_web_scheme(url_scheme(urls@[i]@)),
            r matches Ok(v) ==> v@.len() == urls@.len() && forall|i: int| 0 <= i < v@.len() ==> (#[trigger] v@[i])@ == (TargetView::Http { url: url_of(urls@[i]@), expected_status: default_status, headers: None }),
    {
        let mut out: Vec<Target> = Vec::new();
        let mut i: usize = 0;
        if urls.len() == 0 && !(100 <= default_status && default_status <= 599) {
            return Err(WaitForError::InvalidTarget(join2("Invalid HTTP status code: ", decimal_text(default_status as u64).as_str())));
        }
        while i < urls.len()
            invariant
                i <= urls@.len(),
                out@.len() == i,
                i > 0 ==> valid_status(default_status),
                forall|j: int| 0 <= j < i ==> url_parses(#[trigger] urls@[j]@) && is_web_scheme(url_scheme(urls@[j]@)),
                forall|j: int| 0 <= j < i ==> (#[trigger] out@[j])@ == (TargetView::Http { url: url_of(urls@[j]@), expected_status: default_status, headers: None }),
            decreases urls@.len() - i,
        {
            match Target::http_url(urls[i], default_status) {
                Ok(t) => out.push(t),
                Err(e) => {
                    return Err(e);
                },
            }
            i += 1;
        }
        Ok(out)
    }
}

impl Port {
    /// The port that `s` writes, read as `str::parse::<u16>` does;
    /// `InvalidPort(0)` when it writes no number or zero.
    pub fn parse_text(s: &str) -> (r: Result<Port, WaitForError>)
        ensures
            r is Ok <==> (u16_value(s@) matches Some(p) && p != 0),
            r matches Ok(p) ==> Some(p@) == u16_value(s@),
            r matches Err(e) ==> e == WaitForError::InvalidPort(0),
    {
        let n = s.unicode_len();
        proof {
            assert(s@.subrange(0, n as int) =~= s@);
        }
        match parse_u16_at(s, 0, n) {
            Some(v) => match Port::try_from_u16(v) {
                Ok(p) => Ok(p),
                Err(_) => Err(WaitForError::InvalidPort(0)),
            },
            None => Err(WaitForError::InvalidPort(0)),
        }
    }

    /// The port number as text.
    pub fn to_text(&self) -> (r: String)
        ensures
            r@ == decimal(self@ as nat),
    {
        decimal_text(self.get() as u64)
    }
}

impl core::str::FromStr for Port {
    type Err = WaitForError;

    fn from_str(s: &str) -> Result<Port, WaitForError> {
        Port::parse_text(s)
    }
}

impl core::str::FromStr for Hostname {
    type Err = WaitForError;

    fn from_str(s: &str) -> Result<Hostname, WaitForError> {
        Hostname::new(s)
    }
}

impl core::str::FromStr for Target {
    type Err = WaitForError;

    fn from_str(s: &str) -> Result<Target, WaitForError> {
        Target::parse(s, 200)
    }
}

} // verus!
