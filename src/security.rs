//! The policy checks run before every attempt: target validation and rate limiting.

use vstd::prelude::*;
use vstd::string::*;

use crate::error::WaitForError;
use crate::target::{is_web_scheme, HttpUrl, Target, TargetView, UrlView};
use crate::text::{decimal_text, join2, same_text};
use crate::types::{ipv4_octet, is_ipv4, parse_ipv4, valid_hostname, Hostname};

verus! {

/// The settings of a validator.
pub struct ValidatorView {
    pub allow_private_ips: bool,
    pub allow_localhost: bool,
    pub allowed_ports: Option<Seq<u16>>,
    pub blocked_ports: Seq<u16>,
    pub max_hostname_length: usize,
    pub max_url_length: usize,
}

/// Checks of targets against a host and port policy.
#[derive(Debug, Clone)]
pub struct SecurityValidator {
    allow_private_ips: bool,
    allow_localhost: bool,
    allowed_ports: Option<Vec<u16>>,
    blocked_ports: Vec<u16>,
    max_hostname_length: usize,
    max_url_length: usize,
}

impl View for SecurityValidator {
    type V = ValidatorView;

    closed spec fn view(&self) -> ValidatorView {
        ValidatorView {
            allow_private_ips: self.allow_private_ips,
            allow_localhost: self.allow_localhost,
            allowed_ports: match self.allowed_ports {
                Some(v) => Some(v@),
                None => None,
            },
            blocked_ports: self.blocked_ports@,
            max_hostname_length: self.max_hostname_length,
            max_url_length: self.max_url_length,
        }
    }
}

/// A private or loopback IPv4 address: 10/8, 172.16/12, 192.168/16 or 127/8.
pub open spec fn private_v4(a: nat, b: nat) -> bool {
    a == 10 || (a == 172 && 16 <= b < 32) || (a == 192 && b == 168) || a == 127
}

/// The eight 16-bit groups of the IPv6 address that `s` writes, as
/// `url::Host::parse` reads the bracketed text `[s]`; none when `s` writes
/// no IPv6 address.
pub uninterp spec fn ipv6_groups(s: Seq<char>) -> Option<Seq<u16>>;

/// Relies on `url::Host::parse`: the groups of the IPv6 address in `[s]`.
#[verifier::external_body]
fn parse_ipv6(s: &str) -> (r: Option<Vec<u16>>)
    ensures
        r is Some <==> ipv6_groups(s@) is Some,
        r matches Some(g) ==> Some(g@) == ipv6_groups(s@) && g@.len() == 8,
{
    match url::Host::parse(&format!("[{s}]")) {
        Ok(url::Host::Ipv6(address)) => Some(address.segments().to_vec()),
        Ok(url::Host::Domain(_)) => None,
        Ok(url::Host::Ipv4(_)) => None,
        Err(_) => None,
    }
}

/// The IPv6 loopback address `::1` or the unspecified address `::`.
pub open spec fn loopback_or_unspecified_v6(g: Seq<u16>) -> bool {
    &&& g.len() == 8
    &&& forall|i: int| 0 <= i < 7 ==> g[i] == 0
    &&& (g[7] == 0 || g[7] == 1)
}

/// A host written as an address that is private, loopback or unspecified:
/// a dotted IPv4 address in a private range, or the IPv6 loopback or
/// unspecified address in any of its forms.
pub open spec fn private_host(h: Seq<char>) -> bool {
    ||| (is_ipv4(h) && private_v4(ipv4_octet(h, 0), ipv4_octet(h, 1)))
    ||| (ipv6_groups(h) matches Some(g) && loopback_or_unspecified_v6(g))
}

/// `localhost` or `127.0.0.1`.
pub open spec fn local_host(h: Seq<char>) -> bool {
    h == "localhost"@ || h == "127.0.0.1"@
}

/// The host name passes the policy.
pub open spec fn host_allowed(v: ValidatorView, h: Seq<char>) -> bool {
    &&& h.len() <= v.max_hostname_length
    &&& (v.allow_localhost || !local_host(h))
    &&& (v.allow_private_ips || !private_host(h))
}

/// The port passes the policy: not blocked, and allowed where a list of
/// allowed ports is set.
pub open spec fn port_allowed(v: ValidatorView, port: u16) -> bool {
    &&& !v.blocked_ports.contains(port)
    &&& match v.allowed_ports {
        Some(a) => a.contains(port),
        None => true,
    }
}

/// The URL passes the policy: not too long, `http` or `https`, a valid and
/// allowed host if it has one, and an allowed port if it names one.
pub open spec fn url_allowed(v: ValidatorView, u: UrlView) -> bool {
    &&& u.text.len() <= v.max_url_length
    &&& is_web_scheme(u.scheme)
    &&& match u.host {
        Some(h) => valid_hostname(h) && host_allowed(v, h),
        None => true,
    }
    &&& match u.port {
        Some(p) => port_allowed(v, p),
        None => true,
    }
}

/// The target passes the policy.
pub open spec fn target_allowed(v: ValidatorView, t: TargetView) -> bool {
    match t {
        TargetView::Tcp { host, port } => host_allowed(v, host) && port_allowed(v, port),
        TargetView::Http { url, .. } => url_allowed(v, url),
    }
}

/// Whether `v` holds `x`.
fn contains_port(v: &Vec<u16>, x: u16) -> (r: bool)
    ensures
        r == v@.contains(x),
{
    let mut i: usize = 0;
    while i < v.len()
        invariant
            i <= v@.len(),
            forall|k: int| 0 <= k < i ==> v@[k] != x,
        decreases v@.len() - i,
    {
        if v[i] == x {
            assert(v@[i as int] == x);
            return true;
        }
        i += 1;
    }
    false
}

/// Whether `h` is written as a private, loopback or unspecified address.
fn is_private_host(h: &str) -> (r: bool)
    ensures
        r == private_host(h@),
{
    match parse_ipv6(h) {
        Some(g) => {
            let mut i: usize = 0;
            while i < 7
                invariant
                    g@.len() == 8,
                    Some(g@) == ipv6_groups(h@),
                    i <= 7,
                    forall|k: int| 0 <= k < i ==> g@[k] == 0,
                decreases 7 - i,
            {
                if g[i] != 0 {
                    let zero = parse_ipv4(h);
                    proof {
                        assert(!loopback_or_unspecified_v6(g@));
                    }
                    return match zero {
                        Some((a, b, _, _)) => a == 10 || (a == 172 && 16 <= b && b < 32) || (a == 192 && b == 168) || a
                            == 127,
                        None => false,
                    };
                }
                i += 1;
            }
            if g[7] == 0 || g[7] == 1 {
                return true;
            }
        },
        None => {},
    }
    match parse_ipv4(h) {
        Some((a, b, _, _)) => a == 10 || (a == 172 && 16 <= b && b < 32) || (a == 192 && b == 168) || a == 127,
        None => false,
    }
}

/// The strict policy of `SecurityValidator::production`.
pub open spec fn production_policy() -> ValidatorView {
    ValidatorView {
        allow_private_ips: false,
        allow_localhost: false,
        allowed_ports: Some(seq![80, 443, 8080, 8443]),
        blocked_ports: seq![22, 23, 25, 53, 135, 139, 445, 993, 995, 1433, 1521, 3306, 3389, 5432, 6379],
        max_hostname_length: 100,
        max_url_length: 1024,
    }
}

/// The permissive policy of `SecurityValidator::development`.
pub open spec fn development_policy() -> ValidatorView {
    ValidatorView {
        allow_private_ips: true,
        allow_localhost: true,
        allowed_ports: None,
        blocked_ports: seq![22, 23, 135, 445, 3389],
        max_hostname_length: 253,
        max_url_length: 2048,
    }
}

impl SecurityValidator {
    /// The permissive policy: private addresses and localhost allowed, no
    /// list of allowed ports, the usual sensitive ports blocked.
    pub fn new() -> (r: SecurityValidator)
        ensures
            r@ == (ValidatorView {
                allow_private_ips: true,
                allow_localhost: true,
                allowed_ports: None,
                blocked_ports: seq![22, 23, 135, 445, 1433, 3389, 5432, 6379],
                max_hostname_length: 253,
                max_url_length: 2048,
            }),
    {
        let r = SecurityValidator {
            allow_private_ips: true,
            allow_localhost: true,
            allowed_ports: None,
            blocked_ports: vec![22, 23, 135, 445, 1433, 3389, 5432, 6379],
            max_hostname_length: 253,
            max_url_length: 2048,
        };
        assert(r@.blocked_ports =~= seq![22u16, 23, 135, 445, 1433, 3389, 5432, 6379]);
        r
    }

    /// The strict policy: no private addresses, no localhost, only the web
    /// ports 80, 443, 8080 and 8443.
    pub fn production() -> (r: SecurityValidator)
        ensures
            r@ == production_policy(),
    {
        let r = SecurityValidator {
            allow_private_ips: false,
            allow_localhost: false,
            allowed_ports: Some(vec![80, 443, 8080, 8443]),
            blocked_ports: vec![22, 23, 25, 53, 135, 139, 445, 993, 995, 1433, 1521, 3306, 3389, 5432, 6379],
            max_hostname_length: 100,
            max_url_length: 1024,
        };
        assert(r@.allowed_ports->0 =~= seq![80u16, 443, 8080, 8443]);
        assert(r@.blocked_ports =~= seq![22u16, 23, 25, 53, 135, 139, 445, 993, 995, 1433, 1521, 3306, 3389, 5432, 6379]);
        r
    }

    /// The development policy: everything allowed but a short list of
    /// dangerous ports.
    pub fn development() -> (r: SecurityValidator)
        ensures
            r@ == development_policy(),
    {
        let r = SecurityValidator {
            allow_private_ips: true,
            allow_localhost: true,
            allowed_ports: None,
            blocked_ports: vec![22, 23, 135, 445, 3389],
            max_hostname_length: 253,
            max_url_length: 2048,
        };
        assert(r@.blocked_ports =~= seq![22u16, 23, 135, 445, 3389]);
        r
    }

    /// This policy with private addresses allowed or not.
    pub fn allow_private_ips(self, allow: bool) -> (r: SecurityValidator)
        ensures
            r@ == (ValidatorView { allow_private_ips: allow, ..self@ }),
    {
        SecurityValidator { allow_private_ips: allow, ..self }
    }

    /// This policy with localhost allowed or not.
    pub fn allow_localhost(self, allow: bool) -> (r: SecurityValidator)
        ensures
            r@ == (ValidatorView { allow_localhost: allow, ..self@ }),
    {
        SecurityValidator { allow_localhost: allow, ..self }
    }

    /// This policy with only `ports` allowed, or any port not blocked.
    pub fn allowed_ports(self, ports: Option<Vec<u16>>) -> (r: SecurityValidator)
        ensures
            r@ == (ValidatorView {
                allowed_ports: match ports {
                    Some(v) => Some(v@),
                    None => None,
                },
                ..self@
            }),
    {
        SecurityValidator { allowed_ports: ports, ..self }
    }

    /// This policy with `ports` blocked.
    pub fn blocked_ports(self, ports: Vec<u16>) -> (r: SecurityValidator)
        ensures
            r@ == (ValidatorView { blocked_ports: ports@, ..self@ }),
    {
        SecurityValidator { blocked_ports: ports, ..self }
    }

    /// This policy with host names up to `length` characters.
    pub fn max_hostname_length(self, length: usize) -> (r: SecurityValidator)
        ensures
            r@ == (ValidatorView { max_hostname_length: length, ..self@ }),
    {
        SecurityValidator { max_hostname_length: length, ..self }
    }

    /// This policy with URLs up to `length` characters.
    pub fn max_url_length(self, length: usize) -> (r: SecurityValidator)
        ensures
            r@ == (ValidatorView { max_url_length: length, ..self@ }),
    {
        SecurityValidator { max_url_length: length, ..self }
    }

    /// Whether the port passes; `InvalidPort(port)` when it does not.
    pub fn validate_port(&self, port: u16) -> (r: Result<(), WaitForError>)
        ensures
            r is Ok <==> port_allowed(self@, port),
            r matches Err(e) ==> e == WaitForError::InvalidPort(port),
    {
        if contains_port(&self.blocked_ports, port) {
            return Err(WaitForError::InvalidPort(port));
        }
        match &self.allowed_ports {
            Some(allowed) => {
                if !contains_port(allowed, port) {
                    return Err(WaitForError::InvalidPort(port));
                }
            },
            None => {},
        }
        Ok(())
    }

    /// Whether the host name passes; `InvalidHostname` when it does not.
    pub fn validate_hostname(&self, hostname: &Hostname) -> (r: Result<(), WaitForError>)
        ensures
            r is Ok <==> host_allowed(self@, hostname@),
            r matches Err(e) ==> e is InvalidHostname,
    {
        let host = hostname.as_str();
        let n = host.unicode_len();
        if n > self.max_hostname_length {
            return Err(WaitForError::InvalidHostname(join2("Hostname too long: ", decimal_text(n as u64).as_str())));
        }
        proof {
            reveal_strlit("localhost");
            reveal_strlit("127.0.0.1");
        }
        if !self.allow_localhost && (same_text(host, "localhost") || same_text(host, "127.0.0.1")) {
            return Err(WaitForError::InvalidHostname(String::from_str("Localhost connections are not allowed")));
        }
        if !self.allow_private_ips && is_private_host(host) {
            return Err(WaitForError::InvalidHostname(String::from_str("Private IP addresses are not allowed")));
        }
        Ok(())
    }

    /// Whether the URL passes; `InvalidTarget` when it is too long or its
    /// scheme is not `http` or `https`, else the host's or port's error.
    pub fn validate_url(&self, url: &HttpUrl) -> (r: Result<(), WaitForError>)
        ensures
            r is Ok <==> url_allowed(self@, url@),
    {
        if url.as_str().unicode_len() > self.max_url_length {
            return Err(WaitForError::InvalidTarget(String::from_str("URL too long")));
        }
        let scheme = url.scheme();
        proof {
            reveal_strlit("http");
            reveal_strlit("https");
        }
        if !same_text(scheme, "http") && !same_text(scheme, "https") {
            return Err(WaitForError::InvalidTarget(join2("Unsupported URL scheme: ", scheme)));
        }
        match url.host_str() {
            Some(h) => {
                let hostname = match Hostname::new(h) {
                    Ok(x) => x,
                    Err(e) => {
                        return Err(e);
                    },
                };
                match self.validate_hostname(&hostname) {
                    Ok(()) => {},
                    Err(e) => {
                        return Err(e);
                    },
                }
            },
            None => {},
        }
        match url.port() {
            Some(p) => self.validate_port(p),
            None => Ok(()),
        }
    }

    /// Whether the target passes the policy.
    pub fn validate_target(&self, target: &Target) -> (r: Result<(), WaitForError>)
        ensures
            r is Ok <==> target_allowed(self@, target@),
    {
        match target {
            Target::Tcp { host, port } => {
                match self.validate_hostname(host) {
                    Ok(()) => {},
                    Err(e) => {
                        return Err(e);
                    },
                }
                self.validate_port(port.get())
            },
            Target::Http { url, .. } => self.validate_url(url),
        }
    }
}

} // verus!
