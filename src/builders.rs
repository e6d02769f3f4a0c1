//! Step-by-step construction of HTTP targets and run policies.

use base64::Engine;
use core::time::Duration;
use tokio_util::sync::CancellationToken;
use vstd::prelude::*;
use vstd::string::*;
use vstd::utf8::encode_utf8;

use crate::error::WaitForError;
use crate::probe::WaitConfig;
use crate::rate_limit::RateLimiter;
use crate::security::SecurityValidator;
use crate::target::{is_web_scheme, valid_headers, valid_status, validate_http_config, HttpUrl, Target, TargetView};
use crate::text::{join2, join3};
use crate::time::millis_of;

verus! {

/// The standard Base64 text of the bytes, with padding, as
/// `base64::engine::general_purpose::STANDARD.encode` gives it.
pub uninterp spec fn base64_of(bytes: Seq<u8>) -> Seq<char>;

/// Relies on `base64::engine::general_purpose::STANDARD.encode`: the
/// standard Base64 text of `bytes`.
#[verifier::external_body]
fn base64_standard(bytes: &[u8]) -> (r: String)
    ensures
        r@ == base64_of(bytes@),
{
    base64::engine::general_purpose::STANDARD.encode(bytes)
}

/// An HTTP target being put together: its URL, the status it must answer
/// (200 unless set) and the headers it sends.
pub struct HttpTargetBuilder {
    url: HttpUrl,
    expected_status: u16,
    headers: Vec<(String, String)>,
}

impl HttpTargetBuilder {
    /// The URL.
    pub closed spec fn url_spec(&self) -> HttpUrl {
        self.url
    }

    /// The expected status.
    pub closed spec fn status_spec(&self) -> u16 {
        self.expected_status
    }

    /// The headers so far.
    pub closed spec fn headers_spec(&self) -> Seq<(String, String)> {
        self.headers@
    }

    /// A builder for `url`, expecting status 200 and sending no header.
    pub fn new(url: HttpUrl) -> (r: HttpTargetBuilder)
        ensures
            r.url_spec() == url,
            r.status_spec() == 200,
            r.headers_spec().len() == 0,
    {
        HttpTargetBuilder { url, expected_status: 200, headers: Vec::new() }
    }

    /// Expects `status`.
    pub fn status(self, status: u16) -> (r: HttpTargetBuilder)
        ensures
            r.url_spec() == self.url_spec(),
            r.status_spec() == status,
            r.headers_spec() == self.headers_spec(),
    {
        HttpTargetBuilder { expected_status: status, ..self }
    }

    /// Also sends `key: value`.
    pub fn header(self, key: &str, value: &str) -> (r: HttpTargetBuilder)
        ensures
            r.url_spec() == self.url_spec(),
            r.status_spec() == self.status_spec(),
            r.headers_spec().len() == self.headers_spec().len() + 1,
            r.headers_spec().subrange(0, self.headers_spec().len() as int) == self.headers_spec(),
            r.headers_spec().last().0@ == key@,
            r.headers_spec().last().1@ == value@,
    {
        let mut headers = self.headers;
        headers.push((String::from_str(key), String::from_str(value)));
        let r = HttpTargetBuilder { url: self.url, expected_status: self.expected_status, headers };
        assert(r.headers_spec().subrange(0, self.headers_spec().len() as int) =~= self.headers_spec());
        r
    }

    /// Also sends each of `headers`, in order.
    pub fn headers(self, headers: Vec<(String, String)>) -> (r: HttpTargetBuilder)
        ensures
            r.url_spec() == self.url_spec(),
            r.status_spec() == self.status_spec(),
            r.headers_spec() == self.headers_spec() + headers@,
    {
        let mut all = self.headers;
        let mut more = headers;
        all.append(&mut more);
        HttpTargetBuilder { url: self.url, expected_status: self.expected_status, headers: all }
    }

    /// Also sends `Authorization: Bearer <token>`.
    pub fn auth_bearer(self, token: &str) -> (r: HttpTargetBuilder)
        ensures
            r.url_spec() == self.url_spec(),
            r.status_spec() == self.status_spec(),
            r.headers_spec().len() == self.headers_spec().len() + 1,
            r.headers_spec().subrange(0, self.headers_spec().len() as int) == self.headers_spec(),
            r.headers_spec().last().0@ == "Authorization"@,
            r.headers_spec().last().1@ == "Bearer "@ + token@,
    {
        let value = join2("Bearer ", token);
        proof {
            reveal_strlit("Bearer ");
            reveal_strlit("Authorization");
        }
        self.header("Authorization", value.as_str())
    }

    /// Also sends `Authorization: Basic <base64 of user:password>`.
    pub fn basic_auth(self, username: &str, password: &str) -> (r: HttpTargetBuilder)
        ensures
            r.url_spec() == self.url_spec(),
            r.status_spec() == self.status_spec(),
            r.headers_spec().len() == self.headers_spec().len() + 1,
            r.headers_spec().subrange(0, self.headers_spec().len() as int) == self.headers_spec(),
            r.headers_spec().last().0@ == "Authorization"@,
            r.headers_spec().last().1@ == "Basic "@ + base64_of(encode_utf8(username@ + ":"@ + password@)),
    {
        let credentials = join3(username, ":", password);
        let encoded = base64_standard(credentials.as_str().as_bytes());
        let value = join2("Basic ", encoded.as_str());
        proof {
            reveal_strlit("Basic ");
            reveal_strlit("Authorization");
            reveal_strlit(":");
        }
        self.header("Authorization", value.as_str())
    }

    /// Also sends `Content-Type: application/json`.
    pub fn json(self) -> (r: HttpTargetBuilder)
        ensures
            r.headers_spec().len() == self.headers_spec().len() + 1,
            r.headers_spec().subrange(0, self.headers_spec().len() as int) == self.headers_spec(),
            r.headers_spec().last().0@ == "Content-Type"@,
            r.headers_spec().last().1@ == "application/json"@,
            r.url_spec() == self.url_spec(),
            r.status_spec() == self.status_spec(),
    {
        self.header("Content-Type", "application/json")
    }

    /// Also sends `Accept: application/json`.
    pub fn accept_json(self) -> (r: HttpTargetBuilder)
        ensures
            r.headers_spec().len() == self.headers_spec().len() + 1,
            r.headers_spec().subrange(0, self.headers_spec().len() as int) == self.headers_spec(),
            r.headers_spec().last().0@ == "Accept"@,
            r.headers_spec().last().1@ == "application/json"@,
            r.url_spec() == self.url_spec(),
            r.status_spec() == self.status_spec(),
    {
        self.header("Accept", "application/json")
    }

    /// Also sends `Content-Type: <content_type>`.
    pub fn content_type(self, content_type: &str) -> (r: HttpTargetBuilder)
        ensures
            r.headers_spec().len() == self.headers_spec().len() + 1,
            r.headers_spec().subrange(0, self.headers_spec().len() as int) == self.headers_spec(),
            r.headers_spec().last().0@ == "Content-Type"@,
            r.headers_spec().last().1@ == content_type@,
            r.url_spec() == self.url_spec(),
            r.status_spec() == self.status_spec(),
    {
        self.header("Content-Type", content_type)
    }

    /// Also sends `User-Agent: <user_agent>`.
    pub fn user_agent(self, user_agent: &str) -> (r: HttpTargetBuilder)
        ensures
            r.headers_spec().len() == self.headers_spec().len() + 1,
            r.headers_spec().subrange(0, self.headers_spec().len() as int) == self.headers_spec(),
            r.headers_spec().last().0@ == "User-Agent"@,
            r.headers_spec().last().1@ == user_agent@,
            r.url_spec() == self.url_spec(),
            r.status_spec() == self.status_spec(),
    {
        self.header("User-Agent", user_agent)
    }

    /// The target: `InvalidTarget` when the scheme, status or a header is
    /// not valid; no header list when no header was added.
    pub fn build(self) -> (r: Result<Target, WaitForError>)
        ensures
            r is Ok <==> is_web_scheme(self.url_spec()@.scheme) && valid_status(self.status_spec()) && valid_headers(
                self.headers_spec(),
            ),
            r matches Ok(t) ==> t@ == (TargetView::Http {
                url: self.url_spec()@,
                expected_status: self.status_spec(),
                headers: if self.headers_spec().len() == 0 {
                    None
                } else {
                    Some(self.headers_spec())
                },
            }),
            r matches Err(e) ==> e is InvalidTarget,
    {
        if self.headers.len() == 0 {
            match validate_http_config(&self.url, self.expected_status, None) {
                Ok(()) => Ok(Target::Http { url: self.url, expected_status: self.expected_status, headers: None }),
                Err(e) => Err(e),
            }
        } else {
            match validate_http_config(&self.url, self.expected_status, Some(&self.headers)) {
                Ok(()) => Ok(
                    Target::Http { url: self.url, expected_status: self.expected_status, headers: Some(self.headers) },
                ),
                Err(e) => Err(e),
            }
        }
    }
}

impl Target {
    /// A builder for an HTTP target on `url`.
    pub fn http_builder(url: HttpUrl) -> (r: HttpTargetBuilder)
        ensures
            r.url_spec() == url,
            r.status_spec() == 200,
            r.headers_spec().len() == 0,
    {
        HttpTargetBuilder::new(url)
    }
}

/// A run policy being put together, from the default one.
pub struct WaitConfigBuilder {
    config: WaitConfig,
}

impl WaitConfig {
    /// A builder that starts from the default policy.
    pub fn builder() -> (r: WaitConfigBuilder)
        ensures
            millis_of(r.config_spec().timeout) == 30000,
            millis_of(r.config_spec().initial_interval) == 1000,
            millis_of(r.config_spec().max_interval) == 30000,
            !r.config_spec().wait_for_any,
            r.config_spec().max_retries is None,
            millis_of(r.config_spec().connection_timeout) == 10000,
            r.config_spec().cancellation_token is None,
            r.config_spec().security_validator is None,
            r.config_spec().rate_limiter is None,
    {
        let config = WaitConfig::default();
        WaitConfigBuilder { config }
    }
}

impl WaitConfigBuilder {
    /// The policy so far.
    pub closed spec fn config_spec(&self) -> WaitConfig {
        self.config
    }

    /// With the deadline `timeout`.
    pub fn timeout(self, timeout: Duration) -> (r: WaitConfigBuilder)
        ensures
            r.config_spec() == (WaitConfig { timeout, ..self.config_spec() }),
    {
        WaitConfigBuilder { config: WaitConfig { timeout, ..self.config } }
    }

    /// With the first wait `interval`.
    pub fn interval(self, interval: Duration) -> (r: WaitConfigBuilder)
        ensures
            r.config_spec() == (WaitConfig { initial_interval: interval, ..self.config_spec() }),
    {
        WaitConfigBuilder { config: WaitConfig { initial_interval: interval, ..self.config } }
    }

    /// With the longest wait `max_interval`.
    pub fn max_interval(self, max_interval: Duration) -> (r: WaitConfigBuilder)
        ensures
            r.config_spec() == (WaitConfig { max_interval, ..self.config_spec() }),
    {
        WaitConfigBuilder { config: WaitConfig { max_interval, ..self.config } }
    }

    /// Waiting for any target, or for all.
    pub fn wait_for_any(self, wait_for_any: bool) -> (r: WaitConfigBuilder)
        ensures
            r.config_spec() == (WaitConfig { wait_for_any, ..self.config_spec() }),
    {
        WaitConfigBuilder { config: WaitConfig { wait_for_any, ..self.config } }
    }

    /// With the cap on attempts `max_retries`.
    pub fn max_retries(self, max_retries: Option<u32>) -> (r: WaitConfigBuilder)
        ensures
            r.config_spec() == (WaitConfig { max_retries, ..self.config_spec() }),
    {
        WaitConfigBuilder { config: WaitConfig { max_retries, ..self.config } }
    }

    /// With the longest attempt `timeout`.
    pub fn connection_timeout(self, timeout: Duration) -> (r: WaitConfigBuilder)
        ensures
            r.config_spec() == (WaitConfig { connection_timeout: timeout, ..self.config_spec() }),
    {
        WaitConfigBuilder { config: WaitConfig { connection_timeout: timeout, ..self.config } }
    }

    /// Stopped early when `token` is cancelled.
    pub fn cancellation_token(self, token: CancellationToken) -> (r: WaitConfigBuilder)
        ensures
            r.config_spec() == (WaitConfig { cancellation_token: Some(token), ..self.config_spec() }),
    {
        WaitConfigBuilder { config: WaitConfig { cancellation_token: Some(token), ..self.config } }
    }

    /// Stopped early by a new signal, which is returned beside the builder.
    pub fn with_cancellation(self) -> (r: (WaitConfigBuilder, CancellationToken))
        ensures
            r.0.config_spec().cancellation_token is Some,
            r.0.config_spec().timeout == self.config_spec().timeout,
            r.0.config_spec().initial_interval == self.config_spec().initial_interval,
            r.0.config_spec().max_interval == self.config_spec().max_interval,
            r.0.config_spec().connection_timeout == self.config_spec().connection_timeout,
            r.0.config_spec().wait_for_any == self.config_spec().wait_for_any,
            r.0.config_spec().max_retries == self.config_spec().max_retries,
    {
        let token = CancellationToken::new();
        let handle = token.clone();
        (self.cancellation_token(handle), token)
    }

    /// With the checks `validator` before each attempt.
    pub fn security_validator(self, validator: SecurityValidator) -> (r: WaitConfigBuilder)
        ensures
            r.config_spec() == (WaitConfig { security_validator: Some(validator), ..self.config_spec() }),
    {
        WaitConfigBuilder { config: WaitConfig { security_validator: Some(validator), ..self.config } }
    }

    /// With the cap on attempts `limiter`, shared by the targets of a run.
    pub fn rate_limiter(self, limiter: RateLimiter) -> (r: WaitConfigBuilder)
        ensures
            r.config_spec() == (WaitConfig { rate_limiter: Some(limiter), ..self.config_spec() }),
    {
        WaitConfigBuilder { config: WaitConfig { rate_limiter: Some(limiter), ..self.config } }
    }

    /// The policy.
    pub fn build(self) -> (r: WaitConfig)
        ensures
            r == self.config_spec(),
    {
        self.config
    }
}

} // verus!
