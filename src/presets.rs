//! Ready-made policies and targets for common setups.

use vstd::prelude::*;

use crate::error::WaitForError;
use crate::probe::WaitConfig;
use crate::rate_limit::RateLimiter;
use crate::security::{development_policy, production_policy, SecurityValidator, ValidatorView};
use crate::target::{is_web_scheme, url_of, url_parses, url_scheme, Target, TargetView};
use crate::time::{from_millis, from_secs, millis_of};
use crate::types::{Hostname, Port};

verus! {

/// The policy whose times are these, in milliseconds.
pub open spec fn policy_is(
    c: WaitConfig,
    timeout: nat,
    initial: nat,
    max: nat,
    connection: nat,
    retries: Option<u32>,
    validator: ValidatorView,
    limit: u32,
) -> bool {
    &&& c.security_validator matches Some(v) && v@ == validator
    &&& c.rate_limiter matches Some(l) && l.wf() && l@.max_requests_per_minute == limit
    &&& c.cancellation_token is None
    &&& millis_of(c.timeout) == timeout
    &&& millis_of(c.initial_interval) == initial
    &&& millis_of(c.max_interval) == max
    &&& millis_of(c.connection_timeout) == connection
    &&& !c.wait_for_any
    &&& c.max_retries == retries
}

impl WaitConfig {
    /// Local development: 10 s, waits of 0.1 s to 1 s, 2 s per attempt, 50 attempts;
    /// development checks, 120 attempts per minute.
    pub fn local_dev() -> (r: WaitConfig)
        ensures
            policy_is(r, 10000, 100, 1000, 2000, Some(50), development_policy(), 120),
    {
        WaitConfig {
            timeout: from_secs(10),
            initial_interval: from_millis(100),
            max_interval: from_secs(1),
            wait_for_any: false,
            max_retries: Some(50),
            connection_timeout: from_secs(2),
            cancellation_token: None,
            security_validator: Some(SecurityValidator::development()),
            rate_limiter: Some(RateLimiter::new(120)),
        }
    }

    /// Continuous integration: 60 s, waits of 0.5 s to 5 s, 10 s per attempt, 30 attempts;
    /// development checks, 60 attempts per minute.
    pub fn ci_cd() -> (r: WaitConfig)
        ensures
            policy_is(r, 60000, 500, 5000, 10000, Some(30), development_policy(), 60),
    {
        WaitConfig {
            timeout: from_secs(60),
            initial_interval: from_millis(500),
            max_interval: from_secs(5),
            wait_for_any: false,
            max_retries: Some(30),
            connection_timeout: from_secs(10),
            cancellation_token: None,
            security_validator: Some(SecurityValidator::development()),
            rate_limiter: Some(RateLimiter::new(60)),
        }
    }

    /// Container start-up: 5 min, waits of 2 s to 30 s, 15 s per attempt, no cap;
    /// development checks, 60 attempts per minute.
    pub fn docker() -> (r: WaitConfig)
        ensures
            policy_is(r, 300000, 2000, 30000, 15000, None, development_policy(), 60),
    {
        WaitConfig {
            timeout: from_secs(300),
            initial_interval: from_secs(2),
            max_interval: from_secs(30),
            wait_for_any: false,
            max_retries: None,
            connection_timeout: from_secs(15),
            cancellation_token: None,
            security_validator: Some(SecurityValidator::development()),
            rate_limiter: Some(RateLimiter::new(60)),
        }
    }

    /// Production: 2 min, waits of 1 s to 30 s, 30 s per attempt, 20 attempts;
    /// production checks, 30 attempts per minute.
    pub fn production() -> (r: WaitConfig)
        ensures
            policy_is(r, 120000, 1000, 30000, 30000, Some(20), production_policy(), 30),
    {
        WaitConfig {
            timeout: from_secs(120),
            initial_interval: from_secs(1),
            max_interval: from_secs(30),
            wait_for_any: false,
            max_retries: Some(20),
            connection_timeout: from_secs(30),
            cancellation_token: None,
            security_validator: Some(SecurityValidator::production()),
            rate_limiter: Some(RateLimiter::new(30)),
        }
    }

    /// Many small services: 90 s, waits of 0.5 s to 10 s, 5 s per attempt, 40 attempts;
    /// development checks, 60 attempts per minute.
    pub fn microservices() -> (r: WaitConfig)
        ensures
            policy_is(r, 90000, 500, 10000, 5000, Some(40), development_policy(), 60),
    {
        WaitConfig {
            timeout: from_secs(90),
            initial_interval: from_millis(500),
            max_interval: from_secs(10),
            wait_for_any: false,
            max_retries: Some(40),
            connection_timeout: from_secs(5),
            cancellation_token: None,
            security_validator: Some(SecurityValidator::development()),
            rate_limiter: Some(RateLimiter::new(60)),
        }
    }

    /// Services of other parties: 3 min, waits of 5 s to 60 s, 30 s per attempt, 15 attempts;
    /// production checks, 20 attempts per minute.
    pub fn external_services() -> (r: WaitConfig)
        ensures
            policy_is(r, 180000, 5000, 60000, 30000, Some(15), production_policy(), 20),
    {
        WaitConfig {
            timeout: from_secs(180),
            initial_interval: from_secs(5),
            max_interval: from_secs(60),
            wait_for_any: false,
            max_retries: Some(15),
            connection_timeout: from_secs(30),
            cancellation_token: None,
            security_validator: Some(SecurityValidator::production()),
            rate_limiter: Some(RateLimiter::new(20)),
        }
    }
}

/// A TCP target on a well-known service name.
fn service(host: &'static str, port: u16) -> (r: Target)
    requires
        port != 0,
    ensures
        r@ == (TargetView::Tcp { host: host@, port }),
{
    Target::from_parts(Hostname::from_static(host), Port::new_unchecked(port))
}

impl Target {
    /// `postgres:5432`, `mysql:3306`, `mongodb:27017` and `redis:6379`.
    pub fn database_targets() -> (r: Result<Vec<Target>, WaitForError>)
        ensures
            r matches Ok(v) && v@.len() == 4 && v@[0]@ == (TargetView::Tcp { host: "postgres"@, port: 5432 })
                && v@[1]@ == (TargetView::Tcp { host: "mysql"@, port: 3306 }) && v@[2]@ == (TargetView::Tcp {
                host: "mongodb"@,
                port: 27017,
            }) && v@[3]@ == (TargetView::Tcp { host: "redis"@, port: 6379 }),
    {
        Ok(vec![service("postgres", 5432), service("mysql", 3306), service("mongodb", 27017), service("redis", 6379)])
    }

    /// `web:80`, `api:8080`, and the health pages of both.
    pub fn web_service_targets() -> (r: Result<Vec<Target>, WaitForError>)
        ensures
            r is Ok <==> url_parses("http://web/health"@) && is_web_scheme(url_scheme("http://web/health"@))
                && url_parses("http://api:8080/health"@) && is_web_scheme(url_scheme("http://api:8080/health"@)),
            r matches Ok(v) ==> v@.len() == 4 && v@[0]@ == (TargetView::Tcp { host: "web"@, port: 80 })
                && v@[1]@ == (TargetView::Tcp { host: "api"@, port: 8080 }) && v@[2]@ == (TargetView::Http {
                url: url_of("http://web/health"@),
                expected_status: 200,
                headers: None,
            }) && v@[3]@ == (TargetView::Http { url: url_of("http://api:8080/health"@), expected_status: 200, headers: None }),
    {
        let web_health = match Target::http_url("http://web/health", 200) {
            Ok(t) => t,
            Err(e) => {
                return Err(e);
            },
        };
        let api_health = match Target::http_url("http://api:8080/health", 200) {
            Ok(t) => t,
            Err(e) => {
                return Err(e);
            },
        };
        Ok(vec![service("web", 80), service("api", 8080), web_health, api_health])
    }

    /// `elasticsearch:9200`, `kibana:5601` and the cluster health page.
    pub fn elasticsearch_targets() -> (r: Result<Vec<Target>, WaitForError>)
        ensures
            r is Ok <==> url_parses("http://elasticsearch:9200/_cluster/health"@) && is_web_scheme(
                url_scheme("http://elasticsearch:9200/_cluster/health"@),
            ),
            r matches Ok(v) ==> v@.len() == 3 && v@[0]@ == (TargetView::Tcp { host: "elasticsearch"@, port: 9200 })
                && v@[1]@ == (TargetView::Tcp { host: "kibana"@, port: 5601 }) && v@[2]@ == (TargetView::Http {
                url: url_of("http://elasticsearch:9200/_cluster/health"@),
                expected_status: 200,
                headers: None,
            }),
    {
        let health = match Target::http_url("http://elasticsearch:9200/_cluster/health", 200) {
            Ok(t) => t,
            Err(e) => {
                return Err(e);
            },
        };
        Ok(vec![service("elasticsearch", 9200), service("kibana", 5601), health])
    }

    /// `rabbitmq:5672`, `kafka:9092` and `nats:4222`.
    pub fn message_queue_targets() -> (r: Result<Vec<Target>, WaitForError>)
        ensures
            r matches Ok(v) && v@.len() == 3 && v@[0]@ == (TargetView::Tcp { host: "rabbitmq"@, port: 5672 })
                && v@[1]@ == (TargetView::Tcp { host: "kafka"@, port: 9092 }) && v@[2]@ == (TargetView::Tcp {
                host: "nats"@,
                port: 4222,
            }),
    {
        Ok(vec![service("rabbitmq", 5672), service("kafka", 9092), service("nats", 4222)])
    }
}

} // verus!
