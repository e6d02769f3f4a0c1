use waitup::rate_limit::rate_limit_key;
use waitup::{HttpUrl, RateLimiter, SecurityValidator, Target, WaitForError};

#[test]
fn test_rate_limiter_allows_normal_requests() {
    let mut limiter = RateLimiter::new(5);
    let target = Target::tcp("localhost", 8080).unwrap();
    for _ in 0..5 {
        assert!(limiter.check_rate_limit(&target).is_ok());
    }
    assert!(limiter.check_rate_limit(&target).is_err());
}

#[test]
fn rate_limit_ceiling_is_per_key() {
    let mut limiter = RateLimiter::new(3);
    let first = Target::tcp("db.internal", 5432).unwrap();
    let second = Target::tcp("cache.internal", 6379).unwrap();
    for i in 0..3u64 {
        assert!(limiter.check_rate_limit_at(&first, 1_000 + i).is_ok());
    }
    assert!(matches!(
        limiter.check_rate_limit_at(&first, 1_010),
        Err(WaitForError::RetryLimitExceeded { limit: 3 })
    ));
    assert!(limiter.check_rate_limit_at(&second, 1_010).is_ok());
}

#[test]
fn rate_limit_window_slides() {
    let mut limiter = RateLimiter::new(2);
    let target = Target::tcp("localhost", 80).unwrap();
    assert!(limiter.check_rate_limit_at(&target, 0).is_ok());
    assert!(limiter.check_rate_limit_at(&target, 10_000).is_ok());
    assert!(limiter.check_rate_limit_at(&target, 59_999).is_err());
    assert!(limiter.check_rate_limit_at(&target, 60_000).is_ok());
}

#[test]
fn rate_limit_zero_ceiling_refuses_all() {
    let mut limiter = RateLimiter::new(0);
    let target = Target::tcp("localhost", 80).unwrap();
    assert!(limiter.check_rate_limit_at(&target, 5).is_err());
}

#[test]
fn rate_limit_keys() {
    let tcp = Target::tcp("localhost", 8080).unwrap();
    assert_eq!(rate_limit_key(&tcp), "tcp://localhost:8080");
    let https = Target::http_url("https://example.com/health", 200).unwrap();
    assert_eq!(rate_limit_key(&https), "http://example.com:443");
    let http = Target::http_url("http://example.com:8081/", 200).unwrap();
    assert_eq!(rate_limit_key(&http), "http://example.com:8081");
}

#[test]
fn test_security_validator_blocks_dangerous_ports() {
    let validator = SecurityValidator::production();
    let ssh_target = Target::tcp("example.com", 22).unwrap();
    assert!(validator.validate_target(&ssh_target).is_err());
}

#[test]
fn test_security_validator_allows_web_ports() {
    let validator = SecurityValidator::production();
    let web_target = Target::tcp("example.com", 443).unwrap();
    assert!(validator.validate_target(&web_target).is_ok());
}

#[test]
fn test_security_validator_blocks_private_ips_in_production() {
    let validator = SecurityValidator::production();
    let private_target = Target::tcp("192.168.1.1", 80).unwrap();
    assert!(validator.validate_target(&private_target).is_err());
}

#[test]
fn test_security_validator_allows_private_ips_in_development() {
    let validator = SecurityValidator::development();
    let private_target = Target::tcp("192.168.1.1", 80).unwrap();
    assert!(validator.validate_target(&private_target).is_ok());
}

#[test]
fn validator_refuses_localhost_and_long_names() {
    let validator = SecurityValidator::new().allow_localhost(false).max_hostname_length(10);
    assert!(matches!(
        validator.validate_target(&Target::tcp("localhost", 80).unwrap()),
        Err(WaitForError::InvalidHostname(_))
    ));
    assert!(validator.validate_target(&Target::tcp("averylonghostname.example", 80).unwrap()).is_err());
    assert!(validator.validate_target(&Target::tcp("short.io", 80).unwrap()).is_ok());
}

#[test]
fn validator_port_lists() {
    let validator = SecurityValidator::new().blocked_ports(vec![9000]).allowed_ports(Some(vec![9000, 9001]));
    assert!(matches!(validator.validate_port(9000), Err(WaitForError::InvalidPort(9000))));
    assert!(validator.validate_port(9001).is_ok());
    assert!(matches!(validator.validate_port(9002), Err(WaitForError::InvalidPort(9002))));
    assert!(SecurityValidator::new().validate_port(22).is_err());
    assert!(SecurityValidator::development().validate_port(5432).is_ok());
}

#[test]
fn validator_checks_urls() {
    let production = SecurityValidator::production();
    let ok = Target::http_url("https://example.com/health", 200).unwrap();
    assert!(production.validate_target(&ok).is_ok());
    let odd_port = Target::http_url("https://example.com:9443/health", 200).unwrap();
    assert!(production.validate_target(&odd_port).is_err());
    let short_urls = SecurityValidator::new().max_url_length(10);
    assert!(short_urls.validate_target(&ok).is_err());
    let private = Target::http_url("http://10.0.0.5/", 200).unwrap();
    assert!(production.validate_target(&private).is_err());
    assert!(production.validate_url(&HttpUrl::parse("http://172.20.1.1/").unwrap()).is_err());
    assert!(production.validate_url(&HttpUrl::parse("http://172.32.1.1/").unwrap()).is_ok());
}
