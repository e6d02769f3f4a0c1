use std::time::Duration;

use waitup::probe::{next_interval_u64, ProbeOutcome};
use waitup::summary::summary_of;
use waitup::{
    combine_any, policy_gate, summarize_all, wait_all_outcome, ConcurrentProgressStrategy, LinearBackoffStrategy,
    ProbeState, ProbeStep, RateLimiter, SecurityValidator, Target, TargetResult, WaitConfig, WaitForError,
    WaitResult,
};
use waitup::AsyncRetryStrategy;

fn create_test_target_result(target: Target, success: bool, elapsed: Duration, attempts: u32) -> TargetResult {
    TargetResult {
        target,
        success,
        elapsed,
        attempts,
        error: if success { None } else { Some("Test error".to_string()) },
    }
}

fn tcp(port: u16) -> Target {
    Target::tcp("localhost", port).unwrap()
}

#[test]
fn next_interval_grows_by_half_up_to_cap() {
    assert_eq!(next_interval_u64(100, 10_000), 150);
    assert_eq!(next_interval_u64(101, 10_000), 151);
    assert_eq!(next_interval_u64(8_000, 10_000), 10_000);
    assert_eq!(next_interval_u64(0, 100), 0);
    assert_eq!(next_interval_u64(1, 100), 1);
    assert_eq!(next_interval_u64(u64::MAX, u64::MAX), u64::MAX);
}

#[test]
fn empty_run_succeeds_without_attempts() {
    let result = summarize_all(Vec::new(), 0);
    assert!(result.success);
    assert_eq!(result.attempts, 0);
    assert!(result.target_results.is_empty());
    assert!(wait_all_outcome(Vec::new(), 0).unwrap().success);
}

#[test]
fn all_strategy_with_one_unreachable_target() {
    let results = vec![
        create_test_target_result(tcp(8080), true, Duration::from_millis(5), 1),
        create_test_target_result(tcp(65534), false, Duration::from_millis(100), 4),
    ];
    let summary = summarize_all(results.clone(), 120);
    assert!(!summary.success);
    assert_eq!(summary.target_results.len(), 2);
    assert_eq!(summary.attempts, 5);
    assert!(summary.target_results.iter().all(|r| r.attempts >= 1));
    assert!(!summary.target_results[1].error.as_deref().unwrap_or("").is_empty());
    match wait_all_outcome(results, 120) {
        Err(WaitForError::TargetsFailed { targets, result }) => {
            assert_eq!(targets, "localhost:65534");
            assert!(!result.success);
            assert_eq!(result.target_results.len(), 2);
            assert!(result.target_results.iter().all(|r| r.attempts >= 1));
            assert!(!result.target_results[1].success);
            assert!(!result.target_results[1].error.as_deref().unwrap_or("").is_empty());
        }
        _ => panic!("expected a failure naming the failed target"),
    }
}

#[test]
fn all_strategy_names_every_failed_target() {
    let results = vec![
        create_test_target_result(tcp(1), false, Duration::from_millis(5), 1),
        create_test_target_result(tcp(2), true, Duration::from_millis(5), 1),
        create_test_target_result(tcp(3), false, Duration::from_millis(5), 1),
    ];
    match wait_all_outcome(results, 10) {
        Err(WaitForError::TargetsFailed { targets, result }) => {
            assert_eq!(targets, "localhost:1, localhost:3");
            assert_eq!(result.attempts, 3);
        }
        _ => panic!("expected a failure"),
    }
}

#[test]
fn any_strategy_keeps_only_the_winner() {
    let results = vec![
        create_test_target_result(tcp(65534), false, Duration::from_millis(50), 3),
        create_test_target_result(tcp(8080), true, Duration::from_millis(1), 1),
    ];
    let outcome: WaitResult = combine_any(results, 60).unwrap();
    assert!(outcome.success);
    assert_eq!(outcome.target_results.len(), 1);
    assert!(outcome.target_results[0].success);
    assert_eq!(outcome.attempts, 1);
    assert_eq!(outcome.elapsed, Duration::from_millis(60));
}

#[test]
fn any_strategy_fails_naming_all_targets() {
    let results = vec![
        create_test_target_result(tcp(1), false, Duration::from_millis(5), 1),
        create_test_target_result(tcp(2), false, Duration::from_millis(5), 1),
    ];
    match combine_any(results, 10) {
        Err(WaitForError::Timeout { targets }) => assert_eq!(targets, "localhost:1, localhost:2"),
        _ => panic!("expected a timeout"),
    }
}

#[test]
fn prober_times_out_with_zero_attempts_when_deadline_passed() {
    let config = WaitConfig::builder().timeout(Duration::ZERO).build();
    let mut state = ProbeState::start(&config, 1_000);
    match state.begin(1_000, false) {
        ProbeStep::Finished(ProbeOutcome { success, attempts, error, .. }) => {
            assert!(!success);
            assert_eq!(attempts, 0);
            assert_eq!(error.as_deref(), Some("overall timeout exceeded"));
        }
        _ => panic!("expected the run to end"),
    }
}

#[test]
fn prober_stops_when_cancelled() {
    let config = WaitConfig::default();
    let mut state = ProbeState::start(&config, 0);
    assert!(matches!(state.begin(10, true), ProbeStep::Cancelled));
    assert_eq!(state.attempts, 0);
}

#[test]
fn prober_attempt_timeout_is_cut_at_deadline() {
    let config = WaitConfig::builder()
        .timeout(Duration::from_millis(500))
        .connection_timeout(Duration::from_secs(2))
        .build();
    let mut state = ProbeState::start(&config, 1_000);
    match state.begin(1_200, false) {
        ProbeStep::Attempt { timeout_ms } => assert_eq!(timeout_ms, 300),
        _ => panic!("expected an attempt"),
    }
    assert_eq!(state.attempts, 1);
}

#[test]
fn prober_backs_off_then_exhausts() {
    let config = WaitConfig::builder()
        .timeout(Duration::from_secs(60))
        .interval(Duration::from_millis(100))
        .max_interval(Duration::from_millis(200))
        .max_retries(Some(2))
        .build();
    let mut state = ProbeState::start(&config, 0);
    assert!(matches!(state.begin(0, false), ProbeStep::Attempt { .. }));
    match state.after_attempt(Err("refused".to_string()), 0, 10) {
        ProbeStep::Sleep { duration_ms } => assert_eq!(duration_ms, 100),
        _ => panic!("expected a sleep"),
    }
    assert_eq!(state.current_interval_ms, 150);
    assert!(matches!(state.begin(110, false), ProbeStep::Attempt { .. }));
    match state.after_attempt(Err("refused".to_string()), 110, 120) {
        ProbeStep::Finished(o) => {
            assert!(!o.success);
            assert_eq!(o.attempts, 2);
            assert_eq!(o.elapsed_ms, 110);
            assert_eq!(o.error.as_deref(), Some("Max retries (2) exceeded. Last error: refused"));
        }
        _ => panic!("expected the attempts to run out"),
    }
}

#[test]
fn prober_success_reports_attempts() {
    let config = WaitConfig::default();
    let mut state = ProbeState::start(&config, 50);
    assert!(matches!(state.begin(60, false), ProbeStep::Attempt { timeout_ms: 10_000 }));
    match state.after_attempt(Ok(()), 60, 70) {
        ProbeStep::Finished(o) => {
            assert!(o.success);
            assert_eq!(o.attempts, 1);
            assert_eq!(o.elapsed_ms, 10);
            assert!(o.error.is_none());
        }
        _ => panic!("expected success"),
    }
    let result = TargetResult::from_outcome(tcp(80), ProbeOutcome { success: true, elapsed_ms: 10, attempts: 1, error: None });
    assert_eq!(result.elapsed, Duration::from_millis(10));
}

#[test]
fn prober_sleep_is_cut_at_deadline() {
    let config = WaitConfig::builder()
        .timeout(Duration::from_millis(1_000))
        .interval(Duration::from_millis(800))
        .build();
    let mut state = ProbeState::start(&config, 0);
    assert!(matches!(state.begin(0, false), ProbeStep::Attempt { .. }));
    assert!(matches!(
        state.after_attempt(Err("x".to_string()), 0, 700),
        ProbeStep::Sleep { duration_ms: 300 }
    ));
}

#[test]
fn policy_gate_runs_validator_before_limiter() {
    let validator = Some(SecurityValidator::production());
    let mut limiter = Some(RateLimiter::new(1));
    let ssh = Target::tcp("example.com", 22).unwrap();
    assert!(matches!(policy_gate(&validator, &mut limiter, &ssh, 0), Err(WaitForError::InvalidPort(22))));
    let web = Target::tcp("example.com", 443).unwrap();
    assert!(policy_gate(&validator, &mut limiter, &web, 0).is_ok());
    assert!(matches!(
        policy_gate(&validator, &mut limiter, &web, 1),
        Err(WaitForError::RetryLimitExceeded { limit: 1 })
    ));
    let mut none = None;
    assert!(policy_gate(&None, &mut none, &ssh, 0).is_ok());
}

#[test]
fn linear_backoff_steps_up_to_cap() {
    let mut strategy = LinearBackoffStrategy::new(Duration::from_secs(1), Duration::from_secs(3));
    assert_eq!(strategy.next_interval(1, Duration::from_secs(1)), Duration::from_secs(2));
    assert_eq!(strategy.next_interval(2, Duration::from_secs(3)), Duration::from_secs(3));
    assert!(strategy.should_retry(1, Duration::from_secs(1), Some(3), Duration::from_secs(10)));
    assert!(!strategy.should_retry(3, Duration::from_secs(1), Some(3), Duration::from_secs(10)));
    assert!(!strategy.should_retry(1, Duration::from_secs(10), None, Duration::from_secs(10)));
    assert_eq!(strategy.name(), "linear_backoff");
}

#[test]
fn concurrent_progress_batches() {
    let strategy = ConcurrentProgressStrategy::new(2);
    assert_eq!(strategy.batches(5), vec![(0, 2), (2, 4), (4, 5)]);
    assert_eq!(strategy.batches(4), vec![(0, 2), (2, 4)]);
    assert!(strategy.batches(0).is_empty());
    assert_eq!(strategy.name(), "concurrent_progress");
}

#[test]
fn parse_enforces_status_range_for_urls() {
    assert!(matches!(Target::parse("http://example.com/", 99), Err(WaitForError::InvalidTarget(_))));
    assert!(matches!(Target::parse("https://example.com/", 600), Err(WaitForError::InvalidTarget(_))));
    assert!(Target::parse("https://example.com/", 599).is_ok());
}

#[test]
fn test_target_iter_ext_successful_results() {
    let results = vec![
        create_test_target_result(tcp(8080), true, Duration::from_millis(100), 1),
        create_test_target_result(tcp(8081), false, Duration::from_millis(200), 2),
        create_test_target_result(tcp(8082), true, Duration::from_millis(150), 1),
    ];
    let wait = WaitResult { success: false, elapsed: Duration::from_millis(450), attempts: 4, target_results: results };
    let successful = wait.successful_results();
    assert_eq!(successful.len(), 2);
    assert!(successful[0].success);
    assert!(successful[1].success);
}

#[test]
fn test_target_iter_ext_failed_results() {
    let results = vec![
        create_test_target_result(tcp(8080), true, Duration::from_millis(100), 1),
        create_test_target_result(tcp(8081), false, Duration::from_millis(200), 2),
        create_test_target_result(tcp(8082), false, Duration::from_millis(150), 3),
    ];
    let wait = WaitResult { success: false, elapsed: Duration::from_millis(450), attempts: 6, target_results: results };
    let failed = wait.failed_results();
    assert_eq!(failed.len(), 2);
    assert!(!failed[0].success);
    assert!(!failed[1].success);
}

#[test]
fn test_target_result_iter_ext_summary() {
    let results = vec![
        create_test_target_result(tcp(8080), true, Duration::from_millis(100), 1),
        create_test_target_result(tcp(8081), false, Duration::from_millis(200), 2),
        create_test_target_result(tcp(8082), true, Duration::from_millis(150), 1),
    ];
    let summary = summary_of(&results);
    assert_eq!(summary.total_targets, 3);
    assert_eq!(summary.successful_count, 2);
    assert_eq!(summary.failed_count, 1);
    assert_eq!(summary.total_attempts, 4);
    assert_eq!(summary.fastest_response, Some(Duration::from_millis(100)));
    assert_eq!(summary.slowest_response, Some(Duration::from_millis(200)));
    assert_eq!(summary.total_elapsed, Duration::from_millis(450));
}

#[test]
fn test_wait_result_summary() {
    let wait_result = WaitResult {
        success: true,
        elapsed: Duration::from_millis(300),
        attempts: 3,
        target_results: vec![
            create_test_target_result(tcp(8080), true, Duration::from_millis(100), 1),
            create_test_target_result(tcp(8081), true, Duration::from_millis(200), 2),
        ],
    };
    let summary = wait_result.summary();
    assert_eq!(summary.total_targets, 2);
    assert_eq!(summary.successful_count, 2);
    assert_eq!(summary.failed_count, 0);
    assert_eq!(summary.total_attempts, 3);
    assert_eq!(summary.total_elapsed, Duration::from_millis(300));
    assert_eq!(summary.fastest_response, Some(Duration::from_millis(100)));
    assert_eq!(summary.slowest_response, Some(Duration::from_millis(200)));
}

#[test]
fn test_result_summary_empty() {
    let results: Vec<TargetResult> = vec![];
    let summary = summary_of(&results);
    assert_eq!(summary.total_targets, 0);
    assert_eq!(summary.successful_count, 0);
    assert_eq!(summary.failed_count, 0);
    assert_eq!(summary.total_attempts, 0);
    assert_eq!(summary.total_elapsed, Duration::ZERO);
    assert_eq!(summary.fastest_response, None);
    assert_eq!(summary.slowest_response, None);
}

#[test]
fn test_result_summary_display() {
    let results = vec![create_test_target_result(tcp(8080), true, Duration::from_millis(100), 2)];
    let display = summary_of(&results).to_text();
    assert!(display.contains("1/1 successful"));
    assert!(display.contains("2 attempts"));
    assert!(display.contains("100ms"));
}

#[test]
fn test_result_summary_all_failed() {
    let results = vec![
        create_test_target_result(tcp(8080), false, Duration::from_millis(100), 1),
        create_test_target_result(tcp(8081), false, Duration::from_millis(200), 2),
    ];
    let summary = summary_of(&results);
    assert_eq!(summary.total_targets, 2);
    assert_eq!(summary.successful_count, 0);
    assert_eq!(summary.failed_count, 2);
    assert_eq!(summary.total_attempts, 3);
}

#[test]
fn duration_reading_is_repeatable() {
    let a: waitup::ValidatedDuration = "1.5s".parse().unwrap();
    let b: waitup::ValidatedDuration = "1.5s".parse().unwrap();
    assert_eq!(a.get(), b.get());
    assert_eq!(a.get(), Duration::from_millis(1500));
    assert_eq!(" 250ms ".parse::<waitup::ValidatedDuration>().unwrap().get(), Duration::from_millis(250));
    assert_eq!(".5m".parse::<waitup::ValidatedDuration>().unwrap().get(), Duration::from_secs(30));
    assert!("1.2.3s".parse::<waitup::ValidatedDuration>().is_err());
    assert!("s".parse::<waitup::ValidatedDuration>().is_err());
    assert!("12.".parse::<waitup::ValidatedDuration>().is_err());
    assert!(matches!(
        waitup::ValidatedDuration::parse("5d"),
        Err(WaitForError::InvalidTimeout(_, _))
    ));
}

#[test]
fn target_parsing_is_repeatable() {
    let a = Target::parse("db.example.com:5432", 200).unwrap();
    let b = Target::parse("db.example.com:5432", 200).unwrap();
    assert_eq!(a, b);
    assert!(matches!(Target::parse("db.example.com", 200), Err(WaitForError::InvalidTarget(_))));
    assert!(matches!(Target::parse("db.example.com:0", 200), Err(WaitForError::InvalidPort(0))));
    assert!(matches!(Target::parse("db.example.com:http", 200), Err(WaitForError::InvalidTarget(_))));
    assert!(matches!(Target::parse("bad_host:80", 200), Err(WaitForError::InvalidHostname(_))));
    assert_eq!(Target::parse("host:+80", 200).unwrap().port(), Some(80));
}

#[test]
fn interval_grows_to_the_nanosecond() {
    let max = Duration::from_secs(1);
    assert_eq!(waitup::calculate_next_interval(Duration::from_micros(1_999), max), Duration::from_nanos(2_998_500));
    assert_eq!(waitup::calculate_next_interval(Duration::from_micros(500), max), Duration::from_micros(750));
    assert_eq!(waitup::calculate_next_interval(Duration::from_nanos(1), max), Duration::from_nanos(1));
    assert_eq!(waitup::calculate_next_interval(Duration::from_millis(900), max), max);
}

#[test]
fn wait_config_with_cancellation() {
    let (builder, token) = WaitConfig::builder().timeout(Duration::from_secs(30)).with_cancellation();
    let config = builder.build();
    assert_eq!(config.timeout, Duration::from_secs(30));
    assert!(config.cancellation_token.is_some());
    assert!(!token.is_cancelled());
    token.cancel();
    assert!(token.is_cancelled());
    assert!(config.cancellation_token.unwrap().is_cancelled());
}

#[test]
fn presets_carry_their_checks() {
    let production = WaitConfig::production();
    let validator = production.security_validator.clone().unwrap();
    assert!(validator.validate_target(&Target::tcp("example.com", 22).unwrap()).is_err());
    let mut limiter = production.rate_limiter.clone().unwrap();
    let target = Target::tcp("example.com", 443).unwrap();
    for i in 0..30u64 {
        assert!(limiter.check_rate_limit_at(&target, 1_000 + i).is_ok());
    }
    assert!(limiter.check_rate_limit_at(&target, 1_100).is_err());
    assert!(WaitConfig::default().rate_limiter.is_none());
}

#[test]
fn ipv6_loopback_in_any_form_is_private() {
    let production = SecurityValidator::production();
    for host in ["::1", "0:0:0:0:0:0:0:1", "::", "0::0"] {
        let target = Target::from_parts(waitup::Hostname::from_static(host), waitup::Port::new(443).unwrap());
        assert!(production.validate_target(&target).is_err(), "{host} accepted");
    }
    let public = Target::from_parts(waitup::Hostname::from_static("2001:db8::1"), waitup::Port::new(443).unwrap());
    assert!(production.validate_target(&public).is_ok());
}

#[test]
fn rate_limiter_prunes_after_interval() {
    let mut limiter = RateLimiter::new(1);
    let target = Target::tcp("localhost", 80).unwrap();
    let copy = limiter.clone();
    assert!(limiter.check_rate_limit_at(&target, u64::MAX / 2).is_ok());
    assert!(limiter.check_rate_limit_at(&target, u64::MAX / 2 + 1).is_err());
    assert!(limiter.check_rate_limit_at(&target, u64::MAX / 2 + 60_000).is_ok());
    let mut copy = copy;
    assert!(copy.check_rate_limit_at(&target, 5).is_ok());
}
