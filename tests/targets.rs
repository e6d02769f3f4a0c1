use std::time::Duration;

use waitup::{
    Hostname, HttpUrl, Port, ResultExt, Target, TargetKind, ValidatedDuration, WaitConfig, WaitForError,
};

fn url(text: &str) -> HttpUrl {
    HttpUrl::parse(text).unwrap()
}

#[test]
fn test_target_parse_tcp() {
    let target = Target::parse("localhost:8080", 200).unwrap();
    match target {
        Target::Tcp { host, port } => {
            assert_eq!(host.as_str(), "localhost");
            assert_eq!(port.get(), 8080);
        }
        _ => panic!("Expected TCP target"),
    }
}

#[test]
fn test_target_parse_http() {
    let target = Target::parse("https://example.com/health", 200).unwrap();
    match target {
        Target::Http { url, expected_status, .. } => {
            assert_eq!(url.as_str(), "https://example.com/health");
            assert_eq!(expected_status, 200);
        }
        _ => panic!("Expected HTTP target"),
    }
}

#[test]
fn test_target_display() {
    let tcp_target = Target::tcp("localhost", 8080).unwrap();
    assert_eq!(tcp_target.display(), "localhost:8080");

    let http_target = Target::http(url("https://example.com/health"), 200).unwrap();
    assert_eq!(http_target.display(), "https://example.com/health");
}

#[test]
fn test_wait_config_builder() {
    let config = WaitConfig::builder()
        .timeout(Duration::from_secs(60))
        .interval(Duration::from_secs(2))
        .max_interval(Duration::from_secs(30))
        .wait_for_any(true)
        .max_retries(Some(10))
        .build();

    assert_eq!(config.timeout, Duration::from_secs(60));
    assert_eq!(config.initial_interval, Duration::from_secs(2));
    assert_eq!(config.max_interval, Duration::from_secs(30));
    assert!(config.wait_for_any);
    assert_eq!(config.max_retries, Some(10));
}

#[test]
fn test_hostname_const_constructors() {
    assert_eq!(Hostname::localhost().as_str(), "localhost");
    assert_eq!(Hostname::loopback().as_str(), "127.0.0.1");
    assert_eq!(Hostname::loopback_v6().as_str(), "::1");
    assert_eq!(Hostname::any().as_str(), "0.0.0.0");
}

#[test]
fn test_target_convenience_constructors() {
    let localhost_target = Target::localhost(8080).unwrap();
    assert_eq!(localhost_target.hostname(), "localhost");
    assert_eq!(localhost_target.port(), Some(8080));

    let loopback_target = Target::loopback(3000).unwrap();
    assert_eq!(loopback_target.hostname(), "127.0.0.1");
    assert_eq!(loopback_target.port(), Some(3000));

    let loopback_v6_target = Target::loopback_v6(9090).unwrap();
    assert_eq!(loopback_v6_target.hostname(), "::1");
    assert_eq!(loopback_v6_target.port(), Some(9090));
}

#[test]
fn safe_tcp_targets_macro() {
    let result = Target::tcp_batch(&[("localhost", 8080), ("example.com", 443)]);
    assert!(result.is_ok());
    let targets = result.unwrap();
    assert_eq!(targets.len(), 2);
    assert_eq!(targets[0].hostname(), "localhost");
    assert_eq!(targets[0].port(), Some(8080));
}

#[test]
fn safe_tcp_targets_macro_error() {
    let result = Target::tcp_batch(&[("localhost", 8080), ("example.com", 0)]);
    assert!(result.is_err());
}

#[test]
fn safe_http_targets_macro() {
    let a = Target::http_url("https://example.com", 200);
    let b = Target::http_url("http://localhost:8080", 204);
    assert!(a.is_ok());
    assert!(b.is_ok());
    let targets = vec![a.unwrap(), b.unwrap()];
    assert_eq!(targets.len(), 2);
}

#[test]
fn safe_http_targets_macro_error() {
    let result = Target::http_batch(&["https://example.com", "invalid-url"], 200);
    result.unwrap_err();
}

#[test]
fn test_target_pattern_matching_tcp() {
    let tcp_target = Target::tcp("localhost", 8080).unwrap();
    let result = match tcp_target {
        Target::Tcp { host, port } => format!("TCP target: {}:{}", host.as_str(), port.get()),
        Target::Http { .. } => String::from("HTTP target"),
    };
    assert_eq!(result, "TCP target: localhost:8080");
}

#[test]
fn test_target_pattern_matching_http() {
    let http_target = Target::http_url("https://example.com/health", 200).unwrap();
    let result = match http_target {
        Target::Tcp { .. } => String::from("TCP target"),
        Target::Http { url, expected_status, .. } => {
            format!("HTTP target: {} (expecting {expected_status})", url.as_str())
        }
    };
    assert_eq!(result, "HTTP target: https://example.com/health (expecting 200)");
}

#[test]
fn test_error_pattern_matching() {
    let invalid_port_error = WaitForError::InvalidPort(0);
    let message = match invalid_port_error {
        WaitForError::InvalidPort(port) => format!("Invalid port: {port}"),
        WaitForError::InvalidTarget(msg) => format!("Invalid target: {msg}"),
        WaitForError::Timeout { targets } => format!("Timeout: {targets}"),
        WaitForError::Cancelled => String::from("Cancelled"),
        _ => String::from("Other error"),
    };
    assert_eq!(message, "Invalid port: 0");
}

#[test]
fn test_hostname_empty() {
    assert!(Hostname::new("").is_err());
}

#[test]
fn test_hostname_too_long() {
    let long_hostname = "a".repeat(254);
    assert!(Hostname::new(&long_hostname).is_err());
}

#[test]
fn test_hostname_max_length() {
    let label63 = "a".repeat(63);
    let label61 = "a".repeat(61);
    let max_hostname = format!("{label63}.{label63}.{label63}.{label61}");
    assert_eq!(max_hostname.len(), 253);
    assert!(Hostname::new(&max_hostname).is_ok());
}

#[test]
fn test_hostname_label_too_long() {
    let label = "a".repeat(64);
    let hostname = format!("{label}.com");
    assert!(Hostname::new(&hostname).is_err());
}

#[test]
fn test_hostname_label_max_length() {
    let label = "a".repeat(63);
    let hostname = format!("{label}.com");
    assert!(Hostname::new(&hostname).is_ok());
}

#[test]
fn test_hostname_starts_with_hyphen() {
    assert!(Hostname::new("-example.com").is_err());
}

#[test]
fn test_hostname_ends_with_hyphen() {
    assert!(Hostname::new("example.com-").is_err());
}

#[test]
fn test_hostname_label_starts_with_hyphen() {
    assert!(Hostname::new("example.-invalid.com").is_err());
}

#[test]
fn test_hostname_label_ends_with_hyphen() {
    assert!(Hostname::new("example.invalid-.com").is_err());
}

#[test]
fn test_hostname_empty_label() {
    assert!(Hostname::new("example..com").is_err());
}

#[test]
fn test_hostname_invalid_chars() {
    assert!(Hostname::new("example!.com").is_err());
}

#[test]
fn test_hostname_with_underscore() {
    assert!(Hostname::new("test_host.com").is_err());
}

#[test]
fn test_hostname_valid_hyphen() {
    assert!(Hostname::new("my-host.example.com").is_ok());
}

#[test]
fn test_hostname_ipv4_valid() {
    assert!(Hostname::ipv4("192.168.1.1").is_ok());
}

#[test]
fn test_hostname_ipv4_invalid() {
    assert!(Hostname::ipv4("256.1.1.1").is_err());
}

#[test]
fn test_hostname_ipv4_invalid_format() {
    assert!(Hostname::ipv4("192.168.1").is_err());
}

#[test]
fn test_hostname_ipv4_too_many_octets() {
    assert!(Hostname::ipv4("192.168.1.1.1").is_err());
}

#[test]
fn test_port_zero_invalid() {
    assert!(Port::try_from_u16(0).is_err());
}

#[test]
fn test_port_one_valid() {
    let result = Port::try_from_u16(1);
    assert!(result.is_ok());
    assert_eq!(result.unwrap().get(), 1);
}

#[test]
fn test_port_max_valid() {
    let result = Port::try_from_u16(65535);
    assert!(result.is_ok());
    assert_eq!(result.unwrap().get(), 65535);
}

#[test]
fn test_port_from_str_valid() {
    let result = "8080".parse::<Port>();
    assert!(result.is_ok());
    assert_eq!(result.unwrap().get(), 8080);
}

#[test]
fn test_port_from_str_invalid() {
    assert!("0".parse::<Port>().is_err());
}

#[test]
fn test_port_from_str_not_a_number() {
    assert!("abc".parse::<Port>().is_err());
}

#[test]
fn test_port_display() {
    let port = Port::try_from_u16(8080).unwrap();
    assert_eq!(port.to_text(), "8080");
}

#[test]
fn test_http_target_invalid_status_too_low() {
    assert!(Target::http(url("http://example.com"), 99).is_err());
}

#[test]
fn test_http_target_invalid_status_too_high() {
    assert!(Target::http(url("http://example.com"), 600).is_err());
}

#[test]
fn test_http_target_status_100_valid() {
    assert!(Target::http(url("http://example.com"), 100).is_ok());
}

#[test]
fn test_http_target_status_599_valid() {
    assert!(Target::http(url("http://example.com"), 599).is_ok());
}

#[test]
fn test_http_target_unsupported_scheme() {
    assert!(Target::http_url("ftp://example.com", 200).is_err());
}

#[test]
fn test_http_target_file_scheme() {
    assert!(Target::http_url("file:///etc/passwd", 200).is_err());
}

#[test]
fn test_http_target_empty_header_key() {
    let headers = vec![("".to_string(), "value".to_string())];
    assert!(Target::http_with_headers(url("http://example.com"), 200, headers).is_err());
}

#[test]
fn test_http_target_empty_header_value() {
    let headers = vec![("X-Custom".to_string(), "".to_string())];
    assert!(Target::http_with_headers(url("http://example.com"), 200, headers).is_err());
}

#[test]
fn test_http_target_invalid_header_name_space() {
    let headers = vec![("X Custom".to_string(), "value".to_string())];
    assert!(Target::http_with_headers(url("http://example.com"), 200, headers).is_err());
}

#[test]
fn test_http_target_valid_header() {
    let headers = vec![("X-Custom-Header".to_string(), "value".to_string())];
    assert!(Target::http_with_headers(url("http://example.com"), 200, headers).is_ok());
}

#[test]
fn test_http_builder_auth_bearer() {
    let target = Target::http_builder(url("http://example.com")).auth_bearer("token123").build().unwrap();
    match target {
        Target::Http { headers, .. } => {
            let headers = headers.unwrap();
            assert_eq!(headers.len(), 1);
            assert_eq!(headers[0].0, "Authorization");
            assert_eq!(headers[0].1, "Bearer token123");
        }
        _ => panic!("Expected HTTP target"),
    }
}

#[test]
fn test_http_builder_basic_auth() {
    let target = Target::http_builder(url("http://example.com")).basic_auth("user", "pass").build().unwrap();
    match target {
        Target::Http { headers, .. } => {
            let headers = headers.unwrap();
            assert_eq!(headers.len(), 1);
            assert_eq!(headers[0].0, "Authorization");
            assert!(headers[0].1.starts_with("Basic "));
            assert_eq!(headers[0].1, "Basic dXNlcjpwYXNz");
        }
        _ => panic!("Expected HTTP target"),
    }
}

#[test]
fn test_target_tcp_invalid_hostname() {
    assert!(Target::tcp("", 8080).is_err());
}

#[test]
fn test_target_tcp_invalid_port() {
    assert!(Target::tcp("localhost", 0).is_err());
}

#[test]
fn test_target_localhost_valid() {
    assert!(Target::localhost(8080).is_ok());
}

#[test]
fn test_target_loopback_valid() {
    assert!(Target::loopback(8080).is_ok());
}

#[test]
fn test_target_loopback_v6_valid() {
    assert!(Target::loopback_v6(8080).is_ok());
}

#[test]
fn test_target_http_localhost() {
    let result = Target::http_localhost(3000);
    assert!(result.is_ok());
    match result.unwrap() {
        Target::Http { url, .. } => assert_eq!(url.as_str(), "http://localhost:3000/"),
        _ => panic!("Expected HTTP target"),
    }
}

#[test]
fn test_target_from_parts() {
    let target = Target::from_parts(Hostname::localhost(), Port::try_from_u16(8080).unwrap());
    assert_eq!(target.hostname(), "localhost");
    assert_eq!(target.port(), Some(8080));
}

#[test]
fn test_target_kind() {
    let tcp = Target::tcp("localhost", 8080).unwrap();
    assert_eq!(tcp.kind(), TargetKind::Tcp);
    let http = Target::http_url("http://example.com", 200).unwrap();
    assert_eq!(http.kind(), TargetKind::Http);
}

#[test]
fn test_target_tcp_batch_valid() {
    let result = Target::tcp_batch(&[("localhost", 8080), ("127.0.0.1", 9090)]);
    assert!(result.is_ok());
    assert_eq!(result.unwrap().len(), 2);
}

#[test]
fn test_target_tcp_batch_one_invalid() {
    assert!(Target::tcp_batch(&[("localhost", 8080), ("", 9090)]).is_err());
}

#[test]
fn test_target_tcp_ports_single_host() {
    let targets = Target::tcp_ports("localhost", &[8080, 8081, 8082]).unwrap();
    assert_eq!(targets.len(), 3);
    assert_eq!(targets[0].port(), Some(8080));
    assert_eq!(targets[1].port(), Some(8081));
    assert_eq!(targets[2].port(), Some(8082));
}

#[test]
fn test_target_tcp_ports_invalid_port() {
    assert!(Target::tcp_ports("localhost", &[8080, 0, 8082]).is_err());
}

#[test]
fn test_target_http_batch() {
    let result = Target::http_batch(&["http://example.com", "https://example.org"], 200);
    assert!(result.is_ok());
    assert_eq!(result.unwrap().len(), 2);
}

#[test]
fn test_validated_duration_from_str_seconds() {
    let result = "30s".parse::<ValidatedDuration>();
    assert_eq!(result.unwrap().get(), Duration::from_secs(30));
}

#[test]
fn test_validated_duration_from_str_minutes() {
    let result = "5m".parse::<ValidatedDuration>();
    assert_eq!(result.unwrap().get(), Duration::from_secs(300));
}

#[test]
fn test_validated_duration_from_str_hours() {
    let result = "2h".parse::<ValidatedDuration>();
    assert_eq!(result.unwrap().get(), Duration::from_secs(7200));
}

#[test]
fn test_validated_duration_from_str_milliseconds() {
    let result = "500ms".parse::<ValidatedDuration>();
    assert_eq!(result.unwrap().get(), Duration::from_millis(500));
}

#[test]
fn test_validated_duration_from_str_plain_number() {
    let result = "60".parse::<ValidatedDuration>();
    assert_eq!(result.unwrap().get(), Duration::from_secs(60));
}

#[test]
fn test_validated_duration_from_str_invalid_unit() {
    assert!("30d".parse::<ValidatedDuration>().is_err());
}

#[test]
fn test_validated_duration_from_str_invalid_number() {
    assert!("abc".parse::<ValidatedDuration>().is_err());
}

#[test]
fn test_validated_duration_display() {
    assert_eq!(ValidatedDuration::from_secs(90).to_text(), "1m");
    assert_eq!(ValidatedDuration::from_millis(500).to_text(), "500ms");
}

#[test]
fn test_wait_config_default() {
    let config = WaitConfig::default();
    assert_eq!(config.timeout, Duration::from_secs(30));
    assert_eq!(config.initial_interval, Duration::from_secs(1));
    assert!(!config.wait_for_any);
    assert!(config.max_retries.is_none());
}

#[test]
fn test_wait_config_builder_custom() {
    let config = WaitConfig::builder()
        .timeout(Duration::from_secs(60))
        .interval(Duration::from_secs(2))
        .max_interval(Duration::from_secs(10))
        .wait_for_any(true)
        .max_retries(Some(5))
        .build();
    assert_eq!(config.timeout, Duration::from_secs(60));
    assert_eq!(config.initial_interval, Duration::from_secs(2));
    assert_eq!(config.max_interval, Duration::from_secs(10));
    assert!(config.wait_for_any);
    assert_eq!(config.max_retries, Some(5));
}

#[test]
fn test_wait_config_from_duration() {
    let config = WaitConfig::from_timeout(Duration::from_secs(120));
    assert_eq!(config.timeout, Duration::from_secs(120));
}

#[test]
fn test_result_ext_context() {
    let hostname_result = Hostname::new("");
    let result_with_context = hostname_result.context("Failed to create hostname");
    assert!(result_with_context.is_err());
    let err = result_with_context.unwrap_err();
    assert!(err.message().contains("Failed to create hostname"));
}

#[test]
fn test_result_ext_with_context() {
    let hostname_result = Hostname::new("");
    let result_with_context = hostname_result.with_context(|| "Dynamic error message".to_string());
    assert!(result_with_context.is_err());
}

#[test]
fn wait_config_builder_defaults() {
    let config = WaitConfig::builder().build();
    assert_eq!(config.timeout, Duration::from_secs(30));
    assert_eq!(config.initial_interval, Duration::from_secs(1));
    assert_eq!(config.max_interval, Duration::from_secs(30));
    assert_eq!(config.connection_timeout, Duration::from_secs(10));
    assert!(!config.wait_for_any);
    assert_eq!(config.max_retries, None);
}

#[test]
fn wait_config_builder_custom_values() {
    let config = WaitConfig::builder()
        .timeout(Duration::from_secs(120))
        .interval(Duration::from_secs(2))
        .max_interval(Duration::from_secs(60))
        .connection_timeout(Duration::from_secs(20))
        .wait_for_any(true)
        .max_retries(Some(10))
        .build();
    assert_eq!(config.timeout, Duration::from_secs(120));
    assert_eq!(config.initial_interval, Duration::from_secs(2));
    assert_eq!(config.max_interval, Duration::from_secs(60));
    assert_eq!(config.connection_timeout, Duration::from_secs(20));
    assert!(config.wait_for_any);
    assert_eq!(config.max_retries, Some(10));
}

#[test]
fn wait_config_builder_chaining() {
    let config = WaitConfig::builder()
        .timeout(Duration::from_secs(30))
        .interval(Duration::from_millis(100))
        .max_interval(Duration::from_secs(10))
        .connection_timeout(Duration::from_secs(5))
        .wait_for_any(false)
        .max_retries(Some(5))
        .build();
    assert_eq!(config.timeout, Duration::from_secs(30));
    assert_eq!(config.initial_interval, Duration::from_millis(100));
    assert_eq!(config.max_interval, Duration::from_secs(10));
    assert_eq!(config.connection_timeout, Duration::from_secs(5));
    assert!(!config.wait_for_any);
    assert_eq!(config.max_retries, Some(5));
}

#[test]
fn test_preset_configs() {
    let local = WaitConfig::local_dev();
    assert_eq!(local.timeout, Duration::from_secs(10));
    assert_eq!(local.initial_interval, Duration::from_millis(100));

    let docker = WaitConfig::docker();
    assert_eq!(docker.timeout, Duration::from_secs(300));

    let production = WaitConfig::production();
    assert_eq!(production.timeout, Duration::from_secs(120));
}

#[test]
fn test_common_targets() {
    let db_targets = Target::database_targets().unwrap();
    assert_eq!(db_targets.len(), 4);

    let web_targets = Target::web_service_targets().unwrap();
    assert_eq!(web_targets.len(), 4);
}

#[test]
fn header_arguments_are_split_and_trimmed() {
    let (name, value) = waitup::report::parse_header_arg(" Authorization : Bearer x:y ").unwrap();
    assert_eq!(name, "Authorization");
    assert_eq!(value, "Bearer x:y");
    assert!(matches!(waitup::report::parse_header_arg("no colon"), Err(WaitForError::InvalidTarget(_))));
    assert!(waitup::report::wait_for_any_choice(false, false, 1));
    assert!(!waitup::report::wait_for_any_choice(false, true, 1));
    assert!(!waitup::report::wait_for_any_choice(false, false, 2));
}

#[test]
fn error_messages_read_as_sentences() {
    assert_eq!(WaitForError::InvalidPort(0).message(), "Invalid port: 0 (must be 1-65535)");
    assert_eq!(WaitForError::Cancelled.message(), "Operation was cancelled");
    let ctx = Target::tcp("", 1).context("Building");
    assert!(matches!(ctx, Err(WaitForError::InvalidHostname(ref m)) if m.starts_with("Building: ")));
}

#[test]
fn hostname_rules_on_edge_inputs() {
    for bad in ["", "-example.com", "example.com-", "a..b"] {
        assert!(matches!(Hostname::new(bad), Err(WaitForError::InvalidHostname(_))), "{bad:?} accepted");
    }
    let labels = format!("{}.{}.{}.{}", "b".repeat(63), "c".repeat(63), "d".repeat(63), "e".repeat(61));
    assert_eq!(labels.len(), 253);
    assert_eq!(Hostname::new(&labels).unwrap().as_str(), labels);
    let too_long = format!("{labels}f");
    assert_eq!(too_long.len(), 254);
    assert!(Hostname::new(&too_long).is_err());
}
