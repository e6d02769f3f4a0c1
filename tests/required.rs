use std::time::Duration;

use waitup::{
    calculate_next_interval, duration_to_millis_u64, ConstRetryStrategy, SmallString, StringBuilder,
    WellKnownPort,
};

#[test]
fn connection_test_calculate_next_interval() {
    let current = Duration::from_millis(100);
    let max = Duration::from_secs(10);

    let next = calculate_next_interval(current, max);
    assert_eq!(next, Duration::from_millis(150));

    let large_current = Duration::from_secs(8);
    let next = calculate_next_interval(large_current, max);
    assert_eq!(next, max);
}

#[test]
fn test_calculate_next_interval_edge_cases() {
    let current = Duration::from_millis(10);
    let max = Duration::from_secs(1);
    let next = calculate_next_interval(current, max);
    assert!(next >= current);
    assert!(next <= max);

    let current = Duration::ZERO;
    let max = Duration::from_millis(100);
    let next = calculate_next_interval(current, max);
    assert_eq!(next, Duration::ZERO);
}

#[test]
fn lib_test_calculate_next_interval() {
    let current = Duration::from_secs(1);
    let max = Duration::from_secs(30);

    let next = calculate_next_interval(current, max);
    assert_eq!(next, Duration::from_millis(1500));

    let large_current = Duration::from_secs(25);
    let next = calculate_next_interval(large_current, max);
    assert_eq!(next, max);
}

#[test]
fn test_duration_to_millis_u64_normal() {
    let duration = Duration::from_secs(5);
    assert_eq!(duration_to_millis_u64(duration), 5000);
}

#[test]
fn test_duration_to_millis_u64_max() {
    let duration = Duration::from_secs(u64::MAX / 1000);
    let result = duration_to_millis_u64(duration);
    assert!(result > 0);
}

#[test]
fn string_builder() {
    let mut builder = StringBuilder::<64>::new();
    builder.push_str("Hello").unwrap();
    builder.push_str(" ").unwrap();
    builder.push_str("World").unwrap();
    assert_eq!(builder.as_str(), "Hello World");
}

#[test]
fn small_string() {
    let s = SmallString::<32>::try_from_str("test").unwrap();
    assert_eq!(s.as_str(), "test");
    assert_eq!(s.len(), 4);
}

#[test]
fn validated_port() {
    let port = WellKnownPort::new(80).unwrap();
    assert_eq!(port.get(), 80);

    assert!(WellKnownPort::new(0).is_none());
    assert!(WellKnownPort::new(1024).is_none());
}

#[test]
fn const_retry_strategy() {
    let strategy = ConstRetryStrategy::<3, 1000>::new();
    assert_eq!(strategy.max_attempts(), 3);
    assert_eq!(strategy.interval_ms(), 1000);
    assert!(strategy.should_retry(2));
    assert!(!strategy.should_retry(3));
}

#[test]
fn string_builder_capacity_is_enforced() {
    let mut builder = StringBuilder::<8>::new();
    builder.push_str("abcd").unwrap();
    assert!(builder.push_str("efghi").is_err());
    assert_eq!(builder.as_str(), "abcd");
    builder.push_char('é').unwrap();
    assert_eq!(builder.as_str(), "abcdé");
    builder.clear();
    assert_eq!(builder.into_string(), "");
}

#[test]
fn small_string_capacity_is_enforced() {
    assert!(SmallString::<3>::try_from_str("abcd").is_none());
    let mut s = SmallString::<5>::new();
    assert!(s.is_empty());
    s.push_str("ab").unwrap();
    assert!(s.push_str("cdef").is_err());
    assert_eq!(s.len(), 2);
}

#[test]
fn port_ranges() {
    assert!(waitup::RegisteredPort::new(8080).is_some());
    assert!(waitup::RegisteredPort::new(80).is_none());
    assert_eq!(waitup::DynamicPort::new(65535).unwrap().get(), 65535);
}

#[test]
fn target_display_and_chunks() {
    let target = waitup::Target::tcp("localhost", 8080).unwrap();
    assert_eq!(waitup::TargetDisplay::new(&target).to_text(), "localhost:8080");
    let mut chunks = waitup::ChunkedTargets::new(vec![1, 2, 3, 4, 5], 2);
    assert_eq!(chunks.next_chunk(), Some(vec![1, 2]));
    assert_eq!(chunks.next_chunk(), Some(vec![3, 4]));
    assert_eq!(chunks.next_chunk(), Some(vec![5]));
    assert_eq!(chunks.next_chunk(), None);
}

#[test]
fn error_message_template() {
    let msg = waitup::ErrorMessage::new("{} failed after {} tries{}", vec!["db".to_string(), "3".to_string()]);
    assert_eq!(msg.to_text(), "db failed after 3 tries");
    assert_eq!(waitup::ErrorMessage::new("plain", vec![]).to_text(), "plain");
}
