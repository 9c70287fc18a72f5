use cloud_sync::numbers::{decimal, parse_u64};
use cloud_sync::storage::{is_transient_error, next_retry, parse_response_error, RetryDecision, RetryState, StorageError, MAX_ATTEMPTS};

fn rate_limit() -> StorageError {
    StorageError::RateLimit { message: "Rate limit".to_string(), retry_after: None }
}

/// Runs an operation the way the providers do: each failure is handed to
/// `next_retry`, which says whether to try again.
fn run<T>(mut op: impl FnMut() -> Result<T, StorageError>) -> (Result<T, StorageError>, Vec<u128>) {
    let mut state = RetryState::new(1);
    let mut waits = Vec::new();
    loop {
        match op() {
            Ok(v) => return (Ok(v), waits),
            Err(e) => match next_retry(&mut state, &e) {
                RetryDecision::Retry { wait_ms } => waits.push(wait_ms),
                RetryDecision::GiveUp => return (Err(e), waits),
            },
        }
    }
}

#[test]
fn test_execute_with_retry_success() {
    let mut counter = 0;
    let (result, _) = run(|| {
        counter += 1;
        Ok::<_, StorageError>("success")
    });
    assert_eq!(result.unwrap(), "success");
    assert_eq!(counter, 1);
}

#[test]
fn test_execute_with_retry_fail_non_transient() {
    let mut counter = 0;
    let (result, _) = run(|| {
        counter += 1;
        Err::<(), StorageError>(StorageError::Authentication("Auth error".to_string()))
    });
    assert!(matches!(result, Err(StorageError::Authentication(_))));
    assert_eq!(counter, 1);
}

#[test]
fn test_execute_with_retry_retry_then_success() {
    let mut counter = 0;
    let (result, _) = run(|| {
        let current = counter;
        counter += 1;
        if current < 2 { Err(rate_limit()) } else { Ok("success") }
    });
    assert_eq!(result.unwrap(), "success");
    assert_eq!(counter, 3);
}

#[test]
fn test_execute_with_retry_max_attempts() {
    let mut counter = 0;
    let (result, waits) = run(|| {
        counter += 1;
        Err::<(), StorageError>(rate_limit())
    });
    assert!(matches!(result, Err(StorageError::RateLimit { .. })));
    assert_eq!(counter, 5);
    assert_eq!(MAX_ATTEMPTS, 5);
    assert_eq!(waits, vec![1, 2, 4, 8]);
}

#[test]
fn provider_delay_overrides_backoff() {
    let mut st = RetryState::new(500);
    let e = StorageError::RateLimit { message: "slow down".to_string(), retry_after: Some(7) };
    assert_eq!(next_retry(&mut st, &e), RetryDecision::Retry { wait_ms: 7000 });
    let e = StorageError::Provider { message: "x".to_string(), status: Some(503) };
    assert_eq!(next_retry(&mut st, &e), RetryDecision::Retry { wait_ms: 1000 });
    assert_eq!(st.attempt, 2);
}

#[test]
fn transient_error_classification() {
    assert!(is_transient_error(&rate_limit()));
    for code in [429u16, 502, 503, 504] {
        assert!(is_transient_error(&StorageError::Provider { message: String::new(), status: Some(code) }));
    }
    assert!(!is_transient_error(&StorageError::Provider { message: "503".to_string(), status: Some(500) }));
    assert!(is_transient_error(&StorageError::Provider { message: "got HTTP 503 back".to_string(), status: None }));
    assert!(!is_transient_error(&StorageError::Provider { message: "HTTP 500".to_string(), status: None }));
    let http = |timeout, connect, status| StorageError::Http { message: String::new(), timeout, connect, status };
    assert!(is_transient_error(&http(true, false, None)));
    assert!(is_transient_error(&http(false, true, None)));
    assert!(is_transient_error(&http(false, false, Some(500))));
    assert!(is_transient_error(&http(false, false, Some(429))));
    assert!(!is_transient_error(&http(false, false, Some(404))));
    assert!(!is_transient_error(&http(false, false, None)));
    assert!(!is_transient_error(&StorageError::NotFound("x".to_string())));
    assert!(!is_transient_error(&StorageError::Io("x".to_string())));
    assert!(!is_transient_error(&StorageError::Conflict("x".to_string())));
    assert!(!is_transient_error(&StorageError::ConnectionFailed("x".to_string())));
    assert!(!is_transient_error(&StorageError::AuthenticationExpired("x".to_string())));
}

#[test]
fn response_errors_by_status() {
    match parse_response_error(429, Some("30"), "slow down", "Box", "list") {
        StorageError::RateLimit { message, retry_after } => {
            assert_eq!(message, "Rate limit exceeded on Box: slow down");
            assert_eq!(retry_after, Some(30));
        }
        other => panic!("unexpected {:?}", other),
    }
    match parse_response_error(429, Some("Wed, 21 Oct 2015 07:28:00 GMT"), "x", "Box", "list") {
        StorageError::RateLimit { retry_after, .. } => assert_eq!(retry_after, None),
        other => panic!("unexpected {:?}", other),
    }
    match parse_response_error(404, None, "  \n", "Dropbox", "download") {
        StorageError::NotFound(m) => assert_eq!(m, "Resource not found on Dropbox: 404 Not Found"),
        other => panic!("unexpected {:?}", other),
    }
    match parse_response_error(500, None, "boom", "S3", "upload") {
        StorageError::Provider { message, status } => {
            assert_eq!(message, "Failed to upload on S3: boom");
            assert_eq!(status, Some(500));
        }
        other => panic!("unexpected {:?}", other),
    }
    match parse_response_error(599, None, "", "S3", "upload") {
        StorageError::Provider { message, .. } => assert_eq!(message, "Failed to upload on S3: 599 <unknown status code>"),
        other => panic!("unexpected {:?}", other),
    }
}

#[test]
fn error_descriptions() {
    assert_eq!(StorageError::Io("disk full".into()).describe(), "I/O error occurred: disk full");
    assert_eq!(StorageError::Authentication("a".into()).describe(), "Authentication failed: a");
    assert_eq!(StorageError::NotFound("b".into()).describe(), "Resource not found: b");
    assert_eq!(rate_limit().describe(), "Rate limit exceeded. Try again later: Rate limit");
    assert_eq!(
        StorageError::Provider { message: "m".into(), status: Some(503) }.describe(),
        "Storage provider error: m (status: Some(503))"
    );
    assert_eq!(StorageError::Provider { message: "m".into(), status: None }.describe(), "Storage provider error: m (status: None)");
    assert_eq!(
        StorageError::Http { message: "timed out".into(), timeout: true, connect: false, status: None }.describe(),
        "HTTP client error: timed out"
    );
    assert_eq!(StorageError::AuthenticationExpired("c".into()).describe(), "Authentication expired: c");
    assert_eq!(StorageError::Conflict("d".into()).describe(), "Conflict: d");
    assert_eq!(StorageError::ConnectionFailed("e".into()).describe(), "Connection failed: e");
}

#[test]
fn decimal_numbers_both_ways() {
    assert_eq!(decimal(0), "0");
    assert_eq!(decimal(1234567890), "1234567890");
    assert_eq!(decimal(u64::MAX), "18446744073709551615");
    assert_eq!(parse_u64(&decimal(u64::MAX)), Some(u64::MAX));
    assert_eq!(parse_u64("+42"), Some(42));
    assert_eq!(parse_u64("007"), Some(7));
    assert_eq!(parse_u64(""), None);
    assert_eq!(parse_u64("+"), None);
    assert_eq!(parse_u64("-1"), None);
    assert_eq!(parse_u64("12a"), None);
    assert_eq!(parse_u64(" 1"), None);
    assert_eq!(parse_u64("18446744073709551616"), None);
    for n in [0u64, 9, 10, 99, 100, 65535, 1 << 40] {
        assert_eq!(parse_u64(&decimal(n)), Some(n));
        assert_eq!(n.to_string().parse::<u64>().ok(), parse_u64(&n.to_string()));
    }
}
