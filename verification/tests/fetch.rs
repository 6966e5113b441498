use bo::fetch::{
    after_attempt, backoff_delay, check_response, classify_response, html_content_type,
    is_retryable, send_failure, FetchError, FetchResult, RetryStep, MAX_RETRIES,
};

#[test]
fn retryable_errors() {
    assert!(is_retryable(&FetchError::Timeout));
    assert!(is_retryable(&FetchError::Network("reset".to_string())));
    assert!(is_retryable(&FetchError::HttpStatus(500, "x".to_string())));
    assert!(is_retryable(&FetchError::HttpStatus(503, "x".to_string())));
    assert!(!is_retryable(&FetchError::HttpStatus(499, "x".to_string())));
    assert!(!is_retryable(&FetchError::HttpStatus(404, "x".to_string())));
    assert!(!is_retryable(&FetchError::NotHtml("application/pdf".to_string())));
}

#[test]
fn fetch_error_messages() {
    assert_eq!(FetchError::Network("dns".to_string()).message(), "network error: dns");
    assert_eq!(
        FetchError::HttpStatus(404, "Not Found".to_string()).message(),
        "HTTP 404: Not Found"
    );
    assert_eq!(FetchError::HttpStatus(7, "x".to_string()).message(), "HTTP 7: x");
    assert_eq!(
        FetchError::NotHtml("application/pdf".to_string()).message(),
        "not HTML (Content-Type: application/pdf)"
    );
    assert_eq!(FetchError::Timeout.message(), "request timed out");
}

#[test]
fn send_failures() {
    assert!(matches!(send_failure(true, "slow".to_string()), FetchError::Timeout));
    assert!(matches!(send_failure(false, "refused".to_string()), FetchError::Network(m) if m == "refused"));
}

#[test]
fn html_content_types() {
    assert!(html_content_type("text/html"));
    assert!(html_content_type("text/html; charset=utf-8"));
    assert!(html_content_type("application/xhtml+xml"));
    assert!(!html_content_type("application/pdf"));
    assert!(!html_content_type(""));
    assert!(!html_content_type("text/htm"));
}

#[test]
fn classify_error_status_uses_reason() {
    let r = classify_response(404, Some("Not Found".to_string()), "text/html");
    assert!(matches!(r, Err(FetchError::HttpStatus(404, m)) if m == "Not Found"));
    let r = classify_response(500, None, "");
    assert!(matches!(r, Err(FetchError::HttpStatus(500, m)) if m == "Unknown"));
    let r = classify_response(400, None, "text/html");
    assert!(matches!(r, Err(FetchError::HttpStatus(400, _))));
}

#[test]
fn classify_content_type() {
    assert!(classify_response(200, None, "text/html; charset=utf-8").is_ok());
    assert!(classify_response(399, None, "application/xhtml+xml").is_ok());
    let r = classify_response(200, None, "application/pdf");
    assert!(matches!(r, Err(FetchError::NotHtml(t)) if t == "application/pdf"));
    let r = classify_response(200, None, "");
    assert!(matches!(r, Err(FetchError::NotHtml(t)) if t.is_empty()));
}

#[test]
fn check_response_takes_standard_reason() {
    let r = check_response(404, "text/html");
    assert!(matches!(r, Err(FetchError::HttpStatus(404, m)) if m == "Not Found"));
    let r = check_response(500, "text/html");
    assert!(matches!(r, Err(FetchError::HttpStatus(500, m)) if m == "Internal Server Error"));
    let r = check_response(599, "text/html");
    assert!(matches!(r, Err(FetchError::HttpStatus(599, m)) if m == "Unknown"));
    assert!(check_response(200, "text/html").is_ok());
}

#[test]
fn backoff_doubles() {
    assert_eq!(backoff_delay(1), 1);
    assert_eq!(backoff_delay(2), 2);
    assert_eq!(MAX_RETRIES, 3);
}

fn page() -> Result<FetchResult, FetchError> {
    Ok(FetchResult { url: "https://example.com/".to_string(), html: "<html></html>".to_string() })
}

#[test]
fn success_finishes_at_once() {
    let v = after_attempt(0, page());
    assert!(v.failure_notice.is_none());
    assert!(matches!(v.step, RetryStep::Finish(Ok(p)) if p.html == "<html></html>"));
}

#[test]
fn permanent_error_finishes_at_once() {
    let v = after_attempt(0, Err(FetchError::HttpStatus(404, "Not Found".to_string())));
    assert!(v.failure_notice.is_none());
    assert!(matches!(v.step, RetryStep::Finish(Err(FetchError::HttpStatus(404, _)))));
}

#[test]
fn retryable_error_waits_then_gives_up() {
    let v = after_attempt(0, Err(FetchError::Timeout));
    assert_eq!(v.failure_notice.as_deref(), Some("  attempt 1: request timed out"));
    assert!(matches!(v.step, RetryStep::Wait { delay_secs: 1, ref announcement } if announcement == "  retry 1/2 in 1s..."));

    let v = after_attempt(1, Err(FetchError::HttpStatus(500, "Internal Server Error".to_string())));
    assert_eq!(
        v.failure_notice.as_deref(),
        Some("  attempt 2: HTTP 500: Internal Server Error")
    );
    assert!(matches!(v.step, RetryStep::Wait { delay_secs: 2, ref announcement } if announcement == "  retry 2/2 in 2s..."));

    let v = after_attempt(2, Err(FetchError::Network("reset".to_string())));
    assert_eq!(v.failure_notice.as_deref(), Some("  attempt 3: network error: reset"));
    assert!(matches!(v.step, RetryStep::Finish(Err(FetchError::Network(m))) if m == "reset"));
}

#[test]
fn three_failures_wait_three_seconds_in_all() {
    let mut waited = 0;
    let mut attempts = 0;
    for attempt in 0..MAX_RETRIES {
        attempts += 1;
        match after_attempt(attempt, Err(FetchError::Timeout)).step {
            RetryStep::Wait { delay_secs, .. } => waited += delay_secs,
            RetryStep::Finish(r) => {
                assert!(matches!(r, Err(FetchError::Timeout)));
                break;
            }
        }
    }
    assert_eq!(attempts, 3);
    assert_eq!(waited, 3);
}
