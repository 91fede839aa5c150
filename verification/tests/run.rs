use httpping::errors::ProbeError;
use httpping::probe::{
    failure_line, nanos_to_millis, should_sleep, success_line, summary_line, warning_line,
    ProbeResult, RunState,
};

#[test]
fn empty_run_has_no_average() {
    let state = RunState::new();
    assert_eq!(state.summary(), None);
}

#[test]
fn all_failures_report_no_average() {
    // Three attempts against an unreachable host: nothing is recorded.
    let mut state = RunState::new();
    let mut lines: Vec<String> = Vec::new();
    for i in 1..=3u32 {
        lines.push(failure_line(i, "connection failed"));
    }
    assert_eq!(lines.len(), 3);
    assert_eq!(lines[0], "Ping 1 failed: connection failed");
    assert_eq!(state.summary(), None);
    assert_eq!(summary_line(state.summary().map(nanos_to_millis)), "\nNo successful pings");
    state.note_warning();
    assert_eq!(state.summary(), None);
}

#[test]
fn single_success_average_equals_it() {
    // One attempt, and the average is exactly that attempt's time.
    let mut state = RunState::new();
    state.record_success(5_000_000);
    assert_eq!(state.summary(), Some(5_000_000));
    assert_eq!(nanos_to_millis(5_000_000), 5);
    assert_eq!(
        summary_line(state.summary().map(nanos_to_millis)),
        "\nAverage response time: 5 ms"
    );
}

#[test]
fn average_is_mean_of_successes_only() {
    let mut state = RunState::new();
    state.record_success(10);
    // a failed attempt in between records nothing
    state.record_success(20);
    state.record_success(31);
    assert_eq!(state.summary(), Some(20));
}

#[test]
fn sleep_after_every_attempt_but_the_last() {
    let count = 4u32;
    let mut sleeps = 0u32;
    for i in 1..=count {
        if should_sleep(i, count) {
            sleeps += 1;
        }
    }
    assert_eq!(sleeps, count - 1);
    assert!(!should_sleep(count, count));
}

#[test]
fn zero_attempts_zero_sleeps() {
    let count = 0u32;
    let mut attempts = 0u32;
    let mut sleeps = 0u32;
    for i in 1..=count {
        attempts += 1;
        if should_sleep(i, count) {
            sleeps += 1;
        }
    }
    assert_eq!(attempts, 0);
    assert_eq!(sleeps, 0);
}

#[test]
fn warning_fires_exactly_once() {
    let mut state = RunState::new();
    let mut emitted = 0u32;
    // three attempts, each with an inferred scheme
    for _ in 0..3 {
        if state.warn_now(true) {
            emitted += 1;
            state.note_warning();
        }
    }
    assert_eq!(emitted, 1);
}

#[test]
fn no_warning_with_explicit_scheme() {
    let state = RunState::new();
    assert!(!state.warn_now(false));
}

#[test]
fn report_lines_exact() {
    assert_eq!(
        success_line(1, "https://example.com/", "GET", 200, 123),
        "Ping 1: URL: https://example.com/ - Method: GET - Status: 200 - Time: 123 ms"
    );
    assert_eq!(failure_line(2, "Invalid port"), "Ping 2 failed: Invalid port");
    assert_eq!(
        warning_line(),
        "httpping: warning: URL scheme not specified, using https:// by default"
    );
}

#[test]
fn probe_result_carries_fields() {
    let r = ProbeResult {
        elapsed_nanos: 7_000_000,
        resolved_url: String::from("https://example.com/"),
        status_code: 200,
    };
    assert_eq!(nanos_to_millis(r.elapsed_nanos), 7);
    assert_eq!(r.status_code, 200);
}

#[test]
fn error_messages() {
    assert_eq!(ProbeError::InvalidPort.describe(), "Invalid port");
    assert_eq!(
        ProbeError::MissingHost.describe(),
        "Invalid URL: missing host. Use -h for help."
    );
    assert_eq!(ProbeError::InvalidUrl.describe(), "invalid URL");
    assert_eq!(ProbeError::InvalidHeader.describe(), "Invalid header format");
    assert_eq!(ProbeError::ConnectionError.describe(), "connection failed");
    assert_eq!(ProbeError::TlsError.describe(), "TLS handshake failed");
    assert_eq!(ProbeError::IoError.describe(), "read or write failed");
}
