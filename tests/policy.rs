use bob_bar::rate_limit::{next_usage, rate_limit_delay, RateLimiter, ToolUsage};
use bob_bar::status::{decide_status, default_expected_status, status_in_list, status_matches, StatusOutcome};

fn patterns(ps: &[&str]) -> Vec<String> {
    ps.iter().map(|p| p.to_string()).collect()
}

#[test]
fn family_pattern_matches_its_hundred() {
    assert!(status_matches(200, "2xx"));
    assert!(status_matches(299, "2xx"));
    assert!(!status_matches(300, "2xx"));
    assert!(!status_matches(199, "2xx"));
    assert!(status_matches(404, "4xx"));
}

#[test]
fn exact_pattern_matches_itself() {
    for code in [0u16, 7, 200, 204, 404, 500, 65535] {
        assert!(status_matches(code, &code.to_string()));
    }
    assert!(status_matches(404, "+404"));
    assert!(!status_matches(404, "405"));
    assert!(!status_matches(404, "4x"));
    assert!(!status_matches(404, "xx4"));
    assert!(!status_matches(404, ""));
}

#[test]
fn status_list_matches_any() {
    let ps = patterns(&["2xx", "404"]);
    assert!(status_in_list(204, &ps));
    assert!(status_in_list(404, &ps));
    assert!(!status_in_list(500, &ps));
    assert!(!status_in_list(200, &[]));
}

#[test]
fn default_expected_is_2xx_and_3xx() {
    assert_eq!(default_expected_status(), vec!["2xx".to_string(), "3xx".to_string()]);
}

#[test]
fn status_code_family_scenario() {
    let expected = patterns(&["2xx", "3xx"]);
    let acceptable = patterns(&["404"]);
    let error = patterns(&["5xx"]);
    assert_eq!(decide_status(404, &expected, &acceptable, &error), StatusOutcome::Ignored);
    assert_eq!(decide_status(500, &expected, &acceptable, &error), StatusOutcome::Error);
    assert_eq!(decide_status(204, &expected, &acceptable, &error), StatusOutcome::Success);
}

#[test]
fn status_policy_without_error_list_uses_expected() {
    let expected = patterns(&["2xx"]);
    assert_eq!(decide_status(200, &expected, &[], &[]), StatusOutcome::Success);
    assert_eq!(decide_status(301, &expected, &[], &[]), StatusOutcome::Error);
    // With an error list, a code outside every list is still an error.
    let error = patterns(&["5xx"]);
    assert_eq!(decide_status(301, &expected, &[], &error), StatusOutcome::Error);
    assert_eq!(decide_status(204, &expected, &[], &error), StatusOutcome::Success);
    assert_eq!(decide_status(503, &expected, &[], &error), StatusOutcome::Error);
    // Acceptable wins over error.
    let acceptable = patterns(&["503"]);
    assert_eq!(decide_status(503, &expected, &acceptable, &error), StatusOutcome::Ignored);
}

#[test]
fn delay_schedule_is_non_decreasing() {
    let delays: Vec<u64> = (0..10).map(rate_limit_delay).collect();
    assert_eq!(delays, vec![0, 0, 100, 250, 500, 1000, 1500, 1500, 1500, 1500]);
    for w in delays.windows(2) {
        assert!(w[0] <= w[1]);
    }
}

#[test]
fn usage_resets_after_window() {
    let u = next_usage(None, 1000);
    assert_eq!(u, ToolUsage { last_call_ms: 1000, call_count: 1 });
    let u2 = next_usage(Some(u), 2000);
    assert_eq!(u2.call_count, 2);
    let u3 = next_usage(Some(u2), 2000 + 60001);
    assert_eq!(u3.call_count, 1);
    let u4 = next_usage(Some(u3), 62001 + 60000);
    assert_eq!(u4.call_count, 2);
}

#[test]
fn limiter_delays_grow_within_window_per_tool() {
    let mut l = RateLimiter::new();
    let mut got = Vec::new();
    for k in 0..7u64 {
        got.push(l.calculate_delay("weather", 1000 + k * 10));
    }
    assert_eq!(got, vec![0, 100, 250, 500, 1000, 1500, 1500]);
    // Another tool has its own counter.
    assert_eq!(l.calculate_delay("news", 1100), 0);
    // A quiet minute starts a new window.
    assert_eq!(l.calculate_delay("weather", 1060 + 60001), 0);
    assert_eq!(l.calculate_delay("weather", 1060 + 60002), 100);
}

#[test]
fn largest_codes_and_counts() {
    assert!(status_matches(65535, "65535"));
    assert!(!status_matches(0, "65536"));
    assert!(!status_matches(6, "65536"));
    let top = ToolUsage { last_call_ms: 5, call_count: usize::MAX };
    assert_eq!(next_usage(Some(top), 10).call_count, usize::MAX);
    assert_eq!(rate_limit_delay(usize::MAX), 1500);
}
