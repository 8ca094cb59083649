use edgar_statements::throttle::{
    Admission, RateWindow, SecClient, REQUEST_LIMIT, WINDOW_NANOS,
};

#[test]
fn new_client_has_an_empty_window() {
    let client = SecClient::new(42);
    assert_eq!(client.header, "my.email@address.com");
    assert_eq!(client.window, RateWindow { window_start: 42, count: 0, limit: 10 });
    assert_eq!(REQUEST_LIMIT, 10);
    assert_eq!(WINDOW_NANOS, 1_000_000_000);
}

#[test]
fn requests_within_the_limit_proceed() {
    let mut window = RateWindow::new(1_000, 10);
    for i in 0..10u64 {
        assert_eq!(window.threshold_status(1_000 + i), Admission::Proceed);
        assert_eq!(window.count as u64, i + 1);
        assert_eq!(window.window_start, 1_000);
    }
}

#[test]
fn request_after_the_limit_waits_for_the_rest_of_the_window() {
    let mut window = RateWindow::new(0, 10);
    for i in 1..=10u64 {
        assert_eq!(window.threshold_status(i * 1_000_000), Admission::Proceed);
    }
    let answer = window.threshold_status(400_000_000);
    assert_eq!(answer, Admission::Wait { nanos: 600_000_000 });
    assert_eq!(window, RateWindow { window_start: 0, count: 10, limit: 10 });
    window.resume(1_000_000_123);
    assert_eq!(window, RateWindow { window_start: 1_000_000_123, count: 1, limit: 10 });
}

#[test]
fn window_resets_after_one_second() {
    let mut window = RateWindow { window_start: 5, count: 10, limit: 10 };
    assert_eq!(window.threshold_status(5 + WINDOW_NANOS), Admission::Proceed);
    assert_eq!(window, RateWindow { window_start: 5 + WINDOW_NANOS, count: 1, limit: 10 });
}

#[test]
fn window_does_not_reset_just_before_one_second() {
    let mut window = RateWindow { window_start: 5, count: 10, limit: 10 };
    assert_eq!(window.threshold_status(4 + WINDOW_NANOS), Admission::Wait { nanos: 1 });
    assert_eq!(window, RateWindow { window_start: 5, count: 10, limit: 10 });
}

#[test]
fn clock_before_window_start_counts_as_no_time() {
    let mut window = RateWindow { window_start: 100, count: 2, limit: 2 };
    assert_eq!(window.threshold_status(50), Admission::Wait { nanos: WINDOW_NANOS });
}

#[test]
fn limit_of_zero_always_waits() {
    let mut window = RateWindow::new(0, 0);
    assert_eq!(window.threshold_status(10), Admission::Wait { nanos: WINDOW_NANOS - 10 });
    window.resume(WINDOW_NANOS);
    assert_eq!(window.count, 1);
    assert_eq!(window.threshold_status(3 * WINDOW_NANOS), Admission::Wait { nanos: 0 });
    assert_eq!(window, RateWindow { window_start: 3 * WINDOW_NANOS, count: 0, limit: 0 });
}

#[test]
fn threshold_reset_starts_a_new_window() {
    let mut window = RateWindow { window_start: 1, count: 7, limit: 10 };
    window.threshold_reset(99);
    assert_eq!(window, RateWindow { window_start: 99, count: 0, limit: 10 });
}

#[test]
fn get_plans_a_request_without_parameters() {
    let mut client = SecClient::new(0);
    let fetch = client.get("https://www.sec.gov/x/index.json", 5);
    assert_eq!(fetch.admission, Admission::Proceed);
    assert_eq!(fetch.request.url, "https://www.sec.gov/x/index.json");
    assert!(fetch.request.params.is_empty());
    assert_eq!(fetch.request.user_agent, "my.email@address.com");
    assert_eq!(client.window.count, 1);
}

#[test]
fn get_with_params_hands_the_parameters_on() {
    let mut client = SecClient::new(0);
    let params = vec![("ticker".to_string(), "aapl".to_string())];
    let fetch = client.get_with_params("https://host/search", params.clone(), 5);
    assert_eq!(fetch.admission, Admission::Proceed);
    assert_eq!(fetch.request.url, "https://host/search");
    assert_eq!(fetch.request.params, params);
    assert_eq!(fetch.request.user_agent, "my.email@address.com");
}

#[test]
fn eleventh_fetch_within_a_second_waits_and_then_resumes() {
    let mut client = SecClient::new(0);
    for i in 0..10u64 {
        let fetch = client.get("u", i);
        assert_eq!(fetch.admission, Admission::Proceed);
    }
    let fetch = client.get("u", 999_999_999);
    assert_eq!(fetch.admission, Admission::Wait { nanos: 1 });
    assert_eq!(fetch.request.url, "u");
    client.resume(1_000_000_000);
    assert_eq!(client.window, RateWindow { window_start: 1_000_000_000, count: 1, limit: 10 });
    let fetch = client.get("u", 1_000_000_001);
    assert_eq!(fetch.admission, Admission::Proceed);
    assert_eq!(client.window.count, 2);
}
