use engine::net::{
    after_answer, after_failure, require_success, AnswerStep, FailureStep, NetworkState,
    Reachability,
};

#[test]
fn an_answer_brings_the_daemon_online_once() {
    let mut r = Reachability::new();
    assert_eq!(r.status.state, NetworkState::Unknown);
    let news = r.observe_reachable(100).expect("unknown to online is news");
    assert_eq!(news.state, NetworkState::Online);
    assert_eq!(news.since_unix, 100);
    assert_eq!(news.last_online_unix, 100);
    assert_eq!(r.observe_reachable(105), None, "a busy download publishes nothing");
    assert_eq!(r.status.last_online_unix, 105);
    assert_eq!(r.status.since_unix, 100);
}

#[test]
fn a_pinned_daemon_ignores_traffic() {
    let mut r = Reachability::new();
    let news = r.set_offline_mode(true, 10).unwrap();
    assert_eq!(news.state, NetworkState::Offline);
    assert!(r.pinned());
    assert_eq!(r.observe_reachable(20), None);
    assert_eq!(r.status.state, NetworkState::Offline);
    assert_eq!(r.observe_unreachable(30), None);
    assert!(!r.probe_due(1_000_000));
    let news = r.set_offline_mode(false, 40).unwrap();
    assert_eq!(news.state, NetworkState::Unknown);
    assert!(!news.offline_mode);
}

#[test]
fn probes_are_paced_by_state() {
    let mut r = Reachability::new();
    assert!(r.probe_due(0), "unknown is always due");
    r.observe_unreachable(100);
    r.start_probe(100);
    assert!(!r.probe_due(105));
    assert!(r.probe_due(110), "offline retries every ten seconds");
    r.observe_reachable(200);
    r.start_probe(200);
    assert!(!r.probe_due(259));
    assert!(r.probe_due(260), "online is re-checked once quiet for a minute");
    r.observe_reachable(250);
    assert!(!r.probe_due(260), "fresh traffic keeps it fresh");
    assert!(r.probe_due(i64::MAX));
}

#[test]
fn only_a_requested_retry_of_a_resendable_request_is_retried() {
    assert_eq!(after_answer(Some(400), true), AnswerStep::RetryAfter(400));
    assert_eq!(after_answer(Some(400), false), AnswerStep::Deliver);
    assert_eq!(after_answer(None, true), AnswerStep::Deliver);
}

#[test]
fn a_dropped_request_counts_as_offline_only_once_retries_are_spent() {
    assert_eq!(after_failure(false, 1, true), FailureStep::Upstream);
    assert_eq!(after_failure(true, 1, true), FailureStep::Retry);
    assert_eq!(after_failure(true, 2, true), FailureStep::Retry);
    assert_eq!(after_failure(true, 3, true), FailureStep::Offline);
    assert_eq!(after_failure(true, 1, false), FailureStep::Offline);
}

#[test]
fn a_non_2xx_status_is_upstreams_failure() {
    assert_eq!(require_success(200), Ok(()));
    assert_eq!(require_success(204), Ok(()));
    assert_eq!(require_success(404), Err("HTTP 404".to_string()));
    assert_eq!(require_success(503), Err("HTTP 503".to_string()));
    assert_eq!(require_success(301), Err("HTTP 301".to_string()));
}
