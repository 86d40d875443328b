//! What is recorded of TCP connections.

use praxis_responses::tcp_metrics::{
    record_tcp_connection_accepted, record_tcp_connection_duration, CounterIncrement, HistogramSample, Label,
};

#[test]
fn record_accepted_without_recorder_does_not_panic() {
    assert_eq!(record_tcp_connection_accepted(false, "test-listener".to_owned()), None);
}

#[test]
fn record_duration_without_recorder_does_not_panic() {
    assert_eq!(record_tcp_connection_duration(false, "test-listener".to_owned(), "completed"), None);
}

#[test]
fn record_zero_duration_does_not_panic() {
    assert_eq!(record_tcp_connection_duration(false, "test-listener".to_owned(), "sni_timeout"), None);
}

#[test]
fn record_large_duration_does_not_panic() {
    assert_eq!(record_tcp_connection_duration(false, "long-lived".to_owned(), "completed"), None);
}

#[test]
fn accepted_connections_are_counted_by_listener() {
    assert_eq!(
        record_tcp_connection_accepted(true, "front".to_owned()),
        Some(CounterIncrement {
            metric: "praxis_tcp_connections_total",
            labels: vec![Label { name: "listener", value: "front".to_owned() }],
            by: 1,
        })
    );
}

#[test]
fn durations_keep_their_reason() {
    for reason in ["error", "shutdown", "session_timeout", "max_duration"] {
        assert_eq!(
            record_tcp_connection_duration(true, "reason-listener".to_owned(), reason),
            Some(HistogramSample {
                metric: "praxis_tcp_connection_duration_seconds",
                labels: vec![
                    Label { name: "listener", value: "reason-listener".to_owned() },
                    Label { name: "reason", value: reason.to_owned() },
                ],
            })
        );
    }
}
