//! What is recorded of TCP connections.

use vstd::prelude::*;

verus! {

/// Counter of accepted TCP connections.
pub const TCP_CONNECTIONS_TOTAL: &'static str = "praxis_tcp_connections_total";

/// Histogram of the duration of TCP connections, in seconds.
pub const TCP_CONNECTION_DURATION_SECONDS: &'static str = "praxis_tcp_connection_duration_seconds";

/// A label of a metric.
#[derive(Debug, PartialEq, Eq)]
pub struct Label {
    /// The label's name.
    pub name: &'static str,
    /// Its value.
    pub value: String,
}

/// A counter to increment.
#[derive(Debug, PartialEq, Eq)]
pub struct CounterIncrement {
    /// The counter.
    pub metric: &'static str,
    /// Its labels.
    pub labels: Vec<Label>,
    /// By how much.
    pub by: u64,
}

/// A histogram to record a sample in.
#[derive(Debug, PartialEq, Eq)]
pub struct HistogramSample {
    /// The histogram.
    pub metric: &'static str,
    /// Its labels.
    pub labels: Vec<Label>,
}

/// What labels denote, one by one: a name and a value.
pub open spec fn label_views(labels: Seq<Label>) -> Seq<(Seq<char>, Seq<char>)> {
    Seq::new(labels.len(), |i: int| (labels[i].name@, labels[i].value@))
}

/// What to count for an accepted connection: one more for its listener, or
/// nothing where no recorder is installed.
pub fn record_tcp_connection_accepted(recorder_installed: bool, listener: String) -> (increment: Option<
    CounterIncrement,
>)
    ensures
        match increment {
            None => !recorder_installed,
            Some(increment) => {
                &&& recorder_installed
                &&& increment.metric@ == TCP_CONNECTIONS_TOTAL@
                &&& label_views(increment.labels@) == seq![("listener"@, listener@)]
                &&& increment.labels@.len() == 1
                &&& increment.labels@[0].value@ == listener@
                &&& increment.by == 1
            },
        },
{
    if !recorder_installed {
        return None;
    }
    let labels: Vec<Label> = vec![Label { name: "listener", value: listener }];
    assert(label_views(labels@) =~= seq![("listener"@, listener@)]);
    Some(CounterIncrement { metric: TCP_CONNECTIONS_TOTAL, labels, by: 1 })
}

/// Where to record the duration of a closed connection: under its listener and
/// the reason for which it was closed, or nowhere where no recorder is
/// installed.
pub fn record_tcp_connection_duration(recorder_installed: bool, listener: String, reason: &str) -> (sample: Option<
    HistogramSample,
>)
    ensures
        match sample {
            None => !recorder_installed,
            Some(sample) => {
                &&& recorder_installed
                &&& sample.metric@ == TCP_CONNECTION_DURATION_SECONDS@
                &&& label_views(sample.labels@) == seq![("listener"@, listener@), ("reason"@, reason@)]
                &&& sample.labels@.len() == 2
                &&& sample.labels@[0].value@ == listener@
                &&& sample.labels@[1].value@ == reason@
            },
        },
{
    if !recorder_installed {
        return None;
    }
    let labels: Vec<Label> = vec![
        Label { name: "listener", value: listener },
        Label { name: "reason", value: reason.to_owned() },
    ];
    assert(label_views(labels@) =~= seq![("listener"@, listener@), ("reason"@, reason@)]);
    Some(HistogramSample { metric: TCP_CONNECTION_DURATION_SECONDS, labels })
}

} // verus!
