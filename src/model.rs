use vstd::prelude::*;

use crate::labels::Labels;

verus! {

/// The name and extra labels of one kind of reading (status or latency).
pub struct CheckSpec {
    pub class_name: String,
    pub labels: Option<Labels>,
}

/// The two readings that a request asks for.
pub struct Checks {
    pub latency: CheckSpec,
    pub status: CheckSpec,
}

/// A request to check one domain, with the labels of the readings it yields.
pub struct WorkRequest {
    pub labels: Labels,
    pub url: String,
    pub checks: Checks,
}

impl CheckSpec {
    pub open spec fn wf(&self) -> bool {
        self.labels matches Some(l) ==> l.wf()
    }
}

impl WorkRequest {
    pub open spec fn wf(&self) -> bool {
        &&& self.labels.wf()
        &&& self.checks.latency.wf()
        &&& self.checks.status.wf()
    }
}

/// What one successful GET measured.
pub struct CheckResult {
    pub url: String,
    pub http_status: u16,
    pub latency_ms: i64,
    pub content_length: u64,
}

/// A GET that failed at the transport level; the cause is kept for diagnostics.
pub struct CheckError {
    pub cause: String,
}

/// A point in time: seconds and nanoseconds since the epoch.
#[derive(Clone, Copy, Debug, PartialEq, Eq, Structural)]
pub struct Timestamp {
    pub secs: i64,
    pub nanos: i32,
}

/// Opaque handle naming the queue message that a result answers.
#[derive(Clone, Copy, Debug, PartialEq, Eq, Structural)]
pub struct AckToken {
    pub delivery_tag: u64,
}

/// The results of one request's checks, waiting to be flushed.
pub struct BufferedOutcome {
    pub results: Vec<Result<CheckResult, CheckError>>,
    pub timestamp: Timestamp,
    pub ack_token: AckToken,
    pub request: WorkRequest,
}

impl BufferedOutcome {
    pub open spec fn wf(&self) -> bool {
        self.request.wf()
    }

    /// Gathers what the checks of `request` produced.
    pub fn new(
        request: WorkRequest,
        ack_token: AckToken,
        results: Vec<Result<CheckResult, CheckError>>,
        timestamp: Timestamp,
    ) -> (r: BufferedOutcome)
        ensures
            r.request == request,
            r.ack_token == ack_token,
            r.results == results,
            r.timestamp == timestamp,
    {
        BufferedOutcome { results, timestamp, ack_token, request }
    }
}

/// One timestamped, labelled, named reading for the metrics store.
pub struct MetricPoint {
    pub timestamp: Timestamp,
    pub class_name: String,
    pub labels: Labels,
    pub value: i64,
}

/// A metric point as a value.
pub struct PointView {
    pub timestamp: Timestamp,
    pub class_name: Seq<char>,
    pub labels: Map<Seq<char>, Seq<char>>,
    pub value: int,
}

impl MetricPoint {
    pub open spec fn view(&self) -> PointView {
        PointView {
            timestamp: self.timestamp,
            class_name: self.class_name@,
            labels: self.labels.view(),
            value: self.value as int,
        }
    }

    pub open spec fn wf(&self) -> bool {
        self.labels.wf()
    }
}

/// The values of a list of points.
pub open spec fn points_view(s: Seq<MetricPoint>) -> Seq<PointView> {
    s.map_values(|p: MetricPoint| p.view())
}

} // verus!
