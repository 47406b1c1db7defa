use vstd::prelude::*;

use crate::labels::{merge_labels, merged_view};
use crate::model::{
    points_view, BufferedOutcome, CheckError, CheckResult, CheckSpec, MetricPoint, PointView,
    Timestamp, WorkRequest,
};

verus! {

/// The point that `spec` yields for a reading of `value`.
pub open spec fn point_for(req: WorkRequest, spec: CheckSpec, ts: Timestamp, value: int) -> PointView {
    PointView {
        timestamp: ts,
        class_name: spec.class_name@,
        labels: merged_view(req.labels.view(), &spec.labels),
        value,
    }
}

/// The two points of one successful check: its status code, then its latency.
pub open spec fn points_for_result(req: WorkRequest, ts: Timestamp, r: CheckResult) -> Seq<
    PointView,
> {
    seq![
        point_for(req, req.checks.status, ts, r.http_status as int),
        point_for(req, req.checks.latency, ts, r.latency_ms as int),
    ]
}

/// The points of the first `n` results; failed checks yield none.
pub open spec fn points_of(
    req: WorkRequest,
    ts: Timestamp,
    results: Seq<Result<CheckResult, CheckError>>,
    n: int,
) -> Seq<PointView>
    decreases n,
{
    if n <= 0 {
        Seq::empty()
    } else {
        points_of(req, ts, results, n - 1) + match results[n - 1] {
            Ok(r) => points_for_result(req, ts, r),
            Err(_) => Seq::empty(),
        }
    }
}

/// Every point that an outcome yields, in the order of its results.
pub open spec fn outcome_points(o: &BufferedOutcome) -> Seq<PointView> {
    points_of(o.request, o.timestamp, o.results@, o.results@.len() as int)
}

/// Number of successful results among the first `n`.
pub open spec fn successes(results: Seq<Result<CheckResult, CheckError>>, n: int) -> nat
    decreases n,
{
    if n <= 0 {
        0
    } else {
        successes(results, n - 1) + if results[n - 1] is Ok {
            1nat
        } else {
            0nat
        }
    }
}

fn make_point(req: &WorkRequest, spec: &CheckSpec, ts: Timestamp, value: i64) -> (r: MetricPoint)
    requires
        req.labels.wf(),
        spec.wf(),
    ensures
        r.wf(),
        r.view() == point_for(*req, *spec, ts, value as int),
{
    MetricPoint {
        timestamp: ts,
        class_name: spec.class_name.clone(),
        labels: merge_labels(&req.labels, &spec.labels),
        value,
    }
}

/// Turns an outcome into metric points: for each successful check a status
/// point and a latency point, labelled with the request's labels merged with
/// the check's own.
pub fn translate(o: &BufferedOutcome) -> (r: Vec<MetricPoint>)
    requires
        o.wf(),
    ensures
        points_view(r@) == outcome_points(o),
        r@.len() == 2 * successes(o.results@, o.results@.len() as int),
        forall|i: int| 0 <= i < r@.len() ==> #[trigger] r@[i].wf(),
{
    let mut r: Vec<MetricPoint> = Vec::new();
    let n = o.results.len();
    let mut i: usize = 0;
    while i < n
        invariant
            n == o.results@.len(),
            o.wf(),
            i <= n,
            points_view(r@) == points_of(o.request, o.timestamp, o.results@, i as int),
            r@.len() == 2 * successes(o.results@, i as int),
            forall|j: int| 0 <= j < r@.len() ==> #[trigger] r@[j].wf(),
        decreases n - i,
    {
        let ghost before = r@;
        match &o.results[i] {
            Ok(dtr) => {
                let status = make_point(
                    &o.request,
                    &o.request.checks.status,
                    o.timestamp,
                    dtr.http_status as i64,
                );
                r.push(status);
                let latency = make_point(
                    &o.request,
                    &o.request.checks.latency,
                    o.timestamp,
                    dtr.latency_ms,
                );
                r.push(latency);
                assert(points_view(r@) =~= points_view(before) + points_for_result(
                    o.request,
                    o.timestamp,
                    *dtr,
                ));
            },
            Err(_) => {},
        }
        i = i + 1;
    }
    r
}

/// Translating one outcome twice gives the same points, label sets included.
pub proof fn lemma_translate_deterministic(a: &BufferedOutcome, b: &BufferedOutcome, ra: Seq<MetricPoint>, rb: Seq<MetricPoint>)
    requires
        a == b,
        points_view(ra) == outcome_points(a),
        points_view(rb) == outcome_points(b),
    ensures
        points_view(ra) == points_view(rb),
        forall|i: int| 0 <= i < ra.len() ==> #[trigger] ra[i].labels.view() == rb[i].labels.view(),
{
    assert forall|i: int| 0 <= i < ra.len() implies #[trigger] ra[i].labels.view() == rb[i].labels.view() by {
        assert(points_view(ra)[i] == points_view(rb)[i]);
    }
}

/// When the request's labels and a check's extra labels share a key, the
/// point of that check carries the extra label's value.
pub proof fn lemma_extra_label_wins(req: WorkRequest, spec: CheckSpec, ts: Timestamp, value: int, k: Seq<char>)
    requires
        spec.labels matches Some(e) && e.view().contains_key(k),
    ensures
        point_for(req, spec, ts, value).labels.contains_key(k),
        point_for(req, spec, ts, value).labels[k] == spec.labels->Some_0.view()[k],
{
}

} // verus!
