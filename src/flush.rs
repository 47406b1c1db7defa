use vstd::prelude::*;

use crate::model::{points_view, AckToken, BufferedOutcome, MetricPoint};
use crate::translate::{outcome_points, translate};

verus! {

/// What a flush does with one drained outcome: the points to post, then the
/// token to acknowledge.
pub struct FlushItem {
    pub points: Vec<MetricPoint>,
    pub ack: AckToken,
}

/// The tokens that a flush acknowledges, in order.
pub open spec fn acks_of(items: Seq<FlushItem>) -> Seq<AckToken> {
    items.map_values(|f: FlushItem| f.ack)
}

/// The tokens of a batch of outcomes, in order.
pub open spec fn tokens_of(outcomes: Seq<BufferedOutcome>) -> Seq<AckToken> {
    outcomes.map_values(|o: BufferedOutcome| o.ack_token)
}

/// One tick of the flush timer over what it drained from its inbox: each
/// outcome is translated and gets exactly one acknowledgment, in the order
/// the outcomes were drained. An empty batch yields nothing.
pub fn flush_tick(drained: &Vec<BufferedOutcome>) -> (r: Vec<FlushItem>)
    requires
        forall|i: int| 0 <= i < drained@.len() ==> #[trigger] drained@[i].wf(),
    ensures
        r@.len() == drained@.len(),
        acks_of(r@) == tokens_of(drained@),
        forall|i: int|
            0 <= i < r@.len() ==> points_view(#[trigger] r@[i].points@) == outcome_points(
                &drained@[i],
            ),
{
    let mut r: Vec<FlushItem> = Vec::new();
    let n = drained.len();
    let mut i: usize = 0;
    while i < n
        invariant
            n == drained@.len(),
            forall|j: int| 0 <= j < drained@.len() ==> #[trigger] drained@[j].wf(),
            i <= n,
            r@.len() == i,
            forall|j: int| 0 <= j < i ==> (#[trigger] r@[j]).ack == drained@[j].ack_token,
            forall|j: int|
                0 <= j < i ==> points_view(#[trigger] r@[j].points@) == outcome_points(
                    &drained@[j],
                ),
        decreases n - i,
    {
        let points = translate(&drained[i]);
        r.push(FlushItem { points, ack: drained[i].ack_token });
        i = i + 1;
    }
    assert(acks_of(r@) =~= tokens_of(drained@));
    r
}

} // verus!
