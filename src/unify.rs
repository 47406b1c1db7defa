use vstd::prelude::*;

verus! {

/// What one of the two event sources can give at the moment of a poll.
#[derive(Clone, Copy, Debug, PartialEq, Eq, Structural)]
pub enum SourceState {
    Ready,
    Empty,
    Closed,
}

/// The source that an event is taken from.
#[derive(Clone, Copy, Debug, PartialEq, Eq, Structural)]
pub enum Source {
    Inbound,
    Ack,
}

/// The unified stream's answer to one poll.
#[derive(Clone, Copy, Debug, PartialEq, Eq, Structural)]
pub enum Poll {
    /// Take the next item of this source.
    Next(Source),
    /// Nothing is ready: wait.
    Wait,
    /// The queue is closed: the stream ends.
    End,
}

/// Merges the queue's messages and the acknowledgment requests into one
/// stream. When both sources are ready, they take turns.
pub struct Unifier {
    pub ack_first: bool,
}

/// The answer to a poll and the next turn flag.
pub open spec fn poll_spec(ack_first: bool, inbound: SourceState, acks: SourceState) -> (Poll, bool) {
    if inbound == SourceState::Closed {
        (Poll::End, ack_first)
    } else if inbound == SourceState::Ready && (acks != SourceState::Ready || !ack_first) {
        (Poll::Next(Source::Inbound), true)
    } else if acks == SourceState::Ready {
        (Poll::Next(Source::Ack), false)
    } else {
        (Poll::Wait, ack_first)
    }
}

impl Unifier {
    /// A unifier that serves the queue first.
    pub fn new() -> (r: Unifier)
        ensures
            !r.ack_first,
    {
        Unifier { ack_first: false }
    }

    /// Picks the source of the next event. The stream ends only when the queue
    /// is closed; a closed acknowledgment source counts as empty.
    pub fn poll_next(&mut self, inbound: SourceState, acks: SourceState) -> (r: Poll)
        ensures
            (r, final(self).ack_first) == poll_spec(old(self).ack_first, inbound, acks),
    {
        match inbound {
            SourceState::Closed => Poll::End,
            SourceState::Ready => {
                if acks == SourceState::Ready && self.ack_first {
                    self.ack_first = false;
                    Poll::Next(Source::Ack)
                } else {
                    self.ack_first = true;
                    Poll::Next(Source::Inbound)
                }
            },
            SourceState::Empty => {
                if acks == SourceState::Ready {
                    self.ack_first = false;
                    Poll::Next(Source::Ack)
                } else {
                    Poll::Wait
                }
            },
        }
    }
}

/// No source is starved: when both stay ready, two polls in a row serve both.
pub proof fn lemma_both_ready_alternate(ack_first: bool)
    ensures
        ({
            let (p1, f1) = poll_spec(ack_first, SourceState::Ready, SourceState::Ready);
            let (p2, f2) = poll_spec(f1, SourceState::Ready, SourceState::Ready);
            &&& p1 is Next
            &&& p2 is Next
            &&& p1 != p2
        }),
{
}

/// Acknowledgment requests alone never end the stream: it ends exactly when
/// the queue is closed.
pub proof fn lemma_ends_only_when_queue_closed(ack_first: bool, inbound: SourceState, acks: SourceState)
    ensures
        (poll_spec(ack_first, inbound, acks).0 == Poll::End) <==> (inbound == SourceState::Closed),
{
}

} // verus!
