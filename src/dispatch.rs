use vstd::prelude::*;

use crate::model::{AckToken, WorkRequest};

verus! {

/// What the control loop receives from the unified stream. A queue message
/// arrives with its payload already decoded: `None` when it was malformed.
pub enum Event {
    Inbound { request: Option<WorkRequest>, token: AckToken },
    AckRequest { token: AckToken },
}

/// What the control loop does in answer to one event.
pub enum Action {
    /// Run the checks of `request` off the loop; their outcome carries `token`.
    StartCheck { request: WorkRequest, token: AckToken },
    /// Acknowledge the queue message of `token`.
    Ack { token: AckToken },
    /// Log and drop a malformed message without acknowledging it.
    Discard { token: AckToken },
    /// An acknowledgment for a token that is not outstanding: do nothing.
    Ignore { token: AckToken },
}

/// The control loop's state: the tokens whose checks were started and whose
/// messages are not acknowledged yet.
pub struct Dispatcher {
    pub outstanding: Vec<u64>,
}

impl Dispatcher {
    pub open spec fn view(&self) -> Set<u64> {
        self.outstanding@.to_set()
    }

    pub open spec fn wf(&self) -> bool {
        self.outstanding@.no_duplicates()
    }

    /// A dispatcher with nothing outstanding.
    pub fn new() -> (r: Dispatcher)
        ensures
            r.wf(),
            r.view() == Set::<u64>::empty(),
    {
        let r = Dispatcher { outstanding: Vec::new() };
        assert(r.view() =~= Set::<u64>::empty());
        r
    }

    /// Whether `tag` is outstanding.
    pub fn is_outstanding(&self, tag: u64) -> (r: bool)
        ensures
            r == self.view().contains(tag),
    {
        let n = self.outstanding.len();
        let mut i: usize = 0;
        while i < n
            invariant
                n == self.outstanding@.len(),
                i <= n,
                forall|j: int| 0 <= j < i ==> self.outstanding@[j] != tag,
            decreases n - i,
        {
            if self.outstanding[i] == tag {
                assert(self.outstanding@.contains(tag));
                return true;
            }
            i = i + 1;
        }
        false
    }

    /// Number of outstanding tokens.
    pub fn len(&self) -> (r: usize)
        requires
            self.wf(),
        ensures
            r == self.view().len(),
    {
        proof {
            self.outstanding@.unique_seq_to_set();
        }
        self.outstanding.len()
    }

    fn add(&mut self, tag: u64)
        requires
            old(self).wf(),
        ensures
            final(self).wf(),
            final(self).view() == old(self).view().insert(tag),
    {
        if !self.is_outstanding(tag) {
            let ghost s = self.outstanding@;
            self.outstanding.push(tag);
            assert(self.outstanding@ =~= s.push(tag));
            assert(self.view() =~= old(self).view().insert(tag)) by {
                assert forall|x: u64| self.outstanding@.contains(x) <==> (s.contains(x) || x == tag) by {
                    if s.contains(x) {
                        let j = choose|j: int| 0 <= j < s.len() && s[j] == x;
                        assert(self.outstanding@[j] == x);
                    }
                    if x == tag {
                        assert(self.outstanding@[s.len() as int] == x);
                    }
                }
            }
        } else {
            assert(self.view() =~= old(self).view().insert(tag));
        }
    }

    fn take(&mut self, tag: u64) -> (r: bool)
        requires
            old(self).wf(),
        ensures
            final(self).wf(),
            r == old(self).view().contains(tag),
            final(self).view() == old(self).view().remove(tag),
    {
        let n = self.outstanding.len();
        let mut i: usize = 0;
        while i < n
            invariant
                n == self.outstanding@.len(),
                *self == *old(self),
                self.wf(),
                i <= n,
                forall|j: int| 0 <= j < i ==> self.outstanding@[j] != tag,
            decreases n - i,
        {
            if self.outstanding[i] == tag {
                let ghost s = self.outstanding@;
                self.outstanding.remove(i);
                assert(self.outstanding@ =~= s.remove(i as int));
                proof {
                    s.remove_ensures(i as int);
                }
                assert(self.view() =~= old(self).view().remove(tag)) by {
                    assert forall|x: u64| self.outstanding@.contains(x) <==> (s.contains(x) && x != tag) by {
                        if s.contains(x) && x != tag {
                            let j = choose|j: int| 0 <= j < s.len() && s[j] == x;
                            if j < i {
                                assert(self.outstanding@[j] == x);
                            } else {
                                assert(self.outstanding@[j - 1] == x);
                            }
                        }
                    }
                }
                assert(s.contains(tag)) by {
                    assert(s[i as int] == tag);
                }
                return true;
            }
            i = i + 1;
        }
        assert(!old(self).view().contains(tag));
        assert(self.view() =~= old(self).view().remove(tag));
        false
    }

    /// Handles one event of the unified stream. A decoded message starts its
    /// checks and makes its token outstanding; a malformed one is discarded and
    /// never acknowledged; an acknowledgment request acknowledges its token
    /// only while the token is outstanding, so no message is acknowledged twice.
    pub fn step(&mut self, ev: Event) -> (r: Action)
        requires
            old(self).wf(),
        ensures
            final(self).wf(),
            step_spec(old(self).view(), ev) == (r, final(self).view()),
    {
        match ev {
            Event::Inbound { request: Some(request), token } => {
                self.add(token.delivery_tag);
                Action::StartCheck { request, token }
            },
            Event::Inbound { request: None, token } => Action::Discard { token },
            Event::AckRequest { token } => {
                if self.take(token.delivery_tag) {
                    Action::Ack { token }
                } else {
                    Action::Ignore { token }
                }
            },
        }
    }
}

/// The action and the next set of outstanding tags, for one event.
pub open spec fn step_spec(outstanding: Set<u64>, ev: Event) -> (Action, Set<u64>) {
    match ev {
        Event::Inbound { request: Some(request), token } => (
            Action::StartCheck { request, token },
            outstanding.insert(token.delivery_tag),
        ),
        Event::Inbound { request: None, token } => (Action::Discard { token }, outstanding),
        Event::AckRequest { token } => if outstanding.contains(token.delivery_tag) {
            (Action::Ack { token }, outstanding.remove(token.delivery_tag))
        } else {
            (Action::Ignore { token }, outstanding)
        },
    }
}

/// Once a token has been acknowledged, a second acknowledgment request for it
/// acknowledges nothing until a new message with that token starts a check.
pub proof fn lemma_ack_at_most_once(outstanding: Set<u64>, token: AckToken)
    ensures
        ({
            let (a1, s1) = step_spec(outstanding, Event::AckRequest { token });
            let (a2, s2) = step_spec(s1, Event::AckRequest { token });
            &&& a2 == Action::Ignore { token }
            &&& s2 == s1
        }),
{
}

/// A malformed message never leads to an acknowledgment and leaves the state
/// as it was.
pub proof fn lemma_malformed_never_acked(outstanding: Set<u64>, token: AckToken)
    ensures
        ({
            let (a, s) = step_spec(outstanding, Event::Inbound { request: None, token });
            &&& a == Action::Discard { token }
            &&& s == outstanding
        }),
{
}

/// A decoded message starts exactly one check, which carries its request and
/// its token; once that check's acknowledgment request arrives, the token is
/// acknowledged.
pub proof fn lemma_decoded_starts_one_check(outstanding: Set<u64>, request: WorkRequest, token: AckToken)
    ensures
        ({
            let (a, s) = step_spec(outstanding, Event::Inbound { request: Some(request), token });
            let (b, t) = step_spec(s, Event::AckRequest { token });
            &&& a == Action::StartCheck { request, token }
            &&& s.contains(token.delivery_tag)
            &&& b == Action::Ack { token }
            &&& !t.contains(token.delivery_tag)
        }),
{
}

/// The outstanding tags after the first `n` events of a run from `s0`.
pub open spec fn state_after(s0: Set<u64>, evs: Seq<Event>, n: int) -> Set<u64>
    decreases n,
{
    if n <= 0 {
        s0
    } else {
        step_spec(state_after(s0, evs, n - 1), evs[n - 1]).1
    }
}

/// The action taken on event `i` of a run from `s0`.
pub open spec fn action_at(s0: Set<u64>, evs: Seq<Event>, i: int) -> Action {
    step_spec(state_after(s0, evs, i), evs[i]).0
}

/// Whether `ev` is a decoded message with delivery tag `tag`.
pub open spec fn starts_tag(ev: Event, tag: u64) -> bool {
    ev matches Event::Inbound { request: Some(_), token } && token.delivery_tag == tag
}

proof fn lemma_absent_until(s0: Set<u64>, evs: Seq<Event>, tag: u64, a: int, m: int)
    requires
        0 <= a <= m <= evs.len(),
        !state_after(s0, evs, a).contains(tag),
        forall|k: int| a <= k < m ==> !starts_tag(#[trigger] evs[k], tag),
    ensures
        !state_after(s0, evs, m).contains(tag),
    decreases m - a,
{
    if m > a {
        lemma_absent_until(s0, evs, tag, a, m - 1);
        assert(!starts_tag(evs[m - 1], tag));
    }
}

/// Over any run, each event yields one action; a check starts exactly on the
/// decoded messages; and once a token is acknowledged, it is acknowledged
/// again only after a new decoded message with that token started a check.
pub proof fn lemma_run_acks_each_token_once(s0: Set<u64>, evs: Seq<Event>, i: int, j: int)
    requires
        0 <= i < j < evs.len(),
        action_at(s0, evs, i) matches Action::Ack { token } && action_at(s0, evs, j) matches Action::Ack {
            token: t2,
        } && token.delivery_tag == t2.delivery_tag,
    ensures
        exists|k: int|
            i < k < j && starts_tag(#[trigger] evs[k], action_at(s0, evs, i)->Ack_token.delivery_tag),
{
    let tag = action_at(s0, evs, i)->Ack_token.delivery_tag;
    assert(!state_after(s0, evs, i + 1).contains(tag));
    if !exists|k: int| i < k < j && starts_tag(#[trigger] evs[k], tag) {
        lemma_absent_until(s0, evs, tag, i + 1, j);
        assert(false);
    }
}

/// In a run from the initial state, every acknowledgment answers an earlier
/// decoded message with the same token: a malformed message alone is never
/// acknowledged.
pub proof fn lemma_run_ack_answers_decoded(evs: Seq<Event>, j: int)
    requires
        0 <= j < evs.len(),
        action_at(Set::empty(), evs, j) is Ack,
    ensures
        exists|k: int|
            0 <= k < j && starts_tag(
                #[trigger] evs[k],
                action_at(Set::empty(), evs, j)->Ack_token.delivery_tag,
            ),
{
    let tag = action_at(Set::empty(), evs, j)->Ack_token.delivery_tag;
    if !exists|k: int| 0 <= k < j && starts_tag(#[trigger] evs[k], tag) {
        lemma_absent_until(Set::empty(), evs, tag, 0, j);
        assert(false);
    }
}

/// On every event of a run, a check starts if and only if the event is a
/// decoded message, and the check carries that message's request and token.
pub proof fn lemma_run_starts_one_check_per_decoded(s0: Set<u64>, evs: Seq<Event>, i: int)
    requires
        0 <= i < evs.len(),
    ensures
        (action_at(s0, evs, i) is StartCheck) <==> (evs[i] matches Event::Inbound {
            request: Some(_),
            ..
        }),
        evs[i] matches Event::Inbound { request: Some(r), token } ==> action_at(s0, evs, i)
            == (Action::StartCheck { request: r, token }),
        evs[i] matches Event::Inbound { request: None, token } ==> action_at(s0, evs, i)
            == (Action::Discard { token }),
{
}

} // verus!
