use vstd::prelude::*;

verus! {

/// One outstanding command awaiting the frame that answers it.
#[derive(Debug)]
pub struct PendingRequest {
    pub id: u64,
    pub command: String,
    /// Absolute time, in milliseconds, after which the request times out.
    pub deadline: u64,
}

/// What became of one inbound frame.
#[derive(Clone, Debug, PartialEq, Eq)]
pub enum Delivery {
    /// The frame answers the request with this id.
    Resolved { id: u64, response: String },
    /// No request was waiting: the frame goes to the out-of-band stream only.
    Unsolicited(String),
}

/// The deadline of a request issued at `now` with `timeout`, held at the
/// largest representable time.
pub open spec fn deadline_of(now: u64, timeout: u64) -> u64 {
    if now + timeout <= u64::MAX {
        (now + timeout) as u64
    } else {
        u64::MAX
    }
}

/// Ids rise strictly along `q`.
pub open spec fn ascending(q: Seq<PendingRequest>) -> bool {
    forall|i: int, j: int| 0 <= i < j < q.len() ==> (#[trigger] q[i]).id < (#[trigger] q[j]).id
}

/// Every id in `q` is below `bound`.
pub open spec fn below(q: Seq<PendingRequest>, bound: u64) -> bool {
    forall|i: int| 0 <= i < q.len() ==> (#[trigger] q[i]).id < bound
}

pub open spec fn ids_of(q: Seq<PendingRequest>) -> Seq<u64> {
    q.map_values(|p: PendingRequest| p.id)
}

/// What the `j`-th of a run of frames does, against the queue `q` that stood
/// before the run: the first frames answer the queued requests in order, the
/// rest find nobody waiting.
pub open spec fn delivery_of(q: Seq<PendingRequest>, frame: String, j: int) -> Delivery {
    if j < q.len() {
        Delivery::Resolved { id: q[j].id, response: frame }
    } else {
        Delivery::Unsolicited(frame)
    }
}

/// The queue left after `n` frames arrive.
pub open spec fn remaining_after(q: Seq<PendingRequest>, n: int) -> Seq<PendingRequest> {
    if n < q.len() {
        q.skip(n)
    } else {
        Seq::empty()
    }
}

/// The requests of `q` that are still within their deadline at `now`, in order.
pub open spec fn live(q: Seq<PendingRequest>, now: u64) -> Seq<PendingRequest>
    decreases q.len(),
{
    if q.len() == 0 {
        Seq::empty()
    } else if q.last().deadline > now {
        live(q.drop_last(), now).push(q.last())
    } else {
        live(q.drop_last(), now)
    }
}

/// The ids of the requests of `q` whose deadline has passed at `now`, in order.
pub open spec fn expired_ids(q: Seq<PendingRequest>, now: u64) -> Seq<u64>
    decreases q.len(),
{
    if q.len() == 0 {
        Seq::empty()
    } else if q.last().deadline > now {
        expired_ids(q.drop_last(), now)
    } else {
        expired_ids(q.drop_last(), now).push(q.last().id)
    }
}

/// Matches outgoing commands with inbound frames: a FIFO queue of pending
/// requests whose head is the one request eligible for the next frame.
pub struct Correlator {
    queue: Vec<PendingRequest>,
    next_id: u64,
}

impl Correlator {
    pub closed spec fn pending(&self) -> Seq<PendingRequest> {
        self.queue@
    }

    /// The id the next submitted request will get.
    pub closed spec fn next_id(&self) -> u64 {
        self.next_id
    }

    /// Ids rise strictly along the queue and are all below `next_id`, so no id
    /// is ever queued twice.
    pub open spec fn wf(&self) -> bool {
        &&& ascending(self.pending())
        &&& below(self.pending(), self.next_id())
    }

    pub fn new() -> (r: Correlator)
        ensures
            r.wf(),
            r.pending() == Seq::<PendingRequest>::empty(),
            r.next_id() == 0,
    {
        Correlator { queue: Vec::new(), next_id: 0 }
    }

    pub fn upcoming_id(&self) -> (r: u64)
        ensures
            r == self.next_id(),
    {
        self.next_id
    }

    pub fn len(&self) -> (r: usize)
        ensures
            r == self.pending().len(),
    {
        self.queue.len()
    }

    /// The id of the active request, the head of the queue.
    pub fn active(&self) -> (r: Option<u64>)
        ensures
            self.pending().len() == 0 ==> r is None,
            self.pending().len() > 0 ==> r == Some(self.pending()[0].id),
    {
        if self.queue.len() == 0 {
            None
        } else {
            Some(self.queue[0].id)
        }
    }

    /// Queues a request for `command`, issued at `now` with `timeout`.
    pub fn submit(&mut self, command: String, now: u64, timeout: u64) -> (id: u64)
        requires
            old(self).wf(),
            old(self).next_id() < u64::MAX,
        ensures
            final(self).wf(),
            id == old(self).next_id(),
            final(self).next_id() == old(self).next_id() + 1,
            final(self).pending() == old(self).pending().push(
                PendingRequest { id, command, deadline: deadline_of(now, timeout) },
            ),
    {
        let id = self.next_id;
        let deadline = now.saturating_add(timeout);
        let ghost q = self.queue@;
        self.queue.push(PendingRequest { id, command, deadline });
        self.next_id = self.next_id + 1;
        assert forall|i: int| 0 <= i < q.len() implies #[trigger] self.queue@[i] == q[i] by {}
        id
    }

    /// Hands an inbound frame to the active request, which leaves the queue;
    /// the next request becomes active.
    pub fn deliver(&mut self, frame: String) -> (r: Delivery)
        requires
            old(self).wf(),
        ensures
            final(self).wf(),
            final(self).next_id() == old(self).next_id(),
            r == delivery_of(old(self).pending(), frame, 0),
            final(self).pending() == remaining_after(old(self).pending(), 1),
    {
        if self.queue.len() == 0 {
            Delivery::Unsolicited(frame)
        } else {
            let head = self.queue.remove(0);
            Delivery::Resolved { id: head.id, response: frame }
        }
    }

    /// Removes every request whose deadline has passed at `now` and returns
    /// their ids in queue order; the others keep their order.
    pub fn expire(&mut self, now: u64) -> (r: Vec<u64>)
        requires
            old(self).wf(),
        ensures
            final(self).wf(),
            final(self).next_id() == old(self).next_id(),
            r@ == expired_ids(old(self).pending(), now),
            final(self).pending() == live(old(self).pending(), now),
    {
        let mut kept: Vec<PendingRequest> = Vec::new();
        let mut gone: Vec<u64> = Vec::new();
        let mut rest: Vec<PendingRequest> = Vec::new();
        std::mem::swap(&mut rest, &mut self.queue);
        let ghost q = rest@;
        // take the requests from the back, then restore their order
        let mut rev_kept: Vec<PendingRequest> = Vec::new();
        let mut rev_gone: Vec<u64> = Vec::new();
        let ghost n = q.len();
        while rest.len() > 0
            invariant
                rest@ == q.subrange(0, rest@.len() as int),
                rest@.len() <= n,
                n == q.len(),
                live(q, now) == live(rest@, now) + rev_kept@.reverse(),
                expired_ids(q, now) == expired_ids(rest@, now) + rev_gone@.reverse(),
            decreases rest@.len(),
        {
            let ghost before = rest@;
            let p = rest.pop().unwrap();
            assert(before.drop_last() == rest@);
            if p.deadline > now {
                let ghost rk = rev_kept@;
                rev_kept.push(p);
                assert(rev_kept@.reverse() =~= seq![p] + rk.reverse()) by {
                    assert forall|i: int| 0 <= i < rev_kept@.len() implies rev_kept@.reverse()[i]
                        == (seq![p] + rk.reverse())[i] by {}
                }
                assert(live(before, now) == live(rest@, now).push(p));
                assert(live(rest@, now).push(p) + rk.reverse() =~= live(rest@, now) + rev_kept@.reverse());
            } else {
                let ghost rg = rev_gone@;
                rev_gone.push(p.id);
                assert(rev_gone@.reverse() =~= seq![p.id] + rg.reverse()) by {
                    assert forall|i: int| 0 <= i < rev_gone@.len() implies rev_gone@.reverse()[i]
                        == (seq![p.id] + rg.reverse())[i] by {}
                }
                assert(expired_ids(before, now) == expired_ids(rest@, now).push(p.id));
                assert(expired_ids(rest@, now).push(p.id) + rg.reverse() =~= expired_ids(rest@, now) + rev_gone@.reverse());
            }
        }
        assert(live(rest@, now) == Seq::<PendingRequest>::empty());
        assert(expired_ids(rest@, now) == Seq::<u64>::empty());
        assert(live(q, now) =~= rev_kept@.reverse());
        assert(expired_ids(q, now) =~= rev_gone@.reverse());
        while rev_kept.len() > 0
            invariant
                live(q, now) == (kept@ + rev_kept@.reverse()),
            decreases rev_kept@.len(),
        {
            let ghost rk = rev_kept@;
            let p = rev_kept.pop().unwrap();
            kept.push(p);
            assert(kept@ + rev_kept@.reverse() =~= (kept@.drop_last() + rk.reverse()));
        }
        while rev_gone.len() > 0
            invariant
                expired_ids(q, now) == (gone@ + rev_gone@.reverse()),
            decreases rev_gone@.len(),
        {
            let ghost rg = rev_gone@;
            let x = rev_gone.pop().unwrap();
            gone.push(x);
            assert(gone@ + rev_gone@.reverse() =~= (gone@.drop_last() + rg.reverse()));
        }
        assert(kept@ =~= live(q, now));
        self.queue = kept;
        proof {
            lemma_live_ordered(q, now, self.next_id);
        }
        gone
    }

    /// Empties the queue and returns the ids of every request it held, in order.
    pub fn cancel_all(&mut self) -> (r: Vec<u64>)
        requires
            old(self).wf(),
        ensures
            final(self).wf(),
            final(self).next_id() == old(self).next_id(),
            r@ == ids_of(old(self).pending()),
            final(self).pending() == Seq::<PendingRequest>::empty(),
    {
        let mut ids: Vec<u64> = Vec::new();
        let mut i: usize = 0;
        while i < self.queue.len()
            invariant
                0 <= i <= self.queue@.len(),
                ids@ == ids_of(self.queue@.subrange(0, i as int)),
            decreases self.queue@.len() - i,
        {
            let ghost q = self.queue@;
            assert(q.subrange(0, i + 1) =~= q.subrange(0, i as int).push(q[i as int]));
            ids.push(self.queue[i].id);
            assert(ids@ =~= ids_of(q.subrange(0, i + 1)));
            i = i + 1;
        }
        assert(self.queue@.subrange(0, i as int) =~= self.queue@);
        self.queue = Vec::new();
        ids
    }
}

/// Nothing lives in an empty queue.
pub proof fn lemma_live_of_empty(q: Seq<PendingRequest>, now: u64)
    ensures
        q.len() == 0 ==> live(q, now).len() == 0,
{
}

proof fn lemma_live_ordered(q: Seq<PendingRequest>, now: u64, bound: u64)
    requires
        ascending(q),
        below(q, bound),
    ensures
        ascending(live(q, now)),
        below(live(q, now), bound),
    decreases q.len(),
{
    if q.len() > 0 {
        let last = q.last();
        let init = q.drop_last();
        assert forall|i: int| 0 <= i < init.len() implies (#[trigger] init[i]).id < last.id by {
            assert(q[i] == init[i]);
        }
        lemma_live_ordered(init, now, last.id);
        if last.deadline > now {
            let l = live(init, now).push(last);
            assert forall|i: int, j: int| 0 <= i < j < l.len() implies (#[trigger] l[i]).id
                < (#[trigger] l[j]).id by {
                if j == l.len() - 1 {
                    assert(l[i] == live(init, now)[i]);
                } else {
                    assert(l[i] == live(init, now)[i] && l[j] == live(init, now)[j]);
                }
            }
            assert forall|i: int| 0 <= i < l.len() implies (#[trigger] l[i]).id < bound by {
                if i < l.len() - 1 {
                    assert(l[i] == live(init, now)[i]);
                }
            }
        }
    }
}

} // verus!
