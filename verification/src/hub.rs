//! The notification hub: in-memory fan-out of claim events to every observer
//! connected at the moment of emission.
//!
//! Each subscription owns a bounded delivery buffer. Publishing appends the
//! event to every live buffer and never blocks or fails on the publisher's
//! side: a full buffer sheds its oldest entry instead, so a slow observer
//! costs at most its own bounded staleness. Nothing is retained for observers
//! that connect later, and nothing survives the hub.

use vstd::prelude::*;

use crate::types::ClaimEvent;
use crate::types::EventM;

verus! {

/// One live subscription: its handle and its pending, not-yet-consumed events,
/// oldest first.
pub struct Subscription {
    pub handle: u64,
    pub pending: Vec<ClaimEvent>,
}

/// Mathematical image of a subscription.
#[verifier::ext_equal]
pub ghost struct SubM {
    pub handle: int,
    pub pending: Seq<EventM>,
}

impl View for Subscription {
    type V = SubM;

    open spec fn view(&self) -> SubM {
        SubM { handle: self.handle as int, pending: self.pending@.map_values(|e: ClaimEvent| e@) }
    }
}

/// What one pending buffer becomes when an event is delivered to it: the
/// event is appended, after the oldest entry has been shed if the buffer was
/// at capacity.
pub open spec fn delivered(pending: Seq<EventM>, e: EventM, cap: int) -> Seq<EventM> {
    if pending.len() < cap {
        pending.push(e)
    } else {
        pending.skip(1).push(e)
    }
}

/// The fan-out step: every subscription keeps its handle and place, and its
/// pending buffer receives the event.
pub open spec fn fanout_step(pre: Seq<SubM>, post: Seq<SubM>, e: EventM, cap: int) -> bool {
    &&& post.len() == pre.len()
    &&& forall|i: int|
        0 <= i < pre.len() ==> post[i] == (SubM {
            handle: pre[i].handle,
            pending: delivered(pre[i].pending, e, cap),
        })
}

/// No two subscriptions share a handle.
pub open spec fn handles_unique(subs: Seq<SubM>) -> bool {
    forall|i: int, j: int|
        0 <= i < subs.len() && 0 <= j < subs.len() && i != j ==> subs[i].handle != subs[j].handle
}

/// Owns the set of currently connected subscriptions — process-lifetime
/// state, rebuilt empty on every start — and distributes each published
/// event to all of them.
pub struct NotificationHub {
    pub subs: Vec<Subscription>,
    pub next_handle: u64,
    pub capacity: usize,
}

impl View for NotificationHub {
    type V = Seq<SubM>;

    open spec fn view(&self) -> Seq<SubM> {
        self.subs@.map_values(|s: Subscription| s@)
    }
}

impl NotificationHub {
    /// The hub's invariant: distinct handles, handles below the next fresh
    /// one, every buffer within the bound, and a positive bound.
    pub open spec fn wf(&self) -> bool {
        &&& handles_unique(self@)
        &&& forall|i: int| 0 <= i < self@.len() ==> self@[i].handle < self.next_handle as int
        &&& forall|i: int| 0 <= i < self@.len() ==> self@[i].pending.len() <= self.capacity as int
        &&& self.capacity >= 1
    }

    /// The per-subscription buffer bound.
    pub open spec fn spec_capacity(&self) -> int {
        self.capacity as int
    }

    /// A hub with no subscribers, shedding oldest entries beyond `capacity`
    /// pending events per subscriber.
    pub fn new(capacity: usize) -> (r: NotificationHub)
        requires
            capacity >= 1,
        ensures
            r@ == Seq::<SubM>::empty(),
            r.wf(),
            r.spec_capacity() == capacity as int,
    {
        let r = NotificationHub { subs: Vec::new(), next_handle: 0, capacity };
        proof {
            assert(r@ =~= Seq::<SubM>::empty());
        }
        r
    }

    /// Connects a new observer: a fresh handle with an empty pending buffer.
    /// The observer receives nothing retroactively — its stream starts here.
    pub fn subscribe(&mut self) -> (handle: u64)
        requires
            old(self).wf(),
            old(self).next_handle < u64::MAX,
        ensures
            final(self).wf(),
            final(self)@ == old(self)@.push(
                SubM { handle: handle as int, pending: Seq::<EventM>::empty() },
            ),
            final(self).spec_capacity() == old(self).spec_capacity(),
            forall|i: int| 0 <= i < old(self)@.len() ==> old(self)@[i].handle != handle as int,
    {
        let handle = self.next_handle;
        let sub = Subscription { handle, pending: Vec::new() };
        proof {
            assert(sub@ == (SubM { handle: handle as int, pending: Seq::<EventM>::empty() }));
            assert(self.subs@.push(sub).map_values(|s: Subscription| s@) =~= self@.push(sub@));
        }
        self.subs.push(sub);
        self.next_handle = self.next_handle + 1;
        handle
    }

    /// Distributes one event to every connected observer: each pending buffer
    /// receives it exactly once, a buffer already at capacity shedding its
    /// oldest entry first. The publisher never waits and never fails;
    /// observers that connect afterwards are unaffected.
    pub fn publish(&mut self, e: &ClaimEvent)
        requires
            old(self).wf(),
        ensures
            final(self).wf(),
            fanout_step(old(self)@, final(self)@, e@, old(self).spec_capacity()),
            final(self).next_handle == old(self).next_handle,
            final(self).spec_capacity() == old(self).spec_capacity(),
    {
        let n = self.subs.len();
        let ghost pre = self@;
        let mut i: usize = 0;
        while i < n
            invariant
                i <= n,
                n == self@.len(),
                self@.len() == pre.len(),
                self.next_handle == old(self).next_handle,
                self.capacity == old(self).capacity,
                self.wf(),
                pre == old(self)@,
                forall|j: int|
                    0 <= j < i ==> self@[j] == (SubM {
                        handle: pre[j].handle,
                        pending: delivered(pre[j].pending, e@, self.capacity as int),
                    }),
                forall|j: int| i <= j < n ==> self@[j] == pre[j],
            decreases n - i,
        {
            let ghost before = self@;
            let cap = self.capacity;
            let sub = &mut self.subs[i];
            if sub.pending.len() >= cap {
                sub.pending.remove(0);
            }
            sub.pending.push(e.duplicate());
            proof {
                assert(self@ =~~= before.update(
                    i as int,
                    SubM {
                        handle: pre[i as int].handle,
                        pending: delivered(pre[i as int].pending, e@, self.capacity as int),
                    },
                ));
                assert(pre[i as int].pending.len() <= self.capacity as int);
                assert(self@[i as int].pending.len() <= self.capacity as int);
            }
            i = i + 1;
        }
    }

    /// The position of the subscription with this handle, if it is connected.
    fn sub_index(&self, handle: u64) -> (r: Option<usize>)
        ensures
            match r {
                Some(i) => i < self@.len() && self@[i as int].handle == handle as int,
                None => forall|i: int| 0 <= i < self@.len() ==> self@[i].handle != handle as int,
            },
    {
        let n = self.subs.len();
        let mut i: usize = 0;
        while i < n
            invariant
                i <= n,
                n == self@.len(),
                forall|j: int| 0 <= j < i ==> self@[j].handle != handle as int,
            decreases n - i,
        {
            if self.subs[i].handle == handle {
                return Some(i);
            }
            i = i + 1;
        }
        None
    }

    /// Hands the observer behind `handle` its oldest pending event, if it has
    /// one; the event leaves the buffer. `None` when the buffer is empty or
    /// the handle is not connected.
    pub fn poll(&mut self, handle: u64) -> (r: Option<ClaimEvent>)
        requires
            old(self).wf(),
        ensures
            final(self).wf(),
            final(self).next_handle == old(self).next_handle,
            final(self).spec_capacity() == old(self).spec_capacity(),
            match r {
                Some(ev) => exists|i: int|
                    0 <= i < old(self)@.len() && old(self)@[i].handle == handle as int && old(
                        self,
                    )@[i].pending.len() > 0 && ev@ == old(self)@[i].pending[0] && final(self)@
                        == old(self)@.update(
                        i,
                        SubM { handle: handle as int, pending: old(self)@[i].pending.skip(1) },
                    ),
                None => final(self)@ == old(self)@ && forall|i: int|
                    0 <= i < old(self)@.len() && old(self)@[i].handle == handle as int ==> old(
                        self,
                    )@[i].pending.len() == 0,
            },
    {
        let idx = match self.sub_index(handle) {
            Some(i) => i,
            None => {
                return None;
            },
        };
        if self.subs[idx].pending.len() == 0 {
            return None;
        }
        let ghost pre = self@;
        let sub = &mut self.subs[idx];
        let ev = sub.pending.remove(0);
        proof {
            assert(ev@ == pre[idx as int].pending[0]);
            assert(self@ =~~= pre.update(
                idx as int,
                SubM { handle: handle as int, pending: pre[idx as int].pending.skip(1) },
            ));
        }
        Some(ev)
    }

    /// Disconnects an observer: its subscription and pending buffer leave the
    /// hub; every other subscription is untouched. Nothing else needs doing —
    /// the abandoned buffer is simply dropped.
    pub fn unsubscribe(&mut self, handle: u64)
        requires
            old(self).wf(),
        ensures
            final(self).wf(),
            final(self).next_handle == old(self).next_handle,
            final(self).spec_capacity() == old(self).spec_capacity(),
            forall|i: int| 0 <= i < final(self)@.len() ==> final(self)@[i].handle != handle as int,
            final(self)@.len() >= old(self)@.len() - 1,
            (exists|i: int|
                0 <= i < old(self)@.len() && old(self)@[i].handle == handle as int && final(self)@
                    == old(self)@.remove(i)) || (final(self)@ == old(self)@ && forall|i: int|
                0 <= i < old(self)@.len() ==> old(self)@[i].handle != handle as int),
    {
        let idx = match self.sub_index(handle) {
            Some(i) => i,
            None => {
                return ;
            },
        };
        let ghost pre = self@;
        self.subs.remove(idx);
        proof {
            assert(self@ =~= pre.remove(idx as int));
            assert forall|i: int| 0 <= i < self@.len() implies self@[i].handle
                != handle as int by {
                if i < idx as int {
                    assert(self@[i] == pre[i]);
                } else {
                    assert(self@[i] == pre[i + 1]);
                }
            }
        }
    }
}

/// Every observer connected at the moment a claim is published receives that
/// event exactly once: its pending buffer, not at capacity, becomes the old
/// buffer with the one event appended, everything already pending left in
/// place. (That a later observer sees nothing retroactively is `subscribe`'s
/// own promise: a fresh subscription starts from an empty buffer.)
pub proof fn lemma_fanout_delivers_exactly_once(
    pre: Seq<SubM>,
    post: Seq<SubM>,
    e: EventM,
    cap: int,
    i: int,
)
    requires
        fanout_step(pre, post, e, cap),
        0 <= i < pre.len(),
        pre[i].pending.len() < cap,
    ensures
        post[i].pending == pre[i].pending.push(e),
        post[i].pending.len() == pre[i].pending.len() + 1,
        post[i].pending.last() == e,
        forall|k: int| 0 <= k < pre[i].pending.len() ==> post[i].pending[k] == pre[i].pending[k],
{
    assert(post[i].pending == pre[i].pending.push(e));
}

/// Observers see claims in the order they committed: a subscription that
/// starts empty and stays within capacity holds, after two events are
/// published, exactly those two events, oldest first.
pub proof fn lemma_events_arrive_in_commit_order(e1: EventM, e2: EventM, cap: int)
    requires
        cap >= 2,
    ensures
        delivered(delivered(Seq::<EventM>::empty(), e1, cap), e2, cap) =~= seq![e1, e2],
{
}

} // verus!
