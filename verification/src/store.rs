//! The reservation store: the durable state of all slots and the one atomic
//! claim primitive, plus the read-only queries.
//!
//! The store is the sole serialization point for conflicting claims, so the
//! whole race analysis reduces to properties of the single-step transition
//! `claim` makes: the spec functions below describe that step, the methods
//! carry it out, and the lemmas state the race guarantees over it.

use vstd::prelude::*;

use crate::types::ClaimError;
use crate::types::ClaimEvent;
use crate::types::EventM;
use crate::types::Slot;
use crate::types::SlotM;
use crate::types::bytes_eq;
use crate::types::clone_bytes;

verus! {

/// No two slots share an id.
pub open spec fn ids_unique(slots: Seq<SlotM>) -> bool {
    forall|i: int, j: int|
        0 <= i < slots.len() && 0 <= j < slots.len() && i != j ==> slots[i].id != slots[j].id
}

/// No identity holds two slots: a non-absent holder appears on at most one slot.
pub open spec fn holders_unique(slots: Seq<SlotM>) -> bool {
    forall|i: int, j: int|
        0 <= i < slots.len() && 0 <= j < slots.len() && i != j && slots[i].holder is Some
            ==> slots[i].holder != slots[j].holder
}

/// The store's invariant: unique ids, and the global uniqueness of holders.
pub open spec fn store_wf(slots: Seq<SlotM>) -> bool {
    ids_unique(slots) && holders_unique(slots)
}

/// Some slot with this id exists and is free.
pub open spec fn slot_free(slots: Seq<SlotM>, id: int) -> bool {
    exists|i: int| 0 <= i < slots.len() && slots[i].id == id && slots[i].holder is None
}

/// This identity already holds some slot.
pub open spec fn holder_occupies(slots: Seq<SlotM>, h: Seq<u8>) -> bool {
    exists|i: int| 0 <= i < slots.len() && slots[i].holder == Some(h)
}

/// Which refusal, if any, a claim of slot `id` by identity `h` meets in state
/// `slots`. `None` means the claim is owed success. The order mirrors the
/// store's own: an empty identity is turned away before storage is consulted,
/// the conditional write then matches no row when no free slot with this id
/// exists, and otherwise the holder-uniqueness constraint has the last word.
pub open spec fn claim_denied(slots: Seq<SlotM>, id: int, h: Seq<u8>) -> Option<ClaimError> {
    if h.len() == 0 {
        Some(ClaimError::EmptyIdentity)
    } else if !slot_free(slots, id) {
        Some(ClaimError::AlreadyOccupied)
    } else if holder_occupies(slots, h) {
        Some(ClaimError::HolderAlreadyHasSlot)
    } else {
        None
    }
}

/// The successful-claim step: exactly the free slot with id `id` gains
/// holder `h`; every other slot is untouched.
pub open spec fn claim_step(pre: Seq<SlotM>, post: Seq<SlotM>, id: int, h: Seq<u8>) -> bool {
    exists|i: int|
        0 <= i < pre.len() && pre[i].id == id && pre[i].holder is None && post == pre.update(
            i,
            SlotM {
                id: pre[i].id,
                start_time: pre[i].start_time,
                end_time: pre[i].end_time,
                holder: Some(h),
            },
        )
}

/// A granted claim: nothing stood in its way, and it made the step.
pub open spec fn claim_granted(pre: Seq<SlotM>, post: Seq<SlotM>, id: int, h: Seq<u8>) -> bool {
    claim_denied(pre, id, h) is None && claim_step(pre, post, id, h)
}

/// Owns the slots and is their only writer. Its model is the sequence of
/// slot images, in storage order.
pub struct ReservationStore {
    pub slots: Vec<Slot>,
}

impl View for ReservationStore {
    type V = Seq<SlotM>;

    open spec fn view(&self) -> Seq<SlotM> {
        self.slots@.map_values(|s: Slot| s@)
    }
}

impl ReservationStore {
    /// The store's invariant.
    pub open spec fn wf(&self) -> bool {
        store_wf(self@)
    }

    /// An empty store.
    pub fn new() -> (r: ReservationStore)
        ensures
            r@ == Seq::<SlotM>::empty(),
            r.wf(),
    {
        let r = ReservationStore { slots: Vec::new() };
        proof {
            assert(r@ =~= Seq::<SlotM>::empty());
        }
        r
    }

    /// Adds a free slot with a fresh id. Slot creation is outside the claim
    /// core; this exists so a store can be populated.
    pub fn add_slot(&mut self, id: i32, start_time: i64, end_time: i64)
        requires
            old(self).wf(),
            forall|i: int| 0 <= i < old(self)@.len() ==> old(self)@[i].id != id as int,
        ensures
            final(self)@ == old(self)@.push(
                SlotM {
                    id: id as int,
                    start_time: start_time as int,
                    end_time: end_time as int,
                    holder: None,
                },
            ),
            final(self).wf(),
    {
        let slot = Slot { id, start_time, end_time, holder: None };
        proof {
            assert(self.slots@.push(slot).map_values(|s: Slot| s@) =~= self@.push(slot@));
        }
        self.slots.push(slot);
    }

    /// The index of a free slot with this id, if one exists.
    fn find_free_index(&self, slot_id: i32) -> (r: Option<usize>)
        ensures
            match r {
                Some(i) => i < self@.len() && self@[i as int].id == slot_id as int
                    && self@[i as int].holder is None,
                None => !slot_free(self@, slot_id as int),
            },
    {
        let n = self.slots.len();
        let mut i: usize = 0;
        while i < n
            invariant
                i <= n,
                n == self@.len(),
                forall|j: int|
                    0 <= j < i ==> !(self@[j].id == slot_id as int && self@[j].holder is None),
            decreases n - i,
        {
            if self.slots[i].id == slot_id && self.slots[i].holder.is_none() {
                return Some(i);
            }
            i = i + 1;
        }
        None
    }

    /// The index of the slot this identity holds, if any.
    fn holder_index(&self, holder: &Vec<u8>) -> (r: Option<usize>)
        ensures
            match r {
                Some(i) => i < self@.len() && self@[i as int].holder == Some(holder@),
                None => !holder_occupies(self@, holder@),
            },
    {
        let n = self.slots.len();
        let mut i: usize = 0;
        while i < n
            invariant
                i <= n,
                n == self@.len(),
                forall|j: int| 0 <= j < i ==> self@[j].holder != Some(holder@),
            decreases n - i,
        {
            let occupied = match &self.slots[i].holder {
                Some(h) => bytes_eq(h, holder),
                None => false,
            };
            if occupied {
                return Some(i);
            }
            i = i + 1;
        }
        None
    }

    /// The atomic claim: assigns `holder` to the slot `slot_id` only if that
    /// slot is currently free and the identity holds no other slot, in one
    /// conditional step against the store's state. On success the returned
    /// event records the transition; on refusal the state is untouched and
    /// the error says exactly which precondition failed.
    pub fn claim(&mut self, slot_id: i32, holder: Vec<u8>) -> (r: Result<ClaimEvent, ClaimError>)
        requires
            old(self).wf(),
        ensures
            final(self).wf(),
            match r {
                Ok(ev) => claim_granted(old(self)@, final(self)@, slot_id as int, holder@)
                    && ev@ == (EventM { slot_id: slot_id as int, holder: holder@ }),
                Err(e) => Some(e) == claim_denied(old(self)@, slot_id as int, holder@)
                    && final(self)@ == old(self)@,
            },
    {
        if holder.len() == 0 {
            return Err(ClaimError::EmptyIdentity);
        }
        let idx = match self.find_free_index(slot_id) {
            Some(i) => i,
            None => {
                return Err(ClaimError::AlreadyOccupied);
            },
        };
        if self.holder_index(&holder).is_some() {
            return Err(ClaimError::HolderAlreadyHasSlot);
        }
        let ev = ClaimEvent { slot_id, holder: clone_bytes(&holder) };
        let ghost pre = self@;
        let new_slot = Slot {
            id: self.slots[idx].id,
            start_time: self.slots[idx].start_time,
            end_time: self.slots[idx].end_time,
            holder: Some(holder),
        };
        let ghost new_m = new_slot@;
        self.slots[idx] = new_slot;
        proof {
            assert(self@ =~= pre.update(idx as int, new_m));
            assert(claim_step(pre, self@, slot_id as int, ev.holder@));
            lemma_granted_step_keeps_wf(pre, self@, slot_id as int, ev.holder@);
        }
        Ok(ev)
    }

    /// Full snapshot of the slots, in storage order; read-only.
    pub fn list_all(&self) -> (r: &Vec<Slot>)
        ensures
            r@.map_values(|s: Slot| s@) == self@,
    {
        &self.slots
    }

    /// The slot this identity holds, if any: at most one, by the uniqueness
    /// invariant, and under it any slot whose holder matches is the returned
    /// one. Read-only.
    pub fn find_by_holder(&self, holder: &Vec<u8>) -> (r: Option<Slot>)
        ensures
            match r {
                Some(s) => exists|i: int| 0 <= i < self@.len() && self@[i] == s@ && s@.holder
                    == Some(holder@),
                None => !holder_occupies(self@, holder@),
            },
    {
        match self.holder_index(holder) {
            Some(i) => {
                let s = self.slots[i].duplicate();
                proof {
                    assert(self@[i as int] == s@);
                }
                Some(s)
            },
            None => None,
        }
    }
}

/// The granted step preserves the store invariant: ids are untouched, and the
/// new holder was on no other slot.
pub proof fn lemma_granted_step_keeps_wf(pre: Seq<SlotM>, post: Seq<SlotM>, id: int, h: Seq<u8>)
    requires
        store_wf(pre),
        !holder_occupies(pre, h),
        claim_step(pre, post, id, h),
    ensures
        store_wf(post),
{
    let i = choose|i: int|
        0 <= i < pre.len() && pre[i].id == id && pre[i].holder is None && post == pre.update(
            i,
            SlotM {
                id: pre[i].id,
                start_time: pre[i].start_time,
                end_time: pre[i].end_time,
                holder: Some(h),
            },
        );
    assert forall|a: int, b: int|
        0 <= a < post.len() && 0 <= b < post.len() && a != b && post[a].holder is Some implies post[a].holder
        != post[b].holder by {
        if a != i && b != i {
            assert(post[a] == pre[a] && post[b] == pre[b]);
        } else if a == i {
            assert(pre[b].holder != Some(h));
        } else {
            assert(pre[a].holder != Some(h));
        }
    }
}

/// A granted claim leaves its slot occupied: the claimed slot was, ids being
/// unique, the only one with that id, and it now has a holder.
pub proof fn lemma_grant_occupies_slot(pre: Seq<SlotM>, post: Seq<SlotM>, id: int, h: Seq<u8>)
    requires
        ids_unique(pre),
        claim_granted(pre, post, id, h),
    ensures
        !slot_free(post, id),
{
    let i = choose|i: int|
        0 <= i < pre.len() && pre[i].id == id && pre[i].holder is None && post == pre.update(
            i,
            SlotM {
                id: pre[i].id,
                start_time: pre[i].start_time,
                end_time: pre[i].end_time,
                holder: Some(h),
            },
        );
    assert forall|j: int| 0 <= j < post.len() && post[j].id == id implies post[j].holder is Some by {
        if j != i {
            assert(pre[j].id == pre[i].id && j != i);
            assert(false);
        }
    }
}

/// A granted claim puts its identity in possession of a slot.
pub proof fn lemma_grant_encumbers_holder(pre: Seq<SlotM>, post: Seq<SlotM>, id: int, h: Seq<u8>)
    requires
        claim_granted(pre, post, id, h),
    ensures
        holder_occupies(post, h),
{
    let i = choose|i: int|
        0 <= i < pre.len() && pre[i].id == id && pre[i].holder is None && post == pre.update(
            i,
            SlotM {
                id: pre[i].id,
                start_time: pre[i].start_time,
                end_time: pre[i].end_time,
                holder: Some(h),
            },
        );
    assert(post[i].holder == Some(h));
}

/// Of all claim attempts on one slot, exactly the first succeeds: once a
/// claim of slot `id` has been granted, any further attempt on that slot, by
/// whatever non-empty identity, is refused as `AlreadyOccupied`.
pub proof fn lemma_second_claim_on_slot_conflicts(
    pre: Seq<SlotM>,
    post: Seq<SlotM>,
    id: int,
    h1: Seq<u8>,
    h2: Seq<u8>,
)
    requires
        store_wf(pre),
        claim_granted(pre, post, id, h1),
        h2.len() > 0,
    ensures
        claim_denied(post, id, h2) == Some(ClaimError::AlreadyOccupied),
{
    lemma_grant_occupies_slot(pre, post, id, h1);
}

/// Of all claim attempts by one identity on distinct free slots, exactly the
/// first succeeds: once identity `h` has been granted slot `id1`, its attempt
/// on any other slot `id2` that was free is refused as `HolderAlreadyHasSlot`.
pub proof fn lemma_second_claim_by_holder_conflicts(
    pre: Seq<SlotM>,
    post: Seq<SlotM>,
    id1: int,
    id2: int,
    h: Seq<u8>,
)
    requires
        store_wf(pre),
        claim_granted(pre, post, id1, h),
        id2 != id1,
        slot_free(pre, id2),
    ensures
        claim_denied(post, id2, h) == Some(ClaimError::HolderAlreadyHasSlot),
{
    let i = choose|i: int|
        0 <= i < pre.len() && pre[i].id == id1 && pre[i].holder is None && post == pre.update(
            i,
            SlotM {
                id: pre[i].id,
                start_time: pre[i].start_time,
                end_time: pre[i].end_time,
                holder: Some(h),
            },
        );
    let j = choose|j: int| 0 <= j < pre.len() && pre[j].id == id2 && pre[j].holder is None;
    assert(j != i);
    assert(post[j] == pre[j]);
    assert(slot_free(post, id2));
    assert(post[i].holder == Some(h));
    assert(holder_occupies(post, h));
}

/// An occupied slot never reverts: a granted claim leaves every slot that
/// already had a holder exactly as it was.
pub proof fn lemma_occupied_never_reverts(
    pre: Seq<SlotM>,
    post: Seq<SlotM>,
    id: int,
    h: Seq<u8>,
    j: int,
)
    requires
        claim_step(pre, post, id, h),
        0 <= j < pre.len(),
        pre[j].holder is Some,
    ensures
        post[j] == pre[j],
{
}

/// Occupancy is monotone: no claim step, whatever slot and identity it
/// concerns, turns an occupied or absent slot id back into a free one. With
/// `lemma_second_claim_on_slot_conflicts` this carries the refusal across any
/// later interleaving: once a slot's claim is granted, every subsequent
/// attempt on it keeps observing `AlreadyOccupied`.
pub proof fn lemma_claims_never_free_a_slot(
    pre: Seq<SlotM>,
    post: Seq<SlotM>,
    id: int,
    h: Seq<u8>,
    id2: int,
)
    requires
        claim_step(pre, post, id, h),
        !slot_free(pre, id2),
    ensures
        !slot_free(post, id2),
{
    let i = choose|i: int|
        0 <= i < pre.len() && pre[i].id == id && pre[i].holder is None && post == pre.update(
            i,
            SlotM {
                id: pre[i].id,
                start_time: pre[i].start_time,
                end_time: pre[i].end_time,
                holder: Some(h),
            },
        );
    assert forall|j: int|
        0 <= j < post.len() && post[j].id == id2 implies !(post[j].holder is None) by {
        if j != i {
            assert(pre[j].id == id2);
        }
    }
}

/// Possession is monotone: no claim step takes a slot away from an identity
/// that holds one. With `lemma_second_claim_by_holder_conflicts` this carries
/// the refusal across any later interleaving: once an identity holds a slot,
/// its attempt on any other free slot keeps observing `HolderAlreadyHasSlot`.
pub proof fn lemma_claims_never_release_a_holder(
    pre: Seq<SlotM>,
    post: Seq<SlotM>,
    id: int,
    h: Seq<u8>,
    h2: Seq<u8>,
)
    requires
        claim_step(pre, post, id, h),
        holder_occupies(pre, h2),
    ensures
        holder_occupies(post, h2),
{
    let i = choose|i: int|
        0 <= i < pre.len() && pre[i].id == id && pre[i].holder is None && post == pre.update(
            i,
            SlotM {
                id: pre[i].id,
                start_time: pre[i].start_time,
                end_time: pre[i].end_time,
                holder: Some(h),
            },
        );
    let j = choose|j: int| 0 <= j < pre.len() && pre[j].holder == Some(h2);
    assert(j != i);
    assert(post[j].holder == Some(h2));
}

/// After a granted claim, `find_by_holder` for that identity is owed exactly
/// the claimed slot — the slot with the claimed id, now occupied by the
/// claimant — and `list_all` shows that slot with a non-absent holder.
pub proof fn lemma_claim_then_queries(pre: Seq<SlotM>, post: Seq<SlotM>, id: int, h: Seq<u8>)
    requires
        store_wf(pre),
        claim_granted(pre, post, id, h),
    ensures
        store_wf(post),
        holder_occupies(post, h),
        exists|i: int| 0 <= i < post.len() && post[i].id == id && post[i].holder == Some(h),
        forall|i: int| 0 <= i < post.len() && post[i].holder == Some(h) ==> post[i].id == id,
{
    let i = choose|i: int|
        0 <= i < pre.len() && pre[i].id == id && pre[i].holder is None && post == pre.update(
            i,
            SlotM {
                id: pre[i].id,
                start_time: pre[i].start_time,
                end_time: pre[i].end_time,
                holder: Some(h),
            },
        );
    lemma_granted_step_keeps_wf(pre, post, id, h);
    assert(post[i].id == id && post[i].holder == Some(h));
    assert forall|j: int| 0 <= j < post.len() && post[j].holder == Some(h) implies post[j].id
        == id by {
        if j != i {
            assert(pre[j].holder == Some(h));
            assert(false);
        }
    }
}

/// A serialized run of claim attempts: between consecutive states either the
/// attempt was granted and made its step, or it was refused and the state did
/// not move. The store serializes all concurrent attempts, and `claim`'s
/// contract makes every sequence of its calls such a run.
pub open spec fn serialized_run(states: Seq<Seq<SlotM>>, ids: Seq<int>, hs: Seq<Seq<u8>>) -> bool {
    &&& states.len() == ids.len() + 1
    &&& hs.len() == ids.len()
    &&& forall|k: int|
        0 <= k < ids.len() ==> (claim_granted(states[k], states[k + 1], ids[k], hs[k]) || states[k
            + 1] == states[k])
}

/// The store invariant holds at every point of a serialized run that starts
/// well formed.
pub proof fn lemma_run_keeps_wf(states: Seq<Seq<SlotM>>, ids: Seq<int>, hs: Seq<Seq<u8>>, k: int)
    requires
        serialized_run(states, ids, hs),
        store_wf(states[0]),
        0 <= k <= ids.len(),
    ensures
        store_wf(states[k]),
    decreases k,
{
    if k > 0 {
        lemma_run_keeps_wf(states, ids, hs, k - 1);
        if claim_granted(states[k - 1], states[k], ids[k - 1], hs[k - 1]) {
            lemma_granted_step_keeps_wf(states[k - 1], states[k], ids[k - 1], hs[k - 1]);
        }
    }
}

/// A slot id that is occupied or absent at one point of a run stays so for
/// the rest of it.
pub proof fn lemma_run_keeps_slot_occupied(
    states: Seq<Seq<SlotM>>,
    ids: Seq<int>,
    hs: Seq<Seq<u8>>,
    id: int,
    from: int,
    to: int,
)
    requires
        serialized_run(states, ids, hs),
        0 <= from <= to <= ids.len(),
        !slot_free(states[from], id),
    ensures
        !slot_free(states[to], id),
    decreases to - from,
{
    if from < to {
        if claim_granted(states[from], states[from + 1], ids[from], hs[from]) {
            lemma_claims_never_free_a_slot(
                states[from],
                states[from + 1],
                ids[from],
                hs[from],
                id,
            );
        }
        lemma_run_keeps_slot_occupied(states, ids, hs, id, from + 1, to);
    }
}

/// An identity in possession of a slot at one point of a run stays so for the
/// rest of it.
pub proof fn lemma_run_keeps_holder_occupied(
    states: Seq<Seq<SlotM>>,
    ids: Seq<int>,
    hs: Seq<Seq<u8>>,
    h: Seq<u8>,
    from: int,
    to: int,
)
    requires
        serialized_run(states, ids, hs),
        0 <= from <= to <= ids.len(),
        holder_occupies(states[from], h),
    ensures
        holder_occupies(states[to], h),
    decreases to - from,
{
    if from < to {
        if claim_granted(states[from], states[from + 1], ids[from], hs[from]) {
            lemma_claims_never_release_a_holder(
                states[from],
                states[from + 1],
                ids[from],
                hs[from],
                h,
            );
        }
        lemma_run_keeps_holder_occupied(states, ids, hs, h, from + 1, to);
    }
}

/// Of all the attempts a serialized run makes on one slot, at most one is
/// ever granted: once attempt `k1` on the slot has won, every later attempt
/// `k2` on it — whoever makes it, whatever happens on other slots in
/// between — is refused and moves nothing. (That some attempt wins at all is
/// `claim`'s own contract: the attempt that finds the slot free, with a
/// non-empty identity holding nothing else, is owed success.)
pub proof fn lemma_at_most_one_winner_per_slot(
    states: Seq<Seq<SlotM>>,
    ids: Seq<int>,
    hs: Seq<Seq<u8>>,
    k1: int,
    k2: int,
)
    requires
        serialized_run(states, ids, hs),
        store_wf(states[0]),
        0 <= k1 < k2 < ids.len(),
        ids[k1] == ids[k2],
        claim_granted(states[k1], states[k1 + 1], ids[k1], hs[k1]),
    ensures
        !claim_granted(states[k2], states[k2 + 1], ids[k2], hs[k2]),
        states[k2 + 1] == states[k2],
        hs[k2].len() > 0 ==> claim_denied(states[k2], ids[k2], hs[k2]) == Some(
            ClaimError::AlreadyOccupied,
        ),
{
    lemma_run_keeps_wf(states, ids, hs, k1);
    lemma_grant_occupies_slot(states[k1], states[k1 + 1], ids[k1], hs[k1]);
    lemma_run_keeps_slot_occupied(states, ids, hs, ids[k1], k1 + 1, k2);
}

/// Of all the attempts one identity makes in a serialized run, at most one is
/// ever granted: once attempt `k1` by the identity has won a slot, every
/// later attempt `k2` it makes — on whatever slot, whatever happens in
/// between — is refused and moves nothing.
pub proof fn lemma_at_most_one_slot_per_holder(
    states: Seq<Seq<SlotM>>,
    ids: Seq<int>,
    hs: Seq<Seq<u8>>,
    k1: int,
    k2: int,
)
    requires
        serialized_run(states, ids, hs),
        0 <= k1 < k2 < ids.len(),
        hs[k1] == hs[k2],
        claim_granted(states[k1], states[k1 + 1], ids[k1], hs[k1]),
    ensures
        !claim_granted(states[k2], states[k2 + 1], ids[k2], hs[k2]),
        states[k2 + 1] == states[k2],
        hs[k2].len() > 0 && slot_free(states[k2], ids[k2]) ==> claim_denied(
            states[k2],
            ids[k2],
            hs[k2],
        ) == Some(ClaimError::HolderAlreadyHasSlot),
{
    lemma_grant_encumbers_holder(states[k1], states[k1 + 1], ids[k1], hs[k1]);
    lemma_run_keeps_holder_occupied(states, ids, hs, hs[k1], k1 + 1, k2);
}

} // verus!
