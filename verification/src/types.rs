//! The data the core works on: slots, claim events, and the claim outcomes.
//!
//! Holder identities travel as byte strings (`Vec<u8>`), so every contract can
//! speak of them as plain `Seq<u8>` values.

use vstd::prelude::*;

verus! {

/// Mathematical image of a slot: id, time window, and holder.
#[verifier::ext_equal]
pub ghost struct SlotM {
    pub id: int,
    pub start_time: int,
    pub end_time: int,
    pub holder: Option<Seq<u8>>,
}

/// A bookable time window. `holder` is `None` while the slot is free and
/// holds the claiming identity once the slot is occupied; a claim is never
/// undone. Timestamps are seconds since the Unix epoch.
pub struct Slot {
    pub id: i32,
    pub start_time: i64,
    pub end_time: i64,
    pub holder: Option<Vec<u8>>,
}

impl View for Slot {
    type V = SlotM;

    open spec fn view(&self) -> SlotM {
        SlotM {
            id: self.id as int,
            start_time: self.start_time as int,
            end_time: self.end_time as int,
            holder: match self.holder {
                Option::Some(h) => Option::Some(h@),
                Option::None => Option::None,
            },
        }
    }
}

/// Mathematical image of a claim event.
#[verifier::ext_equal]
pub ghost struct EventM {
    pub slot_id: int,
    pub holder: Seq<u8>,
}

/// The record of one successful claim: which slot, and by whom. Created
/// exactly once per successful claim and handed to the notification hub.
pub struct ClaimEvent {
    pub slot_id: i32,
    pub holder: Vec<u8>,
}

impl View for ClaimEvent {
    type V = EventM;

    open spec fn view(&self) -> EventM {
        EventM { slot_id: self.slot_id as int, holder: self.holder@ }
    }
}

/// Why a claim did not go through. Each variant is a distinct outcome the
/// caller must be able to tell apart.
#[derive(Clone, Copy, PartialEq, Eq, Structural, Debug)]
pub enum ClaimError {
    /// The identity was empty; storage is never consulted for such a request.
    EmptyIdentity,
    /// The conditional write matched no row: the slot was already held.
    AlreadyOccupied,
    /// The store's uniqueness constraint fired: this identity already holds a
    /// different slot.
    HolderAlreadyHasSlot,
    /// Any other storage-level failure; the caller may retry, the core does not.
    StorageUnavailable,
}

/// Copies a byte string; both the copy and the original denote the same
/// sequence of bytes.
pub fn clone_bytes(v: &Vec<u8>) -> (r: Vec<u8>)
    ensures
        r@ == v@,
{
    let r = v.clone();
    proof {
        assert forall|i: int| 0 <= i < v@.len() implies r@[i] == v@[i] by {
            assert(cloned::<u8>(v[i], r[i]));
        }
        assert(r@ =~= v@);
    }
    r
}

/// Byte-string equality, stated over the views.
pub fn bytes_eq(a: &Vec<u8>, b: &Vec<u8>) -> (r: bool)
    ensures
        r <==> a@ == b@,
{
    if a.len() != b.len() {
        proof {
            assert(a@.len() != b@.len());
        }
        return false;
    }
    let mut i: usize = 0;
    while i < a.len()
        invariant
            i <= a@.len(),
            a@.len() == b@.len(),
            forall|j: int| 0 <= j < i ==> a@[j] == b@[j],
        decreases a@.len() - i,
    {
        if a[i] != b[i] {
            return false;
        }
        i = i + 1;
    }
    proof {
        assert(a@ =~= b@);
    }
    true
}

impl ClaimEvent {
    /// A copy of the event, denoting the same (slot, holder) pair.
    pub fn duplicate(&self) -> (r: ClaimEvent)
        ensures
            r@ == self@,
    {
        ClaimEvent { slot_id: self.slot_id, holder: clone_bytes(&self.holder) }
    }
}

impl Slot {
    /// A copy of the slot, denoting the same model value.
    pub fn duplicate(&self) -> (r: Slot)
        ensures
            r@ == self@,
    {
        let holder = match &self.holder {
            Option::Some(h) => Option::Some(clone_bytes(h)),
            Option::None => Option::None,
        };
        Slot { id: self.id, start_time: self.start_time, end_time: self.end_time, holder }
    }
}

} // verus!
