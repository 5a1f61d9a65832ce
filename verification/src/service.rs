//! The claim path's decisions, separated from the transport that carries
//! them: the empty-identity check, the reading of a backing store's answer to
//! the one conditional write, the mapping of each outcome to what the caller
//! sees, and the hand-off of a granted claim to the notification hub.
//!
//! A deployment whose slots live in an external transactional store issues
//! the conditional write itself and reports what happened as a
//! `StoreWriteStatus`; every decision around that write is made here.

use vstd::prelude::*;

use crate::hub::NotificationHub;
use crate::hub::fanout_step;
use crate::store::ReservationStore;
use crate::store::claim_denied;
use crate::store::claim_granted;
use crate::types::ClaimError;
use crate::types::ClaimEvent;
use crate::types::EventM;

verus! {

/// What the backing store answered to the single conditional write
/// "occupy this slot if it is free".
#[derive(Clone, Copy, PartialEq, Eq, Structural, Debug)]
pub enum StoreWriteStatus {
    /// Exactly one row changed: the slot was free and is now held.
    RowChanged,
    /// No row changed: no free slot with that id existed.
    NoRowChanged,
    /// The store's uniqueness constraint on holders rejected the write.
    UniqueHolderViolation,
    /// Any other storage-level failure.
    Failed,
}

/// Whether a claim request may proceed to storage: only a non-empty identity
/// does — an empty one is turned away before storage is touched.
pub fn identity_admissible(holder: &Vec<u8>) -> (r: bool)
    ensures
        r <==> holder@.len() > 0,
{
    holder.len() > 0
}

/// The refusal each non-success write status is surfaced as.
pub open spec fn status_error(status: StoreWriteStatus) -> ClaimError {
    match status {
        StoreWriteStatus::RowChanged => ClaimError::StorageUnavailable,
        StoreWriteStatus::NoRowChanged => ClaimError::AlreadyOccupied,
        StoreWriteStatus::UniqueHolderViolation => ClaimError::HolderAlreadyHasSlot,
        StoreWriteStatus::Failed => ClaimError::StorageUnavailable,
    }
}

/// Turns the store's answer into the claim's outcome: a changed row is the
/// granted claim with its event; anything else is the matching refusal,
/// which — the identity being non-empty here — is never `EmptyIdentity`.
pub fn conclude_claim(slot_id: i32, holder: Vec<u8>, status: StoreWriteStatus) -> (r: Result<
    ClaimEvent,
    ClaimError,
>)
    requires
        holder@.len() > 0,
    ensures
        match r {
            Ok(ev) => status == StoreWriteStatus::RowChanged && ev@ == (EventM {
                slot_id: slot_id as int,
                holder: holder@,
            }),
            Err(e) => status != StoreWriteStatus::RowChanged && e == status_error(status) && e
                != ClaimError::EmptyIdentity,
        },
{
    match status {
        StoreWriteStatus::RowChanged => Ok(ClaimEvent { slot_id, holder }),
        StoreWriteStatus::NoRowChanged => Err(ClaimError::AlreadyOccupied),
        StoreWriteStatus::UniqueHolderViolation => Err(ClaimError::HolderAlreadyHasSlot),
        StoreWriteStatus::Failed => Err(ClaimError::StorageUnavailable),
    }
}

/// The SQLSTATE a transactional store reports for a unique-constraint
/// violation: `23505`.
pub open spec fn unique_violation_sqlstate() -> Seq<u8> {
    seq![50u8, 51, 53, 48, 53]
}

/// Sorts a failed write by the SQLSTATE the driver reported, if any: exactly
/// the unique-violation code means the holder already has a slot; everything
/// else is a generic storage failure.
pub fn classify_storage_error(sqlstate: &Option<Vec<u8>>) -> (r: StoreWriteStatus)
    ensures
        r == StoreWriteStatus::UniqueHolderViolation <==> (sqlstate matches Some(c) && c@
            == unique_violation_sqlstate()),
        r == StoreWriteStatus::UniqueHolderViolation || r == StoreWriteStatus::Failed,
{
    match sqlstate {
        Some(code) => {
            let mut pattern: Vec<u8> = Vec::new();
            pattern.push(50);
            pattern.push(51);
            pattern.push(53);
            pattern.push(48);
            pattern.push(53);
            proof {
                assert(pattern@ =~= unique_violation_sqlstate());
            }
            if crate::types::bytes_eq(code, &pattern) {
                StoreWriteStatus::UniqueHolderViolation
            } else {
                StoreWriteStatus::Failed
            }
        },
        None => StoreWriteStatus::Failed,
    }
}

/// The HTTP status each claim outcome is surfaced with: success is 200, the
/// two expected conflicts are 409, and both the rejected input and a generic
/// storage failure are 400.
pub open spec fn spec_http_status(e: ClaimError) -> u16 {
    match e {
        ClaimError::EmptyIdentity => 400,
        ClaimError::AlreadyOccupied => 409,
        ClaimError::HolderAlreadyHasSlot => 409,
        ClaimError::StorageUnavailable => 400,
    }
}

/// The HTTP status for a refusal.
pub fn http_status(e: &ClaimError) -> (s: u16)
    ensures
        s == spec_http_status(*e),
{
    match e {
        ClaimError::EmptyIdentity => 400,
        ClaimError::AlreadyOccupied => 409,
        ClaimError::HolderAlreadyHasSlot => 409,
        ClaimError::StorageUnavailable => 400,
    }
}

/// The fixed message for each refusal the core itself words; a storage
/// failure carries the store's own text instead, so it has none here.
pub fn error_message(e: &ClaimError) -> (m: Option<&'static str>)
    ensures
        match e {
            ClaimError::EmptyIdentity => m matches Some(s) && s@ == "Email cannot be empty"@,
            ClaimError::AlreadyOccupied => m matches Some(s) && s@ == "Timeslot already occupied"@,
            ClaimError::HolderAlreadyHasSlot => m matches Some(s) && s@
                == "User already has a timeslot"@,
            ClaimError::StorageUnavailable => m is None,
        },
{
    match e {
        ClaimError::EmptyIdentity => Some("Email cannot be empty"),
        ClaimError::AlreadyOccupied => Some("Timeslot already occupied"),
        ClaimError::HolderAlreadyHasSlot => Some("User already has a timeslot"),
        ClaimError::StorageUnavailable => None,
    }
}

/// The name under which the live feed labels each message.
pub fn event_stream_name() -> (r: &'static str)
    ensures
        r@ == "timeslot_occupied"@,
{
    "timeslot_occupied"
}

/// The whole claim path against the in-crate store: the claim enters the
/// store, and exactly when it is granted, its event is handed to the hub,
/// which fans it out to every observer connected at that moment. A refusal
/// leaves both the store and the hub untouched; delivery never affects the
/// claim's outcome.
pub fn claim_and_notify(
    store: &mut ReservationStore,
    hub: &mut NotificationHub,
    slot_id: i32,
    holder: Vec<u8>,
) -> (r: Result<ClaimEvent, ClaimError>)
    requires
        old(store).wf(),
        old(hub).wf(),
    ensures
        final(store).wf(),
        final(hub).wf(),
        final(hub).spec_capacity() == old(hub).spec_capacity(),
        match r {
            Ok(ev) => claim_granted(old(store)@, final(store)@, slot_id as int, holder@) && ev@
                == (EventM { slot_id: slot_id as int, holder: holder@ }) && fanout_step(
                old(hub)@,
                final(hub)@,
                ev@,
                old(hub).spec_capacity(),
            ),
            Err(e) => Some(e) == claim_denied(old(store)@, slot_id as int, holder@)
                && final(store)@ == old(store)@ && final(hub)@ == old(hub)@,
        },
{
    match store.claim(slot_id, holder) {
        Ok(ev) => {
            hub.publish(&ev);
            Ok(ev)
        },
        Err(e) => Err(e),
    }
}

} // verus!
