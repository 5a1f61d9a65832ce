use timeslots::store::ReservationStore;
use timeslots::types::ClaimError;
use timeslots::types::ClaimEvent;

fn store_with(slots: &[(i32, i64, i64)]) -> ReservationStore {
    let mut s = ReservationStore::new();
    for &(id, start, end) in slots {
        s.add_slot(id, start, end);
    }
    s
}

fn refusal(r: Result<ClaimEvent, ClaimError>) -> ClaimError {
    match r {
        Ok(_) => panic!("expected a refusal"),
        Err(e) => e,
    }
}

fn granted(r: Result<ClaimEvent, ClaimError>) -> ClaimEvent {
    match r {
        Ok(ev) => ev,
        Err(e) => panic!("expected a granted claim, got {:?}", e),
    }
}

#[test]
fn claim_free_slot_succeeds_with_event() {
    let mut s = store_with(&[(1, 0, 3600)]);
    let ev = granted(s.claim(1, b"a@b".to_vec()));
    assert_eq!(ev.slot_id, 1);
    assert_eq!(ev.holder, b"a@b".to_vec());
}

#[test]
fn empty_identity_is_rejected_and_changes_nothing() {
    let mut s = store_with(&[(1, 0, 3600)]);
    assert_eq!(refusal(s.claim(1, Vec::new())), ClaimError::EmptyIdentity);
    let slots = s.list_all();
    assert_eq!(slots.len(), 1);
    assert!(slots[0].holder.is_none());
}

#[test]
fn race_on_one_slot_then_second_slot_by_winner() {
    let mut s = store_with(&[(1, 0, 3600), (2, 3600, 7200)]);
    granted(s.claim(1, b"x".to_vec()));
    assert_eq!(refusal(s.claim(1, b"y".to_vec())), ClaimError::AlreadyOccupied);
    assert_eq!(refusal(s.claim(2, b"x".to_vec())), ClaimError::HolderAlreadyHasSlot);
}

#[test]
fn claim_of_unknown_slot_is_a_conflict() {
    let mut s = store_with(&[(1, 0, 3600)]);
    assert_eq!(refusal(s.claim(99, b"x".to_vec())), ClaimError::AlreadyOccupied);
}

#[test]
fn reclaiming_by_the_same_holder_is_a_conflict() {
    let mut s = store_with(&[(1, 0, 3600)]);
    granted(s.claim(1, b"x".to_vec()));
    assert_eq!(refusal(s.claim(1, b"x".to_vec())), ClaimError::AlreadyOccupied);
}

#[test]
fn fifty_claimants_one_slot_exactly_one_wins() {
    let mut s = store_with(&[(7, 0, 3600)]);
    let mut successes = 0;
    let mut conflicts = 0;
    let mut winner: Option<Vec<u8>> = None;
    for k in 0..50 {
        let holder = format!("claimant-{:02}", k).into_bytes();
        match s.claim(7, holder.clone()) {
            Ok(ev) => {
                successes += 1;
                assert_eq!(ev.slot_id, 7);
                winner = Some(holder);
            }
            Err(e) => {
                conflicts += 1;
                assert_eq!(e, ClaimError::AlreadyOccupied);
            }
        }
    }
    assert_eq!(successes, 1);
    assert_eq!(conflicts, 49);
    let stored = s.list_all()[0].holder.clone();
    assert_eq!(stored, winner);
}

#[test]
fn find_by_holder_returns_exactly_the_claimed_slot() {
    let mut s = store_with(&[(1, 0, 3600), (2, 3600, 7200)]);
    granted(s.claim(2, b"who".to_vec()));
    let found = s.find_by_holder(&b"who".to_vec()).expect("holder has a slot");
    assert_eq!(found.id, 2);
    assert_eq!(found.start_time, 3600);
    assert_eq!(found.end_time, 7200);
    assert_eq!(found.holder, Some(b"who".to_vec()));
    let listed: Vec<i32> =
        s.list_all().iter().filter(|sl| sl.holder.is_some()).map(|sl| sl.id).collect();
    assert_eq!(listed, vec![2]);
}

#[test]
fn find_by_holder_is_none_for_unknown_identity() {
    let mut s = store_with(&[(1, 0, 3600)]);
    granted(s.claim(1, b"x".to_vec()));
    assert!(s.find_by_holder(&b"y".to_vec()).is_none());
}

#[test]
fn list_all_keeps_storage_order() {
    let s = store_with(&[(3, 0, 1), (1, 1, 2), (2, 2, 3)]);
    let ids: Vec<i32> = s.list_all().iter().map(|sl| sl.id).collect();
    assert_eq!(ids, vec![3, 1, 2]);
}
