use timeslots::hub::NotificationHub;
use timeslots::service::StoreWriteStatus;
use timeslots::service::claim_and_notify;
use timeslots::service::classify_storage_error;
use timeslots::service::conclude_claim;
use timeslots::service::error_message;
use timeslots::service::event_stream_name;
use timeslots::service::http_status;
use timeslots::service::identity_admissible;
use timeslots::store::ReservationStore;
use timeslots::types::ClaimError;

#[test]
fn identity_check_rejects_only_the_empty_identity() {
    assert!(!identity_admissible(&Vec::new()));
    assert!(identity_admissible(&b"a@b".to_vec()));
}

#[test]
fn changed_row_concludes_in_the_event() {
    match conclude_claim(3, b"x".to_vec(), StoreWriteStatus::RowChanged) {
        Ok(ev) => {
            assert_eq!(ev.slot_id, 3);
            assert_eq!(ev.holder, b"x".to_vec());
        }
        Err(_) => panic!("a changed row is a granted claim"),
    }
}

#[test]
fn unchanged_row_concludes_in_already_occupied() {
    match conclude_claim(3, b"x".to_vec(), StoreWriteStatus::NoRowChanged) {
        Ok(_) => panic!("expected a refusal"),
        Err(e) => assert_eq!(e, ClaimError::AlreadyOccupied),
    }
}

#[test]
fn unique_violation_concludes_in_holder_already_has_slot() {
    match conclude_claim(3, b"x".to_vec(), StoreWriteStatus::UniqueHolderViolation) {
        Ok(_) => panic!("expected a refusal"),
        Err(e) => assert_eq!(e, ClaimError::HolderAlreadyHasSlot),
    }
}

#[test]
fn other_failure_concludes_in_storage_unavailable() {
    match conclude_claim(3, b"x".to_vec(), StoreWriteStatus::Failed) {
        Ok(_) => panic!("expected a refusal"),
        Err(e) => assert_eq!(e, ClaimError::StorageUnavailable),
    }
}

#[test]
fn sqlstate_23505_is_the_unique_holder_violation() {
    let r = classify_storage_error(&Some(b"23505".to_vec()));
    assert_eq!(r, StoreWriteStatus::UniqueHolderViolation);
}

#[test]
fn other_sqlstates_are_generic_failures() {
    assert_eq!(classify_storage_error(&Some(b"40001".to_vec())), StoreWriteStatus::Failed);
    assert_eq!(classify_storage_error(&Some(b"23503".to_vec())), StoreWriteStatus::Failed);
    assert_eq!(classify_storage_error(&None), StoreWriteStatus::Failed);
}

#[test]
fn refusals_map_to_their_statuses_and_messages() {
    assert_eq!(http_status(&ClaimError::EmptyIdentity), 400);
    assert_eq!(http_status(&ClaimError::AlreadyOccupied), 409);
    assert_eq!(http_status(&ClaimError::HolderAlreadyHasSlot), 409);
    assert_eq!(http_status(&ClaimError::StorageUnavailable), 400);
    assert_eq!(error_message(&ClaimError::EmptyIdentity), Some("Email cannot be empty"));
    assert_eq!(error_message(&ClaimError::AlreadyOccupied), Some("Timeslot already occupied"));
    assert_eq!(
        error_message(&ClaimError::HolderAlreadyHasSlot),
        Some("User already has a timeslot")
    );
    assert_eq!(error_message(&ClaimError::StorageUnavailable), None);
}

#[test]
fn live_feed_label_matches_the_wire_protocol() {
    assert_eq!(event_stream_name(), "timeslot_occupied");
}

#[test]
fn granted_claim_is_fanned_out_to_connected_observers() {
    let mut store = ReservationStore::new();
    store.add_slot(1, 0, 3600);
    let mut hub = NotificationHub::new(100);
    let h = hub.subscribe();
    let r = claim_and_notify(&mut store, &mut hub, 1, b"x".to_vec());
    assert!(r.is_ok());
    let got = hub.poll(h).expect("the claim's event");
    assert_eq!(got.slot_id, 1);
    assert_eq!(got.holder, b"x".to_vec());
    assert!(hub.poll(h).is_none());
}

#[test]
fn refused_claim_notifies_nobody() {
    let mut store = ReservationStore::new();
    store.add_slot(1, 0, 3600);
    let mut hub = NotificationHub::new(100);
    let h = hub.subscribe();
    claim_and_notify(&mut store, &mut hub, 1, b"x".to_vec()).expect("first claim");
    hub.poll(h).expect("first event");
    let again = claim_and_notify(&mut store, &mut hub, 1, b"y".to_vec());
    assert_eq!(again.err(), Some(ClaimError::AlreadyOccupied));
    assert!(hub.poll(h).is_none());
}
