use timeslots::hub::NotificationHub;
use timeslots::types::ClaimEvent;

fn ev(slot_id: i32, holder: &[u8]) -> ClaimEvent {
    ClaimEvent { slot_id, holder: holder.to_vec() }
}

#[test]
fn observer_receives_two_claims_in_commit_order() {
    let mut hub = NotificationHub::new(100);
    let h = hub.subscribe();
    hub.publish(&ev(1, b"x"));
    hub.publish(&ev(2, b"y"));
    let first = hub.poll(h).expect("first event");
    assert_eq!(first.slot_id, 1);
    assert_eq!(first.holder, b"x".to_vec());
    let second = hub.poll(h).expect("second event");
    assert_eq!(second.slot_id, 2);
    assert_eq!(second.holder, b"y".to_vec());
    assert!(hub.poll(h).is_none());
}

#[test]
fn late_subscriber_sees_nothing_retroactively() {
    let mut hub = NotificationHub::new(100);
    hub.publish(&ev(1, b"x"));
    let h = hub.subscribe();
    assert!(hub.poll(h).is_none());
}

#[test]
fn every_connected_observer_gets_the_event_exactly_once() {
    let mut hub = NotificationHub::new(100);
    let a = hub.subscribe();
    let b = hub.subscribe();
    hub.publish(&ev(5, b"z"));
    let got_a = hub.poll(a).expect("observer a");
    let got_b = hub.poll(b).expect("observer b");
    assert_eq!(got_a.slot_id, 5);
    assert_eq!(got_b.slot_id, 5);
    assert!(hub.poll(a).is_none());
    assert!(hub.poll(b).is_none());
}

#[test]
fn full_buffer_sheds_oldest_and_never_blocks_the_publisher() {
    let mut hub = NotificationHub::new(2);
    let h = hub.subscribe();
    hub.publish(&ev(1, b"a"));
    hub.publish(&ev(2, b"b"));
    hub.publish(&ev(3, b"c"));
    assert_eq!(hub.poll(h).expect("kept").slot_id, 2);
    assert_eq!(hub.poll(h).expect("kept").slot_id, 3);
    assert!(hub.poll(h).is_none());
}

#[test]
fn unsubscribed_observer_is_gone() {
    let mut hub = NotificationHub::new(100);
    let h = hub.subscribe();
    hub.publish(&ev(1, b"a"));
    hub.unsubscribe(h);
    hub.publish(&ev(2, b"b"));
    assert!(hub.poll(h).is_none());
}

#[test]
fn distinct_observers_get_distinct_handles() {
    let mut hub = NotificationHub::new(100);
    let a = hub.subscribe();
    let b = hub.subscribe();
    assert_ne!(a, b);
}

#[test]
fn poll_on_unknown_handle_is_none() {
    let mut hub = NotificationHub::new(100);
    assert!(hub.poll(42).is_none());
}
