use timeslots::codec::event_json;
use timeslots::codec::format_i32;
use timeslots::types::ClaimEvent;

fn message(slot_id: i32, holder: &[u8]) -> String {
    let e = ClaimEvent { slot_id, holder: holder.to_vec() };
    String::from_utf8(event_json(&e)).expect("the message is valid UTF-8")
}

#[test]
fn plain_event_encodes_as_the_wire_message() {
    assert_eq!(message(42, b"a@b"), r#"{"type":"OccupiedEvent","id":42,"email":"a@b"}"#);
}

#[test]
fn negative_and_zero_ids_encode_in_decimal() {
    assert_eq!(message(0, b"x"), r#"{"type":"OccupiedEvent","id":0,"email":"x"}"#);
    assert_eq!(message(-7, b"x"), r#"{"type":"OccupiedEvent","id":-7,"email":"x"}"#);
}

#[test]
fn quotes_and_backslashes_in_the_identity_are_escaped() {
    assert_eq!(
        message(1, b"a\"b\\c"),
        r#"{"type":"OccupiedEvent","id":1,"email":"a\"b\\c"}"#
    );
}

#[test]
fn control_bytes_become_lowercase_hex_escapes() {
    assert_eq!(
        message(1, b"a\nb\tc\x1f"),
        r#"{"type":"OccupiedEvent","id":1,"email":"a\u000ab\u0009c\u001f"}"#
    );
}

#[test]
fn multibyte_identities_pass_through_unchanged() {
    assert_eq!(
        message(1, "odmiana-łódź@ę".as_bytes()),
        r#"{"type":"OccupiedEvent","id":1,"email":"odmiana-łódź@ę"}"#
    );
}

#[test]
fn decimal_formatting_covers_the_whole_id_range() {
    assert_eq!(format_i32(0), b"0".to_vec());
    assert_eq!(format_i32(9), b"9".to_vec());
    assert_eq!(format_i32(10), b"10".to_vec());
    assert_eq!(format_i32(-1), b"-1".to_vec());
    assert_eq!(format_i32(i32::MAX), b"2147483647".to_vec());
    assert_eq!(format_i32(i32::MIN), b"-2147483648".to_vec());
}
