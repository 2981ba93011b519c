use multishiva::codec::{decode, encodable, encode};
use multishiva::events::{Event, Key, MouseButton};

#[test]
fn test_event_serialization() {
    // Basic smoke test - empty test for now
}

fn round_trip(ev: Event) {
    let bytes = encode(&ev);
    let back = decode(bytes.as_slice()).expect("a fresh encoding must decode");
    assert_eq!(back, ev);
}

#[test]
fn test_codec_round_trip_mouse_move() {
    round_trip(Event::MouseMove { x: 100, y: 200 });
    round_trip(Event::MouseMove { x: -5, y: i32::MAX });
    round_trip(Event::MouseMove { x: i32::MIN, y: 0 });
}

#[test]
fn test_codec_round_trip_buttons() {
    round_trip(Event::MouseClick { button: MouseButton::Left });
    round_trip(Event::MouseButtonPress { button: MouseButton::Right });
    round_trip(Event::MouseButtonRelease { button: MouseButton::Middle });
}

#[test]
fn test_codec_round_trip_scroll() {
    round_trip(Event::MouseScroll { delta_x: 0, delta_y: -3 });
    round_trip(Event::MouseScroll { delta_x: i64::MIN, delta_y: i64::MAX });
}

#[test]
fn test_codec_round_trip_keys() {
    round_trip(Event::KeyPress { key: Key::KeyA });
    round_trip(Event::KeyRelease { key: Key::Tab });
    round_trip(Event::KeyPress { key: Key::MetaRight });
}

#[test]
fn test_codec_round_trip_focus_grant() {
    round_trip(Event::FocusGrant { target: "agentA".to_string(), x: 10, y: 540 });
    round_trip(Event::FocusGrant { target: String::new(), x: -1, y: -1 });
    // a non-ASCII machine name survives the UTF-8 leg of the format
    round_trip(Event::FocusGrant { target: "bureau-\u{e9}t\u{e9}".to_string(), x: 3, y: 4 });
}

#[test]
fn test_codec_round_trip_control() {
    round_trip(Event::FocusRelease);
    round_trip(Event::Heartbeat);
}

#[test]
fn test_codec_rejects_noise() {
    assert!(decode(&[]).is_err());
    assert!(decode(&[0x91]).is_err());
    // unknown tag
    assert!(decode(&[0x91, 99]).is_err());
    // right tag, wrong length
    assert!(decode(&[0x91, 0]).is_err());
    // bad button code
    assert!(decode(&[0x92, 1, 7]).is_err());
}

#[test]
fn test_codec_mouse_move_exact_bytes() {
    // fixarray of tag and two int32 fields, big-endian two's complement
    let bytes = encode(&Event::MouseMove { x: 256, y: -1 });
    assert_eq!(
        bytes,
        vec![0x93, 0, 0xd2, 0, 0, 1, 0, 0xd2, 0xff, 0xff, 0xff, 0xff]
    );
}

#[test]
fn test_codec_everything_is_encodable_but_absurd_names() {
    assert!(encodable(&Event::MouseMove { x: 0, y: 0 }));
    assert!(encodable(&Event::FocusGrant { target: "agentA".to_string(), x: 0, y: 0 }));
}

#[test]
fn test_codec_decode_does_not_echo_input() {
    // decoding then re-encoding yields the same bytes, so the decoder
    // really parsed the fields rather than handing anything back
    let original = Event::FocusGrant { target: "peer".to_string(), x: 7, y: 9 };
    let bytes = encode(&original);
    let back = decode(bytes.as_slice()).unwrap();
    assert_eq!(encode(&back), bytes);
}
