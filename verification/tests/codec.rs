use drawcore::codec::{decode, encode, ProtocolError};
use drawcore::event::{CanvasDims, DrawEvent, Point};

fn dims() -> CanvasDims {
    CanvasDims { width: 640, height: 480 }
}

#[test]
fn decode_even_identity_scenario() {
    // "<User#92>: 10,-30,true" on a 640x480 canvas: identity 92, point
    // recentered to (330,210), pressed.
    let r = decode(b"<User#92>: 10,-30,true", dims());
    let (id, ev) = r.expect("valid message must decode");
    assert_eq!(id, 92);
    assert_eq!(ev.position.x.millis, 330_000);
    assert_eq!(ev.position.y.millis, 210_000);
    assert!(ev.pressed);
}

#[test]
fn decode_fractional_coordinates() {
    let r = decode(b"<User#3>: 0.5,-0.25,false", dims());
    let (id, ev) = r.expect("valid message must decode");
    assert_eq!(id, 3);
    assert_eq!(ev.position.x.millis, 320_500);
    assert_eq!(ev.position.y.millis, 239_750);
    assert!(!ev.pressed);
}

#[test]
fn decode_keeps_digits_only_from_label() {
    let r = decode(b"<User#092>: 0,0,false", dims());
    let (id, _) = r.expect("valid message must decode");
    assert_eq!(id, 92);
}

#[test]
fn decode_garbage_is_malformed() {
    assert_eq!(decode(b"garbage", dims()), Err(ProtocolError::Malformed));
}

#[test]
fn decode_empty_is_malformed() {
    assert_eq!(decode(b"", dims()), Err(ProtocolError::Malformed));
}

#[test]
fn decode_missing_field_is_malformed() {
    assert_eq!(decode(b"<User#1>: 1,2", dims()), Err(ProtocolError::Malformed));
}

#[test]
fn decode_extra_field_is_malformed() {
    assert_eq!(decode(b"<User#1>: 1,2,true,9", dims()), Err(ProtocolError::Malformed));
}

#[test]
fn decode_missing_space_after_colon_is_malformed() {
    assert_eq!(decode(b"<User#1>:1,2,true", dims()), Err(ProtocolError::Malformed));
}

#[test]
fn decode_label_without_digits_is_bad_user_id() {
    assert_eq!(decode(b"<User#x>: 1,2,true", dims()), Err(ProtocolError::BadUserId));
}

#[test]
fn decode_oversized_id_is_bad_user_id() {
    assert_eq!(decode(b"<User#99999999999>: 1,2,true", dims()), Err(ProtocolError::BadUserId));
}

#[test]
fn decode_non_numeric_coordinate_is_bad_field() {
    assert_eq!(decode(b"<User#1>: a,2,true", dims()), Err(ProtocolError::BadField));
}

#[test]
fn decode_uppercase_bool_is_bad_field() {
    assert_eq!(decode(b"<User#1>: 1,2,TRUE", dims()), Err(ProtocolError::BadField));
}

#[test]
fn decode_four_fraction_digits_is_bad_field() {
    assert_eq!(decode(b"<User#1>: 1.2345,2,true", dims()), Err(ProtocolError::BadField));
}

#[test]
fn decode_is_idempotent() {
    let raw: &[u8] = b"<User#14>: 391,-46,false";
    let first = decode(raw, dims());
    let second = decode(raw, dims());
    assert!(first.is_ok());
    assert_eq!(first, second);
}

#[test]
fn encode_whole_pixels() {
    let e = DrawEvent { position: Point::from_pixels(10, -30), pressed: true };
    assert_eq!(encode(&e), b"10,-30,true".to_vec());
}

#[test]
fn encode_released_flag() {
    let e = DrawEvent { position: Point::from_pixels(0, 7), pressed: false };
    assert_eq!(encode(&e), b"0,7,false".to_vec());
}

#[test]
fn encode_fractional_millis() {
    let mut e = DrawEvent { position: Point::from_pixels(10, 0), pressed: false };
    e.position.x.millis = 10_500;
    e.position.y.millis = -500;
    assert_eq!(encode(&e), b"10.500,-0.500,false".to_vec());
}

#[test]
fn encode_then_decode_round_trips() {
    // A peer's sample leaves in wire coordinates; prefixed by the relay it
    // comes back as the same point on an equal canvas.
    let surface = Point::from_pixels(330, 210);
    let wire = Point::from_pixels(330 - 320, 210 - 240);
    let sent = encode(&DrawEvent { position: wire, pressed: true });
    let mut relayed: Vec<u8> = b"<User#7>: ".to_vec();
    relayed.extend_from_slice(&sent);
    let (id, ev) = decode(&relayed, dims()).expect("relayed message must decode");
    assert_eq!(id, 7);
    assert_eq!(ev.position, surface);
    assert!(ev.pressed);
}
