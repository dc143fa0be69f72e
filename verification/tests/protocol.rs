use next_tablet_driver::protocol::{
    byte_to_mode, handle_request, mode_to_byte, ActiveArea, DriverMode, HandlerCall, Request,
    Response,
};

fn area(x: f32, y: f32, w: f32, h: f32, rotation: f32) -> ActiveArea {
    ActiveArea {
        x: x.to_bits(),
        y: y.to_bits(),
        w: w.to_bits(),
        h: h.to_bits(),
        rotation: rotation.to_bits(),
    }
}

fn round_trip_requests() {
    let requests = [
        Request::Ping,
        Request::SetMode(DriverMode::Relative),
        Request::SetActiveArea(area(1.0, 2.0, 3.0, 4.0, 5.0)),
    ];
    for request in requests {
        assert_eq!(Request::decode(request.encode()), Some(request));
    }
}

fn round_trip_responses() {
    for response in [Response::Accepted, Response::Rejected] {
        assert_eq!(Response::decode(response.encode()), Some(response));
    }
}

#[test]
fn command_request_round_trips_through_encode_decode() {
    round_trip_requests();
}

#[test]
fn command_response_round_trips_through_encode_decode() {
    round_trip_responses();
}

#[test]
fn protocol_request_round_trips_through_encode_decode() {
    round_trip_requests();
}

#[test]
fn protocol_response_round_trips_through_encode_decode() {
    round_trip_responses();
}

#[test]
fn request_encoding_is_little_endian_with_padding() {
    let bytes = Request::SetActiveArea(area(1.0, 0.0, 0.0, 0.0, 90.0)).encode();
    assert_eq!(bytes[0], 2);
    assert_eq!(bytes[1], 0);
    assert_eq!(&bytes[2..4], &[0, 0]);
    assert_eq!(&bytes[4..8], &1.0f32.to_le_bytes());
    assert_eq!(&bytes[20..24], &90.0f32.to_le_bytes());

    let mode = Request::SetMode(DriverMode::Relative).encode();
    let mut expected = [0u8; 24];
    expected[0] = 1;
    expected[1] = 1;
    assert_eq!(mode, expected);
    assert_eq!(Request::Ping.encode(), [0u8; 24]);
}

#[test]
fn request_round_trip_keeps_odd_float_bit_patterns() {
    let a = ActiveArea { x: 0x7fc0_0001, y: 0x8000_0000, w: u32::MAX, h: 1, rotation: 0xdead_beef };
    let r = Request::SetActiveArea(a);
    assert_eq!(Request::decode(r.encode()), Some(r));
}

#[test]
fn decode_rejects_unknown_tag_and_mode() {
    let mut buf = [0u8; 24];
    buf[0] = 3;
    assert_eq!(Request::decode(buf), None);
    buf[0] = 1;
    buf[1] = 2;
    assert_eq!(Request::decode(buf), None);
    buf[1] = 0;
    assert_eq!(Request::decode(buf), Some(Request::SetMode(DriverMode::Absolute)));
}

#[test]
fn decode_ignores_padding_and_unused_area() {
    let mut buf = [0xffu8; 24];
    buf[0] = 0;
    assert_eq!(Request::decode(buf), Some(Request::Ping));
    buf[0] = 1;
    buf[1] = 1;
    assert_eq!(Request::decode(buf), Some(Request::SetMode(DriverMode::Relative)));
}

#[test]
fn response_decode_rejects_other_bytes() {
    assert_eq!(Response::decode([0]), Some(Response::Accepted));
    assert_eq!(Response::decode([1]), Some(Response::Rejected));
    assert_eq!(Response::decode([2]), None);
    assert_eq!(Response::decode([255]), None);
    assert_eq!(Response::Accepted.encode(), [0]);
    assert_eq!(Response::Rejected.encode(), [1]);
}

#[test]
fn mode_bytes() {
    assert_eq!(mode_to_byte(DriverMode::Absolute), 0);
    assert_eq!(mode_to_byte(DriverMode::Relative), 1);
    assert_eq!(byte_to_mode(0), Some(DriverMode::Absolute));
    assert_eq!(byte_to_mode(1), Some(DriverMode::Relative));
    assert_eq!(byte_to_mode(7), None);
}

#[test]
fn owner_applies_what_readers_send() {
    let a = area(10.0, 20.0, 30.0, 40.0, 90.0);
    assert_eq!(handle_request(Request::Ping.encode()), (Response::Accepted, None));
    assert_eq!(
        handle_request(Request::SetMode(DriverMode::Relative).encode()),
        (Response::Accepted, Some(HandlerCall::SetMode(DriverMode::Relative)))
    );
    assert_eq!(
        handle_request(Request::SetActiveArea(a).encode()),
        (Response::Accepted, Some(HandlerCall::SetActiveArea(a)))
    );
    let mut bad = [0u8; 24];
    bad[0] = 9;
    assert_eq!(handle_request(bad), (Response::Rejected, None));
}
