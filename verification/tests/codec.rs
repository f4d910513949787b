//! Exact wire bytes of the codecs, and runtime round-trips through them.

use esphome::connection::Connection;
use esphome::fields::{parse_all_fields, FieldValue};
use esphome::frame::encode_frame;
use esphome::messages::{
    decode_connect_response, decode_entity_response, decode_hello_response,
    decode_sensor_state, encode_connect_response, encode_entity_response,
    encode_hello_response, encode_sensor_state, ConnectResponse, HelloResponse,
    ListEntitiesEntityResponse, SensorStateResponse,
};
use esphome::model::MessageType;
use esphome::peer::Peer;

#[test]
fn frame_bytes_are_marker_length_tag_payload() {
    let frame = encode_frame(1, &vec![97, 98]);
    assert_eq!(frame, vec![0, 2, 1, 97, 98]);
}

#[test]
fn empty_payload_frame_is_three_bytes() {
    assert_eq!(encode_frame(8, &Vec::new()), vec![0, 0, 8]);
}

#[test]
fn long_lengths_use_multi_byte_varints() {
    let payload = vec![7u8; 300];
    let frame = encode_frame(5, &payload);
    // 300 = 0b10_0101100: low seven bits with the continuation bit, then 2
    assert_eq!(&frame[0..4], &[0, 0xAC, 0x02, 5]);
    assert_eq!(frame.len(), 4 + 300);
}

#[test]
fn sensor_state_payload_bytes_are_exact() {
    let m = SensorStateResponse { key: 1, state_bits: 1.0f32.to_bits() };
    // field 1 fixed32 key, field 2 fixed32 measurement bits (little endian)
    assert_eq!(
        encode_sensor_state(&m),
        vec![0x0D, 1, 0, 0, 0, 0x15, 0x00, 0x00, 0x80, 0x3F]
    );
}

#[test]
fn connect_response_round_trips() {
    for flag in [false, true] {
        let m = ConnectResponse { invalid_password: flag };
        let decoded = decode_connect_response(&encode_connect_response(&m)).expect("decode");
        assert_eq!(decoded, m);
    }
}

#[test]
fn hello_response_round_trips() {
    let m = HelloResponse {
        api_version_major: 1,
        api_version_minor: 9,
        server_info: b"demo".to_vec(),
    };
    let decoded = decode_hello_response(&encode_hello_response(&m)).expect("decode");
    assert_eq!(decoded, m);
}

#[test]
fn entity_response_round_trips() {
    let m = ListEntitiesEntityResponse {
        object_id: b"obj".to_vec(),
        key: 0xDEAD_BEEF,
        name: b"a name".to_vec(),
        unique_id: b"uid".to_vec(),
    };
    let decoded = decode_entity_response(&encode_entity_response(&m)).expect("decode");
    assert_eq!(decoded, m);
}

#[test]
fn sensor_state_round_trips() {
    let m = SensorStateResponse { key: 7, state_bits: 2.5f32.to_bits() };
    let decoded = decode_sensor_state(&encode_sensor_state(&m)).expect("decode");
    assert_eq!(decoded, m);
}

#[test]
fn unknown_fields_are_ignored_and_the_last_occurrence_wins() {
    // field 1 varint 1, unknown field 9 varint 5, field 1 varint 0
    let payload = vec![0x08, 1, 0x48, 5, 0x08, 0];
    let decoded = decode_connect_response(&payload).expect("decode");
    assert!(!decoded.invalid_password);
}

#[test]
fn truncated_payloads_do_not_parse() {
    // a length-prefixed field that claims three bytes but carries one
    let payload = vec![0x0A, 3, 97];
    assert!(decode_hello_response(&payload).is_none());
}

#[test]
fn field_parsing_reports_numbers_and_values() {
    // field 2 varint 300, field 3 bytes "hi"
    let payload = vec![0x10, 0xAC, 0x02, 0x1A, 2, 104, 105];
    let fields = parse_all_fields(&payload).expect("parse");
    assert_eq!(fields.len(), 2);
    assert_eq!(fields[0].number, 2);
    assert!(matches!(fields[0].value, FieldValue::Varint(300)));
    assert_eq!(fields[1].number, 3);
    match &fields[1].value {
        FieldValue::Bytes(b) => assert_eq!(b, &vec![104, 105]),
        other => panic!("wrong value: {:?}", other),
    }
}

#[test]
fn framing_round_trips_through_the_engine() {
    let payload = vec![1u8, 2, 3, 250, 0, 77];
    // tag 2 is a reply-class kind: the read loop hands its header out
    let mut peer = Peer::new(0);
    peer.push_incoming(&encode_frame(2, &payload));
    let mut conn = Connection::new(peer);
    let header = conn.receive_message_header().expect("header");
    assert_eq!(header.message_type(), 2);
    assert_eq!(header.message_length(), payload.len() as u32);
    let body = conn.receive_message_body(&header).expect("body");
    assert_eq!(body, payload);
}

#[test]
fn every_registered_tag_maps_back_to_its_kind() {
    for tag in 0..60u32 {
        if let Some(kind) = MessageType::from_u32(tag) {
            assert_eq!(kind.tag(), tag);
        }
    }
    assert!(MessageType::from_u32(99).is_none());
    assert_eq!(MessageType::SensorStateResponse.tag(), 25);
    assert_eq!(MessageType::GetTimeRequest.tag(), 36);
}
