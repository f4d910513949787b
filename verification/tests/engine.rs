//! End-to-end scenarios against a simulated peer: the engine is driven
//! through a `Peer` whose incoming bytes are scripted and whose outgoing
//! bytes are inspected.

use esphome::connection::Connection;
use esphome::device::AuthenticatedDevice;
use esphome::frame::encode_frame;
use esphome::messages::{
    encode_connect_response, encode_entity_response, encode_get_time_response,
    encode_hello_response, encode_sensor_state, encode_text_sensor_state,
    encode_binary_sensor_state, BinarySensorStateResponse, ConnectResponse, GetTimeResponse,
    HelloResponse, ListEntitiesEntityResponse, SensorStateResponse, TextSensorStateResponse,
};
use esphome::model::{EntityInfo, EntityKind, EspHomeError, Event, ExtendedInfo, MessageType, State};
use esphome::peer::Peer;

fn hello_reply_frame() -> Vec<u8> {
    let hello = HelloResponse {
        api_version_major: 1,
        api_version_minor: 7,
        server_info: b"test peer".to_vec(),
    };
    encode_frame(2, &encode_hello_response(&hello))
}

fn connect_reply_frame(invalid_password: bool) -> Vec<u8> {
    let reply = ConnectResponse { invalid_password };
    encode_frame(4, &encode_connect_response(&reply))
}

/// A connected, authenticated session whose outgoing bytes are drained.
fn authenticated(epoch: u32) -> AuthenticatedDevice {
    let mut peer = Peer::new(epoch);
    peer.push_incoming(&hello_reply_frame());
    peer.push_incoming(&connect_reply_frame(false));
    let conn = Connection::new(peer);
    let device = conn.connect().expect("hello handshake");
    let mut ad = device.authenticate(&b"hunter2".to_vec()).expect("authentication");
    ad.device.connection.take_outgoing();
    ad
}

#[test]
fn handshake_reads_server_banner() {
    let mut peer = Peer::new(0);
    peer.push_incoming(&hello_reply_frame());
    let conn = Connection::new(peer);
    let device = conn.connect().expect("hello handshake");
    assert_eq!(device.server_info(), &b"test peer".to_vec());
}

#[test]
fn handshake_sends_hello_frame_first() {
    let mut peer = Peer::new(0);
    peer.push_incoming(&hello_reply_frame());
    let conn = Connection::new(peer);
    let mut device = conn.connect().expect("hello handshake");
    let sent = device.connection.take_outgoing();
    // marker, length, tag of the hello request
    assert_eq!(sent[0], 0);
    assert_eq!(sent[2], 1);
}

#[test]
fn authentication_rejection_yields_invalid_password() {
    let mut peer = Peer::new(0);
    peer.push_incoming(&hello_reply_frame());
    peer.push_incoming(&connect_reply_frame(true));
    let conn = Connection::new(peer);
    let device = conn.connect().expect("hello handshake");
    let r = device.authenticate(&b"wrong".to_vec());
    assert_eq!(r.err(), Some(EspHomeError::InvalidPassword));
}

#[test]
fn push_transparency_ping_is_auto_answered() {
    let mut ad = authenticated(0);
    // the peer first sends an unrelated keep-alive ping, then the real reply
    ad.device.connection.push_incoming(&encode_frame(7, &Vec::new()));
    ad.device.connection.push_incoming(&encode_frame(8, &Vec::new()));
    ad.ping().expect("ping");
    let sent = ad.device.connection.take_outgoing();
    let mut expected = encode_frame(7, &Vec::new());
    expected.extend_from_slice(&encode_frame(8, &Vec::new()));
    // exactly the outgoing ping request and exactly one auto-answer frame
    assert_eq!(sent, expected);
}

#[test]
fn time_query_is_answered_with_the_clock() {
    let mut ad = authenticated(1_700_000_000);
    ad.device.connection.push_incoming(&encode_frame(36, &Vec::new()));
    ad.device.connection.push_incoming(&encode_frame(8, &Vec::new()));
    ad.ping().expect("ping");
    let sent = ad.device.connection.take_outgoing();
    let mut expected = encode_frame(7, &Vec::new());
    let clock = GetTimeResponse { epoch_seconds: 1_700_000_000 };
    expected.extend_from_slice(&encode_frame(37, &encode_get_time_response(&clock)));
    assert_eq!(sent, expected);
}

#[test]
fn get_time_returns_the_reply_value() {
    let mut ad = authenticated(0);
    let clock = GetTimeResponse { epoch_seconds: 123_456 };
    ad.device.connection.push_incoming(&encode_frame(37, &encode_get_time_response(&clock)));
    assert_eq!(ad.get_time().expect("get_time"), 123_456);
}

#[test]
fn state_cache_keeps_the_latest_push_per_key() {
    let mut ad = authenticated(0);
    ad.subscribe_states().expect("subscribe");
    let first = SensorStateResponse { key: 42, state_bits: 1.0f32.to_bits() };
    let second = SensorStateResponse { key: 42, state_bits: 2.0f32.to_bits() };
    ad.device.connection.push_incoming(&encode_frame(25, &encode_sensor_state(&first)));
    ad.device.connection.push_incoming(&encode_frame(25, &encode_sensor_state(&second)));
    // draining the pushes ends with the channel empty
    assert_eq!(ad.listen().err(), Some(EspHomeError::Io));
    let entity = esphome::model::Entity::new(
        EntityInfo { name: b"outside".to_vec(), key: 42 },
        EntityKind::Sensor(ExtendedInfo { object_id: vec![], unique_id: vec![] }),
    );
    let got = ad.device.connection.get_last_state(&entity);
    assert_eq!(got, Some(&State::Measurement(2.0f32.to_bits())));
    let never_pushed = esphome::model::Entity::new(
        EntityInfo { name: b"other".to_vec(), key: 7 },
        EntityKind::Sensor(ExtendedInfo { object_id: vec![], unique_id: vec![] }),
    );
    assert_eq!(ad.device.connection.get_last_state(&never_pushed), None);
}

#[test]
fn binary_and_text_states_are_cached_too() {
    let mut ad = authenticated(0);
    let b = BinarySensorStateResponse { key: 1, state: true };
    let t = TextSensorStateResponse { key: 2, state: b"open".to_vec() };
    ad.device.connection.push_incoming(&encode_frame(21, &encode_binary_sensor_state(&b)));
    ad.device.connection.push_incoming(&encode_frame(27, &encode_text_sensor_state(&t)));
    assert_eq!(ad.listen().err(), Some(EspHomeError::Io));
    let e1 = esphome::model::Entity::new(
        EntityInfo { name: vec![], key: 1 },
        EntityKind::BinarySensor(ExtendedInfo { object_id: vec![], unique_id: vec![] }),
    );
    let e2 = esphome::model::Entity::new(
        EntityInfo { name: vec![], key: 2 },
        EntityKind::TextSensor(ExtendedInfo { object_id: vec![], unique_id: vec![] }),
    );
    assert_eq!(ad.device.connection.get_last_state(&e1), Some(&State::Binary(true)));
    assert_eq!(
        ad.device.connection.get_last_state(&e2),
        Some(&State::Text(b"open".to_vec()))
    );
}

#[test]
fn unmodeled_state_pushes_are_skipped_without_caching() {
    let mut ad = authenticated(0);
    // a switch state push: consumed whole, but nothing is cached for it
    ad.device.connection.push_incoming(&encode_frame(26, &vec![0x0d, 9, 0, 0, 0, 0x10, 1]));
    assert_eq!(ad.listen().err(), Some(EspHomeError::Io));
    let e = esphome::model::Entity::new(
        EntityInfo { name: vec![], key: 9 },
        EntityKind::Switch(ExtendedInfo { object_id: vec![], unique_id: vec![] }),
    );
    assert_eq!(ad.device.connection.get_last_state(&e), None);
    let events = ad.device.connection.events().clone();
    assert!(events.contains(&Event::PushHandled { tag: 26 }));
}

#[test]
fn enumeration_returns_the_sent_entity_and_stops_at_done() {
    let mut ad = authenticated(0);
    let sensor = ListEntitiesEntityResponse {
        object_id: b"outside_temp".to_vec(),
        key: 99,
        name: b"Outside temperature".to_vec(),
        unique_id: b"sensor-outside".to_vec(),
    };
    ad.device.connection.push_incoming(&encode_frame(16, &encode_entity_response(&sensor)));
    ad.device.connection.push_incoming(&encode_frame(19, &Vec::new()));
    // a later frame that the enumeration must not touch
    ad.device.connection.push_incoming(&hello_reply_frame());
    let entities = ad.list_entities().expect("list_entities");
    assert_eq!(entities.len(), 1);
    assert_eq!(entities[0].key(), 99);
    assert_eq!(entities[0].info().name, b"Outside temperature".to_vec());
    match entities[0].kind() {
        EntityKind::Sensor(ext) => {
            assert_eq!(ext.object_id, b"outside_temp".to_vec());
            assert_eq!(ext.unique_id, b"sensor-outside".to_vec());
        },
        other => panic!("wrong kind: {:?}", other),
    }
    // exactly the two enumeration frames were consumed: the next header is
    // still deliverable
    assert!(ad.listen().is_ok());
}

#[test]
fn enumeration_of_an_empty_catalogue_is_empty() {
    let mut ad = authenticated(0);
    ad.device.connection.push_incoming(&encode_frame(19, &Vec::new()));
    let entities = ad.list_entities().expect("list_entities");
    assert!(entities.is_empty());
}

#[test]
fn enumeration_rejects_a_non_enumeration_reply() {
    let mut ad = authenticated(0);
    ad.device.connection.push_incoming(&hello_reply_frame());
    let r = ad.list_entities();
    assert_eq!(
        r.err(),
        Some(EspHomeError::UnexpectedResponse {
            expected: MessageType::ListEntitiesDoneResponse,
            received: 2,
        })
    );
}

#[test]
fn unknown_tag_is_skipped_by_declared_length_and_logged() {
    let mut ad = authenticated(0);
    // tag 99 is not registered; its five payload bytes must be skipped whole
    ad.device.connection.push_incoming(&encode_frame(99, &vec![1, 2, 3, 4, 5]));
    ad.device.connection.push_incoming(&encode_frame(8, &Vec::new()));
    ad.ping().expect("ping survives the unknown frame");
    let events = ad.device.connection.events().clone();
    assert!(events.contains(&Event::UnknownTagSkipped { tag: 99, length: 5 }));
}

#[test]
fn reply_desynchronization_names_both_tags() {
    let mut ad = authenticated(0);
    // a device-information reply arrives while a ping reply is awaited
    ad.device.connection.push_incoming(&encode_frame(10, &Vec::new()));
    let r = ad.ping();
    assert_eq!(
        r.err(),
        Some(EspHomeError::UnexpectedResponse {
            expected: MessageType::PingResponse,
            received: 10,
        })
    );
}

#[test]
fn done_sentinel_outside_enumeration_is_a_termination() {
    let mut ad = authenticated(0);
    ad.device.connection.push_incoming(&encode_frame(19, &Vec::new()));
    let r = ad.ping();
    assert_eq!(
        r.err(),
        Some(EspHomeError::UnexpectedTermination {
            expected: MessageType::PingResponse,
            received: 19,
        })
    );
}

#[test]
fn an_exhausted_channel_is_an_io_error() {
    let mut ad = authenticated(0);
    assert_eq!(ad.ping().err(), Some(EspHomeError::Io));
}

#[test]
fn a_bad_marker_byte_is_a_codec_error() {
    let mut ad = authenticated(0);
    ad.device.connection.push_incoming(&vec![1, 0, 8]);
    assert_eq!(ad.ping().err(), Some(EspHomeError::Codec));
}

#[test]
fn a_malformed_push_payload_is_a_codec_error() {
    let mut ad = authenticated(0);
    // a keep-alive ping whose payload is not a well-formed field sequence
    ad.device.connection.push_incoming(&encode_frame(7, &vec![0xff]));
    assert_eq!(ad.ping().err(), Some(EspHomeError::Codec));
}

#[test]
fn disconnect_acknowledgment_ends_the_session() {
    let mut ad = authenticated(0);
    ad.device.connection.push_incoming(&encode_frame(6, &Vec::new()));
    ad.disconnect().expect("disconnect");
}

#[test]
fn device_info_carries_the_reported_identity() {
    let mut ad = authenticated(0);
    let info = esphome::messages::DeviceInfoResponse {
        name: b"kitchen".to_vec(),
        mac_address: b"AA:BB:CC:DD:EE:FF".to_vec(),
        esphome_version: b"2021.9".to_vec(),
        compilation_time: b"today".to_vec(),
        model: b"esp8266".to_vec(),
    };
    ad.device.connection.push_incoming(&encode_frame(
        10,
        &esphome::messages::encode_device_info_response(&info),
    ));
    let di = ad.device_info().expect("device_info");
    assert_eq!(di.name(), &b"kitchen".to_vec());
    assert_eq!(di.mac_address(), &b"AA:BB:CC:DD:EE:FF".to_vec());
    assert_eq!(di.esphome_version(), &b"2021.9".to_vec());
    assert_eq!(di.compilation_time(), &b"today".to_vec());
    assert_eq!(di.model(), &b"esp8266".to_vec());
}

#[test]
fn subscribe_states_sends_one_frame_and_awaits_nothing() {
    let mut ad = authenticated(0);
    ad.subscribe_states().expect("subscribe");
    let sent = ad.device.connection.take_outgoing();
    assert_eq!(sent, encode_frame(20, &Vec::new()));
}
