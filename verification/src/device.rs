//! The session phases. A fresh [`Connection`] performs the hello handshake
//! and becomes a [`Device`]; a device authenticates and becomes an
//! [`AuthenticatedDevice`]. Only the authenticated phase can ping, query the
//! clock and the device identity, subscribe to state pushes, enumerate
//! entities, and close the session: the phase types make issuing an
//! operation before its phase impossible.

use vstd::prelude::*;
use crate::connection::{
    Connection, read_loop, receive_plan, mismatch_error, ReceiveV, OutcomeV,
    lemma_read_loop_consumed_bounds,
};
use crate::messages::{
    parsed_entity_response, decode_entity_response, parsed_services_response,
    decode_services_response,
};
use crate::model::{
    Entity, EntityV, EntityInfo, EntityInfoV, EntityKind, EntityKindV, ExtendedInfo,
    ExtendedInfoV,
};
use crate::fields::{take_fields, payload_well_formed, FieldV, FieldValueV};
use crate::frame::frame_bytes;
use crate::messages::{
    HelloRequest, hello_request_bytes, HelloRequestV, HelloResponse, HelloResponseV,
    parsed_hello_response, decode_hello_response, encode_hello_request, ConnectRequest,
    ConnectRequestV, connect_request_bytes, encode_connect_request, parsed_connect_response,
    decode_connect_response, ConnectResponse, parsed_get_time_response, decode_get_time_response,
    DeviceInfoResponse, DeviceInfoResponseV, parsed_device_info_response,
    decode_device_info_response,
};
use crate::model::{MessageType, EspHomeError, StateV, Event};

verus! {

/// The client description sent in the hello handshake.
pub open spec fn default_client_info() -> Seq<u8> {
    seq![101u8, 115u8, 112u8, 104u8, 111u8, 109u8, 101u8, 46u8, 114u8, 115u8]
}

fn client_info_bytes() -> (r: Vec<u8>)
    ensures
        r@ == default_client_info(),
{
    let mut v: Vec<u8> = Vec::new();
    v.push(101);
    v.push(115);
    v.push(112);
    v.push(104);
    v.push(111);
    v.push(109);
    v.push(101);
    v.push(46);
    v.push(114);
    v.push(115);
    proof {
        assert(v@ =~= default_client_info());
    }
    v
}

/// A session that has completed the hello handshake and is not yet
/// authenticated.
pub struct Device {
    pub connection: Connection,
    pub hello_information: HelloResponse,
}

impl Connection {
    /// Perform the hello handshake: send a hello request, await the hello
    /// response, and yield the connected session. Succeeds exactly when the
    /// awaited reply arrives and parses.
    pub fn connect(self) -> (r: Result<Device, EspHomeError>)
        requires
            self.wf(),
        ensures
            ({
                let req = frame_bytes(
                    MessageType::HelloRequest.spec_tag(),
                    hello_request_bytes(HelloRequestV { client_info: default_client_info() }),
                );
                let lr = read_loop(self.unread(), self.state_map(), self.epoch());
                match receive_plan(
                    self.unread(),
                    self.state_map(),
                    self.epoch(),
                    MessageType::HelloResponse.spec_tag(),
                ) {
                    ReceiveV::Short { .. } => r == Err::<Device, EspHomeError>(EspHomeError::Io),
                    ReceiveV::Broken { .. } => r == Err::<Device, EspHomeError>(
                        EspHomeError::Codec,
                    ),
                    ReceiveV::Mismatch { received, .. } => r == Err::<Device, EspHomeError>(
                        mismatch_error(MessageType::HelloResponse, received),
                    ),
                    ReceiveV::Reply { consumed, payload } => match parsed_hello_response(payload) {
                        Some(h) => {
                            &&& r matches Ok(d)
                            &&& d.connection.wf()
                            &&& d.connection.unread() == self.unread().skip(consumed)
                            &&& d.connection.state_map() == lr.states
                            &&& d.connection.sent() == self.sent() + req + lr.replies
                            &&& d.connection.event_log() == self.event_log() + lr.events
                            &&& d.connection.epoch() == self.epoch()
                            &&& d.hello_info() == h
                        },
                        None => r == Err::<Device, EspHomeError>(EspHomeError::Codec),
                    },
                }
            }),
    {
        let mut conn = self;
        let hr = HelloRequest { client_info: client_info_bytes() };
        let payload = encode_hello_request(&hr);
        proof {
            let f = FieldV { number: 1, value: FieldValueV::Bytes(hr.client_info@) };
            crate::fields::lemma_fields_bytes1(f);
            crate::fields::lemma_field_bytes_len(f);
        }
        let reply = match conn.request(
            MessageType::HelloRequest,
            &payload,
            MessageType::HelloResponse,
        ) {
            Ok(p) => p,
            Err(e) => {
                return Err(e);
            },
        };
        match decode_hello_response(&reply) {
            Some(h) => Ok(Device { connection: conn, hello_information: h }),
            None => Err(EspHomeError::Codec),
        }
    }
}

impl Device {
    /// What the server said about itself in the hello handshake.
    pub open spec fn hello_info(&self) -> HelloResponseV {
        self.hello_information@
    }

    /// The server's banner string, as carried by the hello response.
    pub fn server_info(&self) -> (r: &Vec<u8>)
        ensures
            r@ == self.hello_info().server_info,
    {
        &self.hello_information.server_info
    }

    /// Authenticate with a password. Fails with `InvalidPassword` exactly
    /// when the server's reply carries the invalid-password flag; only a
    /// reply without it yields the authenticated session.
    pub fn authenticate(self, password: &Vec<u8>) -> (r: Result<
        AuthenticatedDevice,
        EspHomeError,
    >)
        requires
            self.connection.wf(),
            password@.len() + 20 <= u32::MAX,
        ensures
            ({
                let req = frame_bytes(
                    MessageType::ConnectRequest.spec_tag(),
                    connect_request_bytes(ConnectRequestV { password: password@ }),
                );
                let lr = read_loop(
                    self.connection.unread(),
                    self.connection.state_map(),
                    self.connection.epoch(),
                );
                match receive_plan(
                    self.connection.unread(),
                    self.connection.state_map(),
                    self.connection.epoch(),
                    MessageType::ConnectResponse.spec_tag(),
                ) {
                    ReceiveV::Short { .. } => r == Err::<AuthenticatedDevice, EspHomeError>(
                        EspHomeError::Io,
                    ),
                    ReceiveV::Broken { .. } => r == Err::<AuthenticatedDevice, EspHomeError>(
                        EspHomeError::Codec,
                    ),
                    ReceiveV::Mismatch { received, .. } => r == Err::<
                        AuthenticatedDevice,
                        EspHomeError,
                    >(mismatch_error(MessageType::ConnectResponse, received)),
                    ReceiveV::Reply { consumed, payload } => match parsed_connect_response(
                        payload,
                    ) {
                        Some(m) => if m.invalid_password {
                            r == Err::<AuthenticatedDevice, EspHomeError>(
                                EspHomeError::InvalidPassword,
                            )
                        } else {
                            &&& r matches Ok(ad)
                            &&& ad.device.connection.wf()
                            &&& ad.device.connection.unread() == self.connection.unread().skip(
                                consumed,
                            )
                            &&& ad.device.connection.state_map() == lr.states
                            &&& ad.device.connection.sent() == self.connection.sent() + req
                                + lr.replies
                            &&& ad.device.connection.event_log() == self.connection.event_log()
                                + lr.events
                            &&& ad.device.connection.epoch() == self.connection.epoch()
                            &&& ad.device.hello_info() == self.hello_info()
                        },
                        None => r == Err::<AuthenticatedDevice, EspHomeError>(EspHomeError::Codec),
                    },
                }
            }),
    {
        let mut dev = self;
        let cr = ConnectRequest { password: crate::fields::clone_bytes(password) };
        let payload = encode_connect_request(&cr);
        proof {
            let f = FieldV { number: 1, value: FieldValueV::Bytes(cr.password@) };
            crate::fields::lemma_fields_bytes1(f);
            crate::fields::lemma_field_bytes_len(f);
        }
        let reply = match dev.connection.request(
            MessageType::ConnectRequest,
            &payload,
            MessageType::ConnectResponse,
        ) {
            Ok(p) => p,
            Err(e) => {
                return Err(e);
            },
        };
        match decode_connect_response(&reply) {
            Some(m) => {
                if m.invalid_password {
                    return Err(EspHomeError::InvalidPassword);
                }
                Ok(AuthenticatedDevice { device: dev })
            },
            None => Err(EspHomeError::Codec),
        }
    }

}

/// The identity a device reports about itself.
#[derive(Debug)]
pub struct DeviceInfo {
    info: DeviceInfoResponse,
}

impl DeviceInfo {
    /// The reported identity, abstractly.
    pub closed spec fn info_view(&self) -> DeviceInfoResponseV {
        self.info@
    }

    /// Wrap a decoded device-information response.
    pub fn new(info: DeviceInfoResponse) -> (r: DeviceInfo)
        ensures
            r.info_view() == info@,
    {
        DeviceInfo { info }
    }

    /// The device's name.
    pub fn name(&self) -> (r: &Vec<u8>)
        ensures
            r@ == self.info_view().name,
    {
        &self.info.name
    }

    /// The device's hardware address.
    pub fn mac_address(&self) -> (r: &Vec<u8>)
        ensures
            r@ == self.info_view().mac_address,
    {
        &self.info.mac_address
    }

    /// The firmware version the device runs.
    pub fn esphome_version(&self) -> (r: &Vec<u8>)
        ensures
            r@ == self.info_view().esphome_version,
    {
        &self.info.esphome_version
    }

    /// When the device's firmware was compiled.
    pub fn compilation_time(&self) -> (r: &Vec<u8>)
        ensures
            r@ == self.info_view().compilation_time,
    {
        &self.info.compilation_time
    }

    /// The device's hardware model.
    pub fn model(&self) -> (r: &Vec<u8>)
        ensures
            r@ == self.info_view().model,
    {
        &self.info.model
    }
}

/// A session that has authenticated: the phase whose operations the device
/// accepts.
pub struct AuthenticatedDevice {
    pub device: Device,
}

impl AuthenticatedDevice {
    /// Send a keep-alive ping and await its acknowledgment. Pinging is an
    /// operation of the authenticated phase: a merely-connected session
    /// cannot issue it.
    pub fn ping(&mut self) -> (r: Result<(), EspHomeError>)
        requires
            old(self).device.connection.wf(),
        ensures
            final(self).device.connection.wf(),
            final(self).device.connection.epoch() == old(self).device.connection.epoch(),
            final(self).device.hello_info() == old(self).device.hello_info(),
            ({
                let lr = read_loop(
                    old(self).device.connection.unread(),
                    old(self).device.connection.state_map(),
                    old(self).device.connection.epoch(),
                );
                &&& final(self).device.connection.state_map() == lr.states
                &&& final(self).device.connection.sent() == old(self).device.connection.sent()
                    + frame_bytes(MessageType::PingRequest.spec_tag(), Seq::empty()) + lr.replies
                &&& final(self).device.connection.event_log() == old(
                    self,
                ).device.connection.event_log() + lr.events
            }),
            match receive_plan(
                old(self).device.connection.unread(),
                old(self).device.connection.state_map(),
                old(self).device.connection.epoch(),
                MessageType::PingResponse.spec_tag(),
            ) {
                ReceiveV::Short { consumed } => r == Err::<(), EspHomeError>(EspHomeError::Io)
                    && final(self).device.connection.unread() == old(
                    self,
                ).device.connection.unread().skip(consumed),
                ReceiveV::Broken { consumed } => r == Err::<(), EspHomeError>(EspHomeError::Codec)
                    && final(self).device.connection.unread() == old(
                    self,
                ).device.connection.unread().skip(consumed),
                ReceiveV::Mismatch { consumed, received } => r == Err::<(), EspHomeError>(
                    mismatch_error(MessageType::PingResponse, received),
                ) && final(self).device.connection.unread() == old(
                    self,
                ).device.connection.unread().skip(consumed),
                ReceiveV::Reply { consumed, payload } => (if take_fields(payload) is Some {
                    r == Ok::<(), EspHomeError>(())
                } else {
                    r == Err::<(), EspHomeError>(EspHomeError::Codec)
                }) && final(self).device.connection.unread() == old(
                    self,
                ).device.connection.unread().skip(consumed),
            },
    {
        let payload: Vec<u8> = Vec::new();
        let reply = match self.device.connection.request(
            MessageType::PingRequest,
            &payload,
            MessageType::PingResponse,
        ) {
            Ok(p) => p,
            Err(e) => {
                return Err(e);
            },
        };
        if payload_well_formed(&reply) {
            Ok(())
        } else {
            Err(EspHomeError::Codec)
        }
    }

    /// Announce a graceful close and await its acknowledgment; the session is
    /// consumed either way. Closing is an operation of the authenticated
    /// phase: a merely-connected session cannot issue it.
    pub fn disconnect(self) -> (r: Result<(), EspHomeError>)
        requires
            self.device.connection.wf(),
        ensures
            match receive_plan(
                self.device.connection.unread(),
                self.device.connection.state_map(),
                self.device.connection.epoch(),
                MessageType::DisconnectResponse.spec_tag(),
            ) {
                ReceiveV::Short { .. } => r == Err::<(), EspHomeError>(EspHomeError::Io),
                ReceiveV::Broken { .. } => r == Err::<(), EspHomeError>(EspHomeError::Codec),
                ReceiveV::Mismatch { received, .. } => r == Err::<(), EspHomeError>(
                    mismatch_error(MessageType::DisconnectResponse, received),
                ),
                ReceiveV::Reply { payload, .. } => if take_fields(payload) is Some {
                    r == Ok::<(), EspHomeError>(())
                } else {
                    r == Err::<(), EspHomeError>(EspHomeError::Codec)
                },
            },
    {
        let mut dev = self.device;
        let payload: Vec<u8> = Vec::new();
        let reply = match dev.connection.request(
            MessageType::DisconnectRequest,
            &payload,
            MessageType::DisconnectResponse,
        ) {
            Ok(p) => p,
            Err(e) => {
                return Err(e);
            },
        };
        if payload_well_formed(&reply) {
            Ok(())
        } else {
            Err(EspHomeError::Codec)
        }
    }

    /// Ask the device for its clock, in epoch seconds.
    pub fn get_time(&mut self) -> (r: Result<u32, EspHomeError>)
        requires
            old(self).device.connection.wf(),
        ensures
            final(self).device.connection.wf(),
            final(self).device.connection.epoch() == old(self).device.connection.epoch(),
            final(self).device.hello_info() == old(self).device.hello_info(),
            ({
                let lr = read_loop(
                    old(self).device.connection.unread(),
                    old(self).device.connection.state_map(),
                    old(self).device.connection.epoch(),
                );
                &&& final(self).device.connection.state_map() == lr.states
                &&& final(self).device.connection.sent() == old(self).device.connection.sent()
                    + frame_bytes(MessageType::GetTimeRequest.spec_tag(), Seq::empty())
                    + lr.replies
                &&& final(self).device.connection.event_log() == old(
                    self,
                ).device.connection.event_log() + lr.events
            }),
            match receive_plan(
                old(self).device.connection.unread(),
                old(self).device.connection.state_map(),
                old(self).device.connection.epoch(),
                MessageType::GetTimeResponse.spec_tag(),
            ) {
                ReceiveV::Short { consumed } => r == Err::<u32, EspHomeError>(EspHomeError::Io)
                    && final(self).device.connection.unread() == old(
                    self,
                ).device.connection.unread().skip(consumed),
                ReceiveV::Broken { consumed } => r == Err::<u32, EspHomeError>(EspHomeError::Codec)
                    && final(self).device.connection.unread() == old(
                    self,
                ).device.connection.unread().skip(consumed),
                ReceiveV::Mismatch { consumed, received } => r == Err::<u32, EspHomeError>(
                    mismatch_error(MessageType::GetTimeResponse, received),
                ) && final(self).device.connection.unread() == old(
                    self,
                ).device.connection.unread().skip(consumed),
                ReceiveV::Reply { consumed, payload } => (match parsed_get_time_response(payload) {
                    Some(m) => r == Ok::<u32, EspHomeError>(m.epoch_seconds),
                    None => r == Err::<u32, EspHomeError>(EspHomeError::Codec),
                }) && final(self).device.connection.unread() == old(
                    self,
                ).device.connection.unread().skip(consumed),
            },
    {
        let payload: Vec<u8> = Vec::new();
        let reply = match self.device.connection.request(
            MessageType::GetTimeRequest,
            &payload,
            MessageType::GetTimeResponse,
        ) {
            Ok(p) => p,
            Err(e) => {
                return Err(e);
            },
        };
        match decode_get_time_response(&reply) {
            Some(m) => Ok(m.epoch_seconds),
            None => Err(EspHomeError::Codec),
        }
    }

    /// Ask the device for its identity.
    pub fn device_info(&mut self) -> (r: Result<DeviceInfo, EspHomeError>)
        requires
            old(self).device.connection.wf(),
        ensures
            final(self).device.connection.wf(),
            final(self).device.connection.epoch() == old(self).device.connection.epoch(),
            final(self).device.hello_info() == old(self).device.hello_info(),
            ({
                let lr = read_loop(
                    old(self).device.connection.unread(),
                    old(self).device.connection.state_map(),
                    old(self).device.connection.epoch(),
                );
                &&& final(self).device.connection.state_map() == lr.states
                &&& final(self).device.connection.sent() == old(self).device.connection.sent()
                    + frame_bytes(MessageType::DeviceInfoRequest.spec_tag(), Seq::empty())
                    + lr.replies
                &&& final(self).device.connection.event_log() == old(
                    self,
                ).device.connection.event_log() + lr.events
            }),
            match receive_plan(
                old(self).device.connection.unread(),
                old(self).device.connection.state_map(),
                old(self).device.connection.epoch(),
                MessageType::DeviceInfoResponse.spec_tag(),
            ) {
                ReceiveV::Short { consumed } => r == Err::<DeviceInfo, EspHomeError>(
                    EspHomeError::Io,
                ) && final(self).device.connection.unread() == old(
                    self,
                ).device.connection.unread().skip(consumed),
                ReceiveV::Broken { consumed } => r == Err::<DeviceInfo, EspHomeError>(
                    EspHomeError::Codec,
                ) && final(self).device.connection.unread() == old(
                    self,
                ).device.connection.unread().skip(consumed),
                ReceiveV::Mismatch { consumed, received } => r == Err::<DeviceInfo, EspHomeError>(
                    mismatch_error(MessageType::DeviceInfoResponse, received),
                ) && final(self).device.connection.unread() == old(
                    self,
                ).device.connection.unread().skip(consumed),
                ReceiveV::Reply { consumed, payload } => (match parsed_device_info_response(
                    payload,
                ) {
                    Some(m) => r matches Ok(di) && di.info_view() == m,
                    None => r == Err::<DeviceInfo, EspHomeError>(EspHomeError::Codec),
                }) && final(self).device.connection.unread() == old(
                    self,
                ).device.connection.unread().skip(consumed),
            },
    {
        let payload: Vec<u8> = Vec::new();
        let reply = match self.device.connection.request(
            MessageType::DeviceInfoRequest,
            &payload,
            MessageType::DeviceInfoResponse,
        ) {
            Ok(p) => p,
            Err(e) => {
                return Err(e);
            },
        };
        match decode_device_info_response(&reply) {
            Some(m) => Ok(DeviceInfo::new(m)),
            None => Err(EspHomeError::Codec),
        }
    }

    /// Wait for one reply-class header, auto-handling every push frame on the
    /// way, and discard it; its payload stays unread.
    pub fn listen(&mut self) -> (r: Result<(), EspHomeError>)
        requires
            old(self).device.connection.wf(),
        ensures
            final(self).device.connection.wf(),
            final(self).device.connection.epoch() == old(self).device.connection.epoch(),
            final(self).device.hello_info() == old(self).device.hello_info(),
            ({
                let lr = read_loop(
                    old(self).device.connection.unread(),
                    old(self).device.connection.state_map(),
                    old(self).device.connection.epoch(),
                );
                &&& final(self).device.connection.unread() == old(
                    self,
                ).device.connection.unread().skip(lr.consumed)
                &&& final(self).device.connection.state_map() == lr.states
                &&& final(self).device.connection.sent() == old(self).device.connection.sent()
                    + lr.replies
                &&& final(self).device.connection.event_log() == old(
                    self,
                ).device.connection.event_log() + lr.events
                &&& match lr.outcome {
                    OutcomeV::NeedData => r == Err::<(), EspHomeError>(EspHomeError::Io),
                    OutcomeV::BadMarker => r == Err::<(), EspHomeError>(EspHomeError::Codec),
                    OutcomeV::TooLong => r == Err::<(), EspHomeError>(EspHomeError::Codec),
                    OutcomeV::DecodeFail { .. } => r == Err::<(), EspHomeError>(
                        EspHomeError::Codec,
                    ),
                    OutcomeV::Deliver { .. } => r == Ok::<(), EspHomeError>(()),
                }
            }),
    {
        match self.device.connection.receive_message_header() {
            Ok(_) => Ok(()),
            Err(e) => Err(e),
        }
    }

    /// Ask the device to start pushing entity states; no reply is awaited,
    /// the pushes are auto-handled by every later read.
    pub fn subscribe_states(&mut self) -> (r: Result<(), EspHomeError>)
        requires
            old(self).device.connection.wf(),
        ensures
            final(self).device.connection.wf(),
            final(self).device.connection.epoch() == old(self).device.connection.epoch(),
            final(self).device.hello_info() == old(self).device.hello_info(),
            final(self).device.connection.sent() == old(self).device.connection.sent()
                + frame_bytes(MessageType::SubscribeStatesRequest.spec_tag(), Seq::empty()),
            final(self).device.connection.unread() == old(self).device.connection.unread(),
            final(self).device.connection.state_map() == old(self).device.connection.state_map(),
            final(self).device.connection.event_log() == old(self).device.connection.event_log(),
            r == Ok::<(), EspHomeError>(()),
    {
        let payload: Vec<u8> = Vec::new();
        self.device.connection.send_message(MessageType::SubscribeStatesRequest, &payload);
        Ok(())
    }
}

/// The verdict on a connect reply: the error for a rejected password, so
/// that a caller driving the exchange frame by frame applies the same rule
/// as [`Device::authenticate`].
pub fn check_connect_reply(m: &ConnectResponse) -> (r: Result<(), EspHomeError>)
    ensures
        r == if m.invalid_password {
            Err::<(), EspHomeError>(EspHomeError::InvalidPassword)
        } else {
            Ok::<(), EspHomeError>(())
        },
{
    if m.invalid_password {
        Err(EspHomeError::InvalidPassword)
    } else {
        Ok(())
    }
}

/// The tags that carry one enumerated entity each.
pub open spec fn is_entity_tag(tag: u32) -> bool {
    ||| tag == MessageType::ListEntitiesBinarySensorResponse.spec_tag()
    ||| tag == MessageType::ListEntitiesCoverResponse.spec_tag()
    ||| tag == MessageType::ListEntitiesFanResponse.spec_tag()
    ||| tag == MessageType::ListEntitiesLightResponse.spec_tag()
    ||| tag == MessageType::ListEntitiesSensorResponse.spec_tag()
    ||| tag == MessageType::ListEntitiesSwitchResponse.spec_tag()
    ||| tag == MessageType::ListEntitiesTextSensorResponse.spec_tag()
    ||| tag == MessageType::ListEntitiesServicesResponse.spec_tag()
    ||| tag == MessageType::ListEntitiesCameraResponse.spec_tag()
    ||| tag == MessageType::ListEntitiesClimateResponse.spec_tag()
    ||| tag == MessageType::ListEntitiesNumberResponse.spec_tag()
    ||| tag == MessageType::ListEntitiesSelectResponse.spec_tag()
}

fn is_entity(tag: u32) -> (r: bool)
    ensures
        r == is_entity_tag(tag),
{
    tag == 12 || tag == 13 || tag == 14 || tag == 15 || tag == 16 || tag == 17 || tag == 18
        || tag == 41 || tag == 43 || tag == 46 || tag == 49 || tag == 52
}

/// The entity carried by one enumeration response, or `None` when the payload
/// does not parse.
pub open spec fn entity_for_tag(tag: u32, payload: Seq<u8>) -> Option<EntityV>
    recommends
        is_entity_tag(tag),
{
    if tag == MessageType::ListEntitiesServicesResponse.spec_tag() {
        match parsed_services_response(payload) {
            Some(m) => Some(
                EntityV {
                    info: EntityInfoV { name: m.name, key: m.key },
                    kind: EntityKindV::Services,
                },
            ),
            None => None,
        }
    } else {
        match parsed_entity_response(payload) {
            Some(m) => {
                let info = EntityInfoV { name: m.name, key: m.key };
                let ext = ExtendedInfoV { object_id: m.object_id, unique_id: m.unique_id };
                if tag == MessageType::ListEntitiesBinarySensorResponse.spec_tag() {
                    Some(EntityV { info, kind: EntityKindV::BinarySensor(ext) })
                } else if tag == MessageType::ListEntitiesCoverResponse.spec_tag() {
                    Some(EntityV { info, kind: EntityKindV::Cover(ext) })
                } else if tag == MessageType::ListEntitiesFanResponse.spec_tag() {
                    Some(EntityV { info, kind: EntityKindV::Fan(ext) })
                } else if tag == MessageType::ListEntitiesLightResponse.spec_tag() {
                    Some(EntityV { info, kind: EntityKindV::Light(ext) })
                } else if tag == MessageType::ListEntitiesSensorResponse.spec_tag() {
                    Some(EntityV { info, kind: EntityKindV::Sensor(ext) })
                } else if tag == MessageType::ListEntitiesSwitchResponse.spec_tag() {
                    Some(EntityV { info, kind: EntityKindV::Switch(ext) })
                } else if tag == MessageType::ListEntitiesTextSensorResponse.spec_tag() {
                    Some(EntityV { info, kind: EntityKindV::TextSensor(ext) })
                } else if tag == MessageType::ListEntitiesCameraResponse.spec_tag() {
                    Some(EntityV { info, kind: EntityKindV::Camera(ext) })
                } else if tag == MessageType::ListEntitiesClimateResponse.spec_tag() {
                    Some(EntityV { info, kind: EntityKindV::Climate(ext) })
                } else if tag == MessageType::ListEntitiesNumberResponse.spec_tag() {
                    Some(EntityV { info, kind: EntityKindV::Number(ext) })
                } else if tag == MessageType::ListEntitiesSelectResponse.spec_tag() {
                    Some(EntityV { info, kind: EntityKindV::Select(ext) })
                } else {
                    None
                }
            },
            None => None,
        }
    }
}

/// The views of a vector of entities.
pub open spec fn entity_views(es: Seq<Entity>) -> Seq<EntityV> {
    es.map_values(|e: Entity| e@)
}

/// Everything one enumeration call does to the connection, and its result.
pub struct ListResultV {
    /// How many unread bytes it consumes.
    pub consumed: int,
    /// The state cache it leaves.
    pub states: Map<u32, StateV>,
    /// The reply bytes the auto-handled pushes write.
    pub replies: Seq<u8>,
    /// The events the auto-handled pushes log.
    pub events: Seq<Event>,
    /// The enumerated entities, or the error that ended the call.
    pub result: Result<Seq<EntityV>, EspHomeError>,
}

/// The enumeration loop: collect one entity per enumeration response, with
/// push frames auto-handled in between, until the done sentinel.
///
/// Opaque: reason about it through [`lemma_list_loop_unfold`].
#[verifier::opaque]
pub open spec fn list_loop(s: Seq<u8>, states: Map<u32, StateV>, epoch: u32) -> ListResultV
    decreases s.len(),
{
    let lr = read_loop(s, states, epoch);
    match lr.outcome {
        OutcomeV::NeedData => ListResultV {
            consumed: lr.consumed,
            states: lr.states,
            replies: lr.replies,
            events: lr.events,
            result: Err(EspHomeError::Io),
        },
        OutcomeV::BadMarker => ListResultV {
            consumed: lr.consumed,
            states: lr.states,
            replies: lr.replies,
            events: lr.events,
            result: Err(EspHomeError::Codec),
        },
        OutcomeV::TooLong => ListResultV {
            consumed: lr.consumed,
            states: lr.states,
            replies: lr.replies,
            events: lr.events,
            result: Err(EspHomeError::Codec),
        },
        OutcomeV::DecodeFail { .. } => ListResultV {
            consumed: lr.consumed,
            states: lr.states,
            replies: lr.replies,
            events: lr.events,
            result: Err(EspHomeError::Codec),
        },
        OutcomeV::Deliver { length, tag } => {
            if !(is_entity_tag(tag) || tag == MessageType::ListEntitiesDoneResponse.spec_tag()) {
                ListResultV {
                    consumed: lr.consumed,
                    states: lr.states,
                    replies: lr.replies,
                    events: lr.events,
                    result: Err(mismatch_error(MessageType::ListEntitiesDoneResponse, tag)),
                }
            } else if s.len() < lr.consumed + length {
                ListResultV {
                    consumed: lr.consumed,
                    states: lr.states,
                    replies: lr.replies,
                    events: lr.events,
                    result: Err(EspHomeError::Io),
                }
            } else {
                let payload = s.subrange(lr.consumed, lr.consumed + length);
                let total = lr.consumed + length;
                if tag == MessageType::ListEntitiesDoneResponse.spec_tag() {
                    ListResultV {
                        consumed: total,
                        states: lr.states,
                        replies: lr.replies,
                        events: lr.events,
                        result: if take_fields(payload) is Some {
                            Ok(Seq::empty())
                        } else {
                            Err(EspHomeError::Codec)
                        },
                    }
                } else {
                    match entity_for_tag(tag, payload) {
                        None => ListResultV {
                            consumed: total,
                            states: lr.states,
                            replies: lr.replies,
                            events: lr.events,
                            result: Err(EspHomeError::Codec),
                        },
                        Some(ent) => {
                            if 1 <= total <= s.len() {
                                let rest = list_loop(s.skip(total), lr.states, epoch);
                                ListResultV {
                                    consumed: total + rest.consumed,
                                    states: rest.states,
                                    replies: lr.replies + rest.replies,
                                    events: lr.events + rest.events,
                                    result: match rest.result {
                                        Ok(es) => Ok(seq![ent] + es),
                                        Err(e) => Err(e),
                                    },
                                }
                            } else {
                                ListResultV {
                                    consumed: lr.consumed,
                                    states: lr.states,
                                    replies: lr.replies,
                                    events: lr.events,
                                    result: Err(EspHomeError::Io),
                                }
                            }
                        },
                    }
                }
            }
        },
    }
}

/// One enumeration response prepends its entity to the rest of the loop; the
/// other cases end it.
pub proof fn lemma_list_loop_unfold(s: Seq<u8>, states: Map<u32, StateV>, epoch: u32)
    ensures
        ({
            let lr = read_loop(s, states, epoch);
            let ll = list_loop(s, states, epoch);
            match lr.outcome {
                OutcomeV::NeedData => ll == (ListResultV {
                    consumed: lr.consumed,
                    states: lr.states,
                    replies: lr.replies,
                    events: lr.events,
                    result: Err(EspHomeError::Io),
                }),
                OutcomeV::BadMarker => ll == (ListResultV {
                    consumed: lr.consumed,
                    states: lr.states,
                    replies: lr.replies,
                    events: lr.events,
                    result: Err(EspHomeError::Codec),
                }),
                OutcomeV::TooLong => ll == (ListResultV {
                    consumed: lr.consumed,
                    states: lr.states,
                    replies: lr.replies,
                    events: lr.events,
                    result: Err(EspHomeError::Codec),
                }),
                OutcomeV::DecodeFail { .. } => ll == (ListResultV {
                    consumed: lr.consumed,
                    states: lr.states,
                    replies: lr.replies,
                    events: lr.events,
                    result: Err(EspHomeError::Codec),
                }),
                OutcomeV::Deliver { length, tag } => {
                    if !(is_entity_tag(tag) || tag
                        == MessageType::ListEntitiesDoneResponse.spec_tag()) {
                        ll == (ListResultV {
                            consumed: lr.consumed,
                            states: lr.states,
                            replies: lr.replies,
                            events: lr.events,
                            result: Err(
                                mismatch_error(MessageType::ListEntitiesDoneResponse, tag),
                            ),
                        })
                    } else if s.len() < lr.consumed + length {
                        ll == (ListResultV {
                            consumed: lr.consumed,
                            states: lr.states,
                            replies: lr.replies,
                            events: lr.events,
                            result: Err(EspHomeError::Io),
                        })
                    } else {
                        let payload = s.subrange(lr.consumed, lr.consumed + length);
                        let total = lr.consumed + length;
                        if tag == MessageType::ListEntitiesDoneResponse.spec_tag() {
                            ll == (ListResultV {
                                consumed: total,
                                states: lr.states,
                                replies: lr.replies,
                                events: lr.events,
                                result: if take_fields(payload) is Some {
                                    Ok(Seq::<EntityV>::empty())
                                } else {
                                    Err(EspHomeError::Codec)
                                },
                            })
                        } else {
                            match entity_for_tag(tag, payload) {
                                None => ll == (ListResultV {
                                    consumed: total,
                                    states: lr.states,
                                    replies: lr.replies,
                                    events: lr.events,
                                    result: Err(EspHomeError::Codec),
                                }),
                                Some(ent) => {
                                    let rest = list_loop(s.skip(total), lr.states, epoch);
                                    &&& 1 <= total <= s.len()
                                    &&& ll == (ListResultV {
                                        consumed: total + rest.consumed,
                                        states: rest.states,
                                        replies: lr.replies + rest.replies,
                                        events: lr.events + rest.events,
                                        result: match rest.result {
                                            Ok(es) => Ok::<Seq<EntityV>, EspHomeError>(
                                                seq![ent] + es,
                                            ),
                                            Err(e) => Err::<Seq<EntityV>, EspHomeError>(e),
                                        },
                                    })
                                },
                            }
                        }
                    }
                },
            }
        }),
{
    reveal(list_loop);
    lemma_read_loop_consumed_bounds(s, states, epoch);
}

fn build_entity(tag: u32, body: &Vec<u8>) -> (r: Option<Entity>)
    requires
        is_entity_tag(tag),
    ensures
        match entity_for_tag(tag, body@) {
            Some(ev) => r matches Some(e) && e@ == ev,
            None => r is None,
        },
{
    if tag == 41 {
        match decode_services_response(body) {
            Some(m) => Some(
                Entity::new(EntityInfo { name: m.name, key: m.key }, EntityKind::Services),
            ),
            None => None,
        }
    } else {
        match decode_entity_response(body) {
            Some(m) => {
                let info = EntityInfo { name: m.name, key: m.key };
                let ext = ExtendedInfo { object_id: m.object_id, unique_id: m.unique_id };
                let kind = if tag == 12 {
                    EntityKind::BinarySensor(ext)
                } else if tag == 13 {
                    EntityKind::Cover(ext)
                } else if tag == 14 {
                    EntityKind::Fan(ext)
                } else if tag == 15 {
                    EntityKind::Light(ext)
                } else if tag == 16 {
                    EntityKind::Sensor(ext)
                } else if tag == 17 {
                    EntityKind::Switch(ext)
                } else if tag == 18 {
                    EntityKind::TextSensor(ext)
                } else if tag == 43 {
                    EntityKind::Camera(ext)
                } else if tag == 46 {
                    EntityKind::Climate(ext)
                } else if tag == 49 {
                    EntityKind::Number(ext)
                } else {
                    EntityKind::Select(ext)
                };
                Some(Entity::new(info, kind))
            },
            None => None,
        }
    }
}

impl AuthenticatedDevice {
    /// Enumerate the device's entities: send the request, collect one entity
    /// per enumeration response — pushes auto-handled in between — until the
    /// done sentinel, whose payload is consumed and discarded. A reply-class
    /// frame of any other kind is fatal for the call: exactly [`list_loop`].
    pub fn list_entities(&mut self) -> (r: Result<Vec<Entity>, EspHomeError>)
        requires
            old(self).device.connection.wf(),
        ensures
            final(self).device.connection.wf(),
            final(self).device.connection.epoch() == old(self).device.connection.epoch(),
            final(self).device.hello_info() == old(self).device.hello_info(),
            ({
                let ll = list_loop(
                    old(self).device.connection.unread(),
                    old(self).device.connection.state_map(),
                    old(self).device.connection.epoch(),
                );
                &&& final(self).device.connection.unread() == old(
                    self,
                ).device.connection.unread().skip(ll.consumed)
                &&& final(self).device.connection.state_map() == ll.states
                &&& final(self).device.connection.sent() == old(self).device.connection.sent()
                    + frame_bytes(MessageType::ListEntitiesRequest.spec_tag(), Seq::empty())
                    + ll.replies
                &&& final(self).device.connection.event_log() == old(
                    self,
                ).device.connection.event_log() + ll.events
                &&& match ll.result {
                    Ok(es) => r matches Ok(v) && entity_views(v@) == es,
                    Err(e) => r == Err::<Vec<Entity>, EspHomeError>(e),
                }
            }),
    {
        let payload: Vec<u8> = Vec::new();
        self.device.connection.send_message(MessageType::ListEntitiesRequest, &payload);
        let ghost orig_unread = self.device.connection.unread();
        let ghost orig_states = self.device.connection.state_map();
        let ghost orig_sent = self.device.connection.sent();
        let ghost orig_events = self.device.connection.event_log();
        let ghost epoch = self.device.connection.epoch();
        let ghost mut consumed_acc: int = 0;
        let ghost mut replies_acc: Seq<u8> = Seq::empty();
        let ghost mut events_acc: Seq<Event> = Seq::empty();
        let mut entities: Vec<Entity> = Vec::new();
        proof {
            assert(orig_unread.skip(0) =~= orig_unread);
            assert(orig_sent + Seq::<u8>::empty() =~= orig_sent);
            assert(orig_events + Seq::<Event>::empty() =~= orig_events);
            assert(entity_views(entities@) =~= Seq::<EntityV>::empty());
        }
        loop
            invariant
                orig_unread == old(self).device.connection.unread(),
                orig_states == old(self).device.connection.state_map(),
                orig_sent == old(self).device.connection.sent() + frame_bytes(
                    MessageType::ListEntitiesRequest.spec_tag(),
                    Seq::empty(),
                ),
                orig_events == old(self).device.connection.event_log(),
                epoch == old(self).device.connection.epoch(),
                self.device.connection.wf(),
                self.device.connection.epoch() == epoch,
                self.device.hello_info() == old(self).device.hello_info(),
                0 <= consumed_acc <= orig_unread.len(),
                self.device.connection.unread() == orig_unread.skip(consumed_acc),
                self.device.connection.sent() == orig_sent + replies_acc,
                self.device.connection.event_log() == orig_events + events_acc,
                ({
                    let full = list_loop(orig_unread, orig_states, epoch);
                    let cur = list_loop(
                        self.device.connection.unread(),
                        self.device.connection.state_map(),
                        epoch,
                    );
                    &&& full.consumed == consumed_acc + cur.consumed
                    &&& full.states == cur.states
                    &&& full.replies == replies_acc + cur.replies
                    &&& full.events == events_acc + cur.events
                    &&& full.result == (match cur.result {
                        Ok(es) => Ok::<Seq<EntityV>, EspHomeError>(entity_views(entities@) + es),
                        Err(e) => Err::<Seq<EntityV>, EspHomeError>(e),
                    })
                }),
            decreases self.device.connection.unread().len(),
        {
            let ghost s0 = self.device.connection.unread();
            let ghost st0 = self.device.connection.state_map();
            let ghost lr = read_loop(s0, st0, epoch);
            proof {
                lemma_list_loop_unfold(s0, st0, epoch);
                lemma_read_loop_consumed_bounds(s0, st0, epoch);
            }
            let header = match self.device.connection.receive_message_header() {
                Ok(h) => h,
                Err(e) => {
                    return Err(e);
                },
            };
            let tag = header.message_type;
            let length = header.message_length;
            if !(is_entity(tag) || tag == 19) {
                if tag == 6 {
                    return Err(EspHomeError::UnexpectedTermination {
                        expected: MessageType::ListEntitiesDoneResponse,
                        received: tag,
                    });
                }
                return Err(EspHomeError::UnexpectedResponse {
                    expected: MessageType::ListEntitiesDoneResponse,
                    received: tag,
                });
            }
            proof {
                if s0.len() >= lr.consumed + length {
                    assert(s0.skip(lr.consumed).take(length as int) =~= s0.subrange(
                        lr.consumed,
                        lr.consumed + length,
                    ));
                    assert(s0.skip(lr.consumed).skip(length as int) =~= s0.skip(
                        lr.consumed + length,
                    ));
                }
            }
            let body = match self.device.connection.receive_message_body(&header) {
                Ok(b) => b,
                Err(e) => {
                    return Err(e);
                },
            };
            let ghost total = lr.consumed + length;
            if tag == 19 {
                if payload_well_formed(&body) {
                    proof {
                        assert(entity_views(entities@) + Seq::<EntityV>::empty() =~= entity_views(
                            entities@,
                        ));
                        assert(replies_acc + lr.replies =~= replies_acc + lr.replies);
                        assert(orig_sent + (replies_acc + lr.replies) =~= (orig_sent + replies_acc)
                            + lr.replies);
                        assert(orig_events + (events_acc + lr.events) =~= (orig_events
                            + events_acc) + lr.events);
                        assert(orig_unread.skip(consumed_acc).skip(total) =~= orig_unread.skip(
                            consumed_acc + total,
                        ));
                    }
                    return Ok(entities);
                }
                proof {
                    assert(orig_sent + (replies_acc + lr.replies) =~= (orig_sent + replies_acc)
                        + lr.replies);
                    assert(orig_events + (events_acc + lr.events) =~= (orig_events + events_acc)
                        + lr.events);
                    assert(orig_unread.skip(consumed_acc).skip(total) =~= orig_unread.skip(
                        consumed_acc + total,
                    ));
                }
                return Err(EspHomeError::Codec);
            }
            match build_entity(tag, &body) {
                Some(ent) => {
                    let ghost pre_entities = entities@;
                    entities.push(ent);
                    proof {
                        let rest = list_loop(s0.skip(total), lr.states, epoch);
                        assert(orig_unread.skip(consumed_acc).skip(total) =~= orig_unread.skip(
                            consumed_acc + total,
                        ));
                        assert(entity_views(entities@) =~= entity_views(pre_entities)
                            + seq![ent@]);
                        match rest.result {
                            Ok(es) => {
                                assert(entity_views(pre_entities) + (seq![ent@] + es)
                                    =~= entity_views(entities@) + es);
                            },
                            Err(_) => {},
                        }
                        assert(replies_acc + (lr.replies + rest.replies) =~= (replies_acc
                            + lr.replies) + rest.replies);
                        assert(events_acc + (lr.events + rest.events) =~= (events_acc + lr.events)
                            + rest.events);
                        assert(orig_sent + (replies_acc + lr.replies) =~= (orig_sent + replies_acc)
                            + lr.replies);
                        assert(orig_events + (events_acc + lr.events) =~= (orig_events
                            + events_acc) + lr.events);
                        consumed_acc = consumed_acc + total;
                        replies_acc = replies_acc + lr.replies;
                        events_acc = events_acc + lr.events;
                    }
                },
                None => {
                    proof {
                        assert(orig_sent + (replies_acc + lr.replies) =~= (orig_sent + replies_acc)
                            + lr.replies);
                        assert(orig_events + (events_acc + lr.events) =~= (orig_events
                            + events_acc) + lr.events);
                        assert(orig_unread.skip(consumed_acc).skip(total) =~= orig_unread.skip(
                            consumed_acc + total,
                        ));
                    }
                    return Err(EspHomeError::Codec);
                },
            }
        }
    }
}

} // verus!
