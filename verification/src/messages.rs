//! The typed messages of the protocol and their payload codecs.
//!
//! A payload is a sequence of fields; a message reads, for each of its fields,
//! the last occurrence with the matching number and wire type, and falls back
//! to a default (zero, false, empty) where the field is absent. Unknown fields
//! are ignored. String-valued fields travel as byte strings: the engine never
//! interprets their contents.

use vstd::prelude::*;
use crate::fields::{
    take_fields, last_varint_field, last_fixed32_field, last_bytes_field, views_of_fields,
    fields_bytes, field_valid, FieldV, FieldValueV, FieldValue, parse_all_fields,
    write_varint_field, write_fixed32_field, write_bytes_field, lemma_fields_bytes1,
    lemma_fields_bytes2, lemma_fields_bytes3, lemma_fields_roundtrip,
};

verus! {

/// Opens a session: carries a description of the client.
#[derive(Debug, Clone, PartialEq)]
pub struct HelloRequest {
    pub client_info: Vec<u8>,
}

/// The mathematical value of a [`HelloRequest`].
pub struct HelloRequestV {
    pub client_info: Seq<u8>,
}

impl View for HelloRequest {
    type V = HelloRequestV;

    open spec fn view(&self) -> HelloRequestV {
        HelloRequestV { client_info: self.client_info@ }
    }
}

pub open spec fn hello_request_fields(m: HelloRequestV) -> Seq<FieldV> {
    seq![FieldV { number: 1, value: FieldValueV::Bytes(m.client_info) }]
}

/// The payload of a [`HelloRequest`].
pub open spec fn hello_request_bytes(m: HelloRequestV) -> Seq<u8> {
    fields_bytes(hello_request_fields(m))
}

/// What a payload means read as a [`HelloRequest`].
pub open spec fn parsed_hello_request(s: Seq<u8>) -> Option<HelloRequestV> {
    match take_fields(s) {
        Some(fs) => Some(HelloRequestV { client_info: last_bytes_field(fs, 1) }),
        None => None,
    }
}

/// Encode a [`HelloRequest`] payload.
pub fn encode_hello_request(m: &HelloRequest) -> (r: Vec<u8>)
    requires
        m.client_info@.len() <= u32::MAX,
    ensures
        r@ == hello_request_bytes(m@),
{
    let mut out: Vec<u8> = Vec::new();
    write_bytes_field(&mut out, 1, &m.client_info);
    proof {
        lemma_fields_bytes1(FieldV { number: 1, value: FieldValueV::Bytes(m.client_info@) });
        assert(out@ =~= hello_request_bytes(m@));
    }
    out
}

/// Decode a [`HelloRequest`] payload.
pub fn decode_hello_request(payload: &Vec<u8>) -> (r: Option<HelloRequest>)
    ensures
        match parsed_hello_request(payload@) {
            Some(m) => r matches Some(d) && d@ == m,
            None => r is None,
        },
{
    let fields = match parse_all_fields(payload) {
        Some(fs) => fs,
        None => {
            return None;
        },
    };
    let ghost fsv = views_of_fields(fields@);
    let mut client_info: Vec<u8> = Vec::new();
    let n = fields.len();
    proof {
        assert(fsv.take(0) =~= Seq::<FieldV>::empty());
    }
    let mut i: usize = 0;
    while i < n
        invariant
            n == fields@.len(),
            i <= n,
            fsv == views_of_fields(fields@),
            client_info@ == last_bytes_field(fsv.take(i as int), 1),
        decreases n - i,
    {
        proof {
            assert(fsv.take(i as int + 1).drop_last() =~= fsv.take(i as int));
            assert(fsv.take(i as int + 1).last() == fsv[i as int]);
            assert(fsv[i as int] == fields@[i as int]@);
        }
        let f = &fields[i];
        match &f.value {
            FieldValue::Bytes(b) => {
                if f.number == 1 {
                    client_info = crate::fields::copy_range(b, 0, b.len());
                    assert(client_info@ =~= b@);
                }
            },
            _ => {},
        }
        i = i + 1;
    }
    proof {
        assert(fsv.take(n as int) =~= fsv);
    }
    Some(HelloRequest { client_info })
}

/// Answers a [`HelloRequest`]: carries the server's protocol version and its
/// banner string.
#[derive(Debug, Clone, PartialEq)]
pub struct HelloResponse {
    pub api_version_major: u32,
    pub api_version_minor: u32,
    pub server_info: Vec<u8>,
}

/// The mathematical value of a [`HelloResponse`].
pub struct HelloResponseV {
    pub api_version_major: u32,
    pub api_version_minor: u32,
    pub server_info: Seq<u8>,
}

impl View for HelloResponse {
    type V = HelloResponseV;

    open spec fn view(&self) -> HelloResponseV {
        HelloResponseV {
            api_version_major: self.api_version_major,
            api_version_minor: self.api_version_minor,
            server_info: self.server_info@,
        }
    }
}

pub open spec fn hello_response_fields(m: HelloResponseV) -> Seq<FieldV> {
    seq![
        FieldV { number: 1, value: FieldValueV::Varint(m.api_version_major) },
        FieldV { number: 2, value: FieldValueV::Varint(m.api_version_minor) },
        FieldV { number: 3, value: FieldValueV::Bytes(m.server_info) },
    ]
}

/// The payload of a [`HelloResponse`].
pub open spec fn hello_response_bytes(m: HelloResponseV) -> Seq<u8> {
    fields_bytes(hello_response_fields(m))
}

/// What a payload means read as a [`HelloResponse`].
pub open spec fn parsed_hello_response(s: Seq<u8>) -> Option<HelloResponseV> {
    match take_fields(s) {
        Some(fs) => Some(HelloResponseV {
            api_version_major: last_varint_field(fs, 1, 0),
            api_version_minor: last_varint_field(fs, 2, 0),
            server_info: last_bytes_field(fs, 3),
        }),
        None => None,
    }
}

/// Encode a [`HelloResponse`] payload.
pub fn encode_hello_response(m: &HelloResponse) -> (r: Vec<u8>)
    requires
        m.server_info@.len() <= u32::MAX,
    ensures
        r@ == hello_response_bytes(m@),
{
    let mut out: Vec<u8> = Vec::new();
    write_varint_field(&mut out, 1, m.api_version_major);
    write_varint_field(&mut out, 2, m.api_version_minor);
    write_bytes_field(&mut out, 3, &m.server_info);
    proof {
        lemma_fields_bytes3(
            FieldV { number: 1, value: FieldValueV::Varint(m.api_version_major) },
            FieldV { number: 2, value: FieldValueV::Varint(m.api_version_minor) },
            FieldV { number: 3, value: FieldValueV::Bytes(m.server_info@) },
        );
        assert(out@ =~= hello_response_bytes(m@));
    }
    out
}

/// Decode a [`HelloResponse`] payload.
pub fn decode_hello_response(payload: &Vec<u8>) -> (r: Option<HelloResponse>)
    ensures
        match parsed_hello_response(payload@) {
            Some(m) => r matches Some(d) && d@ == m,
            None => r is None,
        },
{
    let fields = match parse_all_fields(payload) {
        Some(fs) => fs,
        None => {
            return None;
        },
    };
    let ghost fsv = views_of_fields(fields@);
    let mut m = HelloResponse {
        api_version_major: 0,
        api_version_minor: 0,
        server_info: Vec::new(),
    };
    let n = fields.len();
    proof {
        assert(fsv.take(0) =~= Seq::<FieldV>::empty());
    }
    let mut i: usize = 0;
    while i < n
        invariant
            n == fields@.len(),
            i <= n,
            fsv == views_of_fields(fields@),
            m.api_version_major == last_varint_field(fsv.take(i as int), 1, 0),
            m.api_version_minor == last_varint_field(fsv.take(i as int), 2, 0),
            m.server_info@ == last_bytes_field(fsv.take(i as int), 3),
        decreases n - i,
    {
        proof {
            assert(fsv.take(i as int + 1).drop_last() =~= fsv.take(i as int));
            assert(fsv.take(i as int + 1).last() == fsv[i as int]);
            assert(fsv[i as int] == fields@[i as int]@);
        }
        let f = &fields[i];
        match &f.value {
            FieldValue::Varint(v) => {
                if f.number == 1 {
                    m.api_version_major = *v;
                } else if f.number == 2 {
                    m.api_version_minor = *v;
                }
            },
            FieldValue::Bytes(b) => {
                if f.number == 3 {
                    m.server_info = crate::fields::copy_range(b, 0, b.len());
                    assert(m.server_info@ =~= b@);
                }
            },
            _ => {},
        }
        i = i + 1;
    }
    proof {
        assert(fsv.take(n as int) =~= fsv);
    }
    Some(m)
}

/// Authenticates the session: carries the password.
#[derive(Debug, Clone, PartialEq)]
pub struct ConnectRequest {
    pub password: Vec<u8>,
}

/// The mathematical value of a [`ConnectRequest`].
pub struct ConnectRequestV {
    pub password: Seq<u8>,
}

impl View for ConnectRequest {
    type V = ConnectRequestV;

    open spec fn view(&self) -> ConnectRequestV {
        ConnectRequestV { password: self.password@ }
    }
}

pub open spec fn connect_request_fields(m: ConnectRequestV) -> Seq<FieldV> {
    seq![FieldV { number: 1, value: FieldValueV::Bytes(m.password) }]
}

/// The payload of a [`ConnectRequest`].
pub open spec fn connect_request_bytes(m: ConnectRequestV) -> Seq<u8> {
    fields_bytes(connect_request_fields(m))
}

/// What a payload means read as a [`ConnectRequest`].
pub open spec fn parsed_connect_request(s: Seq<u8>) -> Option<ConnectRequestV> {
    match take_fields(s) {
        Some(fs) => Some(ConnectRequestV { password: last_bytes_field(fs, 1) }),
        None => None,
    }
}

/// Encode a [`ConnectRequest`] payload.
pub fn encode_connect_request(m: &ConnectRequest) -> (r: Vec<u8>)
    requires
        m.password@.len() <= u32::MAX,
    ensures
        r@ == connect_request_bytes(m@),
{
    let mut out: Vec<u8> = Vec::new();
    write_bytes_field(&mut out, 1, &m.password);
    proof {
        lemma_fields_bytes1(FieldV { number: 1, value: FieldValueV::Bytes(m.password@) });
        assert(out@ =~= connect_request_bytes(m@));
    }
    out
}

/// Answers a [`ConnectRequest`]: reports whether the password was rejected.
#[derive(Debug, Clone, PartialEq)]
pub struct ConnectResponse {
    pub invalid_password: bool,
}

/// The mathematical value of a [`ConnectResponse`].
pub struct ConnectResponseV {
    pub invalid_password: bool,
}

impl View for ConnectResponse {
    type V = ConnectResponseV;

    open spec fn view(&self) -> ConnectResponseV {
        ConnectResponseV { invalid_password: self.invalid_password }
    }
}

pub open spec fn connect_response_fields(m: ConnectResponseV) -> Seq<FieldV> {
    seq![
        FieldV {
            number: 1,
            value: FieldValueV::Varint(if m.invalid_password { 1u32 } else { 0u32 }),
        },
    ]
}

/// The payload of a [`ConnectResponse`].
pub open spec fn connect_response_bytes(m: ConnectResponseV) -> Seq<u8> {
    fields_bytes(connect_response_fields(m))
}

/// What a payload means read as a [`ConnectResponse`].
pub open spec fn parsed_connect_response(s: Seq<u8>) -> Option<ConnectResponseV> {
    match take_fields(s) {
        Some(fs) => Some(ConnectResponseV {
            invalid_password: last_varint_field(fs, 1, 0) != 0,
        }),
        None => None,
    }
}

/// Encode a [`ConnectResponse`] payload.
pub fn encode_connect_response(m: &ConnectResponse) -> (r: Vec<u8>)
    ensures
        r@ == connect_response_bytes(m@),
{
    let mut out: Vec<u8> = Vec::new();
    let v: u32 = if m.invalid_password { 1 } else { 0 };
    write_varint_field(&mut out, 1, v);
    proof {
        lemma_fields_bytes1(FieldV { number: 1, value: FieldValueV::Varint(v) });
        assert(out@ =~= connect_response_bytes(m@));
    }
    out
}

/// Decode a [`ConnectResponse`] payload.
pub fn decode_connect_response(payload: &Vec<u8>) -> (r: Option<ConnectResponse>)
    ensures
        match parsed_connect_response(payload@) {
            Some(m) => r matches Some(d) && d@ == m,
            None => r is None,
        },
{
    let fields = match parse_all_fields(payload) {
        Some(fs) => fs,
        None => {
            return None;
        },
    };
    let ghost fsv = views_of_fields(fields@);
    let mut m = ConnectResponse { invalid_password: false };
    let n = fields.len();
    proof {
        assert(fsv.take(0) =~= Seq::<FieldV>::empty());
    }
    let mut i: usize = 0;
    while i < n
        invariant
            n == fields@.len(),
            i <= n,
            fsv == views_of_fields(fields@),
            m.invalid_password == (last_varint_field(fsv.take(i as int), 1, 0) != 0),
        decreases n - i,
    {
        proof {
            assert(fsv.take(i as int + 1).drop_last() =~= fsv.take(i as int));
            assert(fsv.take(i as int + 1).last() == fsv[i as int]);
            assert(fsv[i as int] == fields@[i as int]@);
        }
        let f = &fields[i];
        match &f.value {
            FieldValue::Varint(v) => {
                if f.number == 1 {
                    m.invalid_password = *v != 0;
                }
            },
            _ => {},
        }
        i = i + 1;
    }
    proof {
        assert(fsv.take(n as int) =~= fsv);
    }
    Some(m)
}

/// Answers a clock query: carries the current epoch seconds.
#[derive(Debug, Clone, PartialEq)]
pub struct GetTimeResponse {
    pub epoch_seconds: u32,
}

/// The mathematical value of a [`GetTimeResponse`].
pub struct GetTimeResponseV {
    pub epoch_seconds: u32,
}

impl View for GetTimeResponse {
    type V = GetTimeResponseV;

    open spec fn view(&self) -> GetTimeResponseV {
        GetTimeResponseV { epoch_seconds: self.epoch_seconds }
    }
}

pub open spec fn get_time_response_fields(m: GetTimeResponseV) -> Seq<FieldV> {
    seq![FieldV { number: 1, value: FieldValueV::Fixed32(m.epoch_seconds) }]
}

/// The payload of a [`GetTimeResponse`].
pub open spec fn get_time_response_bytes(m: GetTimeResponseV) -> Seq<u8> {
    fields_bytes(get_time_response_fields(m))
}

/// What a payload means read as a [`GetTimeResponse`].
pub open spec fn parsed_get_time_response(s: Seq<u8>) -> Option<GetTimeResponseV> {
    match take_fields(s) {
        Some(fs) => Some(GetTimeResponseV { epoch_seconds: last_fixed32_field(fs, 1, 0) }),
        None => None,
    }
}

/// Encode a [`GetTimeResponse`] payload.
pub fn encode_get_time_response(m: &GetTimeResponse) -> (r: Vec<u8>)
    ensures
        r@ == get_time_response_bytes(m@),
{
    let mut out: Vec<u8> = Vec::new();
    write_fixed32_field(&mut out, 1, m.epoch_seconds);
    proof {
        lemma_fields_bytes1(FieldV { number: 1, value: FieldValueV::Fixed32(m.epoch_seconds) });
        assert(out@ =~= get_time_response_bytes(m@));
    }
    out
}

/// Decode a [`GetTimeResponse`] payload.
pub fn decode_get_time_response(payload: &Vec<u8>) -> (r: Option<GetTimeResponse>)
    ensures
        match parsed_get_time_response(payload@) {
            Some(m) => r matches Some(d) && d@ == m,
            None => r is None,
        },
{
    let fields = match parse_all_fields(payload) {
        Some(fs) => fs,
        None => {
            return None;
        },
    };
    let ghost fsv = views_of_fields(fields@);
    let mut m = GetTimeResponse { epoch_seconds: 0 };
    let n = fields.len();
    proof {
        assert(fsv.take(0) =~= Seq::<FieldV>::empty());
    }
    let mut i: usize = 0;
    while i < n
        invariant
            n == fields@.len(),
            i <= n,
            fsv == views_of_fields(fields@),
            m.epoch_seconds == last_fixed32_field(fsv.take(i as int), 1, 0),
        decreases n - i,
    {
        proof {
            assert(fsv.take(i as int + 1).drop_last() =~= fsv.take(i as int));
            assert(fsv.take(i as int + 1).last() == fsv[i as int]);
            assert(fsv[i as int] == fields@[i as int]@);
        }
        let f = &fields[i];
        match &f.value {
            FieldValue::Fixed32(v) => {
                if f.number == 1 {
                    m.epoch_seconds = *v;
                }
            },
            _ => {},
        }
        i = i + 1;
    }
    proof {
        assert(fsv.take(n as int) =~= fsv);
    }
    Some(m)
}

/// Answers a device-information request.
#[derive(Debug, Clone, PartialEq)]
pub struct DeviceInfoResponse {
    pub name: Vec<u8>,
    pub mac_address: Vec<u8>,
    pub esphome_version: Vec<u8>,
    pub compilation_time: Vec<u8>,
    pub model: Vec<u8>,
}

/// The mathematical value of a [`DeviceInfoResponse`].
pub struct DeviceInfoResponseV {
    pub name: Seq<u8>,
    pub mac_address: Seq<u8>,
    pub esphome_version: Seq<u8>,
    pub compilation_time: Seq<u8>,
    pub model: Seq<u8>,
}

impl View for DeviceInfoResponse {
    type V = DeviceInfoResponseV;

    open spec fn view(&self) -> DeviceInfoResponseV {
        DeviceInfoResponseV {
            name: self.name@,
            mac_address: self.mac_address@,
            esphome_version: self.esphome_version@,
            compilation_time: self.compilation_time@,
            model: self.model@,
        }
    }
}

pub open spec fn device_info_response_fields(m: DeviceInfoResponseV) -> Seq<FieldV> {
    seq![
        FieldV { number: 2, value: FieldValueV::Bytes(m.name) },
        FieldV { number: 3, value: FieldValueV::Bytes(m.mac_address) },
        FieldV { number: 4, value: FieldValueV::Bytes(m.esphome_version) },
        FieldV { number: 5, value: FieldValueV::Bytes(m.compilation_time) },
        FieldV { number: 6, value: FieldValueV::Bytes(m.model) },
    ]
}

/// The payload of a [`DeviceInfoResponse`].
pub open spec fn device_info_response_bytes(m: DeviceInfoResponseV) -> Seq<u8> {
    fields_bytes(device_info_response_fields(m))
}

/// What a payload means read as a [`DeviceInfoResponse`].
pub open spec fn parsed_device_info_response(s: Seq<u8>) -> Option<DeviceInfoResponseV> {
    match take_fields(s) {
        Some(fs) => Some(DeviceInfoResponseV {
            name: last_bytes_field(fs, 2),
            mac_address: last_bytes_field(fs, 3),
            esphome_version: last_bytes_field(fs, 4),
            compilation_time: last_bytes_field(fs, 5),
            model: last_bytes_field(fs, 6),
        }),
        None => None,
    }
}

/// Encode a [`DeviceInfoResponse`] payload.
pub fn encode_device_info_response(m: &DeviceInfoResponse) -> (r: Vec<u8>)
    requires
        m.name@.len() <= u32::MAX,
        m.mac_address@.len() <= u32::MAX,
        m.esphome_version@.len() <= u32::MAX,
        m.compilation_time@.len() <= u32::MAX,
        m.model@.len() <= u32::MAX,
    ensures
        r@ == device_info_response_bytes(m@),
{
    let mut out: Vec<u8> = Vec::new();
    write_bytes_field(&mut out, 2, &m.name);
    write_bytes_field(&mut out, 3, &m.mac_address);
    write_bytes_field(&mut out, 4, &m.esphome_version);
    write_bytes_field(&mut out, 5, &m.compilation_time);
    write_bytes_field(&mut out, 6, &m.model);
    proof {
        crate::fields::lemma_fields_bytes5(
            FieldV { number: 2, value: FieldValueV::Bytes(m.name@) },
            FieldV { number: 3, value: FieldValueV::Bytes(m.mac_address@) },
            FieldV { number: 4, value: FieldValueV::Bytes(m.esphome_version@) },
            FieldV { number: 5, value: FieldValueV::Bytes(m.compilation_time@) },
            FieldV { number: 6, value: FieldValueV::Bytes(m.model@) },
        );
        assert(out@ =~= device_info_response_bytes(m@));
    }
    out
}

/// Decode a [`DeviceInfoResponse`] payload.
pub fn decode_device_info_response(payload: &Vec<u8>) -> (r: Option<DeviceInfoResponse>)
    ensures
        match parsed_device_info_response(payload@) {
            Some(m) => r matches Some(d) && d@ == m,
            None => r is None,
        },
{
    let fields = match parse_all_fields(payload) {
        Some(fs) => fs,
        None => {
            return None;
        },
    };
    let ghost fsv = views_of_fields(fields@);
    let mut m = DeviceInfoResponse {
        name: Vec::new(),
        mac_address: Vec::new(),
        esphome_version: Vec::new(),
        compilation_time: Vec::new(),
        model: Vec::new(),
    };
    let n = fields.len();
    proof {
        assert(fsv.take(0) =~= Seq::<FieldV>::empty());
    }
    let mut i: usize = 0;
    while i < n
        invariant
            n == fields@.len(),
            i <= n,
            fsv == views_of_fields(fields@),
            m.name@ == last_bytes_field(fsv.take(i as int), 2),
            m.mac_address@ == last_bytes_field(fsv.take(i as int), 3),
            m.esphome_version@ == last_bytes_field(fsv.take(i as int), 4),
            m.compilation_time@ == last_bytes_field(fsv.take(i as int), 5),
            m.model@ == last_bytes_field(fsv.take(i as int), 6),
        decreases n - i,
    {
        proof {
            assert(fsv.take(i as int + 1).drop_last() =~= fsv.take(i as int));
            assert(fsv.take(i as int + 1).last() == fsv[i as int]);
            assert(fsv[i as int] == fields@[i as int]@);
        }
        let f = &fields[i];
        match &f.value {
            FieldValue::Bytes(b) => {
                if f.number == 2 {
                    m.name = crate::fields::clone_bytes(b);
                } else if f.number == 3 {
                    m.mac_address = crate::fields::clone_bytes(b);
                } else if f.number == 4 {
                    m.esphome_version = crate::fields::clone_bytes(b);
                } else if f.number == 5 {
                    m.compilation_time = crate::fields::clone_bytes(b);
                } else if f.number == 6 {
                    m.model = crate::fields::clone_bytes(b);
                }
            },
            _ => {},
        }
        i = i + 1;
    }
    proof {
        assert(fsv.take(n as int) =~= fsv);
    }
    Some(m)
}

/// One enumerated entity, as carried by every per-kind enumeration response
/// other than the services one.
#[derive(Debug, Clone, PartialEq)]
pub struct ListEntitiesEntityResponse {
    pub object_id: Vec<u8>,
    pub key: u32,
    pub name: Vec<u8>,
    pub unique_id: Vec<u8>,
}

/// The mathematical value of a [`ListEntitiesEntityResponse`].
pub struct ListEntitiesEntityResponseV {
    pub object_id: Seq<u8>,
    pub key: u32,
    pub name: Seq<u8>,
    pub unique_id: Seq<u8>,
}

impl View for ListEntitiesEntityResponse {
    type V = ListEntitiesEntityResponseV;

    open spec fn view(&self) -> ListEntitiesEntityResponseV {
        ListEntitiesEntityResponseV {
            object_id: self.object_id@,
            key: self.key,
            name: self.name@,
            unique_id: self.unique_id@,
        }
    }
}

pub open spec fn entity_response_fields(m: ListEntitiesEntityResponseV) -> Seq<FieldV> {
    seq![
        FieldV { number: 1, value: FieldValueV::Bytes(m.object_id) },
        FieldV { number: 2, value: FieldValueV::Fixed32(m.key) },
        FieldV { number: 3, value: FieldValueV::Bytes(m.name) },
        FieldV { number: 4, value: FieldValueV::Bytes(m.unique_id) },
    ]
}

/// The payload of a [`ListEntitiesEntityResponse`].
pub open spec fn entity_response_bytes(m: ListEntitiesEntityResponseV) -> Seq<u8> {
    fields_bytes(entity_response_fields(m))
}

/// What a payload means read as a [`ListEntitiesEntityResponse`].
pub open spec fn parsed_entity_response(s: Seq<u8>) -> Option<ListEntitiesEntityResponseV> {
    match take_fields(s) {
        Some(fs) => Some(ListEntitiesEntityResponseV {
            object_id: last_bytes_field(fs, 1),
            key: last_fixed32_field(fs, 2, 0),
            name: last_bytes_field(fs, 3),
            unique_id: last_bytes_field(fs, 4),
        }),
        None => None,
    }
}

/// Encode a [`ListEntitiesEntityResponse`] payload.
pub fn encode_entity_response(m: &ListEntitiesEntityResponse) -> (r: Vec<u8>)
    requires
        m.object_id@.len() <= u32::MAX,
        m.name@.len() <= u32::MAX,
        m.unique_id@.len() <= u32::MAX,
    ensures
        r@ == entity_response_bytes(m@),
{
    let mut out: Vec<u8> = Vec::new();
    write_bytes_field(&mut out, 1, &m.object_id);
    write_fixed32_field(&mut out, 2, m.key);
    write_bytes_field(&mut out, 3, &m.name);
    write_bytes_field(&mut out, 4, &m.unique_id);
    proof {
        crate::fields::lemma_fields_bytes4(
            FieldV { number: 1, value: FieldValueV::Bytes(m.object_id@) },
            FieldV { number: 2, value: FieldValueV::Fixed32(m.key) },
            FieldV { number: 3, value: FieldValueV::Bytes(m.name@) },
            FieldV { number: 4, value: FieldValueV::Bytes(m.unique_id@) },
        );
        assert(out@ =~= entity_response_bytes(m@));
    }
    out
}

/// Decode a [`ListEntitiesEntityResponse`] payload.
pub fn decode_entity_response(payload: &Vec<u8>) -> (r: Option<ListEntitiesEntityResponse>)
    ensures
        match parsed_entity_response(payload@) {
            Some(m) => r matches Some(d) && d@ == m,
            None => r is None,
        },
{
    let fields = match parse_all_fields(payload) {
        Some(fs) => fs,
        None => {
            return None;
        },
    };
    let ghost fsv = views_of_fields(fields@);
    let mut m = ListEntitiesEntityResponse {
        object_id: Vec::new(),
        key: 0,
        name: Vec::new(),
        unique_id: Vec::new(),
    };
    let n = fields.len();
    proof {
        assert(fsv.take(0) =~= Seq::<FieldV>::empty());
    }
    let mut i: usize = 0;
    while i < n
        invariant
            n == fields@.len(),
            i <= n,
            fsv == views_of_fields(fields@),
            m.object_id@ == last_bytes_field(fsv.take(i as int), 1),
            m.key == last_fixed32_field(fsv.take(i as int), 2, 0),
            m.name@ == last_bytes_field(fsv.take(i as int), 3),
            m.unique_id@ == last_bytes_field(fsv.take(i as int), 4),
        decreases n - i,
    {
        proof {
            assert(fsv.take(i as int + 1).drop_last() =~= fsv.take(i as int));
            assert(fsv.take(i as int + 1).last() == fsv[i as int]);
            assert(fsv[i as int] == fields@[i as int]@);
        }
        let f = &fields[i];
        match &f.value {
            FieldValue::Bytes(b) => {
                if f.number == 1 {
                    m.object_id = crate::fields::clone_bytes(b);
                } else if f.number == 3 {
                    m.name = crate::fields::clone_bytes(b);
                } else if f.number == 4 {
                    m.unique_id = crate::fields::clone_bytes(b);
                }
            },
            FieldValue::Fixed32(v) => {
                if f.number == 2 {
                    m.key = *v;
                }
            },
            _ => {},
        }
        i = i + 1;
    }
    proof {
        assert(fsv.take(n as int) =~= fsv);
    }
    Some(m)
}

/// One enumerated service entry: it carries a name and a key only.
#[derive(Debug, Clone, PartialEq)]
pub struct ListEntitiesServicesResponse {
    pub name: Vec<u8>,
    pub key: u32,
}

/// The mathematical value of a [`ListEntitiesServicesResponse`].
pub struct ListEntitiesServicesResponseV {
    pub name: Seq<u8>,
    pub key: u32,
}

impl View for ListEntitiesServicesResponse {
    type V = ListEntitiesServicesResponseV;

    open spec fn view(&self) -> ListEntitiesServicesResponseV {
        ListEntitiesServicesResponseV { name: self.name@, key: self.key }
    }
}

pub open spec fn services_response_fields(m: ListEntitiesServicesResponseV) -> Seq<FieldV> {
    seq![
        FieldV { number: 1, value: FieldValueV::Bytes(m.name) },
        FieldV { number: 2, value: FieldValueV::Fixed32(m.key) },
    ]
}

/// The payload of a [`ListEntitiesServicesResponse`].
pub open spec fn services_response_bytes(m: ListEntitiesServicesResponseV) -> Seq<u8> {
    fields_bytes(services_response_fields(m))
}

/// What a payload means read as a [`ListEntitiesServicesResponse`].
pub open spec fn parsed_services_response(s: Seq<u8>) -> Option<ListEntitiesServicesResponseV> {
    match take_fields(s) {
        Some(fs) => Some(ListEntitiesServicesResponseV {
            name: last_bytes_field(fs, 1),
            key: last_fixed32_field(fs, 2, 0),
        }),
        None => None,
    }
}

/// Encode a [`ListEntitiesServicesResponse`] payload.
pub fn encode_services_response(m: &ListEntitiesServicesResponse) -> (r: Vec<u8>)
    requires
        m.name@.len() <= u32::MAX,
    ensures
        r@ == services_response_bytes(m@),
{
    let mut out: Vec<u8> = Vec::new();
    write_bytes_field(&mut out, 1, &m.name);
    write_fixed32_field(&mut out, 2, m.key);
    proof {
        lemma_fields_bytes2(
            FieldV { number: 1, value: FieldValueV::Bytes(m.name@) },
            FieldV { number: 2, value: FieldValueV::Fixed32(m.key) },
        );
        assert(out@ =~= services_response_bytes(m@));
    }
    out
}

/// Decode a [`ListEntitiesServicesResponse`] payload.
pub fn decode_services_response(payload: &Vec<u8>) -> (r: Option<ListEntitiesServicesResponse>)
    ensures
        match parsed_services_response(payload@) {
            Some(m) => r matches Some(d) && d@ == m,
            None => r is None,
        },
{
    let fields = match parse_all_fields(payload) {
        Some(fs) => fs,
        None => {
            return None;
        },
    };
    let ghost fsv = views_of_fields(fields@);
    let mut m = ListEntitiesServicesResponse { name: Vec::new(), key: 0 };
    let n = fields.len();
    proof {
        assert(fsv.take(0) =~= Seq::<FieldV>::empty());
    }
    let mut i: usize = 0;
    while i < n
        invariant
            n == fields@.len(),
            i <= n,
            fsv == views_of_fields(fields@),
            m.name@ == last_bytes_field(fsv.take(i as int), 1),
            m.key == last_fixed32_field(fsv.take(i as int), 2, 0),
        decreases n - i,
    {
        proof {
            assert(fsv.take(i as int + 1).drop_last() =~= fsv.take(i as int));
            assert(fsv.take(i as int + 1).last() == fsv[i as int]);
            assert(fsv[i as int] == fields@[i as int]@);
        }
        let f = &fields[i];
        match &f.value {
            FieldValue::Bytes(b) => {
                if f.number == 1 {
                    m.name = crate::fields::clone_bytes(b);
                }
            },
            FieldValue::Fixed32(v) => {
                if f.number == 2 {
                    m.key = *v;
                }
            },
            _ => {},
        }
        i = i + 1;
    }
    proof {
        assert(fsv.take(n as int) =~= fsv);
    }
    Some(m)
}

/// A pushed two-valued sensor reading.
#[derive(Debug, Clone, PartialEq)]
pub struct BinarySensorStateResponse {
    pub key: u32,
    pub state: bool,
}

/// The mathematical value of a [`BinarySensorStateResponse`].
pub struct BinarySensorStateResponseV {
    pub key: u32,
    pub state: bool,
}

impl View for BinarySensorStateResponse {
    type V = BinarySensorStateResponseV;

    open spec fn view(&self) -> BinarySensorStateResponseV {
        BinarySensorStateResponseV { key: self.key, state: self.state }
    }
}

pub open spec fn binary_sensor_state_fields(m: BinarySensorStateResponseV) -> Seq<FieldV> {
    seq![
        FieldV { number: 1, value: FieldValueV::Fixed32(m.key) },
        FieldV { number: 2, value: FieldValueV::Varint(if m.state { 1u32 } else { 0u32 }) },
    ]
}

/// The payload of a [`BinarySensorStateResponse`].
pub open spec fn binary_sensor_state_bytes(m: BinarySensorStateResponseV) -> Seq<u8> {
    fields_bytes(binary_sensor_state_fields(m))
}

/// What a payload means read as a [`BinarySensorStateResponse`].
pub open spec fn parsed_binary_sensor_state(s: Seq<u8>) -> Option<BinarySensorStateResponseV> {
    match take_fields(s) {
        Some(fs) => Some(BinarySensorStateResponseV {
            key: last_fixed32_field(fs, 1, 0),
            state: last_varint_field(fs, 2, 0) != 0,
        }),
        None => None,
    }
}

/// Encode a [`BinarySensorStateResponse`] payload.
pub fn encode_binary_sensor_state(m: &BinarySensorStateResponse) -> (r: Vec<u8>)
    ensures
        r@ == binary_sensor_state_bytes(m@),
{
    let mut out: Vec<u8> = Vec::new();
    let v: u32 = if m.state { 1 } else { 0 };
    write_fixed32_field(&mut out, 1, m.key);
    write_varint_field(&mut out, 2, v);
    proof {
        lemma_fields_bytes2(
            FieldV { number: 1, value: FieldValueV::Fixed32(m.key) },
            FieldV { number: 2, value: FieldValueV::Varint(v) },
        );
        assert(out@ =~= binary_sensor_state_bytes(m@));
    }
    out
}

/// Decode a [`BinarySensorStateResponse`] payload.
pub fn decode_binary_sensor_state(payload: &Vec<u8>) -> (r: Option<BinarySensorStateResponse>)
    ensures
        match parsed_binary_sensor_state(payload@) {
            Some(m) => r matches Some(d) && d@ == m,
            None => r is None,
        },
{
    let fields = match parse_all_fields(payload) {
        Some(fs) => fs,
        None => {
            return None;
        },
    };
    let ghost fsv = views_of_fields(fields@);
    let mut m = BinarySensorStateResponse { key: 0, state: false };
    let n = fields.len();
    proof {
        assert(fsv.take(0) =~= Seq::<FieldV>::empty());
    }
    let mut i: usize = 0;
    while i < n
        invariant
            n == fields@.len(),
            i <= n,
            fsv == views_of_fields(fields@),
            m.key == last_fixed32_field(fsv.take(i as int), 1, 0),
            m.state == (last_varint_field(fsv.take(i as int), 2, 0) != 0),
        decreases n - i,
    {
        proof {
            assert(fsv.take(i as int + 1).drop_last() =~= fsv.take(i as int));
            assert(fsv.take(i as int + 1).last() == fsv[i as int]);
            assert(fsv[i as int] == fields@[i as int]@);
        }
        let f = &fields[i];
        match &f.value {
            FieldValue::Fixed32(v) => {
                if f.number == 1 {
                    m.key = *v;
                }
            },
            FieldValue::Varint(v) => {
                if f.number == 2 {
                    m.state = *v != 0;
                }
            },
            _ => {},
        }
        i = i + 1;
    }
    proof {
        assert(fsv.take(n as int) =~= fsv);
    }
    Some(m)
}

/// A pushed numeric sensor reading; the measurement travels as the bit
/// pattern of a 32-bit floating-point word, which the engine stores without
/// interpreting.
#[derive(Debug, Clone, PartialEq)]
pub struct SensorStateResponse {
    pub key: u32,
    pub state_bits: u32,
}

/// The mathematical value of a [`SensorStateResponse`].
pub struct SensorStateResponseV {
    pub key: u32,
    pub state_bits: u32,
}

impl View for SensorStateResponse {
    type V = SensorStateResponseV;

    open spec fn view(&self) -> SensorStateResponseV {
        SensorStateResponseV { key: self.key, state_bits: self.state_bits }
    }
}

pub open spec fn sensor_state_fields(m: SensorStateResponseV) -> Seq<FieldV> {
    seq![
        FieldV { number: 1, value: FieldValueV::Fixed32(m.key) },
        FieldV { number: 2, value: FieldValueV::Fixed32(m.state_bits) },
    ]
}

/// The payload of a [`SensorStateResponse`].
pub open spec fn sensor_state_bytes(m: SensorStateResponseV) -> Seq<u8> {
    fields_bytes(sensor_state_fields(m))
}

/// What a payload means read as a [`SensorStateResponse`].
pub open spec fn parsed_sensor_state(s: Seq<u8>) -> Option<SensorStateResponseV> {
    match take_fields(s) {
        Some(fs) => Some(SensorStateResponseV {
            key: last_fixed32_field(fs, 1, 0),
            state_bits: last_fixed32_field(fs, 2, 0),
        }),
        None => None,
    }
}

/// Encode a [`SensorStateResponse`] payload.
pub fn encode_sensor_state(m: &SensorStateResponse) -> (r: Vec<u8>)
    ensures
        r@ == sensor_state_bytes(m@),
{
    let mut out: Vec<u8> = Vec::new();
    write_fixed32_field(&mut out, 1, m.key);
    write_fixed32_field(&mut out, 2, m.state_bits);
    proof {
        lemma_fields_bytes2(
            FieldV { number: 1, value: FieldValueV::Fixed32(m.key) },
            FieldV { number: 2, value: FieldValueV::Fixed32(m.state_bits) },
        );
        assert(out@ =~= sensor_state_bytes(m@));
    }
    out
}

/// Decode a [`SensorStateResponse`] payload.
pub fn decode_sensor_state(payload: &Vec<u8>) -> (r: Option<SensorStateResponse>)
    ensures
        match parsed_sensor_state(payload@) {
            Some(m) => r matches Some(d) && d@ == m,
            None => r is None,
        },
{
    let fields = match parse_all_fields(payload) {
        Some(fs) => fs,
        None => {
            return None;
        },
    };
    let ghost fsv = views_of_fields(fields@);
    let mut m = SensorStateResponse { key: 0, state_bits: 0 };
    let n = fields.len();
    proof {
        assert(fsv.take(0) =~= Seq::<FieldV>::empty());
    }
    let mut i: usize = 0;
    while i < n
        invariant
            n == fields@.len(),
            i <= n,
            fsv == views_of_fields(fields@),
            m.key == last_fixed32_field(fsv.take(i as int), 1, 0),
            m.state_bits == last_fixed32_field(fsv.take(i as int), 2, 0),
        decreases n - i,
    {
        proof {
            assert(fsv.take(i as int + 1).drop_last() =~= fsv.take(i as int));
            assert(fsv.take(i as int + 1).last() == fsv[i as int]);
            assert(fsv[i as int] == fields@[i as int]@);
        }
        let f = &fields[i];
        match &f.value {
            FieldValue::Fixed32(v) => {
                if f.number == 1 {
                    m.key = *v;
                } else if f.number == 2 {
                    m.state_bits = *v;
                }
            },
            _ => {},
        }
        i = i + 1;
    }
    proof {
        assert(fsv.take(n as int) =~= fsv);
    }
    Some(m)
}

/// A pushed textual sensor reading.
#[derive(Debug, Clone, PartialEq)]
pub struct TextSensorStateResponse {
    pub key: u32,
    pub state: Vec<u8>,
}

/// The mathematical value of a [`TextSensorStateResponse`].
pub struct TextSensorStateResponseV {
    pub key: u32,
    pub state: Seq<u8>,
}

impl View for TextSensorStateResponse {
    type V = TextSensorStateResponseV;

    open spec fn view(&self) -> TextSensorStateResponseV {
        TextSensorStateResponseV { key: self.key, state: self.state@ }
    }
}

pub open spec fn text_sensor_state_fields(m: TextSensorStateResponseV) -> Seq<FieldV> {
    seq![
        FieldV { number: 1, value: FieldValueV::Fixed32(m.key) },
        FieldV { number: 2, value: FieldValueV::Bytes(m.state) },
    ]
}

/// The payload of a [`TextSensorStateResponse`].
pub open spec fn text_sensor_state_bytes(m: TextSensorStateResponseV) -> Seq<u8> {
    fields_bytes(text_sensor_state_fields(m))
}

/// What a payload means read as a [`TextSensorStateResponse`].
pub open spec fn parsed_text_sensor_state(s: Seq<u8>) -> Option<TextSensorStateResponseV> {
    match take_fields(s) {
        Some(fs) => Some(TextSensorStateResponseV {
            key: last_fixed32_field(fs, 1, 0),
            state: last_bytes_field(fs, 2),
        }),
        None => None,
    }
}

/// Encode a [`TextSensorStateResponse`] payload.
pub fn encode_text_sensor_state(m: &TextSensorStateResponse) -> (r: Vec<u8>)
    requires
        m.state@.len() <= u32::MAX,
    ensures
        r@ == text_sensor_state_bytes(m@),
{
    let mut out: Vec<u8> = Vec::new();
    write_fixed32_field(&mut out, 1, m.key);
    write_bytes_field(&mut out, 2, &m.state);
    proof {
        lemma_fields_bytes2(
            FieldV { number: 1, value: FieldValueV::Fixed32(m.key) },
            FieldV { number: 2, value: FieldValueV::Bytes(m.state@) },
        );
        assert(out@ =~= text_sensor_state_bytes(m@));
    }
    out
}

/// Decode a [`TextSensorStateResponse`] payload.
pub fn decode_text_sensor_state(payload: &Vec<u8>) -> (r: Option<TextSensorStateResponse>)
    ensures
        match parsed_text_sensor_state(payload@) {
            Some(m) => r matches Some(d) && d@ == m,
            None => r is None,
        },
{
    let fields = match parse_all_fields(payload) {
        Some(fs) => fs,
        None => {
            return None;
        },
    };
    let ghost fsv = views_of_fields(fields@);
    let mut m = TextSensorStateResponse { key: 0, state: Vec::new() };
    let n = fields.len();
    proof {
        assert(fsv.take(0) =~= Seq::<FieldV>::empty());
    }
    let mut i: usize = 0;
    while i < n
        invariant
            n == fields@.len(),
            i <= n,
            fsv == views_of_fields(fields@),
            m.key == last_fixed32_field(fsv.take(i as int), 1, 0),
            m.state@ == last_bytes_field(fsv.take(i as int), 2),
        decreases n - i,
    {
        proof {
            assert(fsv.take(i as int + 1).drop_last() =~= fsv.take(i as int));
            assert(fsv.take(i as int + 1).last() == fsv[i as int]);
            assert(fsv[i as int] == fields@[i as int]@);
        }
        let f = &fields[i];
        match &f.value {
            FieldValue::Fixed32(v) => {
                if f.number == 1 {
                    m.key = *v;
                }
            },
            FieldValue::Bytes(b) => {
                if f.number == 2 {
                    m.state = crate::fields::clone_bytes(b);
                }
            },
            _ => {},
        }
        i = i + 1;
    }
    proof {
        assert(fsv.take(n as int) =~= fsv);
    }
    Some(m)
}

/// Law: reading back the encoding of a hello request yields the message.
pub proof fn lemma_hello_request_roundtrip(m: HelloRequestV)
    requires
        m.client_info.len() <= u32::MAX,
    ensures
        parsed_hello_request(hello_request_bytes(m)) == Some(m),
{
    let fs = hello_request_fields(m);
    assert(field_valid(fs[0]));
    lemma_fields_roundtrip(fs);
    assert(fs.drop_last() =~= Seq::<FieldV>::empty());
    assert(last_bytes_field(fs, 1) == m.client_info);
}

/// Law: reading back the encoding of a hello response yields the message.
pub proof fn lemma_hello_response_roundtrip(m: HelloResponseV)
    requires
        m.server_info.len() <= u32::MAX,
    ensures
        parsed_hello_response(hello_response_bytes(m)) == Some(m),
{
    reveal_with_fuel(last_varint_field, 6);
    reveal_with_fuel(last_fixed32_field, 6);
    reveal_with_fuel(last_bytes_field, 6);
    let fs = hello_response_fields(m);
    assert(field_valid(fs[0]) && field_valid(fs[1]) && field_valid(fs[2]));
    lemma_fields_roundtrip(fs);
    assert(fs.drop_last() =~= seq![fs[0], fs[1]]);
    assert(seq![fs[0], fs[1]].drop_last() =~= seq![fs[0]]);
    assert(seq![fs[0]].drop_last() =~= Seq::<FieldV>::empty());
    assert(last_varint_field(fs, 1, 0) == m.api_version_major);
    assert(last_varint_field(fs, 2, 0) == m.api_version_minor);
    assert(last_bytes_field(fs, 3) == m.server_info);
}

/// Law: reading back the encoding of a connect request yields the message.
pub proof fn lemma_connect_request_roundtrip(m: ConnectRequestV)
    requires
        m.password.len() <= u32::MAX,
    ensures
        parsed_connect_request(connect_request_bytes(m)) == Some(m),
{
    let fs = connect_request_fields(m);
    assert(field_valid(fs[0]));
    lemma_fields_roundtrip(fs);
    assert(fs.drop_last() =~= Seq::<FieldV>::empty());
    assert(last_bytes_field(fs, 1) == m.password);
}

/// Law: reading back the encoding of a connect response yields the message.
pub proof fn lemma_connect_response_roundtrip(m: ConnectResponseV)
    ensures
        parsed_connect_response(connect_response_bytes(m)) == Some(m),
{
    let fs = connect_response_fields(m);
    assert(field_valid(fs[0]));
    lemma_fields_roundtrip(fs);
    assert(fs.drop_last() =~= Seq::<FieldV>::empty());
    assert(last_varint_field(fs, 1, 0) == if m.invalid_password { 1u32 } else { 0u32 });
}

/// Law: reading back the encoding of a clock answer yields the message.
pub proof fn lemma_get_time_response_roundtrip(m: GetTimeResponseV)
    ensures
        parsed_get_time_response(get_time_response_bytes(m)) == Some(m),
{
    let fs = get_time_response_fields(m);
    assert(field_valid(fs[0]));
    lemma_fields_roundtrip(fs);
    assert(fs.drop_last() =~= Seq::<FieldV>::empty());
    assert(last_fixed32_field(fs, 1, 0) == m.epoch_seconds);
}

/// Law: reading back the encoding of a device-information response yields the
/// message.
pub proof fn lemma_device_info_response_roundtrip(m: DeviceInfoResponseV)
    requires
        m.name.len() <= u32::MAX,
        m.mac_address.len() <= u32::MAX,
        m.esphome_version.len() <= u32::MAX,
        m.compilation_time.len() <= u32::MAX,
        m.model.len() <= u32::MAX,
    ensures
        parsed_device_info_response(device_info_response_bytes(m)) == Some(m),
{
    reveal_with_fuel(last_varint_field, 6);
    reveal_with_fuel(last_fixed32_field, 6);
    reveal_with_fuel(last_bytes_field, 6);
    let fs = device_info_response_fields(m);
    assert(field_valid(fs[0]) && field_valid(fs[1]) && field_valid(fs[2]) && field_valid(fs[3])
        && field_valid(fs[4]));
    lemma_fields_roundtrip(fs);
    assert(fs.drop_last() =~= seq![fs[0], fs[1], fs[2], fs[3]]);
    assert(seq![fs[0], fs[1], fs[2], fs[3]].drop_last() =~= seq![fs[0], fs[1], fs[2]]);
    assert(seq![fs[0], fs[1], fs[2]].drop_last() =~= seq![fs[0], fs[1]]);
    assert(seq![fs[0], fs[1]].drop_last() =~= seq![fs[0]]);
    assert(seq![fs[0]].drop_last() =~= Seq::<FieldV>::empty());
    assert(last_bytes_field(fs, 2) == m.name);
    assert(last_bytes_field(fs, 3) == m.mac_address);
    assert(last_bytes_field(fs, 4) == m.esphome_version);
    assert(last_bytes_field(fs, 5) == m.compilation_time);
    assert(last_bytes_field(fs, 6) == m.model);
}

/// Law: reading back the encoding of an enumeration response yields the
/// message.
pub proof fn lemma_entity_response_roundtrip(m: ListEntitiesEntityResponseV)
    requires
        m.object_id.len() <= u32::MAX,
        m.name.len() <= u32::MAX,
        m.unique_id.len() <= u32::MAX,
    ensures
        parsed_entity_response(entity_response_bytes(m)) == Some(m),
{
    reveal_with_fuel(last_varint_field, 6);
    reveal_with_fuel(last_fixed32_field, 6);
    reveal_with_fuel(last_bytes_field, 6);
    let fs = entity_response_fields(m);
    assert(field_valid(fs[0]) && field_valid(fs[1]) && field_valid(fs[2]) && field_valid(fs[3]));
    lemma_fields_roundtrip(fs);
    assert(fs.drop_last() =~= seq![fs[0], fs[1], fs[2]]);
    assert(seq![fs[0], fs[1], fs[2]].drop_last() =~= seq![fs[0], fs[1]]);
    assert(seq![fs[0], fs[1]].drop_last() =~= seq![fs[0]]);
    assert(seq![fs[0]].drop_last() =~= Seq::<FieldV>::empty());
    assert(last_bytes_field(fs, 1) == m.object_id);
    assert(last_fixed32_field(fs, 2, 0) == m.key);
    assert(last_bytes_field(fs, 3) == m.name);
    assert(last_bytes_field(fs, 4) == m.unique_id);
}

/// Law: reading back the encoding of a services enumeration response yields
/// the message.
pub proof fn lemma_services_response_roundtrip(m: ListEntitiesServicesResponseV)
    requires
        m.name.len() <= u32::MAX,
    ensures
        parsed_services_response(services_response_bytes(m)) == Some(m),
{
    reveal_with_fuel(last_varint_field, 6);
    reveal_with_fuel(last_fixed32_field, 6);
    reveal_with_fuel(last_bytes_field, 6);
    let fs = services_response_fields(m);
    assert(field_valid(fs[0]) && field_valid(fs[1]));
    lemma_fields_roundtrip(fs);
    assert(fs.drop_last() =~= seq![fs[0]]);
    assert(seq![fs[0]].drop_last() =~= Seq::<FieldV>::empty());
    assert(last_bytes_field(fs, 1) == m.name);
    assert(last_fixed32_field(fs, 2, 0) == m.key);
}

/// Law: reading back the encoding of a two-valued state push yields the
/// message.
pub proof fn lemma_binary_sensor_state_roundtrip(m: BinarySensorStateResponseV)
    ensures
        parsed_binary_sensor_state(binary_sensor_state_bytes(m)) == Some(m),
{
    reveal_with_fuel(last_varint_field, 6);
    reveal_with_fuel(last_fixed32_field, 6);
    reveal_with_fuel(last_bytes_field, 6);
    let fs = binary_sensor_state_fields(m);
    assert(field_valid(fs[0]) && field_valid(fs[1]));
    lemma_fields_roundtrip(fs);
    assert(fs.drop_last() =~= seq![fs[0]]);
    assert(seq![fs[0]].drop_last() =~= Seq::<FieldV>::empty());
    assert(last_fixed32_field(fs, 1, 0) == m.key);
    assert(last_varint_field(fs, 2, 0) == if m.state { 1u32 } else { 0u32 });
}

/// Law: reading back the encoding of a numeric state push yields the message.
pub proof fn lemma_sensor_state_roundtrip(m: SensorStateResponseV)
    ensures
        parsed_sensor_state(sensor_state_bytes(m)) == Some(m),
{
    reveal_with_fuel(last_varint_field, 6);
    reveal_with_fuel(last_fixed32_field, 6);
    reveal_with_fuel(last_bytes_field, 6);
    let fs = sensor_state_fields(m);
    assert(field_valid(fs[0]) && field_valid(fs[1]));
    lemma_fields_roundtrip(fs);
    assert(fs.drop_last() =~= seq![fs[0]]);
    assert(seq![fs[0]].drop_last() =~= Seq::<FieldV>::empty());
    assert(last_fixed32_field(fs, 1, 0) == m.key);
    assert(last_fixed32_field(fs, 2, 0) == m.state_bits);
}

/// Law: reading back the encoding of a textual state push yields the message.
pub proof fn lemma_text_sensor_state_roundtrip(m: TextSensorStateResponseV)
    requires
        m.state.len() <= u32::MAX,
    ensures
        parsed_text_sensor_state(text_sensor_state_bytes(m)) == Some(m),
{
    reveal_with_fuel(last_varint_field, 6);
    reveal_with_fuel(last_fixed32_field, 6);
    reveal_with_fuel(last_bytes_field, 6);
    let fs = text_sensor_state_fields(m);
    assert(field_valid(fs[0]) && field_valid(fs[1]));
    lemma_fields_roundtrip(fs);
    assert(fs.drop_last() =~= seq![fs[0]]);
    assert(seq![fs[0]].drop_last() =~= Seq::<FieldV>::empty());
    assert(last_fixed32_field(fs, 1, 0) == m.key);
    assert(last_bytes_field(fs, 2) == m.state);
}

} // verus!
