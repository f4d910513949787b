//! The message registry (type tags and their classification), the entity and
//! state model, and the engine's error and event kinds.

use vstd::prelude::*;

verus! {

/// The message kinds of the protocol. Each has a stable numeric type tag on
/// the wire; see [`MessageType::spec_tag`].
#[derive(Debug, Clone, Copy, PartialEq, Eq, Structural)]
pub enum MessageType {
    HelloRequest,
    HelloResponse,
    ConnectRequest,
    ConnectResponse,
    DisconnectRequest,
    DisconnectResponse,
    PingRequest,
    PingResponse,
    DeviceInfoRequest,
    DeviceInfoResponse,
    ListEntitiesRequest,
    ListEntitiesBinarySensorResponse,
    ListEntitiesCoverResponse,
    ListEntitiesFanResponse,
    ListEntitiesLightResponse,
    ListEntitiesSensorResponse,
    ListEntitiesSwitchResponse,
    ListEntitiesTextSensorResponse,
    ListEntitiesDoneResponse,
    SubscribeStatesRequest,
    BinarySensorStateResponse,
    CoverStateResponse,
    FanStateResponse,
    LightStateResponse,
    SensorStateResponse,
    SwitchStateResponse,
    TextSensorStateResponse,
    GetTimeRequest,
    GetTimeResponse,
    ListEntitiesServicesResponse,
    ListEntitiesCameraResponse,
    ListEntitiesClimateResponse,
    ClimateStateResponse,
    ListEntitiesNumberResponse,
    NumberStateResponse,
    ListEntitiesSelectResponse,
    SelectStateResponse,
}

impl MessageType {
    /// The numeric type tag of this kind on the wire.
    pub open spec fn spec_tag(self) -> u32 {
        match self {
            MessageType::HelloRequest => 1,
            MessageType::HelloResponse => 2,
            MessageType::ConnectRequest => 3,
            MessageType::ConnectResponse => 4,
            MessageType::DisconnectRequest => 5,
            MessageType::DisconnectResponse => 6,
            MessageType::PingRequest => 7,
            MessageType::PingResponse => 8,
            MessageType::DeviceInfoRequest => 9,
            MessageType::DeviceInfoResponse => 10,
            MessageType::ListEntitiesRequest => 11,
            MessageType::ListEntitiesBinarySensorResponse => 12,
            MessageType::ListEntitiesCoverResponse => 13,
            MessageType::ListEntitiesFanResponse => 14,
            MessageType::ListEntitiesLightResponse => 15,
            MessageType::ListEntitiesSensorResponse => 16,
            MessageType::ListEntitiesSwitchResponse => 17,
            MessageType::ListEntitiesTextSensorResponse => 18,
            MessageType::ListEntitiesDoneResponse => 19,
            MessageType::SubscribeStatesRequest => 20,
            MessageType::BinarySensorStateResponse => 21,
            MessageType::CoverStateResponse => 22,
            MessageType::FanStateResponse => 23,
            MessageType::LightStateResponse => 24,
            MessageType::SensorStateResponse => 25,
            MessageType::SwitchStateResponse => 26,
            MessageType::TextSensorStateResponse => 27,
            MessageType::GetTimeRequest => 36,
            MessageType::GetTimeResponse => 37,
            MessageType::ListEntitiesServicesResponse => 41,
            MessageType::ListEntitiesCameraResponse => 43,
            MessageType::ListEntitiesClimateResponse => 46,
            MessageType::ClimateStateResponse => 47,
            MessageType::ListEntitiesNumberResponse => 49,
            MessageType::NumberStateResponse => 50,
            MessageType::ListEntitiesSelectResponse => 52,
            MessageType::SelectStateResponse => 53,
        }
    }

    /// The message kind registered for a numeric type tag, if any.
    pub open spec fn spec_from_tag(t: u32) -> Option<MessageType> {
        if t == 1 {
            Some(MessageType::HelloRequest)
        } else if t == 2 {
            Some(MessageType::HelloResponse)
        } else if t == 3 {
            Some(MessageType::ConnectRequest)
        } else if t == 4 {
            Some(MessageType::ConnectResponse)
        } else if t == 5 {
            Some(MessageType::DisconnectRequest)
        } else if t == 6 {
            Some(MessageType::DisconnectResponse)
        } else if t == 7 {
            Some(MessageType::PingRequest)
        } else if t == 8 {
            Some(MessageType::PingResponse)
        } else if t == 9 {
            Some(MessageType::DeviceInfoRequest)
        } else if t == 10 {
            Some(MessageType::DeviceInfoResponse)
        } else if t == 11 {
            Some(MessageType::ListEntitiesRequest)
        } else if t == 12 {
            Some(MessageType::ListEntitiesBinarySensorResponse)
        } else if t == 13 {
            Some(MessageType::ListEntitiesCoverResponse)
        } else if t == 14 {
            Some(MessageType::ListEntitiesFanResponse)
        } else if t == 15 {
            Some(MessageType::ListEntitiesLightResponse)
        } else if t == 16 {
            Some(MessageType::ListEntitiesSensorResponse)
        } else if t == 17 {
            Some(MessageType::ListEntitiesSwitchResponse)
        } else if t == 18 {
            Some(MessageType::ListEntitiesTextSensorResponse)
        } else if t == 19 {
            Some(MessageType::ListEntitiesDoneResponse)
        } else if t == 20 {
            Some(MessageType::SubscribeStatesRequest)
        } else if t == 21 {
            Some(MessageType::BinarySensorStateResponse)
        } else if t == 22 {
            Some(MessageType::CoverStateResponse)
        } else if t == 23 {
            Some(MessageType::FanStateResponse)
        } else if t == 24 {
            Some(MessageType::LightStateResponse)
        } else if t == 25 {
            Some(MessageType::SensorStateResponse)
        } else if t == 26 {
            Some(MessageType::SwitchStateResponse)
        } else if t == 27 {
            Some(MessageType::TextSensorStateResponse)
        } else if t == 36 {
            Some(MessageType::GetTimeRequest)
        } else if t == 37 {
            Some(MessageType::GetTimeResponse)
        } else if t == 41 {
            Some(MessageType::ListEntitiesServicesResponse)
        } else if t == 43 {
            Some(MessageType::ListEntitiesCameraResponse)
        } else if t == 46 {
            Some(MessageType::ListEntitiesClimateResponse)
        } else if t == 47 {
            Some(MessageType::ClimateStateResponse)
        } else if t == 49 {
            Some(MessageType::ListEntitiesNumberResponse)
        } else if t == 50 {
            Some(MessageType::NumberStateResponse)
        } else if t == 52 {
            Some(MessageType::ListEntitiesSelectResponse)
        } else if t == 53 {
            Some(MessageType::SelectStateResponse)
        } else {
            None
        }
    }

    /// The numeric type tag of this kind on the wire.
    pub fn tag(self) -> (r: u32)
        ensures
            r == self.spec_tag(),
    {
        match self {
            MessageType::HelloRequest => 1,
            MessageType::HelloResponse => 2,
            MessageType::ConnectRequest => 3,
            MessageType::ConnectResponse => 4,
            MessageType::DisconnectRequest => 5,
            MessageType::DisconnectResponse => 6,
            MessageType::PingRequest => 7,
            MessageType::PingResponse => 8,
            MessageType::DeviceInfoRequest => 9,
            MessageType::DeviceInfoResponse => 10,
            MessageType::ListEntitiesRequest => 11,
            MessageType::ListEntitiesBinarySensorResponse => 12,
            MessageType::ListEntitiesCoverResponse => 13,
            MessageType::ListEntitiesFanResponse => 14,
            MessageType::ListEntitiesLightResponse => 15,
            MessageType::ListEntitiesSensorResponse => 16,
            MessageType::ListEntitiesSwitchResponse => 17,
            MessageType::ListEntitiesTextSensorResponse => 18,
            MessageType::ListEntitiesDoneResponse => 19,
            MessageType::SubscribeStatesRequest => 20,
            MessageType::BinarySensorStateResponse => 21,
            MessageType::CoverStateResponse => 22,
            MessageType::FanStateResponse => 23,
            MessageType::LightStateResponse => 24,
            MessageType::SensorStateResponse => 25,
            MessageType::SwitchStateResponse => 26,
            MessageType::TextSensorStateResponse => 27,
            MessageType::GetTimeRequest => 36,
            MessageType::GetTimeResponse => 37,
            MessageType::ListEntitiesServicesResponse => 41,
            MessageType::ListEntitiesCameraResponse => 43,
            MessageType::ListEntitiesClimateResponse => 46,
            MessageType::ClimateStateResponse => 47,
            MessageType::ListEntitiesNumberResponse => 49,
            MessageType::NumberStateResponse => 50,
            MessageType::ListEntitiesSelectResponse => 52,
            MessageType::SelectStateResponse => 53,
        }
    }

    /// The message kind registered for a numeric type tag, if any.
    pub fn from_u32(t: u32) -> (r: Option<MessageType>)
        ensures
            r == Self::spec_from_tag(t),
    {
        if t == 1 {
            Some(MessageType::HelloRequest)
        } else if t == 2 {
            Some(MessageType::HelloResponse)
        } else if t == 3 {
            Some(MessageType::ConnectRequest)
        } else if t == 4 {
            Some(MessageType::ConnectResponse)
        } else if t == 5 {
            Some(MessageType::DisconnectRequest)
        } else if t == 6 {
            Some(MessageType::DisconnectResponse)
        } else if t == 7 {
            Some(MessageType::PingRequest)
        } else if t == 8 {
            Some(MessageType::PingResponse)
        } else if t == 9 {
            Some(MessageType::DeviceInfoRequest)
        } else if t == 10 {
            Some(MessageType::DeviceInfoResponse)
        } else if t == 11 {
            Some(MessageType::ListEntitiesRequest)
        } else if t == 12 {
            Some(MessageType::ListEntitiesBinarySensorResponse)
        } else if t == 13 {
            Some(MessageType::ListEntitiesCoverResponse)
        } else if t == 14 {
            Some(MessageType::ListEntitiesFanResponse)
        } else if t == 15 {
            Some(MessageType::ListEntitiesLightResponse)
        } else if t == 16 {
            Some(MessageType::ListEntitiesSensorResponse)
        } else if t == 17 {
            Some(MessageType::ListEntitiesSwitchResponse)
        } else if t == 18 {
            Some(MessageType::ListEntitiesTextSensorResponse)
        } else if t == 19 {
            Some(MessageType::ListEntitiesDoneResponse)
        } else if t == 20 {
            Some(MessageType::SubscribeStatesRequest)
        } else if t == 21 {
            Some(MessageType::BinarySensorStateResponse)
        } else if t == 22 {
            Some(MessageType::CoverStateResponse)
        } else if t == 23 {
            Some(MessageType::FanStateResponse)
        } else if t == 24 {
            Some(MessageType::LightStateResponse)
        } else if t == 25 {
            Some(MessageType::SensorStateResponse)
        } else if t == 26 {
            Some(MessageType::SwitchStateResponse)
        } else if t == 27 {
            Some(MessageType::TextSensorStateResponse)
        } else if t == 36 {
            Some(MessageType::GetTimeRequest)
        } else if t == 37 {
            Some(MessageType::GetTimeResponse)
        } else if t == 41 {
            Some(MessageType::ListEntitiesServicesResponse)
        } else if t == 43 {
            Some(MessageType::ListEntitiesCameraResponse)
        } else if t == 46 {
            Some(MessageType::ListEntitiesClimateResponse)
        } else if t == 47 {
            Some(MessageType::ClimateStateResponse)
        } else if t == 49 {
            Some(MessageType::ListEntitiesNumberResponse)
        } else if t == 50 {
            Some(MessageType::NumberStateResponse)
        } else if t == 52 {
            Some(MessageType::ListEntitiesSelectResponse)
        } else if t == 53 {
            Some(MessageType::SelectStateResponse)
        } else {
            None
        }
    }
}

/// Each registered tag maps back to its own kind.
pub proof fn lemma_tag_registered(m: MessageType)
    ensures
        MessageType::spec_from_tag(m.spec_tag()) == Some(m),
{
}

/// Whether a tag is in the registry at all.
pub open spec fn is_known_tag(t: u32) -> bool {
    MessageType::spec_from_tag(t) is Some
}

/// The server-push tags: the read loop consumes these frames itself rather
/// than handing them to the caller.
pub open spec fn is_push_tag(t: u32) -> bool {
    ||| t == MessageType::PingRequest.spec_tag()
    ||| t == MessageType::DisconnectRequest.spec_tag()
    ||| t == MessageType::GetTimeRequest.spec_tag()
    ||| is_state_tag(t)
}

/// The state-push tags, modeled or not.
pub open spec fn is_state_tag(t: u32) -> bool {
    ||| t == MessageType::BinarySensorStateResponse.spec_tag()
    ||| t == MessageType::SensorStateResponse.spec_tag()
    ||| t == MessageType::TextSensorStateResponse.spec_tag()
    ||| is_unmodeled_state_tag(t)
}

/// The state-push tags whose payloads the engine discards: their kinds have
/// no modeled state representation.
pub open spec fn is_unmodeled_state_tag(t: u32) -> bool {
    ||| t == MessageType::CoverStateResponse.spec_tag()
    ||| t == MessageType::FanStateResponse.spec_tag()
    ||| t == MessageType::LightStateResponse.spec_tag()
    ||| t == MessageType::SwitchStateResponse.spec_tag()
    ||| t == MessageType::ClimateStateResponse.spec_tag()
    ||| t == MessageType::NumberStateResponse.spec_tag()
    ||| t == MessageType::SelectStateResponse.spec_tag()
}

/// Whether a tag is a server-push tag.
pub fn is_push(t: u32) -> (r: bool)
    ensures
        r == is_push_tag(t),
{
    t == 7 || t == 5 || t == 36 || t == 21 || t == 25 || t == 27 || t == 22 || t == 23 || t == 24
        || t == 26 || t == 47 || t == 50 || t == 53
}

/// The latest known value of an entity, keyed by the entity's key.
#[derive(Debug, Clone, PartialEq)]
pub enum State {
    /// A two-valued reading.
    Binary(bool),
    /// A numeric reading, stored as the bit pattern of the 32-bit
    /// floating-point word that travelled on the wire, uninterpreted.
    Measurement(u32),
    /// A textual reading, stored as the bytes that travelled on the wire.
    Text(Vec<u8>),
}

/// The mathematical value of a [`State`].
pub enum StateV {
    Binary(bool),
    Measurement(u32),
    Text(Seq<u8>),
}

impl View for State {
    type V = StateV;

    open spec fn view(&self) -> StateV {
        match self {
            State::Binary(b) => StateV::Binary(*b),
            State::Measurement(bits) => StateV::Measurement(*bits),
            State::Text(t) => StateV::Text(t@),
        }
    }
}

/// The identifiers every entity kind but services carries.
#[derive(Debug, Clone, PartialEq)]
pub struct ExtendedInfo {
    pub object_id: Vec<u8>,
    pub unique_id: Vec<u8>,
}

/// The mathematical value of an [`ExtendedInfo`].
pub struct ExtendedInfoV {
    pub object_id: Seq<u8>,
    pub unique_id: Seq<u8>,
}

impl View for ExtendedInfo {
    type V = ExtendedInfoV;

    open spec fn view(&self) -> ExtendedInfoV {
        ExtendedInfoV { object_id: self.object_id@, unique_id: self.unique_id@ }
    }
}

/// The identifiers every entity carries: a display name and the stable key
/// that state pushes are correlated by.
#[derive(Debug, Clone, PartialEq)]
pub struct EntityInfo {
    pub name: Vec<u8>,
    pub key: u32,
}

/// The mathematical value of an [`EntityInfo`].
pub struct EntityInfoV {
    pub name: Seq<u8>,
    pub key: u32,
}

impl View for EntityInfo {
    type V = EntityInfoV;

    open spec fn view(&self) -> EntityInfoV {
        EntityInfoV { name: self.name@, key: self.key }
    }
}

/// The kind of an entity; every kind but services carries extended
/// identifiers.
#[derive(Debug, Clone, PartialEq)]
pub enum EntityKind {
    BinarySensor(ExtendedInfo),
    Camera(ExtendedInfo),
    Climate(ExtendedInfo),
    Cover(ExtendedInfo),
    Fan(ExtendedInfo),
    Light(ExtendedInfo),
    Number(ExtendedInfo),
    Select(ExtendedInfo),
    Sensor(ExtendedInfo),
    Services,
    Switch(ExtendedInfo),
    TextSensor(ExtendedInfo),
}

/// The mathematical value of an [`EntityKind`].
pub enum EntityKindV {
    BinarySensor(ExtendedInfoV),
    Camera(ExtendedInfoV),
    Climate(ExtendedInfoV),
    Cover(ExtendedInfoV),
    Fan(ExtendedInfoV),
    Light(ExtendedInfoV),
    Number(ExtendedInfoV),
    Select(ExtendedInfoV),
    Sensor(ExtendedInfoV),
    Services,
    Switch(ExtendedInfoV),
    TextSensor(ExtendedInfoV),
}

impl View for EntityKind {
    type V = EntityKindV;

    open spec fn view(&self) -> EntityKindV {
        match self {
            EntityKind::BinarySensor(x) => EntityKindV::BinarySensor(x@),
            EntityKind::Camera(x) => EntityKindV::Camera(x@),
            EntityKind::Climate(x) => EntityKindV::Climate(x@),
            EntityKind::Cover(x) => EntityKindV::Cover(x@),
            EntityKind::Fan(x) => EntityKindV::Fan(x@),
            EntityKind::Light(x) => EntityKindV::Light(x@),
            EntityKind::Number(x) => EntityKindV::Number(x@),
            EntityKind::Select(x) => EntityKindV::Select(x@),
            EntityKind::Sensor(x) => EntityKindV::Sensor(x@),
            EntityKind::Services => EntityKindV::Services,
            EntityKind::Switch(x) => EntityKindV::Switch(x@),
            EntityKind::TextSensor(x) => EntityKindV::TextSensor(x@),
        }
    }
}

/// One addressable sub-component of the remote device.
#[derive(Debug, Clone, PartialEq)]
pub struct Entity {
    info: EntityInfo,
    kind: EntityKind,
}

/// The mathematical value of an [`Entity`].
pub struct EntityV {
    pub info: EntityInfoV,
    pub kind: EntityKindV,
}

impl View for Entity {
    type V = EntityV;

    closed spec fn view(&self) -> EntityV {
        EntityV { info: self.info@, kind: self.kind@ }
    }
}

impl Entity {
    /// Build an entity from its identifiers and kind.
    pub fn new(info: EntityInfo, kind: EntityKind) -> (r: Entity)
        ensures
            r@ == (EntityV { info: info@, kind: kind@ }),
    {
        Entity { info, kind }
    }

    /// The stable key that state pushes for this entity are correlated by.
    pub fn key(&self) -> (r: u32)
        ensures
            r == self@.info.key,
    {
        self.info.key
    }

    /// The entity's identifiers.
    pub fn info(&self) -> (r: &EntityInfo)
        ensures
            r@ == self@.info,
    {
        &self.info
    }

    /// The entity's kind.
    pub fn kind(&self) -> (r: &EntityKind)
        ensures
            r@ == self@.kind,
    {
        &self.kind
    }
}

/// What can go wrong inside the engine.
#[derive(Debug, Clone, Copy, PartialEq, Eq, Structural)]
pub enum EspHomeError {
    /// The server rejected the password of a connect request.
    InvalidPassword,
    /// A reply-class frame arrived whose tag is not the awaited one: the
    /// stream is desynchronized for the in-flight call.
    UnexpectedResponse { expected: MessageType, received: u32 },
    /// An enumeration-done sentinel or a disconnect acknowledgment arrived
    /// where it was not awaited.
    UnexpectedTermination { expected: MessageType, received: u32 },
    /// The byte channel ended before a whole frame could be read.
    Io,
    /// A malformed frame or payload: a bad marker byte, an over-long length
    /// varint, or a payload that does not parse.
    Codec,
}

/// What the engine reports through its observability log: one entry per
/// auto-handled frame.
#[derive(Debug, Clone, Copy, PartialEq, Eq, Structural)]
pub enum Event {
    /// A push frame was consumed and, where the protocol asks for one, its
    /// reply was written.
    PushHandled { tag: u32 },
    /// A state push updated the cache at this key.
    StateUpdated { key: u32 },
    /// A frame with an unregistered tag was skipped over, using its declared
    /// length.
    UnknownTagSkipped { tag: u32, length: u32 },
}

} // verus!
