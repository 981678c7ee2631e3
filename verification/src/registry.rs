//! The closed table of message kinds: every numeric type tag the protocol
//! defines, mapped to a logical kind and back.

use vstd::prelude::*;

verus! {

/// Every message kind the protocol version defines. The numeric tags are
/// fixed by the protocol; `tag` and `from_tag` carry the table.
#[derive(Debug, Clone, Copy, PartialEq, Eq, Structural)]
pub enum MessageType {
    HelloRequest,
    HelloResponse,
    ConnectRequest,
    ConnectResponse,
    DisconnectRequest,
    DisconnectResponse,
    PingRequest,
    PingResponse,
    DeviceInfoRequest,
    DeviceInfoResponse,
    ListEntitiesRequest,
    ListEntitiesBinarySensorResponse,
    ListEntitiesCoverResponse,
    ListEntitiesFanResponse,
    ListEntitiesLightResponse,
    ListEntitiesSensorResponse,
    ListEntitiesSwitchResponse,
    ListEntitiesTextSensorResponse,
    ListEntitiesDoneResponse,
    SubscribeStatesRequest,
    BinarySensorStateResponse,
    CoverStateResponse,
    FanStateResponse,
    LightStateResponse,
    SensorStateResponse,
    SwitchStateResponse,
    TextSensorStateResponse,
    LockStateResponse,
    ClimateStateResponse,
    NumberStateResponse,
    SelectStateResponse,
    GetTimeRequest,
    GetTimeResponse,
    ListEntitiesServicesResponse,
    ListEntitiesCameraResponse,
    ListEntitiesClimateResponse,
    ListEntitiesNumberResponse,
    ListEntitiesSelectResponse,
    ListEntitiesLockResponse,
    ListEntitiesButtonResponse,
}

/// The numeric wire tag of each message kind.
pub open spec fn tag_of(m: MessageType) -> u32 {
    match m {
        MessageType::HelloRequest => 1,
        MessageType::HelloResponse => 2,
        MessageType::ConnectRequest => 3,
        MessageType::ConnectResponse => 4,
        MessageType::DisconnectRequest => 5,
        MessageType::DisconnectResponse => 6,
        MessageType::PingRequest => 7,
        MessageType::PingResponse => 8,
        MessageType::DeviceInfoRequest => 9,
        MessageType::DeviceInfoResponse => 10,
        MessageType::ListEntitiesRequest => 11,
        MessageType::ListEntitiesBinarySensorResponse => 12,
        MessageType::ListEntitiesCoverResponse => 13,
        MessageType::ListEntitiesFanResponse => 14,
        MessageType::ListEntitiesLightResponse => 15,
        MessageType::ListEntitiesSensorResponse => 16,
        MessageType::ListEntitiesSwitchResponse => 17,
        MessageType::ListEntitiesTextSensorResponse => 18,
        MessageType::ListEntitiesDoneResponse => 19,
        MessageType::SubscribeStatesRequest => 20,
        MessageType::BinarySensorStateResponse => 21,
        MessageType::CoverStateResponse => 22,
        MessageType::FanStateResponse => 23,
        MessageType::LightStateResponse => 24,
        MessageType::SensorStateResponse => 25,
        MessageType::SwitchStateResponse => 26,
        MessageType::TextSensorStateResponse => 27,
        MessageType::LockStateResponse => 59,
        MessageType::ClimateStateResponse => 47,
        MessageType::NumberStateResponse => 50,
        MessageType::SelectStateResponse => 53,
        MessageType::GetTimeRequest => 36,
        MessageType::GetTimeResponse => 37,
        MessageType::ListEntitiesServicesResponse => 41,
        MessageType::ListEntitiesCameraResponse => 43,
        MessageType::ListEntitiesClimateResponse => 46,
        MessageType::ListEntitiesNumberResponse => 49,
        MessageType::ListEntitiesSelectResponse => 52,
        MessageType::ListEntitiesLockResponse => 58,
        MessageType::ListEntitiesButtonResponse => 61,
    }
}

/// The message kind a numeric wire tag names, if any.
pub open spec fn from_tag_spec(t: u32) -> Option<MessageType> {
    if t == 1 {
        Some(MessageType::HelloRequest)
    } else if t == 2 {
        Some(MessageType::HelloResponse)
    } else if t == 3 {
        Some(MessageType::ConnectRequest)
    } else if t == 4 {
        Some(MessageType::ConnectResponse)
    } else if t == 5 {
        Some(MessageType::DisconnectRequest)
    } else if t == 6 {
        Some(MessageType::DisconnectResponse)
    } else if t == 7 {
        Some(MessageType::PingRequest)
    } else if t == 8 {
        Some(MessageType::PingResponse)
    } else if t == 9 {
        Some(MessageType::DeviceInfoRequest)
    } else if t == 10 {
        Some(MessageType::DeviceInfoResponse)
    } else if t == 11 {
        Some(MessageType::ListEntitiesRequest)
    } else if t == 12 {
        Some(MessageType::ListEntitiesBinarySensorResponse)
    } else if t == 13 {
        Some(MessageType::ListEntitiesCoverResponse)
    } else if t == 14 {
        Some(MessageType::ListEntitiesFanResponse)
    } else if t == 15 {
        Some(MessageType::ListEntitiesLightResponse)
    } else if t == 16 {
        Some(MessageType::ListEntitiesSensorResponse)
    } else if t == 17 {
        Some(MessageType::ListEntitiesSwitchResponse)
    } else if t == 18 {
        Some(MessageType::ListEntitiesTextSensorResponse)
    } else if t == 19 {
        Some(MessageType::ListEntitiesDoneResponse)
    } else if t == 20 {
        Some(MessageType::SubscribeStatesRequest)
    } else if t == 21 {
        Some(MessageType::BinarySensorStateResponse)
    } else if t == 22 {
        Some(MessageType::CoverStateResponse)
    } else if t == 23 {
        Some(MessageType::FanStateResponse)
    } else if t == 24 {
        Some(MessageType::LightStateResponse)
    } else if t == 25 {
        Some(MessageType::SensorStateResponse)
    } else if t == 26 {
        Some(MessageType::SwitchStateResponse)
    } else if t == 27 {
        Some(MessageType::TextSensorStateResponse)
    } else if t == 36 {
        Some(MessageType::GetTimeRequest)
    } else if t == 37 {
        Some(MessageType::GetTimeResponse)
    } else if t == 41 {
        Some(MessageType::ListEntitiesServicesResponse)
    } else if t == 43 {
        Some(MessageType::ListEntitiesCameraResponse)
    } else if t == 46 {
        Some(MessageType::ListEntitiesClimateResponse)
    } else if t == 47 {
        Some(MessageType::ClimateStateResponse)
    } else if t == 49 {
        Some(MessageType::ListEntitiesNumberResponse)
    } else if t == 50 {
        Some(MessageType::NumberStateResponse)
    } else if t == 52 {
        Some(MessageType::ListEntitiesSelectResponse)
    } else if t == 53 {
        Some(MessageType::SelectStateResponse)
    } else if t == 58 {
        Some(MessageType::ListEntitiesLockResponse)
    } else if t == 59 {
        Some(MessageType::LockStateResponse)
    } else if t == 61 {
        Some(MessageType::ListEntitiesButtonResponse)
    } else {
        None
    }
}

impl MessageType {
    /// The numeric tag this kind is written as on the wire.
    pub fn tag(self) -> (t: u32)
        ensures
            t == tag_of(self),
    {
        match self {
            MessageType::HelloRequest => 1,
            MessageType::HelloResponse => 2,
            MessageType::ConnectRequest => 3,
            MessageType::ConnectResponse => 4,
            MessageType::DisconnectRequest => 5,
            MessageType::DisconnectResponse => 6,
            MessageType::PingRequest => 7,
            MessageType::PingResponse => 8,
            MessageType::DeviceInfoRequest => 9,
            MessageType::DeviceInfoResponse => 10,
            MessageType::ListEntitiesRequest => 11,
            MessageType::ListEntitiesBinarySensorResponse => 12,
            MessageType::ListEntitiesCoverResponse => 13,
            MessageType::ListEntitiesFanResponse => 14,
            MessageType::ListEntitiesLightResponse => 15,
            MessageType::ListEntitiesSensorResponse => 16,
            MessageType::ListEntitiesSwitchResponse => 17,
            MessageType::ListEntitiesTextSensorResponse => 18,
            MessageType::ListEntitiesDoneResponse => 19,
            MessageType::SubscribeStatesRequest => 20,
            MessageType::BinarySensorStateResponse => 21,
            MessageType::CoverStateResponse => 22,
            MessageType::FanStateResponse => 23,
            MessageType::LightStateResponse => 24,
            MessageType::SensorStateResponse => 25,
            MessageType::SwitchStateResponse => 26,
            MessageType::TextSensorStateResponse => 27,
            MessageType::LockStateResponse => 59,
            MessageType::ClimateStateResponse => 47,
            MessageType::NumberStateResponse => 50,
            MessageType::SelectStateResponse => 53,
            MessageType::GetTimeRequest => 36,
            MessageType::GetTimeResponse => 37,
            MessageType::ListEntitiesServicesResponse => 41,
            MessageType::ListEntitiesCameraResponse => 43,
            MessageType::ListEntitiesClimateResponse => 46,
            MessageType::ListEntitiesNumberResponse => 49,
            MessageType::ListEntitiesSelectResponse => 52,
            MessageType::ListEntitiesLockResponse => 58,
            MessageType::ListEntitiesButtonResponse => 61,
        }
    }

    /// Looks a numeric tag up in the table. An unknown tag is not an error
    /// at this layer: callers decide what it means in context.
    pub fn from_tag(t: u32) -> (r: Option<MessageType>)
        ensures
            r == from_tag_spec(t),
    {
        match t {
            1 => Some(MessageType::HelloRequest),
            2 => Some(MessageType::HelloResponse),
            3 => Some(MessageType::ConnectRequest),
            4 => Some(MessageType::ConnectResponse),
            5 => Some(MessageType::DisconnectRequest),
            6 => Some(MessageType::DisconnectResponse),
            7 => Some(MessageType::PingRequest),
            8 => Some(MessageType::PingResponse),
            9 => Some(MessageType::DeviceInfoRequest),
            10 => Some(MessageType::DeviceInfoResponse),
            11 => Some(MessageType::ListEntitiesRequest),
            12 => Some(MessageType::ListEntitiesBinarySensorResponse),
            13 => Some(MessageType::ListEntitiesCoverResponse),
            14 => Some(MessageType::ListEntitiesFanResponse),
            15 => Some(MessageType::ListEntitiesLightResponse),
            16 => Some(MessageType::ListEntitiesSensorResponse),
            17 => Some(MessageType::ListEntitiesSwitchResponse),
            18 => Some(MessageType::ListEntitiesTextSensorResponse),
            19 => Some(MessageType::ListEntitiesDoneResponse),
            20 => Some(MessageType::SubscribeStatesRequest),
            21 => Some(MessageType::BinarySensorStateResponse),
            22 => Some(MessageType::CoverStateResponse),
            23 => Some(MessageType::FanStateResponse),
            24 => Some(MessageType::LightStateResponse),
            25 => Some(MessageType::SensorStateResponse),
            26 => Some(MessageType::SwitchStateResponse),
            27 => Some(MessageType::TextSensorStateResponse),
            36 => Some(MessageType::GetTimeRequest),
            37 => Some(MessageType::GetTimeResponse),
            41 => Some(MessageType::ListEntitiesServicesResponse),
            43 => Some(MessageType::ListEntitiesCameraResponse),
            46 => Some(MessageType::ListEntitiesClimateResponse),
            47 => Some(MessageType::ClimateStateResponse),
            49 => Some(MessageType::ListEntitiesNumberResponse),
            50 => Some(MessageType::NumberStateResponse),
            52 => Some(MessageType::ListEntitiesSelectResponse),
            53 => Some(MessageType::SelectStateResponse),
            58 => Some(MessageType::ListEntitiesLockResponse),
            59 => Some(MessageType::LockStateResponse),
            61 => Some(MessageType::ListEntitiesButtonResponse),
            _ => None,
        }
    }
}

/// The table is a bijection: looking a kind's own tag up yields that kind.
pub proof fn lemma_tag_round_trip(m: MessageType)
    ensures
        from_tag_spec(tag_of(m)) == Some(m),
{
}

/// The other direction: a tag the table knows is the tag of the kind it
/// names, so no two tags share a kind.
pub proof fn lemma_from_tag_inverse(t: u32)
    ensures
        from_tag_spec(t) matches Some(m) ==> tag_of(m) == t,
{
}

} // verus!
