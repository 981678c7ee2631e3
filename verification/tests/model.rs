use esphome::{Entity, EntityInfo, EntityKind, ExtendedInfo, MessageType, State};

#[test]
fn registry_maps_tags_both_ways() {
    assert_eq!(MessageType::HelloRequest.tag(), 1);
    assert_eq!(MessageType::PingRequest.tag(), 7);
    assert_eq!(MessageType::PingResponse.tag(), 8);
    assert_eq!(MessageType::GetTimeRequest.tag(), 36);
    assert_eq!(MessageType::LockStateResponse.tag(), 59);
    assert_eq!(MessageType::from_tag(7), Some(MessageType::PingRequest));
    assert_eq!(MessageType::from_tag(22), Some(MessageType::CoverStateResponse));
    assert_eq!(MessageType::from_tag(61), Some(MessageType::ListEntitiesButtonResponse));
}

#[test]
fn registry_has_documented_gaps() {
    assert_eq!(MessageType::from_tag(0), None);
    assert_eq!(MessageType::from_tag(28), None);
    assert_eq!(MessageType::from_tag(60), None);
    assert_eq!(MessageType::from_tag(99), None);
}

#[test]
fn registry_round_trips_every_kind() {
    let kinds = [
        MessageType::HelloRequest,
        MessageType::HelloResponse,
        MessageType::ConnectRequest,
        MessageType::ConnectResponse,
        MessageType::DisconnectRequest,
        MessageType::DisconnectResponse,
        MessageType::PingRequest,
        MessageType::PingResponse,
        MessageType::DeviceInfoRequest,
        MessageType::DeviceInfoResponse,
        MessageType::ListEntitiesRequest,
        MessageType::ListEntitiesBinarySensorResponse,
        MessageType::ListEntitiesCoverResponse,
        MessageType::ListEntitiesFanResponse,
        MessageType::ListEntitiesLightResponse,
        MessageType::ListEntitiesSensorResponse,
        MessageType::ListEntitiesSwitchResponse,
        MessageType::ListEntitiesTextSensorResponse,
        MessageType::ListEntitiesDoneResponse,
        MessageType::SubscribeStatesRequest,
        MessageType::BinarySensorStateResponse,
        MessageType::CoverStateResponse,
        MessageType::FanStateResponse,
        MessageType::LightStateResponse,
        MessageType::SensorStateResponse,
        MessageType::SwitchStateResponse,
        MessageType::TextSensorStateResponse,
        MessageType::LockStateResponse,
        MessageType::ClimateStateResponse,
        MessageType::NumberStateResponse,
        MessageType::SelectStateResponse,
        MessageType::GetTimeRequest,
        MessageType::GetTimeResponse,
        MessageType::ListEntitiesServicesResponse,
        MessageType::ListEntitiesCameraResponse,
        MessageType::ListEntitiesClimateResponse,
        MessageType::ListEntitiesNumberResponse,
        MessageType::ListEntitiesSelectResponse,
        MessageType::ListEntitiesLockResponse,
        MessageType::ListEntitiesButtonResponse,
    ];
    for kind in kinds {
        assert_eq!(MessageType::from_tag(kind.tag()), Some(kind));
    }
}

#[test]
fn state_equality_is_by_value() {
    assert!(State::Binary(true) == State::Binary(true));
    assert!(State::Binary(true) != State::Binary(false));
    assert!(State::Text(String::from("on")) == State::Text(String::from("on")));
    assert!(State::Text(String::from("on")) != State::Text(String::from("off")));
    assert!(State::Binary(true) != State::FanState(true), "shapes never compare equal");
    assert!(State::Measurement(1) != State::LockState(1));
    let light = State::LightState((true, 0x3F00_0000));
    assert!(light == State::LightState((true, 0x3F00_0000)));
    assert!(light != State::LightState((false, 0x3F00_0000)));
}

#[test]
fn state_duplicate_is_equal() {
    let s = State::Text(String::from("hall"));
    assert!(s.duplicate() == s);
    let m = State::Measurement(0x4128_0000);
    assert!(m.duplicate() == m);
}

#[test]
fn entity_getters_expose_the_record() {
    let entity = Entity::new(
        EntityInfo { name: String::from("porch light"), key: 77 },
        EntityKind::Light(ExtendedInfo {
            object_id: String::from("porch_light"),
            unique_id: String::from("light-77"),
        }),
    );
    assert_eq!(entity.key(), 77);
    assert_eq!(entity.name(), "porch light");
    assert!(matches!(entity.kind(), EntityKind::Light(_)));
    let ei = entity.extended_info().expect("a light carries extended info");
    assert_eq!(ei.object_id(), "porch_light");
    assert_eq!(ei.unique_id(), "light-77");
}

#[test]
fn services_entity_has_no_extended_info() {
    let entity = Entity::new(
        EntityInfo { name: String::from("services"), key: 1 },
        EntityKind::Services,
    );
    assert!(entity.extended_info().is_none());
}
