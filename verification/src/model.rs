//! Data the engine and its callers share: the error taxonomy, the last
//! observed state of an entity, and the entity catalog records.

use vstd::prelude::*;
use crate::registry::MessageType;

verus! {

/// Everything that can end an in-flight call. Every error is terminal to
/// the call that met it; nothing is retried.
#[derive(Debug, Clone, Copy, PartialEq, Eq, Structural)]
pub enum EspHomeError {
    /// The device rejected the connection password.
    InvalidPassword,
    /// A reply frame's type tag differs from the one the caller awaited.
    UnexpectedResponse { expected: MessageType, received: u32 },
    /// The underlying stream failed to read or write, including short reads.
    Io,
    /// A length or type field's continuation bits run past the five-byte
    /// bound, or the value does not fit in 32 bits.
    MalformedVarint,
    /// A payload did not parse against the expected schema.
    SchemaDecode,
    /// The wall clock was unavailable while answering a time query.
    Clock,
    /// A frame carried a tag the registry does not know. The protocol has
    /// no way to resynchronize once meaning is lost, so the connection is
    /// treated as desynchronized and aborted rather than skipped past.
    UnknownMessageType { received: u32 },
}

/// The last value an entity reported: one variant per supported shape.
/// Numeric readings travel as the 32 raw bits of the reported value, and a
/// lock state as the numeric code the device sent; interpreting either is
/// the schema layer's business.
#[derive(Debug)]
pub enum State {
    Binary(bool),
    /// The raw bits of a floating-point measurement.
    Measurement(u32),
    Text(String),
    /// On/off, with the raw bits of the brightness.
    LightState((bool, u32)),
    FanState(bool),
    /// The numeric lock state code.
    LockState(u32),
}

/// Value equality of two states: same shape, same contents, text compared
/// by its characters.
pub open spec fn state_eq(a: State, b: State) -> bool {
    match (a, b) {
        (State::Binary(x), State::Binary(y)) => x == y,
        (State::Measurement(x), State::Measurement(y)) => x == y,
        (State::Text(x), State::Text(y)) => x@ == y@,
        (State::LightState(x), State::LightState(y)) => x == y,
        (State::FanState(x), State::FanState(y)) => x == y,
        (State::LockState(x), State::LockState(y)) => x == y,
        _ => false,
    }
}

impl PartialEq for State {
    fn eq(&self, other: &State) -> (r: bool) {
        match (self, other) {
            (State::Binary(x), State::Binary(y)) => *x == *y,
            (State::Measurement(x), State::Measurement(y)) => *x == *y,
            (State::Text(x), State::Text(y)) => *x == *y,
            (State::LightState(x), State::LightState(y)) => x.0 == y.0 && x.1 == y.1,
            (State::FanState(x), State::FanState(y)) => *x == *y,
            (State::LockState(x), State::LockState(y)) => *x == *y,
            _ => false,
        }
    }
}

impl vstd::std_specs::cmp::PartialEqSpecImpl for State {
    open spec fn obeys_eq_spec() -> bool {
        true
    }

    open spec fn eq_spec(&self, other: &State) -> bool {
        state_eq(*self, *other)
    }
}

impl State {
    /// An exact copy of the state.
    pub fn duplicate(&self) -> (r: State)
        ensures
            r == *self,
    {
        match self {
            State::Binary(x) => State::Binary(*x),
            State::Measurement(x) => State::Measurement(*x),
            State::Text(x) => State::Text(x.clone()),
            State::LightState(x) => State::LightState((x.0, x.1)),
            State::FanState(x) => State::FanState(*x),
            State::LockState(x) => State::LockState(*x),
        }
    }
}

/// One state transition, as handed to the registered subscriber.
#[derive(Debug)]
pub struct StateChangeEvent {
    pub key: u32,
    pub state: State,
}

impl StateChangeEvent {
    pub fn new(key: u32, state: State) -> (r: StateChangeEvent)
        ensures
            r.key == key,
            r.state == state,
    {
        StateChangeEvent { key, state }
    }
}

/// Identifiers most entity kinds carry beside their name.
#[derive(Debug)]
pub struct ExtendedInfo {
    pub object_id: String,
    pub unique_id: String,
}

impl ExtendedInfo {
    pub fn object_id(&self) -> (r: String)
        ensures
            r == self.object_id,
    {
        self.object_id.clone()
    }

    pub fn unique_id(&self) -> (r: String)
        ensures
            r == self.unique_id,
    {
        self.unique_id.clone()
    }
}

/// What every entity has: a display name and the device-assigned key.
#[derive(Debug)]
pub struct EntityInfo {
    pub name: String,
    pub key: u32,
}

/// One entry of the device's entity catalog.
#[derive(Debug)]
pub struct Entity {
    info: EntityInfo,
    kind: EntityKind,
}

/// The kind of an entity, with the extra identifiers where the kind
/// carries them.
#[derive(Debug)]
pub enum EntityKind {
    BinarySensor(ExtendedInfo),
    Camera(ExtendedInfo),
    Climate(ExtendedInfo),
    Cover(ExtendedInfo),
    Fan(ExtendedInfo),
    Light(ExtendedInfo),
    Number(ExtendedInfo),
    Select(ExtendedInfo),
    Sensor(ExtendedInfo),
    Services,
    Switch(ExtendedInfo),
    TextSensor(ExtendedInfo),
    Lock(ExtendedInfo),
    Button(ExtendedInfo),
}

/// The extra identifiers a kind carries, if it carries any.
pub open spec fn kind_extended_info(k: EntityKind) -> Option<ExtendedInfo> {
    match k {
        EntityKind::BinarySensor(ei) => Some(ei),
        EntityKind::Camera(ei) => Some(ei),
        EntityKind::Climate(ei) => Some(ei),
        EntityKind::Cover(ei) => Some(ei),
        EntityKind::Fan(ei) => Some(ei),
        EntityKind::Light(ei) => Some(ei),
        EntityKind::Number(ei) => Some(ei),
        EntityKind::Select(ei) => Some(ei),
        EntityKind::Sensor(ei) => Some(ei),
        EntityKind::Services => None,
        EntityKind::Switch(ei) => Some(ei),
        EntityKind::TextSensor(ei) => Some(ei),
        EntityKind::Lock(ei) => Some(ei),
        EntityKind::Button(ei) => Some(ei),
    }
}

impl Entity {
    pub fn new(info: EntityInfo, kind: EntityKind) -> (r: Entity)
        ensures
            r.info() == info,
            r.kind_value() == kind,
    {
        Entity { info, kind }
    }

    /// The catalog record, for contracts to speak of.
    pub closed spec fn info(&self) -> EntityInfo {
        self.info
    }

    /// The kind, for contracts to speak of.
    pub closed spec fn kind_value(&self) -> EntityKind {
        self.kind
    }

    /// The device-assigned key the state cache is indexed by.
    pub fn key(&self) -> (r: u32)
        ensures
            r == self.info().key,
    {
        self.info.key
    }

    pub fn name(&self) -> (r: String)
        ensures
            r == self.info().name,
    {
        self.info.name.clone()
    }

    pub fn kind(&self) -> (r: &EntityKind)
        ensures
            *r == self.kind_value(),
    {
        &self.kind
    }

    pub fn extended_info(&self) -> (r: Option<&ExtendedInfo>)
        ensures
            match r {
                Some(ei) => kind_extended_info(self.kind_value()) == Some(*ei),
                None => kind_extended_info(self.kind_value()) is None,
            },
    {
        match &self.kind {
            EntityKind::BinarySensor(ei) => Some(ei),
            EntityKind::Camera(ei) => Some(ei),
            EntityKind::Climate(ei) => Some(ei),
            EntityKind::Cover(ei) => Some(ei),
            EntityKind::Fan(ei) => Some(ei),
            EntityKind::Light(ei) => Some(ei),
            EntityKind::Number(ei) => Some(ei),
            EntityKind::Select(ei) => Some(ei),
            EntityKind::Sensor(ei) => Some(ei),
            EntityKind::Services => None,
            EntityKind::Switch(ei) => Some(ei),
            EntityKind::TextSensor(ei) => Some(ei),
            EntityKind::Lock(ei) => Some(ei),
            EntityKind::Button(ei) => Some(ei),
        }
    }
}

} // verus!
