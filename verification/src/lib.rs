//! Client-side engine for a length-prefixed, type-tagged binary
//! request/response protocol spoken with a single remote device.
//!
//! The engine is written against in-memory byte buffers: callers feed it the
//! bytes read from the transport and write out the bytes it queues. Framing,
//! message-type dispatch, interception of server-initiated messages, the
//! request/response correlation and the last-known-state cache all live here;
//! the transport itself and the schema encoding of individual message bodies
//! are the caller's collaborators.

pub mod connection;
pub mod frame;
pub mod model;
pub mod registry;
pub mod varint;

pub use connection::Connection;
pub use connection::Dispatch;
pub use connection::HeaderOutcome;
pub use connection::ReceiveOutcome;
pub use frame::HeaderResult;
pub use frame::MessageHeader;
pub use model::EntityInfo;
pub use model::Entity;
pub use model::EntityKind;
pub use model::EspHomeError;
pub use model::ExtendedInfo;
pub use model::State;
pub use model::StateChangeEvent;
pub use registry::MessageType;
pub use varint::VarintResult;
