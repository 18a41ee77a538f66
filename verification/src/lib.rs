//! MQTT client implementation.
pub mod bytes;
pub mod encoding;
pub mod outgoing;
pub mod packet;
pub mod slab;
pub mod sync;
pub mod v3;
