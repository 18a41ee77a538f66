//! MQTT protocol version 3
pub mod header;
pub mod packets;
pub mod publish;
