//! Byte level model of the MQTT wire format shared by the packet codecs.
pub mod number;
pub mod text;
pub mod topic;
pub mod varint;
