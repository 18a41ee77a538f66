//! Fields common to many packets.
pub mod fixed;
pub mod message;
pub mod packet_id;
pub mod string;
pub mod topic;
