//! Values of a fixed header to write.
use vstd::prelude::*;

use crate::bytes::{Error, ErrorKind};

use super::{ControlPacketType, FixedHeader, TypeFlags, spec_fixed_bytes, spec_flags_allowed};

verus! {

/// The flags a packet type has when nothing else is requested.
pub open spec fn spec_default_flags(packet_type: ControlPacketType) -> u8 {
    match packet_type {
        ControlPacketType::PubRel | ControlPacketType::Subscribe
        | ControlPacketType::Unsubscribe => 0b0000_0010,
        _ => 0,
    }
}

/// Values of a fixed header to write.
#[derive(Debug)]
pub(crate) struct FixedHeaderBuilder {
    pub(crate) packet_type: ControlPacketType,
    pub(crate) flags: TypeFlags,
    pub(crate) remaining_length: u32,
}

impl FixedHeaderBuilder {
    /// Header with the default flags of the packet type and a zero remaining length.
    pub(crate) fn new(packet_type: ControlPacketType) -> (r: Self)
        ensures
            r.packet_type == packet_type,
            r.flags@ == spec_default_flags(packet_type),
            r.remaining_length == 0,
    {
        let flags = Self::default_flags(packet_type);
        Self::with_flags(packet_type, flags)
    }

    /// Header with the given flags and a zero remaining length.
    pub(crate) fn with_flags(packet_type: ControlPacketType, flags: TypeFlags) -> (r: Self)
        ensures
            r.packet_type == packet_type,
            r.flags == flags,
            r.remaining_length == 0,
    {
        Self { packet_type, flags, remaining_length: 0 }
    }

    /// Sets the remaining length, which must fit in a `u32`.
    pub(crate) fn remaining_length(self, remaining_length: usize) -> (r: Result<Self, Error>)
        ensures
            match r {
                Ok(b) => remaining_length <= u32::MAX && b.packet_type == self.packet_type && b.flags
                    == self.flags && b.remaining_length == remaining_length,
                Err(e) => remaining_length > u32::MAX && e.kind() == ErrorKind::OutOfRange,
            },
    {
        if remaining_length > u32::MAX as usize {
            return Err(Error::new(ErrorKind::OutOfRange, "remaining length"));
        }
        Ok(Self { remaining_length: remaining_length as u32, ..self })
    }

    /// Writes the header.
    pub(crate) fn write_sync(self, writer: &mut Vec<u8>) -> (r: Result<usize, Error>)
        ensures
            match r {
                Ok(n) => {
                    &&& spec_flags_allowed(self.packet_type, self.flags@)
                    &&& self.remaining_length <= crate::encoding::varint::REMAINING_LENGTH_MAX
                    &&& final(writer)@ == old(writer)@ + spec_fixed_bytes(
                        self.packet_type,
                        self.flags@,
                        self.remaining_length,
                    )
                    &&& n == 1 + crate::encoding::varint::rl_size(self.remaining_length as int)
                },
                Err(e) => {
                    &&& final(writer)@ == old(writer)@
                    &&& if !spec_flags_allowed(self.packet_type, self.flags@) {
                        e.kind() == ErrorKind::Invalid
                    } else {
                        self.remaining_length > crate::encoding::varint::REMAINING_LENGTH_MAX
                            && e.kind() == ErrorKind::OutOfRange
                    }
                },
            },
    {
        FixedHeader::write_sync(writer, &self)
    }

    /// The flags a packet type has when nothing else is requested.
    fn default_flags(packet_type: ControlPacketType) -> (r: TypeFlags)
        ensures
            r@ == spec_default_flags(packet_type),
    {
        match packet_type {
            ControlPacketType::Connect | ControlPacketType::ConnAck | ControlPacketType::Publish
            | ControlPacketType::PubAck | ControlPacketType::PubRec | ControlPacketType::PubComp
            | ControlPacketType::SubAck | ControlPacketType::UnsubAck | ControlPacketType::PingReq
            | ControlPacketType::PingResp | ControlPacketType::Disconnect => TypeFlags::empty(),
            ControlPacketType::PubRel => TypeFlags::pubrel(),
            ControlPacketType::Subscribe => TypeFlags::subscribe(),
            ControlPacketType::Unsubscribe => TypeFlags::unsubscribe(),
        }
    }
}

} // verus!
