//! PUBREL packet, the response to a PUBREC.
use vstd::prelude::*;

use crate::bytes::{Error, ErrorKind};
use crate::v3::packets::common::fixed::ControlPacketType;
use crate::v3::packets::common::packet_id::PacketId;
use crate::v3::packets::spec_consume;

use super::rec::{parse_pkid_packet, spec_pkid_packet_bytes, spec_pkid_packet_parse, write_pkid_packet};

verus! {

/// A PUBREL Packet is the response to a PUBREC Packet. It is the third packet of the QoS 2 protocol exchange.
#[derive(Debug, Clone, Copy, PartialEq, Eq)]
pub struct PubRel {
    pkid: PacketId,
}

impl View for PubRel {
    type V = u16;

    closed spec fn view(&self) -> u16 {
        self.pkid@
    }
}

impl PubRel {
    /// Returns the packet identifier.
    pub fn pkid(&self) -> (r: PacketId)
        ensures
            r@ == self@,
    {
        self.pkid
    }

    /// There is nothing to check.
    pub fn validate_value(_value: &PacketId) -> (r: Result<(), Error>)
        ensures
            r is Ok,
    {
        Ok(())
    }

    /// There is nothing to check.
    pub fn validate(&self) -> (r: Result<(), Error>)
        ensures
            r is Ok,
    {
        Ok(())
    }

    /// The remaining length: the packet identifier.
    pub fn encode_len(value: &PacketId) -> (r: Result<usize, Error>)
        ensures
            r == Ok::<usize, Error>(2),
    {
        PacketId::encode_len(value)
    }

    /// Writes the packet.
    pub fn write_sync(writer: &mut Vec<u8>, value: &PacketId) -> (r: Result<usize, Error>)
        ensures
            r == Ok::<usize, Error>(4),
            final(writer)@ == old(writer)@ + spec_pkid_packet_bytes(ControlPacketType::PubRel, value@),
    {
        write_pkid_packet(writer, ControlPacketType::PubRel, value)
    }

    /// Parses the packet.
    pub fn parse<'a>(buf: &'a [u8]) -> (r: Result<(Self, &'a [u8]), Error>)
        ensures
            match spec_pkid_packet_parse(buf@) {
                Ok((id, n)) => r matches Ok((this, rest)) && this@ == id && rest@ == buf@.skip(
                    n as int,
                ),
                Err(k) => r matches Err(e) && e.kind() == k,
            },
    {
        let (pkid, rest) = parse_pkid_packet(buf)?;
        Ok((Self { pkid }, rest))
    }

    /// Parses the packet that takes the whole buffer.
    pub fn consume(buf: &[u8]) -> (r: Result<Self, Error>)
        ensures
            match spec_consume(spec_pkid_packet_parse(buf@), buf@.len()) {
                Ok(id) => r matches Ok(this) && this@ == id,
                Err(k) => r matches Err(e) && e.kind() == k,
            },
    {
        let (this, rest) = Self::parse(buf)?;
        if rest.len() != 0 {
            return Err(Error::new(ErrorKind::Invalid, "remaining bytes in consumed packet"));
        }
        Ok(this)
    }
}

} // verus!
