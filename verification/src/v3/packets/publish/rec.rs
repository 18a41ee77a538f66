//! PUBREC packet for PUBLISH with [`Qos::ExactlyOnce`](crate::v3::packets::Qos::ExactlyOnce).
use vstd::prelude::*;

use crate::bytes::{Error, ErrorKind};
use crate::encoding::number::spec_u16_be;
use crate::v3::packets::common::fixed::builder::{spec_default_flags, FixedHeaderBuilder};
use crate::v3::packets::common::fixed::{
    spec_fixed_array_parse, spec_fixed_bytes, ControlPacketType, FixedHeaderArray,
};
use crate::v3::packets::common::packet_id::{spec_packet_id_parse, PacketId};
use crate::v3::packets::spec_consume;

verus! {

/// Outcome of parsing a packet made of a fixed header with a one byte remaining length and a
/// packet identifier: the identifier and the bytes read.
pub open spec fn spec_pkid_packet_parse(buf: Seq<u8>) -> Result<(u16, nat), ErrorKind> {
    match spec_fixed_array_parse(buf, 1) {
        Err(k) => Err(k),
        Ok(h) => match spec_packet_id_parse(buf.skip(h as int)) {
            Err(k) => Err(k),
            Ok((id, n)) => Ok((id, h + n)),
        },
    }
}

/// The bytes of a packet made of a fixed header, with the default flags of its type, and a
/// packet identifier.
pub open spec fn spec_pkid_packet_bytes(packet_type: ControlPacketType, pkid: u16) -> Seq<u8> {
    spec_fixed_bytes(packet_type, spec_default_flags(packet_type), 2) + spec_u16_be(pkid)
}

/// A written packet identifier packet is read back with the same identifier, whatever bytes
/// follow it.
pub proof fn lemma_pkid_packet_roundtrip(packet_type: ControlPacketType, pkid: u16, rest: Seq<u8>)
    requires
        pkid != 0,
    ensures
        spec_pkid_packet_bytes(packet_type, pkid).len() == 4,
        spec_pkid_packet_parse(spec_pkid_packet_bytes(packet_type, pkid) + rest) == Ok::<
            (u16, nat),
            ErrorKind,
        >((pkid, 4)),
{
    let flags = spec_default_flags(packet_type);
    let body = spec_u16_be(pkid);
    crate::v3::packets::common::fixed::lemma_fixed_roundtrip(packet_type, flags, 2, body + rest);
    reveal_with_fuel(crate::encoding::varint::rl_encode, 1);
    let b = spec_pkid_packet_bytes(packet_type, pkid) + rest;
    let fixed = spec_fixed_bytes(packet_type, flags, 2);
    assert(fixed.len() == 2);
    assert(b =~= fixed + (body + rest));
    assert(b.subrange(1, 2) =~= seq![2u8]);
    assert(b.skip(2) =~= body + rest);
    crate::encoding::number::lemma_u16_be_roundtrip(pkid, rest);
}

/// A PUBREC Packet is the response to a PUBLISH Packet with QoS 2. It is the second packet of the QoS 2 protocol exchange.
#[derive(Debug, Clone, Copy, PartialEq, Eq)]
pub struct PubRec {
    pkid: PacketId,
}

impl View for PubRec {
    type V = u16;

    closed spec fn view(&self) -> u16 {
        self.pkid@
    }
}

impl PubRec {
    /// Returns the packet identifier.
    pub fn pkid(&self) -> (r: PacketId)
        ensures
            r@ == self@,
    {
        self.pkid
    }

    /// There is nothing to check.
    pub fn validate_value(_value: &PacketId) -> (r: Result<(), Error>)
        ensures
            r is Ok,
    {
        Ok(())
    }

    /// There is nothing to check.
    pub fn validate(&self) -> (r: Result<(), Error>)
        ensures
            r is Ok,
    {
        Ok(())
    }

    /// The remaining length: the packet identifier.
    pub fn encode_len(value: &PacketId) -> (r: Result<usize, Error>)
        ensures
            r == Ok::<usize, Error>(2),
    {
        PacketId::encode_len(value)
    }

    /// Writes the packet.
    pub fn write_sync(writer: &mut Vec<u8>, value: &PacketId) -> (r: Result<usize, Error>)
        ensures
            r == Ok::<usize, Error>(4),
            final(writer)@ == old(writer)@ + spec_pkid_packet_bytes(ControlPacketType::PubRec, value@),
    {
        write_pkid_packet(writer, ControlPacketType::PubRec, value)
    }

    /// Parses the packet.
    pub fn parse<'a>(buf: &'a [u8]) -> (r: Result<(Self, &'a [u8]), Error>)
        ensures
            match spec_pkid_packet_parse(buf@) {
                Ok((id, n)) => r matches Ok((this, rest)) && this@ == id && rest@ == buf@.skip(
                    n as int,
                ),
                Err(k) => r matches Err(e) && e.kind() == k,
            },
    {
        let (pkid, rest) = parse_pkid_packet(buf)?;
        Ok((Self { pkid }, rest))
    }

    /// Parses the packet that takes the whole buffer.
    pub fn consume(buf: &[u8]) -> (r: Result<Self, Error>)
        ensures
            match spec_consume(spec_pkid_packet_parse(buf@), buf@.len()) {
                Ok(id) => r matches Ok(this) && this@ == id,
                Err(k) => r matches Err(e) && e.kind() == k,
            },
    {
        let (this, rest) = Self::parse(buf)?;
        if rest.len() != 0 {
            return Err(Error::new(ErrorKind::Invalid, "remaining bytes in consumed packet"));
        }
        Ok(this)
    }
}

/// Writes a fixed header with the default flags of the packet type and the packet identifier.
pub(crate) fn write_pkid_packet(
    writer: &mut Vec<u8>,
    packet_type: ControlPacketType,
    value: &PacketId,
) -> (r: Result<usize, Error>)
    ensures
        r == Ok::<usize, Error>(4),
        final(writer)@ == old(writer)@ + spec_pkid_packet_bytes(packet_type, value@),
{
    let fixed = FixedHeaderBuilder::new(packet_type);
    let fixed = match fixed.remaining_length(2) {
        Ok(f) => f,
        Err(e) => {
            proof {
                assert(false);
            }
            return Err(e);
        },
    };
    proof {
        reveal_with_fuel(crate::encoding::varint::rl_encode, 1);
    }
    let written = match fixed.write_sync(writer) {
        Ok(n) => n,
        Err(e) => {
            proof {
                assert(false);
            }
            return Err(e);
        },
    };
    let _ = PacketId::write_sync(writer, value);
    proof {
        assert(final(writer)@ =~= old(writer)@ + spec_pkid_packet_bytes(packet_type, value@));
    }
    Ok(written + 2)
}

/// Parses a fixed header with a one byte remaining length followed by a packet identifier.
pub(crate) fn parse_pkid_packet<'a>(buf: &'a [u8]) -> (r: Result<(PacketId, &'a [u8]), Error>)
    ensures
        match spec_pkid_packet_parse(buf@) {
            Ok((id, n)) => r matches Ok((pkid, rest)) && pkid@ == id && rest@ == buf@.skip(n as int),
            Err(k) => r matches Err(e) && e.kind() == k,
        },
{
    let (_fixed, rest) = FixedHeaderArray::<1>::parse(buf)?;
    let (pkid, rest2) = PacketId::parse(rest)?;
    proof {
        assert(rest2@ =~= buf@.skip(spec_pkid_packet_parse(buf@)->Ok_0.1 as int));
    }
    Ok((pkid, rest2))
}

} // verus!
