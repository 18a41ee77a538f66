//! Packet id is a common field of the variable headers.
use vstd::prelude::*;

use crate::bytes::{Error, ErrorKind};
use crate::encoding::number::{be16, push_u16_be, spec_be16, spec_u16_be};

verus! {

/// Outcome of parsing a packet identifier: its value and the bytes read.
pub open spec fn spec_packet_id_parse(buf: Seq<u8>) -> Result<(u16, nat), ErrorKind> {
    if buf.len() < 2 {
        Err(ErrorKind::NotEnoughSpace)
    } else if spec_be16(buf[0], buf[1]) == 0 {
        Err(ErrorKind::Invalid)
    } else {
        Ok((spec_be16(buf[0], buf[1]), 2))
    }
}

/// Identifier for a Packet with QoS > 0.
///
/// It's a non zero 16-bit value.
#[derive(Debug, Clone, Copy, PartialEq, Eq, Structural)]
pub struct PacketId {
    pkid: u16,
}

impl View for PacketId {
    type V = u16;

    closed spec fn view(&self) -> u16 {
        self.pkid
    }
}

impl PacketId {
    /// The identifier with the given value, if it's not zero.
    pub fn new(pkid: u16) -> (r: Option<Self>)
        ensures
            match r {
                Some(id) => pkid != 0 && id@ == pkid,
                None => pkid == 0,
            },
    {
        if pkid == 0 {
            None
        } else {
            Some(PacketId { pkid })
        }
    }

    /// The value of the identifier.
    pub fn read(&self) -> (r: u16)
        ensures
            r == self@,
    {
        self.pkid
    }

    /// Checks the identifier is not zero.
    pub fn validate(&self) -> (r: Result<(), Error>)
        ensures
            match r {
                Ok(()) => self@ != 0,
                Err(e) => self@ == 0 && e.kind() == ErrorKind::Invalid,
            },
    {
        if self.pkid == 0 {
            return Err(Error::new(ErrorKind::Invalid, "packet id cannot be 0"));
        }
        Ok(())
    }

    /// Bytes needed to write the identifier.
    pub fn encode_len(_value: &PacketId) -> (r: Result<usize, Error>)
        ensures
            r == Ok::<usize, Error>(2),
    {
        Ok(2)
    }

    /// Writes the identifier in network byte order.
    pub fn write_sync(writer: &mut Vec<u8>, value: &PacketId) -> (r: Result<usize, Error>)
        ensures
            r == Ok::<usize, Error>(2),
            final(writer)@ == old(writer)@ + spec_u16_be(value@),
    {
        push_u16_be(writer, value.pkid);
        Ok(2)
    }

    /// Parses a non zero identifier.
    pub fn parse<'a>(buf: &'a [u8]) -> (r: Result<(Self, &'a [u8]), Error>)
        ensures
            match spec_packet_id_parse(buf@) {
                Ok((v, n)) => r matches Ok((id, rest)) && id@ == v && rest@ == buf@.skip(n as int),
                Err(k) => r matches Err(e) && e.kind() == k,
            },
    {
        if buf.len() < 2 {
            return Err(Error::new(ErrorKind::NotEnoughSpace, "couldn't parse packet id"));
        }
        let pkid = be16(buf[0], buf[1]);
        if pkid == 0 {
            return Err(Error::new(ErrorKind::Invalid, "packet id cannot be 0"));
        }
        let (_, rest) = buf.split_at(2);
        proof {
            assert(rest@ =~= buf@.skip(2));
        }
        Ok((PacketId { pkid }, rest))
    }
}

impl From<PacketId> for usize {
    fn from(value: PacketId) -> (r: usize) {
        value.read() as usize
    }
}

impl vstd::std_specs::convert::FromSpecImpl<PacketId> for usize {
    open spec fn obeys_from_spec() -> bool {
        true
    }

    open spec fn from_spec(v: PacketId) -> usize {
        v@ as usize
    }
}

} // verus!
