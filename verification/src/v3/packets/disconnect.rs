//! Handle the DISCONNECT Packet.
use vstd::prelude::*;

use crate::bytes::{Error, ErrorKind};
use crate::v3::packets::common::fixed::{
    spec_fixed_array_parse, spec_fixed_bytes, ControlPacketType, FixedHeaderArray,
};

use super::common::fixed::builder::FixedHeaderBuilder;

verus! {

/// The DISCONNECT Packet is the final Control Packet sent from the Client to the Server.
///
/// It indicates that the Client is disconnecting cleanly.
#[derive(Debug, Clone, Copy)]
pub struct Disconnect {}

impl Disconnect {
    /// There is nothing to check.
    pub fn validate_value(_value: &()) -> (r: Result<(), Error>)
        ensures
            r is Ok,
    {
        Ok(())
    }

    /// There is nothing to check.
    pub fn validate(&self) -> (r: Result<(), Error>)
        ensures
            r is Ok,
    {
        Ok(())
    }

    /// The packet has no variable header nor payload.
    pub fn encode_len(_value: &()) -> (r: Result<usize, Error>)
        ensures
            r == Ok::<usize, Error>(0),
    {
        Ok(0)
    }

    /// Writes the packet: a fixed header with a zero remaining length.
    pub fn write_sync(writer: &mut Vec<u8>, _value: &()) -> (r: Result<usize, Error>)
        ensures
            r == Ok::<usize, Error>(2),
            final(writer)@ == old(writer)@ + spec_fixed_bytes(ControlPacketType::Disconnect, 0, 0),
    {
        let r = FixedHeaderBuilder::new(ControlPacketType::Disconnect).write_sync(writer);
        proof {
            reveal_with_fuel(crate::encoding::varint::rl_encode, 1);
        }
        match r {
            Ok(n) => Ok(n),
            Err(e) => {
                proof {
                    assert(false);
                }
                Err(e)
            },
        }
    }

    /// Parses a fixed header with a one byte remaining length.
    pub fn parse<'a>(buf: &'a [u8]) -> (r: Result<(Self, &'a [u8]), Error>)
        ensures
            match spec_fixed_array_parse(buf@, 1) {
                Ok(n) => r matches Ok((_, rest)) && rest@ == buf@.skip(n as int),
                Err(k) => r matches Err(e) && e.kind() == k,
            },
    {
        let (_fixed, rest) = FixedHeaderArray::<1>::parse(buf)?;
        Ok((Self {}, rest))
    }
}

} // verus!
