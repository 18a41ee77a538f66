//! SUBACK packet in response to a SUBSCRIBE.
use vstd::prelude::*;

use crate::bytes::{Error, ErrorKind};
use crate::encoding::number::{be16, spec_be16, spec_u16_be};
use crate::encoding::text::push_bytes;
use crate::encoding::varint::{rl_value, REMAINING_LENGTH_MAX};
use crate::v3::packets::common::fixed::builder::FixedHeaderBuilder;
use crate::v3::packets::common::fixed::{
    spec_fixed_bytes, spec_fixed_slice_parse, ControlPacketType, FixedHeaderSlice,
};
use crate::v3::packets::common::packet_id::PacketId;
use crate::v3::packets::spec_consume;

use super::builder::SubAckBuilder;

verus! {

/// Return code for a SUBACK.
#[derive(Debug, Clone, Copy, PartialEq, Eq, Structural)]
pub enum SubAckCode {
    /// Success with a maximum QoS of 0.
    Qos0,
    /// Success with a maximum QoS of 1.
    Qos1,
    /// Success with a maximum QoS of 2.
    Qos2,
    /// Failure to subscribe.
    Failure,
}

/// The byte of the return code.
pub open spec fn spec_sub_ack_code(c: SubAckCode) -> u8 {
    match c {
        SubAckCode::Qos0 => 0b0000_0000,
        SubAckCode::Qos1 => 0b0000_0001,
        SubAckCode::Qos2 => 0b0000_0010,
        SubAckCode::Failure => 0b1000_0000,
    }
}

/// The byte is one of the return codes.
pub open spec fn spec_valid_sub_ack_code(b: u8) -> bool {
    b == 0 || b == 1 || b == 2 || b == 0b1000_0000
}

impl SubAckCode {
    /// The return code of the byte.
    pub fn try_from(value: u8) -> (r: Result<Self, Error>)
        ensures
            match r {
                Ok(c) => spec_valid_sub_ack_code(value) && spec_sub_ack_code(c) == value,
                Err(e) => !spec_valid_sub_ack_code(value) && e.kind() == ErrorKind::OutOfRange,
            },
    {
        match value {
            0b0000_0000 => Ok(SubAckCode::Qos0),
            0b0000_0001 => Ok(SubAckCode::Qos1),
            0b0000_0010 => Ok(SubAckCode::Qos2),
            0b1000_0000 => Ok(SubAckCode::Failure),
            _ => Err(Error::new(ErrorKind::OutOfRange, "SUBACK return code")),
        }
    }

    /// The byte of the return code.
    pub fn code(self) -> (r: u8)
        ensures
            r == spec_sub_ack_code(self),
    {
        match self {
            SubAckCode::Qos0 => 0b0000_0000,
            SubAckCode::Qos1 => 0b0000_0001,
            SubAckCode::Qos2 => 0b0000_0010,
            SubAckCode::Failure => 0b1000_0000,
        }
    }
}

impl From<SubAckCode> for u8 {
    fn from(value: SubAckCode) -> (r: u8) {
        value.code()
    }
}

impl vstd::std_specs::convert::FromSpecImpl<SubAckCode> for u8 {
    open spec fn obeys_from_spec() -> bool {
        true
    }

    open spec fn from_spec(v: SubAckCode) -> u8 {
        spec_sub_ack_code(v)
    }
}

/// Outcome of parsing a SUBACK packet: packet identifier, return code bytes and bytes read.
pub open spec fn spec_sub_ack_parse(buf: Seq<u8>) -> Result<((u16, Seq<u8>), nat), ErrorKind> {
    match spec_fixed_slice_parse(buf) {
        Err(k) => Err(k),
        Ok(h) => {
            let rem = rl_value(buf.subrange(1, h as int));
            let rest = buf.skip(h as int);
            if rem < 2 {
                Err(ErrorKind::Overflow)
            } else if rest.len() < rem {
                Err(ErrorKind::NotEnoughSpace)
            } else {
                let codes = rest.subrange(2, rem);
                if exists|i: int| 0 <= i < codes.len() && !spec_valid_sub_ack_code(#[trigger] codes[i]) {
                    Err(ErrorKind::Invalid)
                } else if spec_be16(rest[0], rest[1]) == 0 {
                    Err(ErrorKind::Invalid)
                } else {
                    Ok(((spec_be16(rest[0], rest[1]), codes), (h + rem) as nat))
                }
            }
        },
    }
}

/// What writing a SUBACK packet does: the bytes written, and the error if it fails.
pub open spec fn spec_sub_ack_write(v: (u16, Seq<u8>)) -> (Seq<u8>, Option<ErrorKind>) {
    let rem = 2 + v.1.len();
    if rem > usize::MAX {
        (Seq::empty(), Some(ErrorKind::Overflow))
    } else if rem > REMAINING_LENGTH_MAX {
        (Seq::empty(), Some(ErrorKind::OutOfRange))
    } else {
        (spec_fixed_bytes(ControlPacketType::SubAck, 0, rem as u32) + spec_u16_be(v.0) + v.1, None)
    }
}

/// A written SUBACK is read back with the same packet identifier and return codes, whatever
/// bytes follow it.
pub proof fn lemma_sub_ack_roundtrip(v: (u16, Seq<u8>), rest: Seq<u8>)
    requires
        spec_sub_ack_write(v).1 is None,
        v.0 != 0,
        forall|i: int| 0 <= i < v.1.len() ==> spec_valid_sub_ack_code(#[trigger] v.1[i]),
    ensures
        spec_sub_ack_parse(spec_sub_ack_write(v).0 + rest) == Ok::<((u16, Seq<u8>), nat), ErrorKind>(
            (v, spec_sub_ack_write(v).0.len()),
        ),
{
    let rem = 2 + v.1.len();
    let body = spec_u16_be(v.0) + v.1;
    crate::v3::packets::common::fixed::lemma_fixed_roundtrip(
        ControlPacketType::SubAck,
        0,
        rem as u32,
        body + rest,
    );
    let b = spec_sub_ack_write(v).0 + rest;
    let fixed = spec_fixed_bytes(ControlPacketType::SubAck, 0, rem as u32);
    assert(b =~= fixed + (body + rest));
    let after = b.skip(fixed.len() as int);
    assert(after =~= body + rest);
    crate::encoding::number::lemma_u16_be_roundtrip(v.0, v.1 + rest);
    assert(after =~= spec_u16_be(v.0) + (v.1 + rest));
    assert(after.subrange(2, rem as int) =~= v.1);
}

/// A SUBACK Packet is sent by the Server to the Client to confirm receipt and processing of a
/// SUBSCRIBE Packet.
///
/// A SUBACK Packet contains a list of return codes, that specify the maximum QoS level that was
/// granted in each Subscription that was requested by the SUBSCRIBE.
#[derive(Debug, Clone, Copy)]
pub struct SubAck<'a> {
    pkid: PacketId,
    return_codes: &'a [u8],
}

impl<'a> View for SubAck<'a> {
    type V = (u16, Seq<u8>);

    closed spec fn view(&self) -> (u16, Seq<u8>) {
        (self.pkid@, self.return_codes@)
    }
}

impl<'a> SubAck<'a> {
    #[verifier::type_invariant]
    spec fn valid_codes(self) -> bool {
        forall|i: int|
            0 <= i < self.return_codes@.len() ==> spec_valid_sub_ack_code(
                #[trigger] self.return_codes@[i],
            )
    }

    /// Returns the [`PacketId`] of the packet.
    pub fn pkid(&self) -> (r: PacketId)
        ensures
            r@ == self@.0,
    {
        self.pkid
    }

    /// Returns the return codes of the packet, one for each filter of the SUBSCRIBE.
    pub fn return_codes(&self) -> (r: Vec<SubAckCode>)
        ensures
            r@.map_values(|c: SubAckCode| spec_sub_ack_code(c)) == self@.1,
    {
        proof {
            use_type_invariant(self);
        }
        let mut out: Vec<SubAckCode> = Vec::new();
        let mut i: usize = 0;
        while i < self.return_codes.len()
            invariant
                0 <= i <= self.return_codes@.len(),
                forall|j: int|
                    0 <= j < self.return_codes@.len() ==> spec_valid_sub_ack_code(
                        #[trigger] self.return_codes@[j],
                    ),
                out@.map_values(|c: SubAckCode| spec_sub_ack_code(c)) == self.return_codes@.take(
                    i as int,
                ),
            decreases self.return_codes@.len() - i,
        {
            let code = match SubAckCode::try_from(self.return_codes[i]) {
                Ok(c) => c,
                Err(_) => {
                    proof {
                        assert(spec_valid_sub_ack_code(self.return_codes@[i as int]));
                    }
                    SubAckCode::Failure
                },
            };
            let ghost prev = out@;
            out.push(code);
            proof {
                assert(spec_sub_ack_code(code) == self.return_codes@[i as int]);
                assert(self.return_codes@.take(i + 1) =~= self.return_codes@.take(i as int).push(
                    self.return_codes@[i as int],
                ));
                assert(out@.map_values(|c: SubAckCode| spec_sub_ack_code(c)) =~= prev.map_values(
                    |c: SubAckCode| spec_sub_ack_code(c),
                ).push(spec_sub_ack_code(code)));
            }
            i = i + 1;
        }
        proof {
            assert(self.return_codes@.take(i as int) =~= self.return_codes@);
        }
        out
    }

    /// There is nothing to check.
    pub fn validate_value(_value: &SubAckBuilder<'a>) -> (r: Result<(), Error>)
        ensures
            r is Ok,
    {
        Ok(())
    }

    /// Checks the packet identifier is not zero.
    pub fn validate(&self) -> (r: Result<(), Error>)
        ensures
            match r {
                Ok(()) => self@.0 != 0,
                Err(e) => self@.0 == 0 && e.kind() == ErrorKind::Invalid,
            },
    {
        self.pkid.validate()
    }

    /// The remaining length: the packet identifier and a byte for each return code.
    pub fn encode_len(value: &SubAckBuilder<'a>) -> (r: Result<usize, Error>)
        ensures
            match r {
                Ok(n) => n == 2 + value@.1.len(),
                Err(e) => 2 + value@.1.len() > usize::MAX && e.kind() == ErrorKind::Overflow,
            },
    {
        proof {
            value.lemma_view();
        }
        let len = PacketId::encode_len(&value.pkid)?;
        if len > usize::MAX - value.return_codes.len() {
            return Err(Error::new(ErrorKind::Overflow, "SUBACK encode len"));
        }
        Ok(len + value.return_codes.len())
    }

    /// Writes the SUBACK packet.
    pub fn write_sync(writer: &mut Vec<u8>, value: &SubAckBuilder<'a>) -> (r: Result<usize, Error>)
        ensures
            final(writer)@ == old(writer)@ + spec_sub_ack_write(value@).0,
            match spec_sub_ack_write(value@).1 {
                None => r matches Ok(n) && n == spec_sub_ack_write(value@).0.len(),
                Some(k) => r matches Err(e) && e.kind() == k,
            },
    {
        proof {
            value.lemma_view();
        }
        let remaining_length = Self::encode_len(value)?;
        let fixed = FixedHeaderBuilder::new(ControlPacketType::SubAck).remaining_length(
            remaining_length,
        )?;
        let mut written = fixed.write_sync(writer)?;
        written = written + PacketId::write_sync(writer, &value.pkid)?;
        let mut bytes: Vec<u8> = Vec::new();
        let mut i: usize = 0;
        while i < value.return_codes.len()
            invariant
                0 <= i <= value.return_codes@.len(),
                bytes@ == value@.1.take(i as int),
                value@.1 == value.return_codes@.map_values(|c: SubAckCode| spec_sub_ack_code(c)),
            decreases value.return_codes@.len() - i,
        {
            bytes.push(value.return_codes[i].code());
            i = i + 1;
            proof {
                assert(bytes@ =~= value@.1.take(i as int));
            }
        }
        proof {
            assert(value@.1.take(i as int) =~= value@.1);
            crate::encoding::varint::lemma_rl_encode(remaining_length as nat);
        }
        push_bytes(writer, bytes.as_slice());
        proof {
            assert(final(writer)@ =~= old(writer)@ + spec_sub_ack_write(value@).0);
        }
        Ok(written + bytes.len())
    }

    /// Parses the SUBACK packet.
    pub fn parse(buf: &'a [u8]) -> (r: Result<(Self, &'a [u8]), Error>)
        ensures
            match spec_sub_ack_parse(buf@) {
                Ok((v, n)) => r matches Ok((this, rest)) && this@ == v && n <= buf@.len() && rest@
                    == buf@.skip(n as int),
                Err(k) => r matches Err(e) && e.kind() == k,
            },
    {
        let (fixed, rest) = FixedHeaderSlice::parse(buf)?;
        let rem_len = fixed.remaining_length().read_len();
        if rem_len < 2 {
            return Err(Error::new(ErrorKind::Overflow, "SUBACK remaining length"));
        }
        if rest.len() < rem_len {
            return Err(Error::new(ErrorKind::NotEnoughSpace, "SUBACK not enought space"));
        }
        let (packet, rest2) = rest.split_at(rem_len);
        let (id, codes) = packet.split_at(2);
        let ghost h = spec_fixed_slice_parse(buf@)->Ok_0;
        proof {
            assert(packet@ =~= rest@.subrange(0, rem_len as int));
            assert(codes@ =~= rest@.subrange(2, rem_len as int));
        }
        let mut i: usize = 0;
        while i < codes.len()
            invariant
                0 <= i <= codes@.len(),
                spec_fixed_slice_parse(buf@) == Ok::<nat, ErrorKind>(h),
                rest@ == buf@.skip(h as int),
                rem_len == rl_value(buf@.subrange(1, h as int)),
                2 <= rem_len <= rest@.len(),
                codes@ == rest@.subrange(2, rem_len as int),
                forall|j: int| 0 <= j < i ==> spec_valid_sub_ack_code(#[trigger] codes@[j]),
            decreases codes@.len() - i,
        {
            let c = codes[i];
            if !(c == 0 || c == 1 || c == 2 || c == 0b1000_0000) {
                proof {
                    assert(!spec_valid_sub_ack_code(codes@[i as int]));
                }
                return Err(Error::new(ErrorKind::Invalid, "SUBACK return code is reserved"));
            }
            i = i + 1;
        }
        let pkid = be16(id[0], id[1]);
        proof {
            assert(id@[0] == rest@[0] && id@[1] == rest@[1]);
            assert(rest2@ =~= buf@.skip(spec_fixed_slice_parse(buf@)->Ok_0 + rem_len));
        }
        let pkid = match PacketId::new(pkid) {
            Some(p) => p,
            None => return Err(Error::new(ErrorKind::Invalid, "packet id cannot be 0")),
        };
        Ok((SubAck { pkid, return_codes: codes }, rest2))
    }

    /// Parses the SUBACK packet that takes the whole buffer.
    pub fn consume(buf: &'a [u8]) -> (r: Result<Self, Error>)
        ensures
            match spec_consume(spec_sub_ack_parse(buf@), buf@.len()) {
                Ok(v) => r matches Ok(this) && this@ == v,
                Err(k) => r matches Err(e) && e.kind() == k,
            },
    {
        let (this, rest) = Self::parse(buf)?;
        if rest.len() != 0 {
            return Err(Error::new(ErrorKind::Invalid, "remaining bytes in consumed packet"));
        }
        Ok(this)
    }
}

/// The SUBACK return codes have the bytes of the protocol: 0, 1 and 2 grant QoS 0, 1 and 2, and
/// 0x80 is a failure; they are the only valid bytes, each its own code.
pub proof fn lemma_sub_ack_code_table(c: SubAckCode)
    ensures
        spec_sub_ack_code(SubAckCode::Qos0) == 0,
        spec_sub_ack_code(SubAckCode::Qos1) == 1,
        spec_sub_ack_code(SubAckCode::Qos2) == 2,
        spec_sub_ack_code(SubAckCode::Failure) == 0x80,
        forall|b: u8| spec_valid_sub_ack_code(b) <==> (b == 0 || b == 1 || b == 2 || b == 0x80),
        forall|d: SubAckCode| spec_sub_ack_code(d) == spec_sub_ack_code(c) ==> d == c,
{
}

} // verus!
