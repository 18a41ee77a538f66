//! Fixed header for the packets.
use vstd::prelude::*;

use crate::bytes::{Error, ErrorKind};
use crate::encoding::varint::{
    count_leading_continues, leading_continues, lemma_leading_continues_facts, rl_encode, rl_size,
    rl_value, REMAINING_LENGTH_MAX,
};

use self::builder::FixedHeaderBuilder;
use self::remaining_length::{
    lemma_rl_slice_parse_shape, rl_bytes_ok, rl_shape_ok, spec_rl_len, spec_rl_slice_parse, RemainingLength,
    RemainingLengthSlice,
};

pub(crate) mod builder;
pub mod remaining_length;

verus! {

/// Control Packet type flags.
#[derive(Debug, Clone, Copy, PartialEq, Eq, Structural)]
pub struct TypeFlags(u8);

impl View for TypeFlags {
    type V = u8;

    closed spec fn view(&self) -> u8 {
        self.0
    }
}

impl TypeFlags {
    /// No flag set.
    pub fn empty() -> (r: Self)
        ensures
            r@ == 0,
    {
        TypeFlags(0)
    }

    /// Mask for the flags in the first byte of the fixed header.
    pub fn mask() -> (r: Self)
        ensures
            r@ == 0b0000_1111,
    {
        TypeFlags(0b0000_1111)
    }

    /// Publish is duplicate.
    pub fn publish_dup() -> (r: Self)
        ensures
            r@ == 0b0000_1000,
    {
        TypeFlags(0b0000_1000)
    }

    /// Publish QoS first bit.
    pub fn publish_qos_1() -> (r: Self)
        ensures
            r@ == 0b0000_0010,
    {
        TypeFlags(0b0000_0010)
    }

    /// Publish QoS second bit.
    pub fn publish_qos_2() -> (r: Self)
        ensures
            r@ == 0b0000_0100,
    {
        TypeFlags(0b0000_0100)
    }

    /// Publish QoS both bits.
    pub fn publish_qos_mask() -> (r: Self)
        ensures
            r@ == 0b0000_0110,
    {
        TypeFlags(0b0000_0110)
    }

    /// Publish retain flag.
    pub fn publish_retain() -> (r: Self)
        ensures
            r@ == 0b0000_0001,
    {
        TypeFlags(0b0000_0001)
    }

    /// Reserved non zero flags for PUBREL
    pub fn pubrel() -> (r: Self)
        ensures
            r@ == 0b0000_0010,
    {
        TypeFlags(0b0000_0010)
    }

    /// Reserved non zero flags for SUBSCRIBE
    pub fn subscribe() -> (r: Self)
        ensures
            r@ == 0b0000_0010,
    {
        TypeFlags(0b0000_0010)
    }

    /// Reserved non zero flags for UNSUBSCRIBE
    pub fn unsubscribe() -> (r: Self)
        ensures
            r@ == 0b0000_0010,
    {
        TypeFlags(0b0000_0010)
    }

    /// The flags with exactly the given bits.
    pub fn from_bits_retain(bits: u8) -> (r: Self)
        ensures
            r@ == bits,
    {
        TypeFlags(bits)
    }

    /// The flags with the given bits, if every bit is a known flag.
    pub fn from_bits(bits: u8) -> (r: Option<Self>)
        ensures
            match r {
                Some(f) => bits < 16 && f@ == bits,
                None => bits >= 16,
            },
    {
        if bits < 16 {
            Some(TypeFlags(bits))
        } else {
            None
        }
    }

    /// The bits of the flags.
    pub fn bits(&self) -> (r: u8)
        ensures
            r == self@,
    {
        self.0
    }

    /// No flag is set.
    pub fn is_empty(&self) -> (r: bool)
        ensures
            r == (self@ == 0),
    {
        self.0 == 0
    }

    /// Every flag of `other` is set.
    pub fn contains(&self, other: Self) -> (r: bool)
        ensures
            r == (self@ & other@ == other@),
    {
        self.0 & other.0 == other.0
    }

    /// Some flag of `other` is set.
    pub fn intersects(&self, other: Self) -> (r: bool)
        ensures
            r == (self@ & other@ != 0),
    {
        self.0 & other.0 != 0
    }

    /// The flags of both.
    pub fn union(self, other: Self) -> (r: Self)
        ensures
            r@ == self@ | other@,
    {
        TypeFlags(self.0 | other.0)
    }

    /// The flags set in both.
    pub fn intersection(self, other: Self) -> (r: Self)
        ensures
            r@ == self@ & other@,
    {
        TypeFlags(self.0 & other.0)
    }

    /// The flags of `self` that are not in `other`.
    pub fn difference(self, other: Self) -> (r: Self)
        ensures
            r@ == self@ & !other@,
    {
        TypeFlags(self.0 & !other.0)
    }
}

/// Control Packet Type for the [`FixedHeader`].
///
/// Represented as a 4-bit unsigned value.
#[derive(Debug, Clone, Copy, PartialEq, Eq, Structural)]
pub enum ControlPacketType {
    /// Client request to connect to Server.
    Connect,
    /// Connect acknowledgment.
    ConnAck,
    /// Publish message.
    Publish,
    /// Publish acknowledgment.
    PubAck,
    /// Publish received (assured delivery part 1).
    PubRec,
    /// Publish release (assured delivery part 2)
    PubRel,
    /// Publish complete (assured delivery part 3).
    PubComp,
    /// Client subscribe request.
    Subscribe,
    /// Subscribe acknowledgment.
    SubAck,
    /// Unsubscribe request.
    Unsubscribe,
    /// Unsubscribe acknowledgment.
    UnsubAck,
    /// PING request.
    PingReq,
    /// PING response.
    PingResp,
    /// Client is disconnecting.
    Disconnect,
}

/// The 4-bit value of the packet type.
pub open spec fn spec_type_code(t: ControlPacketType) -> u8 {
    match t {
        ControlPacketType::Connect => 1,
        ControlPacketType::ConnAck => 2,
        ControlPacketType::Publish => 3,
        ControlPacketType::PubAck => 4,
        ControlPacketType::PubRec => 5,
        ControlPacketType::PubRel => 6,
        ControlPacketType::PubComp => 7,
        ControlPacketType::Subscribe => 8,
        ControlPacketType::SubAck => 9,
        ControlPacketType::Unsubscribe => 10,
        ControlPacketType::UnsubAck => 11,
        ControlPacketType::PingReq => 12,
        ControlPacketType::PingResp => 13,
        ControlPacketType::Disconnect => 14,
    }
}

/// The packet type of a 4-bit value.
pub open spec fn spec_packet_type(v: u8) -> Option<ControlPacketType> {
    if v == 1 {
        Some(ControlPacketType::Connect)
    } else if v == 2 {
        Some(ControlPacketType::ConnAck)
    } else if v == 3 {
        Some(ControlPacketType::Publish)
    } else if v == 4 {
        Some(ControlPacketType::PubAck)
    } else if v == 5 {
        Some(ControlPacketType::PubRec)
    } else if v == 6 {
        Some(ControlPacketType::PubRel)
    } else if v == 7 {
        Some(ControlPacketType::PubComp)
    } else if v == 8 {
        Some(ControlPacketType::Subscribe)
    } else if v == 9 {
        Some(ControlPacketType::SubAck)
    } else if v == 10 {
        Some(ControlPacketType::Unsubscribe)
    } else if v == 11 {
        Some(ControlPacketType::UnsubAck)
    } else if v == 12 {
        Some(ControlPacketType::PingReq)
    } else if v == 13 {
        Some(ControlPacketType::PingResp)
    } else if v == 14 {
        Some(ControlPacketType::Disconnect)
    } else {
        None
    }
}

/// The flags are the ones the packet type requires: any for PUBLISH, the reserved `0b0010` for
/// PUBREL, SUBSCRIBE and UNSUBSCRIBE, and none for the others.
pub open spec fn spec_flags_allowed(t: ControlPacketType, flags: u8) -> bool {
    match t {
        ControlPacketType::Publish => true,
        ControlPacketType::PubRel | ControlPacketType::Subscribe
        | ControlPacketType::Unsubscribe => flags == 2,
        _ => flags == 0,
    }
}

/// The packet type and flags of the first byte of a fixed header, if they are valid.
pub open spec fn spec_type_and_flags(b: u8) -> Option<(ControlPacketType, u8)> {
    match spec_packet_type(b / 16) {
        Some(t) => if spec_flags_allowed(t, b % 16) {
            Some((t, b % 16))
        } else {
            None
        },
        None => None,
    }
}

/// The first byte of the fixed header for the packet type and flags.
pub open spec fn spec_first_byte(t: ControlPacketType, flags: u8) -> u8 {
    ((spec_type_code(t) * 16) as u8) | flags
}

/// The encoded fixed header.
pub open spec fn spec_fixed_bytes(t: ControlPacketType, flags: u8, remaining_length: u32) -> Seq<u8> {
    seq![spec_first_byte(t, flags)] + rl_encode(remaining_length as nat)
}

/// The code and the value of the packet type are inverse.
pub proof fn lemma_type_code(t: ControlPacketType)
    ensures
        spec_packet_type(spec_type_code(t)) == Some(t),
        1 <= spec_type_code(t) <= 14,
{
}

/// The first byte written for a type and allowed flags is read back as the same type and flags.
pub proof fn lemma_first_byte_roundtrip(t: ControlPacketType, flags: u8)
    requires
        flags < 16,
        spec_flags_allowed(t, flags),
    ensures
        spec_type_and_flags(spec_first_byte(t, flags)) == Some((t, flags)),
{
    let c = spec_type_code(t);
    let b = spec_first_byte(t, flags);
    assert(1 <= c <= 14);
    assert(((c * 16) as u8) == c << 4u8) by (bit_vector)
        requires
            1 <= c <= 14,
    ;
    assert((c << 4u8) | flags == b);
    assert(((c << 4u8) | flags) / 16 == c && ((c << 4u8) | flags) % 16 == flags) by (bit_vector)
        requires
            c <= 14,
            flags < 16,
    ;
}

/// A written fixed header is read back with the same packet type, flags and remaining length,
/// whatever bytes follow it; its length is also the one the next frame starts with.
pub proof fn lemma_fixed_roundtrip(t: ControlPacketType, flags: u8, rem: u32, rest: Seq<u8>)
    requires
        flags < 16,
        spec_flags_allowed(t, flags),
        rem <= REMAINING_LENGTH_MAX,
    ensures
        ({
            let b = spec_fixed_bytes(t, flags, rem) + rest;
            let n = 1 + rl_size(rem as int);
            &&& spec_fixed_bytes(t, flags, rem).len() == n
            &&& spec_fixed_slice_parse(b) == Ok::<nat, ErrorKind>(n as nat)
            &&& b[0] == spec_first_byte(t, flags)
            &&& spec_type_and_flags(b[0]) == Some((t, flags))
            &&& b.subrange(1, n as int) == rl_encode(rem as nat)
            &&& rl_value(b.subrange(1, n as int)) == rem
            &&& b.skip(n as int) == rest
            &&& spec_next_frame(b) == Ok::<Option<nat>, ErrorKind>(Some((n + rem) as nat))
        }),
{
    let e = rl_encode(rem as nat);
    let b = spec_fixed_bytes(t, flags, rem) + rest;
    let n = 1 + rl_size(rem as int);
    crate::encoding::varint::lemma_rl_encode(rem as nat);
    lemma_first_byte_roundtrip(t, flags);
    assert(b.skip(1) =~= e + rest);
    assert(leading_continues(e + rest) == e.len() - 1);
    assert(b.subrange(1, n as int) =~= e);
    assert(b.skip(1).take(e.len() as int) =~= e);
    assert(b.skip(n as int) =~= rest);
}

impl ControlPacketType {
    /// Returns the packet type of the 4-bit value.
    pub fn try_from(value: u8) -> (r: Result<Self, Error>)
        ensures
            match spec_packet_type(value) {
                Some(t) => r matches Ok(v) && v == t,
                None => r matches Err(e) && e.kind() == ErrorKind::Invalid,
            },
    {
        let value = match value {
            1 => ControlPacketType::Connect,
            2 => ControlPacketType::ConnAck,
            3 => ControlPacketType::Publish,
            4 => ControlPacketType::PubAck,
            5 => ControlPacketType::PubRec,
            6 => ControlPacketType::PubRel,
            7 => ControlPacketType::PubComp,
            8 => ControlPacketType::Subscribe,
            9 => ControlPacketType::SubAck,
            10 => ControlPacketType::Unsubscribe,
            11 => ControlPacketType::UnsubAck,
            12 => ControlPacketType::PingReq,
            13 => ControlPacketType::PingResp,
            14 => ControlPacketType::Disconnect,
            _ => return Err(Error::new(ErrorKind::Invalid, "control packet type")),
        };
        Ok(value)
    }

    /// The 4-bit value of the packet type.
    pub fn code(self) -> (r: u8)
        ensures
            r == spec_type_code(self),
    {
        match self {
            ControlPacketType::Connect => 1,
            ControlPacketType::ConnAck => 2,
            ControlPacketType::Publish => 3,
            ControlPacketType::PubAck => 4,
            ControlPacketType::PubRec => 5,
            ControlPacketType::PubRel => 6,
            ControlPacketType::PubComp => 7,
            ControlPacketType::Subscribe => 8,
            ControlPacketType::SubAck => 9,
            ControlPacketType::Unsubscribe => 10,
            ControlPacketType::UnsubAck => 11,
            ControlPacketType::PingReq => 12,
            ControlPacketType::PingResp => 13,
            ControlPacketType::Disconnect => 14,
        }
    }

    /// Validates the ControlPacketType and TypeFlags of the first byte of a fixed header.
    pub fn parse(type_and_flags: u8) -> (r: Result<(Self, TypeFlags), Error>)
        ensures
            match spec_type_and_flags(type_and_flags) {
                Some((t, f)) => r matches Ok((pt, flags)) && pt == t && flags@ == f,
                None => r matches Err(e) && e.kind() == ErrorKind::Invalid,
            },
    {
        let pk_type = Self::try_from(type_and_flags / 16)?;
        let flags = match TypeFlags::from_bits(type_and_flags % 16) {
            Some(flags) => flags,
            None => return Err(Error::new(ErrorKind::Invalid, "control packet flags")),
        };
        validate_type_flags(pk_type, flags)?;
        Ok((pk_type, flags))
    }
}

impl From<ControlPacketType> for u8 {
    fn from(value: ControlPacketType) -> (r: u8) {
        value.code()
    }
}

impl vstd::std_specs::convert::FromSpecImpl<ControlPacketType> for u8 {
    open spec fn obeys_from_spec() -> bool {
        true
    }

    open spec fn from_spec(v: ControlPacketType) -> u8 {
        spec_type_code(v)
    }
}

/// Checks the flags are the ones required by the packet type.
pub fn validate_type_flags(pk_type: ControlPacketType, flags: TypeFlags) -> (r: Result<(), Error>)
    ensures
        match r {
            Ok(()) => spec_flags_allowed(pk_type, flags@),
            Err(e) => !spec_flags_allowed(pk_type, flags@) && e.kind() == ErrorKind::Invalid,
        },
{
    match pk_type {
        ControlPacketType::Publish => {},
        ControlPacketType::PubRel => {
            if flags.bits() != 0b0010 {
                return Err(Error::new(ErrorKind::Invalid, "pubrel flags"));
            }
        },
        ControlPacketType::Subscribe => {
            if flags.bits() != 0b0010 {
                return Err(Error::new(ErrorKind::Invalid, "subscribe flags"));
            }
        },
        ControlPacketType::Unsubscribe => {
            if flags.bits() != 0b0010 {
                return Err(Error::new(ErrorKind::Invalid, "unsubscribe flags"));
            }
        },
        _ => {
            if !flags.is_empty() {
                return Err(Error::new(ErrorKind::Invalid, "non empty flags"));
            }
        },
    }
    Ok(())
}

/// The first byte of the fixed header for the packet type and flags.
pub fn encode_type_and_flags(pk_type: ControlPacketType, flags: TypeFlags) -> (r: u8)
    ensures
        r == spec_first_byte(pk_type, flags@),
{
    (pk_type.code() * 16) | flags.bits()
}

/// A written packet without variable header nor payload is read back as a header with one
/// byte of remaining length, or with none, whatever bytes follow it.
pub proof fn lemma_empty_packet_roundtrip(t: ControlPacketType, rest: Seq<u8>)
    requires
        spec_flags_allowed(t, 0),
    ensures
        spec_fixed_bytes(t, 0, 0).len() == 2,
        spec_fixed_array_parse(spec_fixed_bytes(t, 0, 0) + rest, 1) == Ok::<nat, ErrorKind>(2),
        spec_fixed_array_parse(spec_fixed_bytes(t, 0, 0) + rest, 0) == Ok::<nat, ErrorKind>(1),
{
    lemma_fixed_roundtrip(t, 0, 0, rest);
    reveal_with_fuel(rl_encode, 1);
    let b = spec_fixed_bytes(t, 0, 0) + rest;
    assert(b.subrange(1, 2) =~= seq![0u8]);
    assert(b.subrange(1, 1) =~= Seq::<u8>::empty());
}

/// Outcome of parsing a fixed header of any length at the front of `buf`: its length.
pub open spec fn spec_fixed_slice_parse(buf: Seq<u8>) -> Result<nat, ErrorKind> {
    if buf.len() < 1 {
        Err(ErrorKind::NotEnoughSpace)
    } else if spec_type_and_flags(buf[0]) is None {
        Err(ErrorKind::Invalid)
    } else {
        match spec_rl_slice_parse(buf.skip(1)) {
            Ok(n) => Ok(1 + n),
            Err(k) => Err(k),
        }
    }
}

/// Outcome of parsing a fixed header with exactly `n` bytes of remaining length. With no length
/// byte (the one byte header of a PINGREQ) there is no remaining length to check.
pub open spec fn spec_fixed_array_parse(buf: Seq<u8>, n: nat) -> Result<nat, ErrorKind> {
    if buf.len() < 1 + n {
        Err(ErrorKind::NotEnoughSpace)
    } else if spec_type_and_flags(buf[0]) is None {
        Err(ErrorKind::Invalid)
    } else if n > 0 && !rl_shape_ok(buf.subrange(1, 1 + n as int)) {
        Err(ErrorKind::Invalid)
    } else {
        Ok(1 + n)
    }
}

/// Outcome of looking for the length of the next packet at the front of `buf`: `None` when more
/// bytes are needed to know it.
pub open spec fn spec_next_frame(buf: Seq<u8>) -> Result<Option<nat>, ErrorKind> {
    if buf.len() < 1 {
        Ok(None)
    } else {
        let t = buf.skip(1);
        let c = leading_continues(t);
        if c >= 4 {
            Err(ErrorKind::Invalid)
        } else if t.len() < c + 1 {
            Ok(None)
        } else {
            Ok(Some((1 + (c + 1) + rl_value(t.take(c + 1 as int))) as nat))
        }
    }
}

/// Fixed header containing the packet type, flags and remaining length of the payload.
#[derive(Debug, Clone, Copy)]
pub struct FixedHeader<'a> {
    type_and_flags: u8,
    remaining_length: RemainingLength<'a>,
}

/// Fixed header with a remaining length of any number of bytes.
pub type FixedHeaderSlice<'a> = FixedHeader<'a>;

/// Fixed header with exactly `N` bytes of remaining length.
#[derive(Debug, Clone, Copy)]
pub struct FixedHeaderArray<const N: usize>;

impl<'a> FixedHeader<'a> {
    #[verifier::type_invariant]
    spec fn valid_type(self) -> bool {
        spec_type_and_flags(self.type_and_flags) is Some
    }

    /// The first byte: packet type and flags.
    pub closed spec fn spec_type_and_flags_byte(&self) -> u8 {
        self.type_and_flags
    }

    /// The bytes of the remaining length.
    pub closed spec fn spec_remaining_bytes(&self) -> Seq<u8> {
        self.remaining_length@
    }

    /// The value of the remaining length.
    pub open spec fn spec_remaining_length(&self) -> int {
        rl_value(self.spec_remaining_bytes())
    }

    /// The packet type of the header.
    pub open spec fn spec_packet_type(&self) -> ControlPacketType {
        spec_type_and_flags(self.spec_type_and_flags_byte())->Some_0.0
    }

    /// The flags of the header.
    pub open spec fn spec_flags(&self) -> u8 {
        self.spec_type_and_flags_byte() % 16
    }

    /// Returns the control packet type
    pub fn packet_type(&self) -> (r: ControlPacketType)
        ensures
            r == self.spec_packet_type(),
    {
        proof {
            use_type_invariant(self);
        }
        match ControlPacketType::try_from(self.type_and_flags / 16) {
            Ok(t) => t,
            Err(_) => {
                proof {
                    assert(false);
                }
                ControlPacketType::Connect
            },
        }
    }

    /// Returns the control packet flags
    pub fn flags(&self) -> (r: TypeFlags)
        ensures
            r@ == self.spec_flags(),
    {
        TypeFlags::from_bits_retain(self.type_and_flags % 16)
    }

    /// Returns the control packet remaining length
    pub fn remaining_length(&self) -> (r: RemainingLength<'a>)
        ensures
            r@ == self.spec_remaining_bytes(),
            rl_bytes_ok(r@),
    {
        proof {
            use_type_invariant(&self.remaining_length);
        }
        self.remaining_length
    }

    /// Reads the length of the next packet from the start of its bytes.
    ///
    /// Returns `None` when more bytes are needed.
    pub fn next_frame(buff: &[u8]) -> (r: Result<Option<usize>, Error>)
        ensures
            match spec_next_frame(buff@) {
                Ok(Some(n)) => r matches Ok(Some(len)) && len == n,
                Ok(None) => r matches Ok(None),
                Err(k) => r matches Err(e) && e.kind() == k,
            },
    {
        if buff.len() < 1 {
            return Ok(None);
        }
        let (_, buff) = buff.split_at(1);
        let rem_bytes = 1 + RemainingLengthSlice::count_continue_flags(buff)?;
        if buff.len() < rem_bytes {
            return Ok(None);
        }
        let (head, _) = buff.split_at(rem_bytes);
        proof {
            assert(head@ =~= buff@.take(rem_bytes as int));
            crate::encoding::varint::lemma_rl_value_bound(head@);
        }
        let rem_len = RemainingLengthSlice::read_from_buf(head) as usize;
        Ok(Some(1 + rem_bytes + rem_len))
    }

    /// Checks the packet type, flags and remaining length of the header. The type and flags always
    /// hold of a parsed header; the remaining length fails only for a header read without any
    /// length byte.
    pub fn validate(&self) -> (r: Result<(), Error>)
        ensures
            spec_type_and_flags(self.spec_type_and_flags_byte()) is Some,
            match r {
                Ok(()) => rl_shape_ok(self.spec_remaining_bytes()),
                Err(e) => !rl_shape_ok(self.spec_remaining_bytes()) && e.kind() == ErrorKind::Invalid,
            },
    {
        proof {
            use_type_invariant(self);
            use_type_invariant(&self.remaining_length);
        }
        ControlPacketType::parse(self.type_and_flags)?;
        self.remaining_length.validate()?;
        Ok(())
    }

    /// Checks the header to write: the flags must be allowed for the packet type and the
    /// remaining length must not exceed the maximum.
    pub(crate) fn validate_value(value: &FixedHeaderBuilder) -> (r: Result<(), Error>)
        ensures
            match r {
                Ok(()) => spec_flags_allowed(value.packet_type, value.flags@) && value.remaining_length
                    <= REMAINING_LENGTH_MAX,
                Err(e) => if !spec_flags_allowed(value.packet_type, value.flags@) {
                    e.kind() == ErrorKind::Invalid
                } else {
                    value.remaining_length > REMAINING_LENGTH_MAX && e.kind() == ErrorKind::OutOfRange
                },
            },
    {
        validate_type_flags(value.packet_type, value.flags)?;
        RemainingLengthSlice::validate_value(&value.remaining_length)?;
        Ok(())
    }

    /// Bytes needed to write the header.
    pub(crate) fn encode_len(value: &FixedHeaderBuilder) -> (r: Result<usize, Error>)
        ensures
            match spec_rl_len(value.remaining_length) {
                Ok(n) => r == Ok::<usize, Error>((1 + n) as usize),
                Err(k) => r matches Err(e) && e.kind() == k,
            },
    {
        let size = RemainingLengthSlice::encode_len(&value.remaining_length)?;
        Ok(size + 1)
    }

    /// Writes the header.
    pub(crate) fn write_sync(writer: &mut Vec<u8>, value: &FixedHeaderBuilder) -> (r: Result<
        usize,
        Error,
    >)
        ensures
            match r {
                Ok(n) => {
                    &&& spec_flags_allowed(value.packet_type, value.flags@)
                    &&& value.remaining_length <= REMAINING_LENGTH_MAX
                    &&& final(writer)@ == old(writer)@ + spec_fixed_bytes(
                        value.packet_type,
                        value.flags@,
                        value.remaining_length,
                    )
                    &&& n == 1 + rl_size(value.remaining_length as int)
                },
                Err(e) => {
                    &&& final(writer)@ == old(writer)@
                    &&& if !spec_flags_allowed(value.packet_type, value.flags@) {
                        e.kind() == ErrorKind::Invalid
                    } else {
                        value.remaining_length > REMAINING_LENGTH_MAX && e.kind()
                            == ErrorKind::OutOfRange
                    }
                },
            },
    {
        Self::validate_value(value)?;
        let to_write = Self::encode_len(value)?;
        let type_and_flags = encode_type_and_flags(value.packet_type, value.flags);
        writer.push(type_and_flags);
        let ghost mid = writer@;
        let _ = RemainingLengthSlice::write_sync(writer, &value.remaining_length);
        proof {
            assert(final(writer)@ =~= old(writer)@ + spec_fixed_bytes(
                value.packet_type,
                value.flags@,
                value.remaining_length,
            ));
        }
        Ok(to_write)
    }

    /// Parses a fixed header with a remaining length of 1 to 4 bytes.
    pub fn parse(buf: &'a [u8]) -> (r: Result<(Self, &'a [u8]), Error>)
        ensures
            match spec_fixed_slice_parse(buf@) {
                Ok(n) => r matches Ok((this, rest)) && this.spec_type_and_flags_byte() == buf@[0]
                    && this.spec_remaining_bytes() == buf@.subrange(1, n as int) && rest@ == buf@.skip(
                    n as int,
                ),
                Err(k) => r matches Err(e) && e.kind() == k,
            },
    {
        if buf.len() < 1 {
            return Err(Error::new(ErrorKind::NotEnoughSpace, "fixed header"));
        }
        let type_and_flags = buf[0];
        let (_, tail) = buf.split_at(1);
        let (_pk_type, _flags) = ControlPacketType::parse(type_and_flags)?;
        proof {
            assert(tail@ =~= buf@.skip(1));
        }
        let (remaining_length, rest) = RemainingLengthSlice::parse(tail)?;
        proof {
            assert(remaining_length@ =~= buf@.subrange(1, 1 + remaining_length@.len() as int));
            assert(rest@ =~= buf@.skip(1 + remaining_length@.len() as int));
        }
        Ok((FixedHeader { type_and_flags, remaining_length }, rest))
    }
}

impl<const N: usize> FixedHeaderArray<N> {
    /// Parses a fixed header with exactly `N` bytes of remaining length; with `N` zero only the
    /// first byte is read and checked.
    pub fn parse<'a>(buf: &'a [u8]) -> (r: Result<(FixedHeader<'a>, &'a [u8]), Error>)
        ensures
            match spec_fixed_array_parse(buf@, N as nat) {
                Ok(n) => r matches Ok((this, rest)) && this.spec_type_and_flags_byte() == buf@[0]
                    && this.spec_remaining_bytes() == buf@.subrange(1, n as int) && rest@ == buf@.skip(
                    n as int,
                ),
                Err(k) => r matches Err(e) && e.kind() == k,
            },
    {
        if buf.len() < 1 || buf.len() - 1 < N {
            return Err(Error::new(ErrorKind::NotEnoughSpace, "fixed header"));
        }
        let type_and_flags = buf[0];
        let (_, tail) = buf.split_at(1);
        let (rl, rest) = tail.split_at(N);
        proof {
            assert(rl@ =~= buf@.subrange(1, 1 + N));
            assert(rest@ =~= buf@.skip(1 + N));
        }
        let (_pk_type, _flags) = ControlPacketType::parse(type_and_flags)?;
        if N > 0 {
            RemainingLength::validate_bytes(rl)?;
        }
        let remaining_length = RemainingLength::from_bytes(rl);
        Ok((FixedHeader { type_and_flags, remaining_length }, rest))
    }
}

/// The packet types have the codes of the protocol, from CONNECT (1) to DISCONNECT (14), each
/// its own.
pub proof fn lemma_type_code_table(t: ControlPacketType)
    ensures
        spec_type_code(ControlPacketType::Connect) == 1,
        spec_type_code(ControlPacketType::ConnAck) == 2,
        spec_type_code(ControlPacketType::Publish) == 3,
        spec_type_code(ControlPacketType::PubAck) == 4,
        spec_type_code(ControlPacketType::PubRec) == 5,
        spec_type_code(ControlPacketType::PubRel) == 6,
        spec_type_code(ControlPacketType::PubComp) == 7,
        spec_type_code(ControlPacketType::Subscribe) == 8,
        spec_type_code(ControlPacketType::SubAck) == 9,
        spec_type_code(ControlPacketType::Unsubscribe) == 10,
        spec_type_code(ControlPacketType::UnsubAck) == 11,
        spec_type_code(ControlPacketType::PingReq) == 12,
        spec_type_code(ControlPacketType::PingResp) == 13,
        spec_type_code(ControlPacketType::Disconnect) == 14,
        forall|u: ControlPacketType| spec_type_code(u) == spec_type_code(t) ==> u == t,
{
}

} // verus!
