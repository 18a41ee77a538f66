//! Data representation of MQTT packets, decoded with [`DecodeError`] errors.
use vstd::prelude::*;
use vstd::utf8::{decode_utf8, valid_utf8};

use crate::encoding::number::{be16, spec_be16};
use crate::encoding::text::str_from_utf8;
use crate::encoding::varint::{count_leading_continues, leading_continues, rl_read, rl_value};

verus! {

/// Error while decoding a packet.
#[derive(Debug, Clone, Copy, PartialEq, Eq, Structural)]
pub enum DecodeError {
    /// The buffer is shorter than what must be read.
    NotEnoughBytes {
        /// Bytes that were needed.
        needed: usize,
        /// Bytes in the buffer.
        actual: usize,
    },
    /// The string is not UTF-8 encoded.
    Utf8,
    /// The remaining length has more than four bytes.
    RemainingLengthBytes,
    /// The flags are not the ones of the packet type.
    ControlFlags {
        /// The type of the packet.
        packet_type: ControlPacketType,
        /// The flags read.
        flags: TypeFlags,
    },
    /// The packet type is not a valid one.
    PacketType(u8),
    /// The remaining length is above the maximum.
    MaxRemainingLength(u32),
    /// The packet identifier is zero.
    PacketIdentifier,
}

/// The text of a decimal digit.
pub open spec fn spec_digit(d: nat) -> Seq<char> {
    if d == 0 {
        "0"@
    } else if d == 1 {
        "1"@
    } else if d == 2 {
        "2"@
    } else if d == 3 {
        "3"@
    } else if d == 4 {
        "4"@
    } else if d == 5 {
        "5"@
    } else if d == 6 {
        "6"@
    } else if d == 7 {
        "7"@
    } else if d == 8 {
        "8"@
    } else {
        "9"@
    }
}

/// The number written in decimal, without leading zeros.
pub open spec fn spec_decimal(n: nat) -> Seq<char>
    decreases n,
{
    if n < 10 {
        spec_digit(n)
    } else {
        spec_decimal(n / 10) + spec_digit(n % 10)
    }
}

/// The number written in decimal with at least four digits, padded with leading zeros.
pub open spec fn spec_decimal4(n: nat) -> Seq<char> {
    if n < 10 {
        "000"@ + spec_decimal(n)
    } else if n < 100 {
        "00"@ + spec_decimal(n)
    } else if n < 1000 {
        "0"@ + spec_decimal(n)
    } else {
        spec_decimal(n)
    }
}

/// The name and code of a packet type, as `CONNECT(1)`.
pub open spec fn spec_packet_type_text(t: ControlPacketType) -> Seq<char> {
    let name = match t {
        ControlPacketType::Connect => "CONNECT("@,
        ControlPacketType::ConnAck => "CONNACK("@,
        ControlPacketType::Publish => "PUBLISH("@,
        ControlPacketType::PubAck => "PUBACK("@,
        ControlPacketType::PubRec => "PUBREC("@,
        ControlPacketType::PubRel => "PUBREL("@,
        ControlPacketType::PubComp => "PUBCOMP("@,
        ControlPacketType::Subscribe => "SUBSCRIBE("@,
        ControlPacketType::SubAck => "SUBACK("@,
        ControlPacketType::Unsubscribe => "UNSUBSCRIBE("@,
        ControlPacketType::UnsubAck => "UNSUBACK("@,
        ControlPacketType::PingReq => "PINGREQ("@,
        ControlPacketType::PingResp => "PINGRESP("@,
        ControlPacketType::Disconnect => "DISCONNECT("@,
    };
    name + spec_decimal(spec_code(t) as nat) + ")"@
}

/// The description of a decoding error.
pub open spec fn spec_decode_error_message(e: DecodeError) -> Seq<char> {
    match e {
        DecodeError::NotEnoughBytes { needed, actual } => "not enough bytes, buffer contains "@
            + spec_decimal(actual as nat) + " but "@ + spec_decimal(needed as nat)
            + " were needed"@,
        DecodeError::Utf8 => "the string was not UTF-8 encoded"@,
        DecodeError::RemainingLengthBytes => "remaining length exceeded the maximum of 4 bytes"@,
        DecodeError::ControlFlags { packet_type, flags } => "invalid control packet flags "@
            + spec_decimal4(flags.0 as nat) + " for "@ + spec_packet_type_text(packet_type),
        DecodeError::PacketType(t) => "invalid control packet type "@ + spec_decimal(t as nat),
        DecodeError::MaxRemainingLength(v) => "remaining length "@ + spec_decimal(v as nat)
            + " is bigger than the maximum "@ + spec_decimal(268_435_455),
        DecodeError::PacketIdentifier => "the packet identifier needs to be non-zero"@,
    }
}

/// Appends the decimal digit.
fn push_digit(s: &mut String, d: u64)
    requires
        d < 10,
    ensures
        final(s)@ == old(s)@ + spec_digit(d as nat),
{
    if d == 0 {
        s.append("0");
    } else if d == 1 {
        s.append("1");
    } else if d == 2 {
        s.append("2");
    } else if d == 3 {
        s.append("3");
    } else if d == 4 {
        s.append("4");
    } else if d == 5 {
        s.append("5");
    } else if d == 6 {
        s.append("6");
    } else if d == 7 {
        s.append("7");
    } else if d == 8 {
        s.append("8");
    } else {
        s.append("9");
    }
}

/// Appends the number written in decimal.
fn push_decimal(s: &mut String, n: u64)
    ensures
        final(s)@ == old(s)@ + spec_decimal(n as nat),
    decreases n,
{
    if n < 10 {
        push_digit(s, n);
    } else {
        push_decimal(s, n / 10);
        push_digit(s, n % 10);
        proof {
            assert(old(s)@ + spec_decimal((n / 10) as nat) + spec_digit((n % 10) as nat) =~= old(s)@
                + spec_decimal(n as nat));
        }
    }
}

impl ControlPacketType {
    /// Appends the name and code of the packet type, as `CONNECT(1)`.
    fn push_text(self, s: &mut String)
        ensures
            final(s)@ == old(s)@ + spec_packet_type_text(self),
    {
        let ghost start = s@;
        match self {
            ControlPacketType::Connect => s.append("CONNECT("),
            ControlPacketType::ConnAck => s.append("CONNACK("),
            ControlPacketType::Publish => s.append("PUBLISH("),
            ControlPacketType::PubAck => s.append("PUBACK("),
            ControlPacketType::PubRec => s.append("PUBREC("),
            ControlPacketType::PubRel => s.append("PUBREL("),
            ControlPacketType::PubComp => s.append("PUBCOMP("),
            ControlPacketType::Subscribe => s.append("SUBSCRIBE("),
            ControlPacketType::SubAck => s.append("SUBACK("),
            ControlPacketType::Unsubscribe => s.append("UNSUBSCRIBE("),
            ControlPacketType::UnsubAck => s.append("UNSUBACK("),
            ControlPacketType::PingReq => s.append("PINGREQ("),
            ControlPacketType::PingResp => s.append("PINGRESP("),
            ControlPacketType::Disconnect => s.append("DISCONNECT("),
        }
        push_decimal(s, self.code() as u64);
        s.append(")");
        proof {
            assert(s@ =~= start + spec_packet_type_text(self));
        }
    }
}

impl DecodeError {
    /// The description of the error.
    pub fn message(&self) -> (r: String)
        ensures
            r@ == spec_decode_error_message(*self),
    {
        let mut s = String::new();
        match self {
            DecodeError::NotEnoughBytes { needed, actual } => {
                s.append("not enough bytes, buffer contains ");
                push_decimal(&mut s, *actual as u64);
                s.append(" but ");
                push_decimal(&mut s, *needed as u64);
                s.append(" were needed");
            },
            DecodeError::Utf8 => s.append("the string was not UTF-8 encoded"),
            DecodeError::RemainingLengthBytes => s.append(
                "remaining length exceeded the maximum of 4 bytes",
            ),
            DecodeError::ControlFlags { packet_type, flags } => {
                s.append("invalid control packet flags ");
                let v = flags.0;
                if v < 10 {
                    s.append("000");
                } else if v < 100 {
                    s.append("00");
                } else {
                    s.append("0");
                }
                push_decimal(&mut s, v as u64);
                s.append(" for ");
                packet_type.push_text(&mut s);
            },
            DecodeError::PacketType(t) => {
                s.append("invalid control packet type ");
                push_decimal(&mut s, *t as u64);
            },
            DecodeError::MaxRemainingLength(v) => {
                s.append("remaining length ");
                push_decimal(&mut s, *v as u64);
                s.append(" is bigger than the maximum ");
                push_decimal(&mut s, 268_435_455);
            },
            DecodeError::PacketIdentifier => s.append("the packet identifier needs to be non-zero"),
        }
        proof {
            assert(s@ =~= spec_decode_error_message(*self));
        }
        s
    }
}

/// Outcome of reading `n` bytes: the error when the buffer is too short.
pub open spec fn spec_need(bytes: Seq<u8>, n: nat) -> Option<DecodeError> {
    if bytes.len() < n {
        Some(DecodeError::NotEnoughBytes { needed: n as usize, actual: bytes.len() as usize })
    } else {
        None
    }
}

/// Splits `length` bytes off the front of the buffer.
fn read_exact(bytes: &[u8], length: usize) -> (r: Result<(&[u8], &[u8]), DecodeError>)
    ensures
        match spec_need(bytes@, length as nat) {
            Some(e) => r == Err::<(&[u8], &[u8]), DecodeError>(e),
            None => r matches Ok((data, rest)) && data@ == bytes@.take(length as int) && rest@
                == bytes@.skip(length as int),
        },
{
    if length > bytes.len() {
        return Err(DecodeError::NotEnoughBytes { needed: length, actual: bytes.len() });
    }
    let (data, rest) = bytes.split_at(length);
    proof {
        assert(data@ =~= bytes@.take(length as int));
        assert(rest@ =~= bytes@.skip(length as int));
    }
    Ok((data, rest))
}

/// Reads a byte.
fn read_u8(bytes: &[u8]) -> (r: Result<(u8, &[u8]), DecodeError>)
    ensures
        match spec_need(bytes@, 1) {
            Some(e) => r == Err::<(u8, &[u8]), DecodeError>(e),
            None => r matches Ok((b, rest)) && b == bytes@[0] && rest@ == bytes@.skip(1),
        },
{
    let (data, rest) = read_exact(bytes, 1)?;
    Ok((data[0], rest))
}

/// Reads a big endian 16 bits integer.
fn read_u16(bytes: &[u8]) -> (r: Result<(u16, &[u8]), DecodeError>)
    ensures
        match spec_need(bytes@, 2) {
            Some(e) => r == Err::<(u16, &[u8]), DecodeError>(e),
            None => r matches Ok((v, rest)) && v == spec_be16(bytes@[0], bytes@[1]) && rest@
                == bytes@.skip(2),
        },
{
    let (data, rest) = read_exact(bytes, 2)?;
    Ok((be16(data[0], data[1]), rest))
}

/// Outcome of parsing a string: its characters and the bytes read.
pub open spec fn spec_parse_str(bytes: Seq<u8>) -> Result<(Seq<char>, nat), DecodeError> {
    match spec_need(bytes, 2) {
        Some(e) => Err(e),
        None => {
            let len = spec_be16(bytes[0], bytes[1]) as nat;
            let rest = bytes.skip(2);
            match spec_need(rest, len) {
                Some(e) => Err(e),
                None => if valid_utf8(rest.take(len as int)) {
                    Ok((decode_utf8(rest.take(len as int)), 2 + len))
                } else {
                    Err(DecodeError::Utf8)
                },
            }
        },
    }
}

/// Parses UTF-8 encoded string.
///
/// Text fields in the Control Packets described later are encoded as UTF-8 strings.
pub fn parse_str(bytes: &[u8]) -> (r: Result<(&str, &[u8]), DecodeError>)
    ensures
        match spec_parse_str(bytes@) {
            Ok((s, n)) => r matches Ok((data, rest)) && data@ == s && rest@ == bytes@.skip(n as int),
            Err(e) => r == Err::<(&str, &[u8]), DecodeError>(e),
        },
{
    let (length, rest) = read_u16(bytes)?;
    let (data, rest2) = read_exact(rest, length as usize)?;
    match str_from_utf8(data) {
        Some(s) => {
            proof {
                vstd::utf8::encode_utf8_decode_utf8(s@);
                assert(rest2@ =~= bytes@.skip(2 + length));
            }
            Ok((s, rest2))
        },
        None => Err(DecodeError::Utf8),
    }
}

/// Control Packet type flags.
#[derive(Debug, Clone, Copy, PartialEq, Eq, Structural)]
pub struct TypeFlags(pub u8);

impl View for TypeFlags {
    type V = u8;

    closed spec fn view(&self) -> u8 {
        self.0
    }
}

impl TypeFlags {
    /// Mask for the flags in the first byte of the fixed header.
    pub fn mask() -> (r: Self)
        ensures
            r@ == 0b0000_1111,
    {
        TypeFlags(0b0000_1111)
    }

    /// Publish is duplicate.
    pub fn publish_dup() -> (r: Self)
        ensures
            r@ == 0b1000,
    {
        TypeFlags(0b1000)
    }

    /// Publish QoS first bit.
    pub fn publish_qos_1() -> (r: Self)
        ensures
            r@ == 0b0100,
    {
        TypeFlags(0b0100)
    }

    /// Publish QoS second bit.
    pub fn publish_qos_2() -> (r: Self)
        ensures
            r@ == 0b0010,
    {
        TypeFlags(0b0010)
    }

    /// Publish retain flag.
    pub fn publish_retain() -> (r: Self)
        ensures
            r@ == 0b0001,
    {
        TypeFlags(0b0001)
    }

    /// Reserved flags for PUBREL, SUBSCRIBE and UNSUBSCRIBE.
    pub fn reserved() -> (r: Self)
        ensures
            r@ == 0b0010,
    {
        TypeFlags(0b0010)
    }

    /// The flags of the low four bits of the byte.
    pub fn from_bits_retain(bits: u8) -> (r: Self)
        ensures
            r@ == bits,
    {
        TypeFlags(bits)
    }

    /// The byte of the flags.
    pub fn bits(&self) -> (r: u8)
        ensures
            r == self@,
    {
        self.0
    }

    /// No flag is set.
    pub fn is_empty(&self) -> (r: bool)
        ensures
            r == (self@ == 0),
    {
        self.0 == 0
    }
}

/// Control Packet Type of a fixed header.
#[derive(Debug, Clone, Copy, PartialEq, Eq, Structural)]
pub enum ControlPacketType {
    /// Client request to connect to Server.
    Connect,
    /// Connect acknowledgment.
    ConnAck,
    /// Publish message.
    Publish,
    /// Publish acknowledgment.
    PubAck,
    /// Publish received (assured delivery part 1).
    PubRec,
    /// Publish release (assured delivery part 2).
    PubRel,
    /// Publish complete (assured delivery part 3).
    PubComp,
    /// Client subscribe request.
    Subscribe,
    /// Subscribe acknowledgment.
    SubAck,
    /// Unsubscribe request.
    Unsubscribe,
    /// Unsubscribe acknowledgment.
    UnsubAck,
    /// PING request.
    PingReq,
    /// PING response.
    PingResp,
    /// Client is disconnecting.
    Disconnect,
}

/// The 4-bit value of the packet type.
pub open spec fn spec_code(t: ControlPacketType) -> u8 {
    match t {
        ControlPacketType::Connect => 1,
        ControlPacketType::ConnAck => 2,
        ControlPacketType::Publish => 3,
        ControlPacketType::PubAck => 4,
        ControlPacketType::PubRec => 5,
        ControlPacketType::PubRel => 6,
        ControlPacketType::PubComp => 7,
        ControlPacketType::Subscribe => 8,
        ControlPacketType::SubAck => 9,
        ControlPacketType::Unsubscribe => 10,
        ControlPacketType::UnsubAck => 11,
        ControlPacketType::PingReq => 12,
        ControlPacketType::PingResp => 13,
        ControlPacketType::Disconnect => 14,
    }
}

/// The flags are the ones the packet type requires.
pub open spec fn spec_flags_ok(t: ControlPacketType, flags: u8) -> bool {
    match t {
        ControlPacketType::Publish => true,
        ControlPacketType::PubRel | ControlPacketType::Subscribe
        | ControlPacketType::Unsubscribe => flags == 0b0010,
        _ => flags == 0,
    }
}

impl ControlPacketType {
    /// The packet type of the 4-bit value.
    pub fn try_from(value: u8) -> (r: Result<Self, DecodeError>)
        ensures
            match r {
                Ok(t) => 1 <= value <= 14 && spec_code(t) == value,
                Err(e) => !(1 <= value <= 14) && e == DecodeError::PacketType(value),
            },
    {
        match value {
            1 => Ok(ControlPacketType::Connect),
            2 => Ok(ControlPacketType::ConnAck),
            3 => Ok(ControlPacketType::Publish),
            4 => Ok(ControlPacketType::PubAck),
            5 => Ok(ControlPacketType::PubRec),
            6 => Ok(ControlPacketType::PubRel),
            7 => Ok(ControlPacketType::PubComp),
            8 => Ok(ControlPacketType::Subscribe),
            9 => Ok(ControlPacketType::SubAck),
            10 => Ok(ControlPacketType::Unsubscribe),
            11 => Ok(ControlPacketType::UnsubAck),
            12 => Ok(ControlPacketType::PingReq),
            13 => Ok(ControlPacketType::PingResp),
            14 => Ok(ControlPacketType::Disconnect),
            _ => Err(DecodeError::PacketType(value)),
        }
    }

    /// The 4-bit value of the packet type.
    pub fn code(self) -> (r: u8)
        ensures
            r == spec_code(self),
    {
        match self {
            ControlPacketType::Connect => 1,
            ControlPacketType::ConnAck => 2,
            ControlPacketType::Publish => 3,
            ControlPacketType::PubAck => 4,
            ControlPacketType::PubRec => 5,
            ControlPacketType::PubRel => 6,
            ControlPacketType::PubComp => 7,
            ControlPacketType::Subscribe => 8,
            ControlPacketType::SubAck => 9,
            ControlPacketType::Unsubscribe => 10,
            ControlPacketType::UnsubAck => 11,
            ControlPacketType::PingReq => 12,
            ControlPacketType::PingResp => 13,
            ControlPacketType::Disconnect => 14,
        }
    }

    /// Checks the low four bits of the byte are the flags the packet type requires.
    pub fn read_flags(&self, flags: u8) -> (r: Result<TypeFlags, DecodeError>)
        ensures
            match r {
                Ok(f) => spec_flags_ok(*self, flags & 0b0000_1111u8) && f@ == flags & 0b0000_1111u8,
                Err(e) => !spec_flags_ok(*self, flags & 0b0000_1111u8) && e
                    == DecodeError::ControlFlags {
                    packet_type: *self,
                    flags: TypeFlags(flags & 0b0000_1111u8),
                },
            },
    {
        let flags = TypeFlags::from_bits_retain(flags & TypeFlags::mask().bits());
        let ok = match self {
            ControlPacketType::Publish => true,
            ControlPacketType::PubRel | ControlPacketType::Subscribe
            | ControlPacketType::Unsubscribe => flags.bits() == TypeFlags::reserved().bits(),
            _ => flags.is_empty(),
        };
        if !ok {
            return Err(DecodeError::ControlFlags { packet_type: *self, flags });
        }
        Ok(flags)
    }
}

impl From<ControlPacketType> for u8 {
    fn from(value: ControlPacketType) -> (r: u8) {
        value.code()
    }
}

impl vstd::std_specs::convert::FromSpecImpl<ControlPacketType> for u8 {
    open spec fn obeys_from_spec() -> bool {
        true
    }

    open spec fn from_spec(v: ControlPacketType) -> u8 {
        spec_code(v)
    }
}

/// Remaining length of a fixed header.
#[derive(Debug, Clone, Copy, PartialEq, Eq, Structural)]
pub struct RemainingLength(u32);

impl View for RemainingLength {
    type V = u32;

    closed spec fn view(&self) -> u32 {
        self.0
    }
}

impl RemainingLength {
    /// Maximum value of the remaining length
    pub const MAX: u32 = 268_435_455;

    /// The remaining length of the value, if it's not above the maximum.
    pub fn try_from(value: u32) -> (r: Result<Self, DecodeError>)
        ensures
            match r {
                Ok(l) => value <= Self::MAX && l@ == value,
                Err(e) => value > Self::MAX && e == DecodeError::MaxRemainingLength(value),
            },
    {
        if value > Self::MAX {
            return Err(DecodeError::MaxRemainingLength(value));
        }
        Ok(Self(value))
    }

    /// The value of the remaining length.
    pub fn get(&self) -> (r: u32)
        ensures
            r == self@,
    {
        self.0
    }
}

/// Number of remaining length bytes the header parser takes: every byte up to the first without
/// the continuation flag, at most five, and no more than the buffer holds after the first byte.
pub open spec fn spec_rl_count(bytes: Seq<u8>) -> nat {
    if bytes.len() <= 1 {
        0
    } else {
        let t = bytes.skip(1);
        let c = leading_continues(t) + 1;
        let c = if c < 5 { c } else { 5 };
        if c < t.len() { c } else { t.len() }
    }
}

/// Outcome of parsing a fixed header: packet type, flags, remaining length and bytes read.
pub open spec fn spec_fixed_header_parse(bytes: Seq<u8>) -> Result<((ControlPacketType, u8, u32), nat), DecodeError> {
    let count = spec_rl_count(bytes);
    if count == 0 {
        Err(DecodeError::NotEnoughBytes { needed: 1, actual: 0 })
    } else if count >= 5 {
        Err(DecodeError::RemainingLengthBytes)
    } else if !(1 <= bytes[0] / 16 <= 14) {
        Err(DecodeError::PacketType(bytes[0] / 16))
    } else {
        let t = choose|t: ControlPacketType| spec_code(t) == bytes[0] / 16;
        let flags = bytes[0] & 0b0000_1111u8;
        if !spec_flags_ok(t, flags) {
            Err(DecodeError::ControlFlags { packet_type: t, flags: TypeFlags(flags) })
        } else {
            Ok(((t, flags, rl_value(bytes.subrange(1, 1 + count as int)) as u32), 1 + count))
        }
    }
}

/// The packet types have distinct codes from 1 to 14.
pub proof fn lemma_code_onto(v: u8)
    requires
        1 <= v <= 14,
    ensures
        exists|t: ControlPacketType| spec_code(t) == v,
        forall|t1: ControlPacketType, t2: ControlPacketType|
            spec_code(t1) == v && spec_code(t2) == v ==> t1 == t2,
{
    let t = if v == 1 {
        ControlPacketType::Connect
    } else if v == 2 {
        ControlPacketType::ConnAck
    } else if v == 3 {
        ControlPacketType::Publish
    } else if v == 4 {
        ControlPacketType::PubAck
    } else if v == 5 {
        ControlPacketType::PubRec
    } else if v == 6 {
        ControlPacketType::PubRel
    } else if v == 7 {
        ControlPacketType::PubComp
    } else if v == 8 {
        ControlPacketType::Subscribe
    } else if v == 9 {
        ControlPacketType::SubAck
    } else if v == 10 {
        ControlPacketType::Unsubscribe
    } else if v == 11 {
        ControlPacketType::UnsubAck
    } else if v == 12 {
        ControlPacketType::PingReq
    } else if v == 13 {
        ControlPacketType::PingResp
    } else {
        ControlPacketType::Disconnect
    };
    assert(spec_code(t) == v);
}

/// Fixed header containing the packet type, flags and remaining length of the payload.
#[derive(Debug)]
pub struct FixedHeader {
    packet_type: ControlPacketType,
    flags: TypeFlags,
    remaining_length: RemainingLength,
}

impl View for FixedHeader {
    type V = (ControlPacketType, u8, u32);

    closed spec fn view(&self) -> (ControlPacketType, u8, u32) {
        (self.packet_type, self.flags@, self.remaining_length@)
    }
}

impl FixedHeader {
    /// The type of the packet.
    pub fn packet_type(&self) -> (r: &ControlPacketType)
        ensures
            *r == self@.0,
    {
        &self.packet_type
    }

    /// The flags of the packet.
    pub fn flags(&self) -> (r: &TypeFlags)
        ensures
            r@ == self@.1,
    {
        &self.flags
    }

    /// The remaining length of the packet.
    pub fn remaining_length(&self) -> (r: RemainingLength)
        ensures
            r@ == self@.2,
    {
        self.remaining_length
    }

    /// Parses a fixed header: the remaining length is read from the bytes up to the first
    /// without the continuation flag, or up to the end of the buffer when it ends before.
    pub fn parse(bytes: &[u8]) -> (r: Result<(Self, &[u8]), DecodeError>)
        ensures
            match spec_fixed_header_parse(bytes@) {
                Ok((v, n)) => r matches Ok((this, rest)) && this@ == v && rest@ == bytes@.skip(
                    n as int,
                ),
                Err(e) => r matches Err(err) && err == e,
            },
    {
        let count = if bytes.len() <= 1 {
            0
        } else {
            let (_, tail) = bytes.split_at(1);
            proof {
                assert(tail@ =~= bytes@.skip(1));
            }
            let c = count_leading_continues(tail, 4) + 1;
            if c < tail.len() {
                c
            } else {
                tail.len()
            }
        };
        if count == 0 {
            return Err(DecodeError::NotEnoughBytes { needed: 1, actual: 0 });
        }
        if count >= 5 {
            return Err(DecodeError::RemainingLengthBytes);
        }
        Self::parse_with_length(bytes, count)
    }

    /// Parses a fixed header with `count` bytes of remaining length.
    fn parse_with_length(bytes: &[u8], count: usize) -> (r: Result<(Self, &[u8]), DecodeError>)
        requires
            1 <= count <= 4,
            count == spec_rl_count(bytes@),
            1 + count <= bytes@.len(),
        ensures
            match spec_fixed_header_parse(bytes@) {
                Ok((v, n)) => r matches Ok((this, rest)) && this@ == v && rest@ == bytes@.skip(
                    n as int,
                ),
                Err(e) => r matches Err(err) && err == e,
            },
    {
        let type_flags = bytes[0];
        let (_, tail) = bytes.split_at(1);
        let (rl, rest) = tail.split_at(count);
        proof {
            assert(type_flags >> 4u8 == type_flags / 16) by (bit_vector);
            assert(type_flags / 16 <= 15) by (bit_vector);
            assert((type_flags & 0b0000_1111u8) & 0b0000_1111u8 == type_flags & 0b0000_1111u8)
                by (bit_vector);
            if 1 <= type_flags / 16 <= 14 {
                lemma_code_onto(type_flags / 16);
            }
        }
        let packet_type = ControlPacketType::try_from(type_flags >> 4)?;
        let flags = packet_type.read_flags(type_flags & TypeFlags::mask().bits())?;
        proof {
            assert(rl@ =~= bytes@.subrange(1, 1 + count));
            assert(rest@ =~= bytes@.skip(1 + count));
        }
        let remaining_length = RemainingLength(rl_read(rl));
        Ok((Self { packet_type, flags, remaining_length }, rest))
    }
}

/// Identifier for a Packet with QoS > 0: a non zero 16 bits value.
#[derive(Debug, Clone, Copy, PartialEq, Eq, Structural)]
pub struct PacketIdentifier(u16);

impl View for PacketIdentifier {
    type V = u16;

    closed spec fn view(&self) -> u16 {
        self.0
    }
}

impl PacketIdentifier {
    #[verifier::type_invariant]
    spec fn non_zero(self) -> bool {
        self.0 != 0
    }

    /// Parses a non zero big endian 16 bits identifier.
    pub fn parse(bytes: &[u8]) -> (r: Result<(Self, &[u8]), DecodeError>)
        ensures
            match spec_need(bytes@, 2) {
                Some(e) => r == Err::<(Self, &[u8]), DecodeError>(e),
                None => if spec_be16(bytes@[0], bytes@[1]) == 0 {
                    r == Err::<(Self, &[u8]), DecodeError>(DecodeError::PacketIdentifier)
                } else {
                    r matches Ok((id, rest)) && id@ == spec_be16(bytes@[0], bytes@[1]) && rest@
                        == bytes@.skip(2)
                },
            },
    {
        let (pkid, rest) = read_u16(bytes)?;
        if pkid == 0 {
            return Err(DecodeError::PacketIdentifier);
        }
        Ok((Self(pkid), rest))
    }

    /// The value of the identifier, never zero.
    pub fn get(&self) -> (r: u16)
        ensures
            r == self@,
            r != 0,
    {
        proof {
            use_type_invariant(self);
        }
        self.0
    }
}

} // verus!
