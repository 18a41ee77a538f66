//! [`ConnAck`] packet in response to the [`Connect`](super::Connect).
use vstd::prelude::*;

use crate::bytes::{Error, ErrorKind};
use crate::v3::packets::common::fixed::{
    spec_fixed_array_parse, spec_fixed_bytes, ControlPacketType, FixedHeaderArray,
};
use crate::v3::packets::spec_consume;

verus! {

/// Connection return code in the [`ConnAck`] packet.
#[derive(Debug, Clone, Copy, PartialEq, Eq, Structural)]
pub enum ReturnCode {
    /// Connection accepted.
    Accepted,
    /// The Server does not support the level of the MQTT protocol requested by the client.
    ProtocolVersion,
    /// The Client identifier is correct UTF-8 but not allowed by the Server.
    IdentifierRejected,
    /// The Network Connection has been made but the MQTT service is unavailable.
    ServerUnavailable,
    /// The data in the user name or password is malformed.
    BadUsernamePassword,
    /// The Client is not authorized to connect.
    NotAuthorized,
}

/// The byte of the return code.
pub open spec fn spec_return_code(c: ReturnCode) -> u8 {
    match c {
        ReturnCode::Accepted => 0,
        ReturnCode::ProtocolVersion => 1,
        ReturnCode::IdentifierRejected => 2,
        ReturnCode::ServerUnavailable => 3,
        ReturnCode::BadUsernamePassword => 4,
        ReturnCode::NotAuthorized => 5,
    }
}

impl ReturnCode {
    /// Returns `true` if the connect return code is [`Accepted`].
    ///
    /// [`Accepted`]: ReturnCode::Accepted
    pub fn is_accepted(&self) -> (r: bool)
        ensures
            r == (*self == ReturnCode::Accepted),
    {
        match self {
            ReturnCode::Accepted => true,
            _ => false,
        }
    }

    /// The byte of the return code.
    pub fn code(self) -> (r: u8)
        ensures
            r == spec_return_code(self),
    {
        match self {
            ReturnCode::Accepted => 0,
            ReturnCode::ProtocolVersion => 1,
            ReturnCode::IdentifierRejected => 2,
            ReturnCode::ServerUnavailable => 3,
            ReturnCode::BadUsernamePassword => 4,
            ReturnCode::NotAuthorized => 5,
        }
    }

    /// The return code of the byte: codes above 5 are reserved.
    pub fn try_from(value: u8) -> (r: Result<Self, Error>)
        ensures
            match r {
                Ok(c) => value <= 5 && spec_return_code(c) == value,
                Err(e) => value > 5 && e.kind() == ErrorKind::Invalid,
            },
            value == 0 ==> r == Ok::<ReturnCode, Error>(ReturnCode::Accepted),
            value == 1 ==> r == Ok::<ReturnCode, Error>(ReturnCode::ProtocolVersion),
            value == 2 ==> r == Ok::<ReturnCode, Error>(ReturnCode::IdentifierRejected),
            value == 3 ==> r == Ok::<ReturnCode, Error>(ReturnCode::ServerUnavailable),
            value == 4 ==> r == Ok::<ReturnCode, Error>(ReturnCode::BadUsernamePassword),
            value == 5 ==> r == Ok::<ReturnCode, Error>(ReturnCode::NotAuthorized),
    {
        match value {
            0 => Ok(ReturnCode::Accepted),
            1 => Ok(ReturnCode::ProtocolVersion),
            2 => Ok(ReturnCode::IdentifierRejected),
            3 => Ok(ReturnCode::ServerUnavailable),
            4 => Ok(ReturnCode::BadUsernamePassword),
            5 => Ok(ReturnCode::NotAuthorized),
            _ => Err(Error::new(ErrorKind::Invalid, "CONNACK return code")),
        }
    }
}

/// Byte 1 is the "Connect Acknowledge Flags".
///
/// Bits 7-1 are reserved and MUST be set to 0.
#[derive(Debug, Clone, Copy, PartialEq, Eq, Structural)]
pub struct ConnAckFlags(u8);

impl View for ConnAckFlags {
    type V = u8;

    closed spec fn view(&self) -> u8 {
        self.0
    }
}

impl ConnAckFlags {
    /// No flag set.
    pub fn empty() -> (r: Self)
        ensures
            r@ == 0,
    {
        ConnAckFlags(0)
    }

    /// Session is already present on the server.
    ///
    /// If the Server accepts a connection with CleanSession set to 1, the Server MUST set
    /// Session Present to 0 in the CONNACK packet in addition to setting a zero return code in
    /// the CONNACK packet
    pub fn session_present() -> (r: Self)
        ensures
            r@ == 0b0000_0001,
    {
        ConnAckFlags(0b0000_0001)
    }

    /// The flags of the byte, all bits kept.
    pub fn from_bits_retain(bits: u8) -> (r: Self)
        ensures
            r@ == bits,
    {
        ConnAckFlags(bits)
    }

    /// The byte of the flags.
    pub fn bits(&self) -> (r: u8)
        ensures
            r == self@,
    {
        self.0
    }
}

/// Outcome of parsing a CONNACK: flags and return code bytes, and the bytes read.
pub open spec fn spec_conn_ack_parse(buf: Seq<u8>) -> Result<((u8, u8), nat), ErrorKind> {
    match spec_fixed_array_parse(buf, 1) {
        Err(k) => Err(k),
        Ok(h) => {
            let rest = buf.skip(h as int);
            if rest.len() < 2 {
                Err(ErrorKind::NotEnoughSpace)
            } else if rest[1] > 5 {
                Err(ErrorKind::Invalid)
            } else if rest[0] & 0b1111_1110u8 != 0 {
                Err(ErrorKind::Invalid)
            } else {
                Ok(((rest[0], rest[1]), h + 2))
            }
        },
    }
}

/// Is the server response to the [`Connect`](super::Connect) packet.
///
/// It's the first packet sent from the client.
#[derive(Debug, Clone, Copy, PartialEq, Eq, Structural)]
pub struct ConnAck {
    /// Flags for the connack packet
    flags: ConnAckFlags,
    /// Return code value.
    return_code: ReturnCode,
}

impl View for ConnAck {
    type V = (u8, u8);

    closed spec fn view(&self) -> (u8, u8) {
        (self.flags@, spec_return_code(self.return_code))
    }
}

impl ConnAck {
    /// Creates a CONNACK packet
    pub fn new(flags: ConnAckFlags, return_code: ReturnCode) -> (r: Self)
        ensures
            r@ == (flags@, spec_return_code(return_code)),
    {
        Self { flags, return_code }
    }

    /// Flag to indicate if the session is present on the Server.
    pub fn session_present(&self) -> (r: bool)
        ensures
            r == (self@.0 & 1u8 == 1u8),
    {
        self.flags.0 & 1 == 1
    }

    /// The return code of the CONNACK
    pub fn return_code(&self) -> (r: ReturnCode)
        ensures
            spec_return_code(r) == self@.1,
    {
        self.return_code
    }

    /// The CONNACK itself when the connection is accepted, the `Invalid` error otherwise.
    pub fn error_for_code(self) -> (r: Result<Self, Error>)
        ensures
            match r {
                Ok(this) => self@.1 == 0 && this == self,
                Err(e) => self@.1 != 0 && e.kind() == ErrorKind::Invalid,
            },
    {
        match self.return_code {
            ReturnCode::Accepted => Ok(self),
            ReturnCode::ProtocolVersion => Err(Error::new(ErrorKind::Invalid, "protocl version")),
            ReturnCode::IdentifierRejected => Err(Error::new(ErrorKind::Invalid, "client id")),
            ReturnCode::ServerUnavailable => Err(
                Error::new(ErrorKind::Invalid, "server not available"),
            ),
            ReturnCode::BadUsernamePassword => Err(
                Error::new(ErrorKind::Invalid, "username or password"),
            ),
            ReturnCode::NotAuthorized => Err(Error::new(ErrorKind::Invalid, "not authorized")),
        }
    }

    /// The reserved flags must not be set.
    pub fn validate_value(value: &Self) -> (r: Result<(), Error>)
        ensures
            match r {
                Ok(()) => value@.0 & 0b1111_1110u8 == 0,
                Err(e) => value@.0 & 0b1111_1110u8 != 0 && e.kind() == ErrorKind::Invalid,
            },
    {
        value.validate()
    }

    /// The reserved flags must not be set.
    pub fn validate(&self) -> (r: Result<(), Error>)
        ensures
            match r {
                Ok(()) => self@.0 & 0b1111_1110u8 == 0,
                Err(e) => self@.0 & 0b1111_1110u8 != 0 && e.kind() == ErrorKind::Invalid,
            },
    {
        if self.flags.0 & 0b1111_1110 != 0 {
            return Err(Error::new(ErrorKind::Invalid, "connack flags reserved"));
        }
        Ok(())
    }

    /// The bytes written: the flags and the return code.
    pub fn encode_len(_value: &Self) -> (r: Result<usize, Error>)
        ensures
            r == Ok::<usize, Error>(2),
    {
        Ok(2)
    }

    /// Writes the flags and the return code, when no reserved flag is set.
    pub fn write_sync(writer: &mut Vec<u8>, value: &Self) -> (r: Result<usize, Error>)
        ensures
            value@.0 & 0b1111_1110u8 == 0 ==> r == Ok::<usize, Error>(2) && final(writer)@ == old(
                writer,
            )@ + seq![value@.0, value@.1],
            value@.0 & 0b1111_1110u8 != 0 ==> (r matches Err(e) && e.kind() == ErrorKind::Invalid
                && final(writer)@ == old(writer)@),
    {
        Self::validate_value(value)?;
        writer.push(value.flags.0);
        writer.push(value.return_code.code());
        Ok(2)
    }

    /// Parses a CONNACK packet.
    pub fn parse(buf: &[u8]) -> (r: Result<(Self, &[u8]), Error>)
        ensures
            match spec_conn_ack_parse(buf@) {
                Ok((v, n)) => r matches Ok((this, rest)) && this@ == v && rest@ == buf@.skip(
                    n as int,
                ),
                Err(k) => r matches Err(e) && e.kind() == k,
            },
    {
        let (_fixed, rest) = FixedHeaderArray::<1>::parse(buf)?;
        if rest.len() < 2 {
            return Err(Error::new(ErrorKind::NotEnoughSpace, "CONNACK packet"));
        }
        let return_code = ReturnCode::try_from(rest[1])?;
        let this = ConnAck { flags: ConnAckFlags(rest[0]), return_code };
        this.validate()?;
        let (_, rest2) = rest.split_at(2);
        proof {
            let h = spec_fixed_array_parse(buf@, 1)->Ok_0;
            assert(rest2@ =~= buf@.skip((h + 2) as int));
        }
        Ok((this, rest2))
    }

    /// Parses a CONNACK packet that takes the whole buffer.
    pub fn consume(buf: &[u8]) -> (r: Result<Self, Error>)
        ensures
            match spec_consume(spec_conn_ack_parse(buf@), buf@.len()) {
                Ok(v) => r matches Ok(this) && this@ == v,
                Err(k) => r matches Err(e) && e.kind() == k,
            },
    {
        let (this, rest) = Self::parse(buf)?;
        if rest.len() != 0 {
            return Err(Error::new(ErrorKind::Invalid, "remaining bytes in consumed packet"));
        }
        Ok(this)
    }
}

/// The flags and return code that a CONNACK writes, after a CONNACK fixed header with a remaining
/// length of two, are read back as the same CONNACK, whatever bytes follow them.
pub proof fn lemma_conn_ack_roundtrip(c: ConnAck, rest: Seq<u8>)
    requires
        c@.0 & 0b1111_1110u8 == 0,
    ensures
        spec_conn_ack_parse(
            spec_fixed_bytes(ControlPacketType::ConnAck, 0, 2) + seq![c@.0, c@.1] + rest,
        ) == Ok::<((u8, u8), nat), ErrorKind>((c@, 4)),
{
    let body = seq![c@.0, c@.1] + rest;
    crate::v3::packets::common::fixed::lemma_fixed_roundtrip(ControlPacketType::ConnAck, 0, 2, body);
    let b = spec_fixed_bytes(ControlPacketType::ConnAck, 0, 2) + body;
    assert(spec_fixed_bytes(ControlPacketType::ConnAck, 0, 2) + seq![c@.0, c@.1] + rest =~= b);
    reveal_with_fuel(crate::encoding::varint::rl_encode, 2);
    assert(b.subrange(1, 2) =~= seq![2u8]);
    assert(b.skip(2) =~= body);
}

/// The return codes of a CONNACK and their bytes: accepted is 0, then an unacceptable protocol
/// version 1, a rejected identifier 2, an unavailable server 3, a bad user name or password 4,
/// and not authorized 5. A byte read back gives the code it was written from.
pub proof fn lemma_return_code_bytes(c: ReturnCode)
    ensures
        spec_return_code(ReturnCode::Accepted) == 0,
        spec_return_code(ReturnCode::ProtocolVersion) == 1,
        spec_return_code(ReturnCode::IdentifierRejected) == 2,
        spec_return_code(ReturnCode::ServerUnavailable) == 3,
        spec_return_code(ReturnCode::BadUsernamePassword) == 4,
        spec_return_code(ReturnCode::NotAuthorized) == 5,
        forall|d: ReturnCode| spec_return_code(d) == spec_return_code(c) ==> d == c,
{
}

/// A CONNACK read from its bytes keeps the session present flag and the return code as they
/// are: the flags byte is its first byte after the header and the code its second.
pub proof fn lemma_conn_ack_bytes(f: u8, c: u8, rest: Seq<u8>)
    requires
        f <= 1,
        c <= 5,
    ensures
        spec_conn_ack_parse(seq![0x20u8, 0x02u8, f, c] + rest) == Ok::<((u8, u8), nat), ErrorKind>(
            ((f, c), 4),
        ),
{
    let b = seq![0x20u8, 0x02u8, f, c] + rest;
    assert(b.subrange(1, 2) =~= seq![0x02u8]);
    assert(b.skip(2) =~= seq![f, c] + rest);
    assert(f & 0b1111_1110u8 == 0) by (bit_vector)
        requires
            f <= 1,
    ;
    assert(crate::v3::packets::common::fixed::spec_type_and_flags(0x20u8) is Some);
}

} // verus!

