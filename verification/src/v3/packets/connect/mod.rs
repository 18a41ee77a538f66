//! [`Connect`] and [`ConnAck`](self::ack::ConnAck) packets.
use vstd::prelude::*;
use vstd::string::StringSliceAdditionalSpecFns;
use vstd::utf8::encode_utf8;

use crate::bytes::{Error, ErrorKind};
use crate::encoding::number::{be16, push_u16_be, spec_be16, spec_u16_be};
use crate::encoding::text::{all_valid_chars, MAX_PREFIXED_BYTES};
use crate::encoding::varint::{rl_value, REMAINING_LENGTH_MAX};
use crate::v3::packets::common::fixed::builder::FixedHeaderBuilder;
use crate::v3::packets::common::fixed::{
    spec_fixed_bytes, spec_fixed_slice_parse, spec_type_and_flags, ControlPacketType,
    FixedHeaderSlice,
};
use crate::v3::packets::common::message::{spec_buff_parse, spec_buff_write, Buff};
use crate::v3::packets::common::string::{spec_mqtt_str_parse, spec_mqtt_str_write, MqttStr};

use self::builder::{ConnectBuilder, Will};

pub mod ack;
pub mod builder;

verus! {

/// The values of a CONNECT packet.
pub struct ConnectView {
    /// Identifier of the client.
    pub client_id: Seq<char>,
    /// Connect flags of the variable header.
    pub flags: u8,
    /// Keep alive in seconds.
    pub keepalive: u16,
    /// Will topic and message.
    pub will: Option<(Seq<char>, Seq<u8>)>,
    /// User name.
    pub username: Option<Seq<char>>,
    /// Password.
    pub password: Option<Seq<u8>>,
}

/// Connect packet flags for the variable header.
#[derive(Debug, Clone, Copy, PartialEq, Eq, Structural)]
pub struct ConnectFlags(u8);

impl View for ConnectFlags {
    type V = u8;

    closed spec fn view(&self) -> u8 {
        self.0
    }
}

impl ConnectFlags {
    /// No flag set.
    pub fn empty() -> (r: Self)
        ensures
            r@ == 0,
    {
        ConnectFlags(0)
    }

    /// The username is present in the payload.
    pub fn username() -> (r: Self)
        ensures
            r@ == 0b1000_0000,
    {
        ConnectFlags(0b1000_0000)
    }

    /// The password is present in the payload.
    pub fn password() -> (r: Self)
        ensures
            r@ == 0b0100_0000,
    {
        ConnectFlags(0b0100_0000)
    }

    /// The Will is retained in the Server.
    pub fn will_retain() -> (r: Self)
        ensures
            r@ == 0b0010_0000,
    {
        ConnectFlags(0b0010_0000)
    }

    /// The QoS first bit.
    pub fn will_qos_1() -> (r: Self)
        ensures
            r@ == 0b0000_1000,
    {
        ConnectFlags(0b0000_1000)
    }

    /// The QoS second bit.
    pub fn will_qos_2() -> (r: Self)
        ensures
            r@ == 0b0001_0000,
    {
        ConnectFlags(0b0001_0000)
    }

    /// Inverse mask to resets the Will QOS flags.
    pub fn will_qos_reset() -> (r: Self)
        ensures
            r@ == 0b1110_0111,
    {
        ConnectFlags(0b1110_0111)
    }

    /// The Will topic and message is present in the payload
    pub fn will_flag() -> (r: Self)
        ensures
            r@ == 0b0000_0100,
    {
        ConnectFlags(0b0000_0100)
    }

    /// The Clean Session flag is set for the connection.
    pub fn clean_session() -> (r: Self)
        ensures
            r@ == 0b0000_0010,
    {
        ConnectFlags(0b0000_0010)
    }

    /// Reserved bit
    pub fn reserved() -> (r: Self)
        ensures
            r@ == 0b0000_0001,
    {
        ConnectFlags(0b0000_0001)
    }

    /// The flags of the byte, all bits kept.
    pub fn from_bits_retain(bits: u8) -> (r: Self)
        ensures
            r@ == bits,
    {
        ConnectFlags(bits)
    }

    /// The byte of the flags.
    pub fn bits(&self) -> (r: u8)
        ensures
            r == self@,
    {
        self.0
    }

    /// Every flag of `other` is set.
    pub fn contains(&self, other: Self) -> (r: bool)
        ensures
            r == (self@ & other@ == other@),
    {
        self.0 & other.0 == other.0
    }

    /// The flags set in either.
    pub fn union(self, other: Self) -> (r: Self)
        ensures
            r@ == self@ | other@,
    {
        ConnectFlags(self.0 | other.0)
    }

    /// The flags set in both.
    pub fn intersection(self, other: Self) -> (r: Self)
        ensures
            r@ == self@ & other@,
    {
        ConnectFlags(self.0 & other.0)
    }
}

/// Interval in second for the client keep alive.
///
/// It is the maximum time interval that is permitted to elapse between the point at which the
/// Client finishes transmitting one Control Packet and the point it starts sending the next.
#[derive(Debug, Clone, Copy, PartialEq, Eq, Structural)]
pub struct KeepAlive {
    seconds: u16,
}

impl View for KeepAlive {
    type V = u16;

    closed spec fn view(&self) -> u16 {
        self.seconds
    }
}

/// The number of whole seconds in a duration, as [`core::time::Duration::as_secs`] returns it.
pub uninterp spec fn duration_secs(d: core::time::Duration) -> u64;

/// The number of whole seconds of the duration, with [`core::time::Duration::as_secs`].
///
/// The contract claims only that the result is the whole seconds of the duration: the value is
/// opaque here, so that number is named.
#[verifier::external_body]
fn duration_as_secs(value: core::time::Duration) -> (r: u64)
    ensures
        r == duration_secs(value),
{
    value.as_secs()
}

/// The duration of the whole seconds, with [`core::time::Duration::from_secs`].
///
/// The contract claims what the standard library documents: the duration holds exactly that
/// number of whole seconds.
#[verifier::external_body]
fn duration_from_secs(secs: u64) -> (r: core::time::Duration)
    ensures
        duration_secs(r) == secs,
{
    core::time::Duration::from_secs(secs)
}

impl KeepAlive {
    /// The keep alive of the seconds.
    pub fn new(seconds: u16) -> (r: Self)
        ensures
            r@ == seconds,
    {
        KeepAlive { seconds }
    }

    /// Check if the keep alive is not `0`.
    pub fn is_enabled(&self) -> (r: bool)
        ensures
            r == (self@ != 0),
    {
        self.seconds != 0
    }

    /// The keep alive in seconds.
    pub fn seconds(&self) -> (r: u16)
        ensures
            r == self@,
    {
        self.seconds
    }

    /// Read the keep alive value as a [`Duration`](core::time::Duration).
    pub fn read(&self) -> (r: core::time::Duration)
        ensures
            duration_secs(r) == self@,
    {
        duration_from_secs(self.seconds as u64)
    }

    /// The keep alive of the seconds, if they fit in 16 bits.
    pub fn try_from_secs(secs: u64) -> (r: Result<Self, core::num::TryFromIntError>)
        ensures
            match r {
                Ok(k) => secs <= u16::MAX && k@ == secs,
                Err(_) => secs > u16::MAX,
            },
    {
        match u16::try_from(secs) {
            Ok(seconds) => Ok(KeepAlive { seconds }),
            Err(e) => Err(e),
        }
    }

    /// The keep alive of the whole seconds of the duration, if they fit in 16 bits.
    pub fn try_from(value: core::time::Duration) -> (r: Result<Self, core::num::TryFromIntError>)
        ensures
            match r {
                Ok(k) => duration_secs(value) <= u16::MAX && k@ == duration_secs(value),
                Err(_) => duration_secs(value) > u16::MAX,
            },
    {
        Self::try_from_secs(duration_as_secs(value))
    }
}

impl From<u16> for KeepAlive {
    fn from(value: u16) -> (r: Self) {
        KeepAlive { seconds: value }
    }
}

impl vstd::std_specs::convert::FromSpecImpl<u16> for KeepAlive {
    open spec fn obeys_from_spec() -> bool {
        true
    }

    closed spec fn from_spec(v: u16) -> KeepAlive {
        KeepAlive { seconds: v }
    }
}

impl Default for KeepAlive {
    fn default() -> (r: Self)
        ensures
            r@ == 60,
    {
        KeepAlive { seconds: 60 }
    }
}

/// The character is an ASCII letter or digit, as [`char::is_ascii_alphanumeric`] tells.
pub open spec fn spec_ascii_alnum(c: char) -> bool {
    ('0' as u32 <= c as u32 <= '9' as u32) || ('a' as u32 <= c as u32 <= 'z' as u32) || (
    'A' as u32 <= c as u32 <= 'Z' as u32)
}

/// The client identifier is accepted: from 1 to 23 bytes of ASCII letters and digits.
pub open spec fn spec_client_id_check(id: Seq<char>) -> Result<(), ErrorKind> {
    if !(1 <= encode_utf8(id).len() <= 23) {
        Err(ErrorKind::OutOfRange)
    } else if !(forall|i: int| 0 <= i < id.len() ==> spec_ascii_alnum(#[trigger] id[i])) {
        Err(ErrorKind::Invalid)
    } else {
        Ok(())
    }
}

/// The character is an ASCII letter or digit.
fn is_ascii_alnum(c: char) -> (r: bool)
    ensures
        r == spec_ascii_alnum(c),
{
    let v = c as u32;
    (48 <= v && v <= 57) || (97 <= v && v <= 122) || (65 <= v && v <= 90)
}

/// Client identifier.
#[derive(Debug)]
struct ClientId<'a>(MqttStr<'a>);

impl<'a> ClientId<'a> {
    /// There is nothing to check on a client identifier to write.
    fn validate_value(_value: &str) -> (r: Result<(), Error>)
        ensures
            r is Ok,
    {
        Ok(())
    }

    /// Checks the identifier is 1 to 23 bytes long, all ASCII letters and digits.
    fn validate(&self) -> (r: Result<(), Error>)
        ensures
            match spec_client_id_check(self.0@) {
                Ok(()) => r is Ok,
                Err(k) => r matches Err(e) && e.kind() == k,
            },
    {
        let len = self.0.len();
        if len < 1 || len > 23 {
            return Err(Error::new(ErrorKind::OutOfRange, "client id must be between 1 and 23 bytes long"));
        }
        let s = self.0.as_str();
        let mut ok = true;
        for c in it: s.chars()
            invariant
                it.seq() == s@,
                ok == (forall|i: int| 0 <= i < it.index() ==> spec_ascii_alnum(#[trigger] s@[i])),
        {
            if !is_ascii_alnum(c) {
                ok = false;
            }
        }
        if !ok {
            return Err(Error::new(ErrorKind::Invalid, "client id is not ascii alphanumeric"));
        }
        Ok(())
    }

    /// Parses the identifier and checks it.
    fn parse(buf: &'a [u8]) -> (r: Result<(Self, &'a [u8]), Error>)
        ensures
            match spec_mqtt_str_parse(buf@) {
                Ok((s, n)) => match spec_client_id_check(s) {
                    Ok(()) => r matches Ok((this, rest)) && this.0@ == s && rest@ == buf@.skip(
                        n as int,
                    ),
                    Err(k) => r matches Err(e) && e.kind() == k,
                },
                Err(k) => r matches Err(e) && e.kind() == k,
            },
    {
        let (s, rest) = MqttStr::parse(buf)?;
        let this = ClientId(s);
        this.validate()?;
        Ok((this, rest))
    }
}


/// Bytes of the protocol name "MQTT" with its length prefix.
pub open spec fn spec_protocol_name() -> Seq<u8> {
    seq![0u8, 4u8, 0x4Du8, 0x51u8, 0x54u8, 0x54u8]
}

/// Bytes of the variable header of a CONNECT.
pub open spec fn spec_connect_header_bytes(flags: u8, keepalive: u16) -> Seq<u8> {
    spec_protocol_name() + seq![4u8, flags] + spec_u16_be(keepalive)
}

/// Outcome of parsing the variable header of a CONNECT: the flags, the keep alive and the bytes
/// read.
pub open spec fn spec_connect_header_parse(buf: Seq<u8>) -> Result<((u8, u16), nat), ErrorKind> {
    if buf.len() < 10 {
        Err(ErrorKind::NotEnoughSpace)
    } else if buf.take(6) != spec_protocol_name() || buf[6] != 4 || buf[7] & 1u8 == 1u8 {
        Err(ErrorKind::Invalid)
    } else {
        Ok(((buf[7], spec_be16(buf[8], buf[9])), 10))
    }
}

/// Chains two writes: the second happens only when the first succeeds.
pub open spec fn spec_then(first: (Seq<u8>, Option<ErrorKind>), second: (Seq<u8>, Option<ErrorKind>)) -> (Seq<u8>, Option<ErrorKind>) {
    if first.1 is Some {
        first
    } else {
        (first.0 + second.0, second.1)
    }
}

/// A write that either writes all its bytes or nothing.
pub open spec fn spec_all_or_nothing(r: Result<Seq<u8>, ErrorKind>) -> (Seq<u8>, Option<ErrorKind>) {
    match r {
        Ok(b) => (b, None),
        Err(k) => (Seq::empty(), Some(k)),
    }
}

/// What writing the variable header does: nothing when the reserved flag is set.
pub open spec fn spec_connect_header_write(flags: u8, keepalive: u16) -> (Seq<u8>, Option<ErrorKind>) {
    if flags & 1u8 == 1u8 {
        (Seq::empty(), Some(ErrorKind::Invalid))
    } else {
        (spec_connect_header_bytes(flags, keepalive), None)
    }
}

/// What writing an optional will does: its topic, then its message.
pub open spec fn spec_will_write(will: Option<(Seq<char>, Seq<u8>)>) -> (Seq<u8>, Option<ErrorKind>) {
    match will {
        None => (Seq::empty(), None),
        Some((t, m)) => spec_then(
            spec_all_or_nothing(spec_mqtt_str_write(t)),
            spec_all_or_nothing(spec_buff_write(m)),
        ),
    }
}

/// What writing an optional string does.
pub open spec fn spec_opt_str_write(s: Option<Seq<char>>) -> (Seq<u8>, Option<ErrorKind>) {
    match s {
        None => (Seq::empty(), None),
        Some(s) => spec_all_or_nothing(spec_mqtt_str_write(s)),
    }
}

/// What writing an optional buffer does.
pub open spec fn spec_opt_buff_write(b: Option<Seq<u8>>) -> (Seq<u8>, Option<ErrorKind>) {
    match b {
        None => (Seq::empty(), None),
        Some(b) => spec_all_or_nothing(spec_buff_write(b)),
    }
}

/// Bytes of an optional string with its length prefix.
pub open spec fn spec_opt_str_len(s: Option<Seq<char>>) -> int {
    match s {
        None => 0,
        Some(s) => 2 + encode_utf8(s).len() as int,
    }
}

/// Bytes of an optional buffer with its length prefix.
pub open spec fn spec_opt_buff_len(b: Option<Seq<u8>>) -> int {
    match b {
        None => 0,
        Some(b) => 2 + b.len() as int,
    }
}

/// Bytes of an optional will: its topic and message with their length prefixes.
pub open spec fn spec_will_len(will: Option<(Seq<char>, Seq<u8>)>) -> int {
    match will {
        None => 0,
        Some((t, m)) => 2 + encode_utf8(t).len() as int + 2 + m.len() as int,
    }
}

/// The remaining length of a CONNECT: variable header and payload.
pub open spec fn spec_connect_rem_len(v: ConnectView) -> int {
    10 + 2 + encode_utf8(v.client_id).len() + spec_will_len(v.will) + spec_opt_str_len(v.username)
        + spec_opt_buff_len(v.password)
}

/// What writing the variable header and the payload of a CONNECT does.
pub open spec fn spec_connect_body_write(v: ConnectView) -> (Seq<u8>, Option<ErrorKind>) {
    spec_then(spec_connect_header_write(v.flags, v.keepalive), spec_connect_payload_write(v))
}

/// What writing a CONNECT packet does: the bytes written, and the error if it fails.
pub open spec fn spec_connect_write(v: ConnectView) -> (Seq<u8>, Option<ErrorKind>) {
    let rem = spec_connect_rem_len(v);
    if rem > usize::MAX {
        (Seq::empty(), Some(ErrorKind::Overflow))
    } else if rem > REMAINING_LENGTH_MAX {
        (Seq::empty(), Some(ErrorKind::OutOfRange))
    } else {
        spec_then((spec_fixed_bytes(ControlPacketType::Connect, 0, rem as u32), None), spec_connect_body_write(v))
    }
}

/// Writes the variable header of a CONNECT.
fn write_connect_header(writer: &mut Vec<u8>, flags: ConnectFlags, keepalive: KeepAlive) -> (r: Result<usize, Error>)
    ensures
        final(writer)@ == old(writer)@ + spec_connect_header_write(flags@, keepalive@).0,
        match spec_connect_header_write(flags@, keepalive@).1 {
            None => r == Ok::<usize, Error>(10),
            Some(k) => r matches Err(e) && e.kind() == k,
        },
{
    if flags.contains(ConnectFlags::reserved()) {
        return Err(Error::new(ErrorKind::Invalid, "CONNECT variable header"));
    }
    writer.push(0);
    writer.push(4);
    writer.push(0x4D);
    writer.push(0x51);
    writer.push(0x54);
    writer.push(0x54);
    writer.push(Connect::PROTOCOL_LEVEL_V3_1_1);
    writer.push(flags.bits());
    push_u16_be(writer, keepalive.seconds());
    proof {
        assert(final(writer)@ =~= old(writer)@ + spec_connect_header_bytes(flags@, keepalive@));
    }
    Ok(10)
}

/// Writes an optional string with its length prefix.
fn write_opt_str(writer: &mut Vec<u8>, value: Option<&str>) -> (r: Result<usize, Error>)
    ensures
        final(writer)@ == old(writer)@ + spec_opt_str_write(builder::spec_opt_str(value)).0,
        match spec_opt_str_write(builder::spec_opt_str(value)).1 {
            None => r matches Ok(n) && n == spec_opt_str_write(builder::spec_opt_str(value)).0.len(),
            Some(k) => r matches Err(e) && e.kind() == k,
        },
{
    match value {
        None => {
            proof {
                assert(final(writer)@ =~= old(writer)@ + Seq::<u8>::empty());
            }
            Ok(0)
        },
        Some(s) => MqttStr::write_sync(writer, s),
    }
}

/// Writes an optional buffer with its length prefix.
fn write_opt_buff(writer: &mut Vec<u8>, value: Option<&[u8]>) -> (r: Result<usize, Error>)
    ensures
        final(writer)@ == old(writer)@ + spec_opt_buff_write(builder::spec_opt_bytes(value)).0,
        match spec_opt_buff_write(builder::spec_opt_bytes(value)).1 {
            None => r matches Ok(n) && n == spec_opt_buff_write(builder::spec_opt_bytes(value)).0.len(),
            Some(k) => r matches Err(e) && e.kind() == k,
        },
{
    match value {
        None => {
            proof {
                assert(final(writer)@ =~= old(writer)@ + Seq::<u8>::empty());
            }
            Ok(0)
        },
        Some(b) => Buff::write_sync(writer, b),
    }
}

/// Will topic and message of a CONNECT.
#[derive(Debug, Clone, Copy)]
struct WillMsg<'a> {
    topic: MqttStr<'a>,
    message: Buff<'a>,
}

impl<'a> WillMsg<'a> {
    /// Bytes needed to write the will.
    fn encode_len(value: &Will<'a>) -> (r: Result<usize, Error>)
        ensures
            match r {
                Ok(n) => n == spec_will_len(Some(value@)),
                Err(e) => spec_will_len(Some(value@)) > usize::MAX && e.kind() == ErrorKind::Overflow,
            },
    {
        proof {
            value.lemma_view();
        }
        let topic = MqttStr::encode_len(value.topic)?;
        let message = Buff::encode_len(value.message)?;
        if topic > usize::MAX - message {
            return Err(Error::new(ErrorKind::Overflow, "will length"));
        }
        Ok(topic + message)
    }

    /// Writes the topic, then the message.
    fn write_sync(writer: &mut Vec<u8>, value: &Will<'a>) -> (r: Result<usize, Error>)
        ensures
            final(writer)@ == old(writer)@ + spec_will_write(Some(value@)).0,
            match spec_will_write(Some(value@)).1 {
                None => r matches Ok(n) && n == spec_will_write(Some(value@)).0.len(),
                Some(k) => r matches Err(e) && e.kind() == k,
            },
    {
        proof {
            value.lemma_view();
        }
        let topic = MqttStr::write_sync(writer, value.topic)?;
        let ghost mid = writer@;
        let msg = match Buff::write_sync(writer, value.message) {
            Ok(n) => n,
            Err(e) => {
                proof {
                    assert(final(writer)@ =~= old(writer)@ + spec_will_write(Some(value@)).0);
                }
                return Err(e);
            },
        };
        proof {
            assert(final(writer)@ =~= old(writer)@ + spec_will_write(Some(value@)).0);
        }
        Ok(topic + msg)
    }
}

/// Writes an optional will.
fn write_opt_will(writer: &mut Vec<u8>, value: Option<Will>) -> (r: Result<usize, Error>)
    ensures
        final(writer)@ == old(writer)@ + spec_will_write(builder::spec_opt_will(value)).0,
        match spec_will_write(builder::spec_opt_will(value)).1 {
            None => r matches Ok(n) && n == spec_will_write(builder::spec_opt_will(value)).0.len(),
            Some(k) => r matches Err(e) && e.kind() == k,
        },
{
    match value {
        None => {
            proof {
                assert(final(writer)@ =~= old(writer)@ + Seq::<u8>::empty());
            }
            Ok(0)
        },
        Some(w) => WillMsg::write_sync(writer, &w),
    }
}

/// First message sent by the Client to the Server.
#[derive(Debug)]
pub struct Connect<'a> {
    fixed: FixedHeaderSlice<'a>,
    flags: ConnectFlags,
    keepalive: KeepAlive,
    client_id: MqttStr<'a>,
    will: Option<WillMsg<'a>>,
    username: Option<MqttStr<'a>>,
    password: Option<Buff<'a>>,
}

impl<'a> Connect<'a> {
    /// The value of the Protocol Level for the version v3.1.1 of the protocol.
    pub const PROTOCOL_LEVEL_V3_1_1: u8 = 0x4;

    /// Bytes of the variable header and the payload.
    pub fn encode_len(value: &ConnectBuilder<'a>) -> (r: Result<usize, Error>)
        ensures
            match r {
                Ok(n) => n == spec_connect_rem_len(value@),
                Err(e) => spec_connect_rem_len(value@) > usize::MAX && e.kind() == ErrorKind::Overflow,
            },
    {
        proof {
            value.lemma_view();
        }
        let id = MqttStr::encode_len(value.client_id)?;
        if id > usize::MAX - 10 {
            return Err(Error::new(ErrorKind::Overflow, "CONNECT encode len"));
        }
        let mut len = 10 + id;
        match value.will {
            Some(will) => {
                proof {
                    will.lemma_view();
                }
                let l = WillMsg::encode_len(&will)?;
                if l > usize::MAX - len {
                    return Err(Error::new(ErrorKind::Overflow, "CONNECT encode len"));
                }
                len = len + l;
            },
            None => {},
        }
        match value.username {
            Some(username) => {
                let l = MqttStr::encode_len(username)?;
                if l > usize::MAX - len {
                    return Err(Error::new(ErrorKind::Overflow, "CONNECT encode len"));
                }
                len = len + l;
            },
            None => {},
        }
        match value.password {
            Some(password) => {
                let l = Buff::encode_len(password)?;
                if l > usize::MAX - len {
                    return Err(Error::new(ErrorKind::Overflow, "CONNECT encode len"));
                }
                len = len + l;
            },
            None => {},
        }
        Ok(len)
    }

    /// Writes the CONNECT packet.
    pub fn write_sync(writer: &mut Vec<u8>, value: &ConnectBuilder<'a>) -> (r: Result<usize, Error>)
        ensures
            final(writer)@ == old(writer)@ + spec_connect_write(value@).0,
            match spec_connect_write(value@).1 {
                None => r matches Ok(n) && n == spec_connect_write(value@).0.len(),
                Some(k) => r matches Err(e) && e.kind() == k,
            },
    {
        let rlen = Self::encode_len(value)?;
        let fixed = FixedHeaderBuilder::new(ControlPacketType::Connect).remaining_length(rlen)?;
        let written = fixed.write_sync(writer)?;
        proof {
            crate::encoding::varint::lemma_rl_encode(rlen as nat);
        }
        let ghost mid = writer@;
        match write_connect_body(writer, value) {
            Ok(n) => {
                proof {
                    assert(final(writer)@ =~= old(writer)@ + spec_connect_write(value@).0);
                }
                Ok(written + n)
            },
            Err(e) => {
                proof {
                    assert(final(writer)@ =~= old(writer)@ + spec_connect_write(value@).0);
                }
                Err(e)
            },
        }
    }
}

/// Writes the username, then the password.
fn write_credentials(writer: &mut Vec<u8>, username: Option<&str>, password: Option<&[u8]>) -> (r: Result<usize, Error>)
    ensures
        ({
            let w = spec_then(
                spec_opt_str_write(builder::spec_opt_str(username)),
                spec_opt_buff_write(builder::spec_opt_bytes(password)),
            );
            &&& final(writer)@ == old(writer)@ + w.0
            &&& match w.1 {
                None => r matches Ok(n) && n == w.0.len(),
                Some(k) => r matches Err(e) && e.kind() == k,
            }
        }),
{
    let a = write_opt_str(writer, username)?;
    let ghost mid = writer@;
    match write_opt_buff(writer, password) {
        Ok(b) => {
            proof {
                assert(writer@ =~= old(writer)@ + spec_then(
                    spec_opt_str_write(builder::spec_opt_str(username)),
                    spec_opt_buff_write(builder::spec_opt_bytes(password)),
                ).0);
            }
            Ok(a + b)
        },
        Err(e) => {
            proof {
                assert(writer@ =~= old(writer)@ + spec_then(
                    spec_opt_str_write(builder::spec_opt_str(username)),
                    spec_opt_buff_write(builder::spec_opt_bytes(password)),
                ).0);
            }
            Err(e)
        },
    }
}

/// What writing the payload after the client identifier does.
pub open spec fn spec_connect_tail_write(v: ConnectView) -> (Seq<u8>, Option<ErrorKind>) {
    spec_then(
        spec_will_write(v.will),
        spec_then(spec_opt_str_write(v.username), spec_opt_buff_write(v.password)),
    )
}

/// Writes the will, then the credentials.
fn write_connect_tail(writer: &mut Vec<u8>, value: &ConnectBuilder) -> (r: Result<usize, Error>)
    ensures
        final(writer)@ == old(writer)@ + spec_connect_tail_write(value@).0,
        match spec_connect_tail_write(value@).1 {
            None => r matches Ok(n) && n == spec_connect_tail_write(value@).0.len(),
            Some(k) => r matches Err(e) && e.kind() == k,
        },
{
    proof {
        value.lemma_view();
    }
    let a = write_opt_will(writer, value.will)?;
    match write_credentials(writer, value.username, value.password) {
        Ok(b) => {
            proof {
                assert(writer@ =~= old(writer)@ + spec_connect_tail_write(value@).0);
            }
            Ok(a + b)
        },
        Err(e) => {
            proof {
                assert(writer@ =~= old(writer)@ + spec_connect_tail_write(value@).0);
            }
            Err(e)
        },
    }
}

/// What writing the payload of a CONNECT does.
pub open spec fn spec_connect_payload_write(v: ConnectView) -> (Seq<u8>, Option<ErrorKind>) {
    spec_then(spec_all_or_nothing(spec_mqtt_str_write(v.client_id)), spec_connect_tail_write(v))
}

/// Writes the client identifier, then the rest of the payload.
fn write_connect_payload(writer: &mut Vec<u8>, value: &ConnectBuilder) -> (r: Result<usize, Error>)
    ensures
        final(writer)@ == old(writer)@ + spec_connect_payload_write(value@).0,
        match spec_connect_payload_write(value@).1 {
            None => r matches Ok(n) && n == spec_connect_payload_write(value@).0.len(),
            Some(k) => r matches Err(e) && e.kind() == k,
        },
{
    proof {
        value.lemma_view();
    }
    ClientId::validate_value(value.client_id)?;
    let a = MqttStr::write_sync(writer, value.client_id)?;
    match write_connect_tail(writer, value) {
        Ok(b) => {
            proof {
                assert(writer@ =~= old(writer)@ + spec_connect_payload_write(value@).0);
            }
            Ok(a + b)
        },
        Err(e) => {
            proof {
                assert(writer@ =~= old(writer)@ + spec_connect_payload_write(value@).0);
            }
            Err(e)
        },
    }
}

/// Writes the variable header, then the payload.
fn write_connect_body(writer: &mut Vec<u8>, value: &ConnectBuilder) -> (r: Result<usize, Error>)
    ensures
        final(writer)@ == old(writer)@ + spec_connect_body_write(value@).0,
        match spec_connect_body_write(value@).1 {
            None => r matches Ok(n) && n == spec_connect_body_write(value@).0.len(),
            Some(k) => r matches Err(e) && e.kind() == k,
        },
{
    proof {
        value.lemma_view();
    }
    let a = write_connect_header(writer, value.flags, value.keepalive)?;
    match write_connect_payload(writer, value) {
        Ok(b) => {
            proof {
                assert(writer@ =~= old(writer)@ + spec_connect_body_write(value@).0);
            }
            Ok(a + b)
        },
        Err(e) => {
            proof {
                assert(writer@ =~= old(writer)@ + spec_connect_body_write(value@).0);
            }
            Err(e)
        },
    }
}

/// Outcome of parsing an optional will: its topic and message, and the bytes read.
pub open spec fn spec_opt_will_parse(present: bool, buf: Seq<u8>) -> Result<(Option<(Seq<char>, Seq<u8>)>, nat), ErrorKind> {
    if !present {
        Ok((None, 0))
    } else {
        match spec_mqtt_str_parse(buf) {
            Err(k) => Err(k),
            Ok((t, n)) => match spec_buff_parse(buf.skip(n as int)) {
                Err(k) => Err(k),
                Ok((m, n2)) => Ok((Some((t, m)), n + n2)),
            },
        }
    }
}

/// Outcome of parsing an optional string: its characters and the bytes read.
pub open spec fn spec_opt_str_parse(present: bool, buf: Seq<u8>) -> Result<(Option<Seq<char>>, nat), ErrorKind> {
    if !present {
        Ok((None, 0))
    } else {
        match spec_mqtt_str_parse(buf) {
            Err(k) => Err(k),
            Ok((s, n)) => Ok((Some(s), n)),
        }
    }
}

/// Outcome of parsing an optional buffer: its bytes and the bytes read.
pub open spec fn spec_opt_buff_parse(present: bool, buf: Seq<u8>) -> Result<(Option<Seq<u8>>, nat), ErrorKind> {
    if !present {
        Ok((None, 0))
    } else {
        match spec_buff_parse(buf) {
            Err(k) => Err(k),
            Ok((b, n)) => Ok((Some(b), n)),
        }
    }
}

/// Outcome of parsing the credentials: username, password and the bytes read.
pub open spec fn spec_credentials_parse(flags: u8, buf: Seq<u8>) -> Result<((Option<Seq<char>>, Option<Seq<u8>>), nat), ErrorKind> {
    match spec_opt_str_parse(flags & 0b1000_0000u8 != 0, buf) {
        Err(k) => Err(k),
        Ok((u, n)) => match spec_opt_buff_parse(flags & 0b0100_0000u8 != 0, buf.skip(n as int)) {
            Err(k) => Err(k),
            Ok((p, n2)) => Ok(((u, p), n + n2)),
        },
    }
}

/// Outcome of parsing the payload of a CONNECT with the flags: its values and the bytes read.
#[verifier::opaque]
pub open spec fn spec_connect_payload_parse(flags: u8, keepalive: u16, buf: Seq<u8>) -> Result<(ConnectView, nat), ErrorKind> {
    match spec_mqtt_str_parse(buf) {
        Err(k) => Err(k),
        Ok((id, n)) => match spec_client_id_check(id) {
            Err(k) => Err(k),
            Ok(()) => match spec_opt_will_parse(flags & 0b0000_0100u8 != 0, buf.skip(n as int)) {
                Err(k) => Err(k),
                Ok((will, n2)) => match spec_credentials_parse(flags, buf.skip((n + n2) as int)) {
                    Err(k) => Err(k),
                    Ok(((username, password), n3)) => Ok(
                        (
                            ConnectView { client_id: id, flags, keepalive, will, username, password },
                            n + n2 + n3,
                        ),
                    ),
                },
            },
        },
    }
}

/// A parsed payload takes no more bytes than there are.
pub proof fn lemma_connect_payload_parse_len(flags: u8, keepalive: u16, buf: Seq<u8>)
    ensures
        spec_connect_payload_parse(flags, keepalive, buf) matches Ok((_, n)) ==> n <= buf.len(),
{
    reveal(spec_connect_payload_parse);
}

/// Outcome of parsing a CONNECT packet: its values and the bytes read.
pub open spec fn spec_connect_parse(buf: Seq<u8>) -> Result<(ConnectView, nat), ErrorKind> {
    match spec_fixed_slice_parse(buf) {
        Err(k) => Err(k),
        Ok(h) => match spec_connect_header_parse(buf.skip(h as int)) {
            Err(k) => Err(k),
            Ok(((flags, keepalive), n)) => match spec_connect_payload_parse(
                flags,
                keepalive,
                buf.skip((h + n) as int),
            ) {
                Err(k) => Err(k),
                Ok((v, n2)) => if spec_type_and_flags(buf[0])->Some_0.0 != ControlPacketType::Connect {
                    Err(ErrorKind::Invalid)
                } else {
                    Ok((v, h + n + n2))
                },
            },
        },
    }
}

/// The parsed values are accepted: a CONNECT packet type, no reserved flag, an accepted client
/// identifier and a username of valid characters.
pub open spec fn spec_connect_parsed_check(t: ControlPacketType, v: ConnectView) -> Result<(), ErrorKind> {
    if t != ControlPacketType::Connect {
        Err(ErrorKind::Invalid)
    } else if v.flags & 1u8 == 1u8 {
        Err(ErrorKind::Invalid)
    } else if spec_client_id_check(v.client_id) is Err {
        spec_client_id_check(v.client_id)
    } else if v.username matches Some(u) && !all_valid_chars(u) {
        Err(ErrorKind::Invalid)
    } else {
        Ok(())
    }
}

/// The values to write are accepted: no reserved flag, a will topic of valid characters and a
/// will message of at most 65535 bytes, a username of valid characters and a password of at
/// most 65535 bytes.
pub open spec fn spec_connect_values_check(v: ConnectView) -> Result<(), ErrorKind> {
    if v.flags & 1u8 == 1u8 {
        Err(ErrorKind::Invalid)
    } else if v.will matches Some((t, _)) && !all_valid_chars(t) {
        Err(ErrorKind::Invalid)
    } else if v.will matches Some((_, m)) && m.len() > MAX_PREFIXED_BYTES {
        Err(ErrorKind::OutOfRange)
    } else if v.username matches Some(u) && !all_valid_chars(u) {
        Err(ErrorKind::Invalid)
    } else if v.password matches Some(p) && p.len() > MAX_PREFIXED_BYTES {
        Err(ErrorKind::OutOfRange)
    } else {
        Ok(())
    }
}

/// Parses the variable header of a CONNECT.
fn parse_connect_header(buf: &[u8]) -> (r: Result<((ConnectFlags, KeepAlive), &[u8]), Error>)
    ensures
        match spec_connect_header_parse(buf@) {
            Ok(((f, k), n)) => r matches Ok(((flags, keepalive), rest)) && flags@ == f
                && keepalive@ == k && rest@ == buf@.skip(n as int),
            Err(k) => r matches Err(e) && e.kind() == k,
        },
{
    if buf.len() < 10 {
        return Err(Error::new(ErrorKind::NotEnoughSpace, "connect header"));
    }
    let is_name = buf[0] == 0 && buf[1] == 4 && buf[2] == 0x4D && buf[3] == 0x51 && buf[4] == 0x54
        && buf[5] == 0x54;
    proof {
        assert(is_name <==> buf@.take(6) =~= spec_protocol_name());
    }
    let flags = ConnectFlags::from_bits_retain(buf[7]);
    if !is_name || buf[6] != Connect::PROTOCOL_LEVEL_V3_1_1 || flags.contains(ConnectFlags::reserved()) {
        return Err(Error::new(ErrorKind::Invalid, "CONNECT variable header"));
    }
    let keepalive = KeepAlive::new(be16(buf[8], buf[9]));
    let (_, rest) = buf.split_at(10);
    Ok(((flags, keepalive), rest))
}

impl<'a> WillMsg<'a> {
    /// The topic and message.
    spec fn spec_view(&self) -> (Seq<char>, Seq<u8>) {
        (self.topic@, self.message@)
    }

    /// Parses the topic, then the message.
    fn parse(buf: &'a [u8]) -> (r: Result<(Self, &'a [u8]), Error>)
        ensures
            match spec_opt_will_parse(true, buf@) {
                Ok((w, n)) => r matches Ok((this, rest)) && Some(this.spec_view()) == w && rest@
                    == buf@.skip(n as int),
                Err(k) => r matches Err(e) && e.kind() == k,
            },
    {
        let (topic, rest) = MqttStr::parse(buf)?;
        let (message, rest2) = Buff::parse(rest)?;
        proof {
            let n = spec_mqtt_str_parse(buf@)->Ok_0.1;
            let n2 = spec_buff_parse(buf@.skip(n as int))->Ok_0.1;
            assert(rest2@ =~= buf@.skip((n + n2) as int));
        }
        Ok((WillMsg { topic, message }, rest2))
    }
}

/// The topic and message of an optional will.
spec fn spec_opt_will_msg(will: Option<WillMsg>) -> Option<(Seq<char>, Seq<u8>)> {
    match will {
        Some(w) => Some(w.spec_view()),
        None => None,
    }
}

/// The characters of an optional string.
pub open spec fn spec_opt_mqtt_str(s: Option<MqttStr>) -> Option<Seq<char>> {
    match s {
        Some(s) => Some(s@),
        None => None,
    }
}

/// The bytes of an optional buffer.
pub open spec fn spec_opt_buff(b: Option<Buff>) -> Option<Seq<u8>> {
    match b {
        Some(b) => Some(b@),
        None => None,
    }
}

/// Parses an optional will.
fn parse_opt_will<'a>(present: bool, buf: &'a [u8]) -> (r: Result<(Option<WillMsg<'a>>, &'a [u8]), Error>)
    ensures
        match spec_opt_will_parse(present, buf@) {
            Ok((w, n)) => r matches Ok((this, rest)) && spec_opt_will_msg(this) == w && rest@
                == buf@.skip(n as int),
            Err(k) => r matches Err(e) && e.kind() == k,
        },
{
    if !present {
        proof {
            assert(buf@.skip(0) =~= buf@);
        }
        return Ok((None, buf));
    }
    let (w, rest) = WillMsg::parse(buf)?;
    Ok((Some(w), rest))
}

/// Parses an optional string.
fn parse_opt_str<'a>(present: bool, buf: &'a [u8]) -> (r: Result<(Option<MqttStr<'a>>, &'a [u8]), Error>)
    ensures
        match spec_opt_str_parse(present, buf@) {
            Ok((s, n)) => r matches Ok((this, rest)) && spec_opt_mqtt_str(this) == s && rest@
                == buf@.skip(n as int),
            Err(k) => r matches Err(e) && e.kind() == k,
        },
{
    if !present {
        proof {
            assert(buf@.skip(0) =~= buf@);
        }
        return Ok((None, buf));
    }
    let (s, rest) = MqttStr::parse(buf)?;
    Ok((Some(s), rest))
}

/// Parses an optional buffer.
fn parse_opt_buff<'a>(present: bool, buf: &'a [u8]) -> (r: Result<(Option<Buff<'a>>, &'a [u8]), Error>)
    ensures
        match spec_opt_buff_parse(present, buf@) {
            Ok((b, n)) => r matches Ok((this, rest)) && spec_opt_buff(this) == b && rest@
                == buf@.skip(n as int),
            Err(k) => r matches Err(e) && e.kind() == k,
        },
{
    if !present {
        proof {
            assert(buf@.skip(0) =~= buf@);
        }
        return Ok((None, buf));
    }
    let (b, rest) = Buff::parse(buf)?;
    Ok((Some(b), rest))
}

/// Parses the username and the password the flags announce.
fn parse_credentials<'a>(flags: ConnectFlags, buf: &'a [u8]) -> (r: Result<((Option<MqttStr<'a>>, Option<Buff<'a>>), &'a [u8]), Error>)
    ensures
        match spec_credentials_parse(flags@, buf@) {
            Ok(((u, p), n)) => r matches Ok(((username, password), rest))
                && spec_opt_mqtt_str(username) == u && spec_opt_buff(password) == p && rest@
                == buf@.skip(n as int),
            Err(k) => r matches Err(e) && e.kind() == k,
        },
{
    let has_username = flags.contains(ConnectFlags::username());
    let has_password = flags.contains(ConnectFlags::password());
    proof {
        let f = flags@;
        assert((f & 0b1000_0000u8 == 0b1000_0000u8) == (f & 0b1000_0000u8 != 0)) by (bit_vector);
        assert((f & 0b0100_0000u8 == 0b0100_0000u8) == (f & 0b0100_0000u8 != 0)) by (bit_vector);
    }
    let (username, rest) = parse_opt_str(has_username, buf)?;
    let (password, rest2) = parse_opt_buff(has_password, rest)?;
    proof {
        let n = spec_opt_str_parse(has_username, buf@)->Ok_0.1;
        let n2 = spec_opt_buff_parse(has_password, buf@.skip(n as int))->Ok_0.1;
        assert(rest2@ =~= buf@.skip((n + n2) as int));
    }
    Ok(((username, password), rest2))
}

impl<'a> View for Connect<'a> {
    type V = ConnectView;

    closed spec fn view(&self) -> ConnectView {
        ConnectView {
            client_id: self.client_id@,
            flags: self.flags@,
            keepalive: self.keepalive@,
            will: spec_opt_will_msg(self.will),
            username: spec_opt_mqtt_str(self.username),
            password: spec_opt_buff(self.password),
        }
    }
}

impl<'a> Connect<'a> {
    /// The packet type of the fixed header.
    pub closed spec fn spec_packet_type(&self) -> ControlPacketType {
        self.fixed.spec_packet_type()
    }

    /// Checks the packet type, the reserved flag, the client identifier and the username.
    pub fn validate(&self) -> (r: Result<(), Error>)
        ensures
            match spec_connect_parsed_check(self.spec_packet_type(), self@) {
                Ok(()) => r is Ok,
                Err(k) => r matches Err(e) && e.kind() == k,
            },
    {
        if self.fixed.packet_type() != ControlPacketType::Connect {
            return Err(Error::new(ErrorKind::Invalid, "controll packet type"));
        }
        if self.flags.contains(ConnectFlags::reserved()) {
            return Err(Error::new(ErrorKind::Invalid, "CONNECT variable header"));
        }
        ClientId(self.client_id).validate()?;
        if let Some(username) = &self.username {
            username.validate()?;
        }
        Ok(())
    }

    /// Checks the values to write: the reserved flag, the will and the credentials.
    pub fn validate_value(value: &ConnectBuilder<'a>) -> (r: Result<(), Error>)
        ensures
            match spec_connect_values_check(value@) {
                Ok(()) => r is Ok,
                Err(k) => r matches Err(e) && e.kind() == k,
            },
    {
        proof {
            value.lemma_view();
        }
        if value.flags.contains(ConnectFlags::reserved()) {
            return Err(Error::new(ErrorKind::Invalid, "CONNECT variable header"));
        }
        ClientId::validate_value(value.client_id)?;
        if let Some(will) = value.will {
            proof {
                will.lemma_view();
            }
            MqttStr::validate_value(will.topic)?;
            Buff::validate_value(will.message)?;
        }
        if let Some(username) = value.username {
            MqttStr::validate_value(username)?;
        }
        if let Some(password) = value.password {
            Buff::validate_value(password)?;
        }
        Ok(())
    }

    /// Returns the flags of the variable header.
    pub fn flags(&self) -> (r: ConnectFlags)
        ensures
            r@ == self@.flags,
    {
        self.flags
    }

    /// Returns the keep alive.
    pub fn keepalive(&self) -> (r: KeepAlive)
        ensures
            r@ == self@.keepalive,
    {
        self.keepalive
    }

    /// Returns the client identifier.
    pub fn client_id(&self) -> (r: MqttStr<'a>)
        ensures
            r@ == self@.client_id,
    {
        self.client_id
    }

    /// Returns the username, when there is one.
    pub fn username(&self) -> (r: Option<MqttStr<'a>>)
        ensures
            spec_opt_mqtt_str(r) == self@.username,
    {
        self.username
    }

    /// Returns the password, when there is one.
    pub fn password(&self) -> (r: Option<Buff<'a>>)
        ensures
            spec_opt_buff(r) == self@.password,
    {
        self.password
    }

    /// Returns the will topic and message, when there is one.
    pub fn will(&self) -> (r: Option<(MqttStr<'a>, Buff<'a>)>)
        ensures
            match r {
                Some((t, m)) => self@.will == Some((t@, m@)),
                None => self@.will is None,
            },
    {
        match self.will {
            Some(w) => Some((w.topic, w.message)),
            None => None,
        }
    }

    /// Parses a CONNECT packet.
    pub fn parse(buf: &'a [u8]) -> (r: Result<(Self, &'a [u8]), Error>)
        ensures
            match spec_connect_parse(buf@) {
                Ok((v, n)) => r matches Ok((this, rest)) && this@ == v && n <= buf@.len() && rest@
                    == buf@.skip(n as int),
                Err(k) => r matches Err(e) && e.kind() == k,
            },
    {
        let (fixed, rest) = FixedHeaderSlice::parse(buf)?;
        let ghost h = spec_fixed_slice_parse(buf@)->Ok_0;
        let ((flags, keepalive), rest1) = parse_connect_header(rest)?;
        let ghost n = spec_connect_header_parse(buf@.skip(h as int))->Ok_0.1;
        proof {
            assert(rest1@ =~= buf@.skip((h + n) as int));
        }
        let (this, rest2) = Self::parse_payload(fixed, flags, keepalive, rest1)?;
        proof {
            lemma_connect_payload_parse_len(flags@, keepalive@, rest1@);
            let n2 = spec_connect_payload_parse(flags@, keepalive@, rest1@)->Ok_0.1;
            assert(rest2@ =~= buf@.skip((h + n + n2) as int));
        }
        if fixed.packet_type() != ControlPacketType::Connect {
            return Err(Error::new(ErrorKind::Invalid, "controll packet type"));
        }
        Ok((this, rest2))
    }

    /// Parses the payload the flags announce.
    fn parse_payload(
        fixed: FixedHeaderSlice<'a>,
        flags: ConnectFlags,
        keepalive: KeepAlive,
        buf: &'a [u8],
    ) -> (r: Result<(Self, &'a [u8]), Error>)
        ensures
            match spec_connect_payload_parse(flags@, keepalive@, buf@) {
                Ok((v, n)) => r matches Ok((this, rest)) && this@ == v && rest@ == buf@.skip(
                    n as int,
                ) && this.spec_packet_type() == fixed.spec_packet_type(),
                Err(k) => r matches Err(e) && e.kind() == k,
            },
    {
        reveal(spec_connect_payload_parse);
        let (client_id, rest2) = ClientId::parse(buf)?;
        let ghost n1 = spec_mqtt_str_parse(buf@)->Ok_0.1;
        let has_will = flags.contains(ConnectFlags::will_flag());
        proof {
            let f = flags@;
            assert((f & 0b0000_0100u8 == 0b0000_0100u8) == (f & 0b0000_0100u8 != 0)) by (bit_vector);
        }
        let (will, rest3) = parse_opt_will(has_will, rest2)?;
        let ghost n2 = spec_opt_will_parse(has_will, buf@.skip(n1 as int))->Ok_0.1;
        proof {
            assert(rest3@ =~= buf@.skip((n1 + n2) as int));
        }
        let ((username, password), rest4) = parse_credentials(flags, rest3)?;
        proof {
            let n3 = spec_credentials_parse(flags@, buf@.skip((n1 + n2) as int))->Ok_0.1;
            assert(rest4@ =~= buf@.skip((n1 + n2 + n3) as int));
        }
        Ok((Connect { fixed, flags, keepalive, client_id: client_id.0, will, username, password }, rest4))
    }

    /// Parses a CONNECT packet that takes the whole buffer.
    pub fn consume(buf: &'a [u8]) -> (r: Result<Self, Error>)
        ensures
            match crate::v3::packets::spec_consume(spec_connect_parse(buf@), buf@.len()) {
                Ok(v) => r matches Ok(this) && this@ == v,
                Err(k) => r matches Err(e) && e.kind() == k,
            },
    {
        let (this, rest) = Self::parse(buf)?;
        if rest.len() != 0 {
            return Err(Error::new(ErrorKind::Invalid, "remaining bytes in consumed packet"));
        }
        Ok(this)
    }
}

/// A written buffer is read back whatever bytes follow it.
pub proof fn lemma_buff_roundtrip(b: Seq<u8>, rest: Seq<u8>)
    requires
        spec_buff_write(b) is Ok,
    ensures
        spec_buff_parse(spec_buff_write(b)->Ok_0 + rest) == Ok::<(Seq<u8>, nat), ErrorKind>(
            (b, spec_buff_write(b)->Ok_0.len()),
        ),
        (spec_buff_write(b)->Ok_0 + rest).skip(spec_buff_write(b)->Ok_0.len() as int) == rest,
{
    crate::encoding::text::lemma_len_prefixed_roundtrip(b, rest);
}

/// A written optional will is read back when the flag announces it.
pub proof fn lemma_opt_will_roundtrip(will: Option<(Seq<char>, Seq<u8>)>, rest: Seq<u8>)
    requires
        spec_will_write(will).1 is None,
    ensures
        spec_opt_will_parse(will is Some, spec_will_write(will).0 + rest) == Ok::<
            (Option<(Seq<char>, Seq<u8>)>, nat),
            ErrorKind,
        >((will, spec_will_write(will).0.len())),
{
    if let Some((t, m)) = will {
        let tb = spec_mqtt_str_write(t)->Ok_0;
        let mb = spec_buff_write(m)->Ok_0;
        let all = spec_will_write(will).0 + rest;
        assert(all =~= tb + (mb + rest));
        crate::v3::packets::common::string::lemma_mqtt_str_roundtrip(t, mb + rest);
        lemma_buff_roundtrip(m, rest);
    } else {
        assert(spec_will_write(will).0 + rest =~= rest);
    }
}

/// Written credentials are read back when the flags announce them.
pub proof fn lemma_credentials_roundtrip(flags: u8, username: Option<Seq<char>>, password: Option<Seq<u8>>, rest: Seq<u8>)
    requires
        spec_then(spec_opt_str_write(username), spec_opt_buff_write(password)).1 is None,
        (flags & 0b1000_0000u8 != 0) == username is Some,
        (flags & 0b0100_0000u8 != 0) == password is Some,
    ensures
        ({
            let w = spec_then(spec_opt_str_write(username), spec_opt_buff_write(password)).0;
            spec_credentials_parse(flags, w + rest) == Ok::<
                ((Option<Seq<char>>, Option<Seq<u8>>), nat),
                ErrorKind,
            >(((username, password), w.len()))
        }),
{
    let ub = spec_opt_str_write(username).0;
    let pb = spec_opt_buff_write(password).0;
    let all = ub + pb + rest;
    assert(all =~= ub + (pb + rest));
    match username {
        Some(u) => {
            crate::v3::packets::common::string::lemma_mqtt_str_roundtrip(u, pb + rest);
        },
        None => {
            assert(ub + (pb + rest) =~= pb + rest);
        },
    }
    assert(all.skip(ub.len() as int) =~= pb + rest);
    match password {
        Some(p) => {
            lemma_buff_roundtrip(p, rest);
        },
        None => {},
    }
}

/// A written payload is read back with the values written, when the flags announce what it
/// holds and the client identifier is accepted.
#[verifier::rlimit(40)]
pub proof fn lemma_connect_payload_roundtrip(v: ConnectView, rest: Seq<u8>)
    requires
        spec_connect_payload_write(v).1 is None,
        spec_client_id_check(v.client_id) is Ok,
        (v.flags & 0b0000_0100u8 != 0) == v.will is Some,
        (v.flags & 0b1000_0000u8 != 0) == v.username is Some,
        (v.flags & 0b0100_0000u8 != 0) == v.password is Some,
    ensures
        spec_connect_payload_parse(v.flags, v.keepalive, spec_connect_payload_write(v).0 + rest)
            == Ok::<(ConnectView, nat), ErrorKind>((v, spec_connect_payload_write(v).0.len())),
{
    let idb = spec_mqtt_str_write(v.client_id)->Ok_0;
    let wb = spec_will_write(v.will).0;
    let cw = spec_then(spec_opt_str_write(v.username), spec_opt_buff_write(v.password));
    let cb = cw.0;
    assert(spec_connect_payload_write(v).0 == idb + (wb + cb));
    let all = spec_connect_payload_write(v).0 + rest;
    let t1 = wb + (cb + rest);
    let t2 = cb + rest;
    assert(all =~= idb + t1);
    crate::v3::packets::common::string::lemma_mqtt_str_roundtrip(v.client_id, t1);
    assert(spec_mqtt_str_parse(all) == Ok::<(Seq<char>, nat), ErrorKind>((v.client_id, idb.len())));
    assert(all.skip(idb.len() as int) == t1);
    lemma_opt_will_roundtrip(v.will, t2);
    assert(spec_opt_will_parse(v.flags & 0b0000_0100u8 != 0, t1) == Ok::<
        (Option<(Seq<char>, Seq<u8>)>, nat),
        ErrorKind,
    >((v.will, wb.len())));
    assert(all.skip((idb.len() + wb.len()) as int) =~= t2);
    lemma_credentials_roundtrip(v.flags, v.username, v.password, rest);
    assert(spec_credentials_parse(v.flags, t2) == Ok::<
        ((Option<Seq<char>>, Option<Seq<u8>>), nat),
        ErrorKind,
    >(((v.username, v.password), cb.len())));
    reveal(spec_connect_payload_parse);
}

/// A written CONNECT packet is read back with the values written, whatever bytes follow it,
/// when the client identifier is accepted. The flags announce what the payload holds, as they do
/// for every [`ConnectBuilder`](builder::ConnectBuilder).
pub proof fn lemma_connect_roundtrip(v: ConnectView, rest: Seq<u8>)
    requires
        spec_connect_write(v).1 is None,
        spec_client_id_check(v.client_id) is Ok,
        builder::spec_connect_flags_announce(v),
    ensures
        spec_connect_parse(spec_connect_write(v).0 + rest) == Ok::<(ConnectView, nat), ErrorKind>(
            (v, spec_connect_write(v).0.len()),
        ),
{
    let rem = spec_connect_rem_len(v);
    let fixed = spec_fixed_bytes(ControlPacketType::Connect, 0, rem as u32);
    let hb = spec_connect_header_bytes(v.flags, v.keepalive);
    let pb = spec_connect_payload_write(v).0;
    let b = spec_connect_write(v).0 + rest;
    assert(b =~= fixed + (hb + (pb + rest)));
    crate::v3::packets::common::fixed::lemma_fixed_roundtrip(
        ControlPacketType::Connect,
        0,
        rem as u32,
        hb + (pb + rest),
    );
    let h = fixed.len();
    let after = b.skip(h as int);
    assert(after =~= hb + (pb + rest));
    crate::encoding::number::lemma_u16_be_roundtrip(v.keepalive, pb + rest);
    assert(after.take(6) =~= spec_protocol_name());
    assert(after[6] == 4 && after[7] == v.flags);
    assert(after.skip(8) =~= spec_u16_be(v.keepalive) + (pb + rest));
    assert(spec_be16(after[8], after[9]) == v.keepalive);
    assert(spec_connect_header_parse(after) == Ok::<((u8, u16), nat), ErrorKind>(
        ((v.flags, v.keepalive), 10),
    ));
    assert(after.skip(10) =~= pb + rest);
    lemma_connect_payload_roundtrip(v, rest);
    assert(b.skip((h + 10) as int) =~= pb + rest);
}

/// The variable header of a CONNECT is the protocol name "MQTT" with its length, the protocol
/// level 4, the connect flags, and the keep alive in seconds, most significant byte first.
pub proof fn lemma_connect_header_bytes(flags: u8, keepalive: u16)
    ensures
        spec_connect_header_bytes(flags, keepalive) == seq![
            0x00u8,
            0x04u8,
            0x4Du8,
            0x51u8,
            0x54u8,
            0x54u8,
            0x04u8,
            flags,
            (keepalive / 256) as u8,
            (keepalive % 256) as u8,
        ],
{
    assert(spec_connect_header_bytes(flags, keepalive) =~= seq![
        0x00u8,
        0x04u8,
        0x4Du8,
        0x51u8,
        0x54u8,
        0x54u8,
        0x04u8,
        flags,
        (keepalive / 256) as u8,
        (keepalive % 256) as u8,
    ]);
}

} // verus!
