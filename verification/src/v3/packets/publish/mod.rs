//! Packets related publish operations.
use vstd::prelude::*;
use vstd::string::StringSliceAdditionalSpecFns;
use vstd::utf8::encode_utf8;

use crate::bytes::{Error, ErrorKind};
use crate::encoding::number::spec_u16_be;
use crate::encoding::text::push_bytes;
use crate::encoding::topic::{contains_wildcard, spec_contains_wildcard};
use crate::encoding::varint::{rl_value, REMAINING_LENGTH_MAX};
use crate::v3::packets::common::fixed::{
    spec_first_byte, spec_fixed_bytes, spec_fixed_slice_parse, ControlPacketType, FixedHeader,
    FixedHeaderSlice,
    TypeFlags,
};
use crate::v3::packets::common::fixed::builder::FixedHeaderBuilder;
use crate::v3::packets::common::packet_id::{spec_packet_id_parse, PacketId};
use crate::v3::packets::common::string::{spec_mqtt_str_parse, spec_mqtt_str_write, MqttStr};
use crate::v3::packets::spec_consume;

use self::builder::{PublishBuilder, PublishBuilderView};

pub mod ack;
pub mod builder;
pub mod comp;
pub mod rec;
pub mod rel;

verus! {

/// The values of a parsed [`Publish`].
pub struct PublishView {
    /// First byte of the fixed header: packet type and flags.
    pub type_and_flags: u8,
    /// Topic of the message.
    pub topic: Seq<char>,
    /// Packet identifier, for QoS 1 and 2.
    pub pkid: Option<u16>,
    /// Content of the message.
    pub payload: Seq<u8>,
}

/// The two bytes of the packet identifier, if there is one.
pub open spec fn spec_opt_pkid_bytes(pkid: Option<u16>) -> Seq<u8> {
    match pkid {
        Some(id) => spec_u16_be(id),
        None => Seq::empty(),
    }
}

/// Remaining length of the PUBLISH packet: topic, packet identifier and payload.
pub open spec fn spec_publish_rem_len(v: PublishBuilderView) -> int {
    (2 + encode_utf8(v.topic).len() + spec_opt_pkid_bytes(v.pkid).len() + v.payload.len()) as int
}

/// What writing a PUBLISH packet does: the bytes written, and the error if it fails.
pub open spec fn spec_publish_write(v: PublishBuilderView) -> (Seq<u8>, Option<ErrorKind>) {
    let rem = spec_publish_rem_len(v);
    if spec_contains_wildcard(encode_utf8(v.topic)) {
        (Seq::empty(), Some(ErrorKind::Invalid))
    } else if rem > usize::MAX {
        (Seq::empty(), Some(ErrorKind::Overflow))
    } else if rem > REMAINING_LENGTH_MAX {
        (Seq::empty(), Some(ErrorKind::OutOfRange))
    } else {
        let fixed = spec_fixed_bytes(ControlPacketType::Publish, v.flags, rem as u32);
        match spec_mqtt_str_write(v.topic) {
            Err(k) => (fixed, Some(k)),
            Ok(topic) => (fixed + topic + spec_opt_pkid_bytes(v.pkid) + v.payload, None),
        }
    }
}

/// The flags of the first byte request a packet identifier (QoS 1 or 2).
pub open spec fn spec_has_pkid(type_and_flags: u8) -> bool {
    (type_and_flags % 16) & 0b0000_0110u8 != 0
}

/// Outcome of parsing a PUBLISH packet: its values and the bytes read.
pub open spec fn spec_publish_parse(buf: Seq<u8>) -> Result<(PublishView, nat), ErrorKind> {
    match spec_fixed_slice_parse(buf) {
        Err(k) => Err(k),
        Ok(h) => {
            let rem = rl_value(buf.subrange(1, h as int));
            let after = buf.skip(h as int);
            if after.len() < rem {
                Err(ErrorKind::NotEnoughSpace)
            } else {
                let packet = after.take(rem);
                match spec_mqtt_str_parse(packet) {
                    Err(k) => Err(k),
                    Ok((topic, tn)) => {
                        let body = packet.skip(tn as int);
                        let id: Result<(Option<u16>, nat), ErrorKind> = if spec_has_pkid(buf[0]) {
                            match spec_packet_id_parse(body) {
                                Ok((id, n)) => Ok((Some(id), n)),
                                Err(k) => Err(k),
                            }
                        } else {
                            Ok((None, 0))
                        };
                        match id {
                            Err(k) => Err(k),
                            Ok((pkid, n)) => if spec_contains_wildcard(encode_utf8(topic)) {
                                Err(ErrorKind::Invalid)
                            } else {
                                Ok(
                                    (
                                        PublishView {
                                            type_and_flags: buf[0],
                                            topic,
                                            pkid,
                                            payload: body.skip(n as int),
                                        },
                                        (h + rem) as nat,
                                    ),
                                )
                            },
                        }
                    },
                }
            }
        },
    }
}

/// A written PUBLISH packet is read back with the same topic, packet identifier and payload,
/// whatever bytes follow it.
///
/// The flags must be the ones of a builder: four bits, with a QoS bit set exactly when there is a
/// packet identifier, which is not zero.
#[verifier::rlimit(40)]
pub proof fn lemma_publish_roundtrip(v: PublishBuilderView, rest: Seq<u8>)
    requires
        spec_publish_write(v).1 is None,
        v.flags < 16,
        spec_has_pkid(v.flags) == v.pkid is Some,
        v.pkid matches Some(id) ==> id != 0,
    ensures
        spec_publish_parse(spec_publish_write(v).0 + rest) == Ok::<(PublishView, nat), ErrorKind>(
            (
                PublishView {
                    type_and_flags: spec_first_byte(ControlPacketType::Publish, v.flags),
                    topic: v.topic,
                    pkid: v.pkid,
                    payload: v.payload,
                },
                spec_publish_write(v).0.len(),
            ),
        ),
{
    let rem = spec_publish_rem_len(v);
    let fixed = spec_fixed_bytes(ControlPacketType::Publish, v.flags, rem as u32);
    let topic = spec_mqtt_str_write(v.topic)->Ok_0;
    let pk = spec_opt_pkid_bytes(v.pkid);
    let bytes = spec_publish_write(v).0;
    let b = bytes + rest;
    crate::v3::packets::common::fixed::lemma_fixed_roundtrip(
        ControlPacketType::Publish,
        v.flags,
        rem as u32,
        topic + pk + v.payload + rest,
    );
    assert(b =~= fixed + (topic + pk + v.payload + rest));
    let h = fixed.len();
    let after = b.skip(h as int);
    assert(after =~= topic + pk + v.payload + rest);
    assert(topic.len() == 2 + encode_utf8(v.topic).len());
    let packet = after.take(rem);
    assert(packet =~= topic + (pk + v.payload));
    crate::v3::packets::common::string::lemma_mqtt_str_roundtrip(v.topic, pk + v.payload);
    let body = packet.skip(topic.len() as int);
    assert(body =~= pk + v.payload);
    let first = spec_first_byte(ControlPacketType::Publish, v.flags);
    assert(b[0] == first);
    assert(first % 16 == v.flags);
    if let Some(id) = v.pkid {
        crate::encoding::number::lemma_u16_be_roundtrip(id, v.payload);
        assert(body.skip(2) =~= v.payload);
    } else {
        assert(body.skip(0) =~= v.payload);
    }
}

/// A PUBLISH Control Packet is sent from a Client to a Server or from Server to a Client to transport an Application Message.
#[derive(Debug, Clone, Copy)]
pub struct Publish<'a> {
    fixed: FixedHeader<'a>,
    topic: MqttStr<'a>,
    packet_id: Option<PacketId>,
    payload: &'a [u8],
}

impl<'a> View for Publish<'a> {
    type V = PublishView;

    closed spec fn view(&self) -> PublishView {
        PublishView {
            type_and_flags: self.fixed.spec_type_and_flags_byte(),
            topic: self.topic@,
            pkid: builder::spec_opt_pkid(self.packet_id),
            payload: self.payload@,
        }
    }
}

/// Checks if the topic contains a wildcard character.
pub fn contains_wildcard_char(topic: &str) -> (r: bool)
    ensures
        r == spec_contains_wildcard(topic.spec_bytes()),
{
    contains_wildcard(topic.as_bytes())
}

impl<'a> Publish<'a> {
    /// Returns the topic of the PUBLISH
    pub fn topic(&self) -> (r: &'a str)
        ensures
            r@ == self@.topic,
    {
        self.topic.as_str()
    }

    /// Returns the packet identifier if the QoS 1 or 2.
    pub fn pkid(&self) -> (r: Option<PacketId>)
        ensures
            builder::spec_opt_pkid(r) == self@.pkid,
    {
        self.packet_id
    }

    /// Returns the publish payload.
    pub fn payload(&self) -> (r: &'a [u8])
        ensures
            r@ == self@.payload,
    {
        self.payload
    }

    /// Returns the flags of the fixed header.
    pub fn flags(&self) -> (r: TypeFlags)
        ensures
            r@ == self@.type_and_flags % 16,
    {
        self.fixed.flags()
    }

    /// The topic of a PUBLISH must not contain wildcards.
    pub fn validate_value(value: &PublishBuilder<'a>) -> (r: Result<(), Error>)
        ensures
            match r {
                Ok(()) => !spec_contains_wildcard(encode_utf8(value@.topic)),
                Err(e) => spec_contains_wildcard(encode_utf8(value@.topic)) && e.kind()
                    == ErrorKind::Invalid,
            },
    {
        proof {
            value.lemma_view();
        }
        if contains_wildcard_char(value.topic) {
            return Err(Error::new(ErrorKind::Invalid, "PUBLISH topic contains wildcard character"));
        }
        Ok(())
    }

    /// The topic of a PUBLISH must not contain wildcards.
    pub fn validate(&self) -> (r: Result<(), Error>)
        ensures
            match r {
                Ok(()) => !spec_contains_wildcard(encode_utf8(self@.topic)),
                Err(e) => spec_contains_wildcard(encode_utf8(self@.topic)) && e.kind()
                    == ErrorKind::Invalid,
            },
    {
        if contains_wildcard_char(self.topic.as_str()) {
            return Err(Error::new(ErrorKind::Invalid, "PUBLISH topic contains wildcard character"));
        }
        Ok(())
    }

    /// The remaining length of the packet: topic, packet identifier and payload.
    pub fn encode_len(value: &PublishBuilder<'a>) -> (r: Result<usize, Error>)
        ensures
            match r {
                Ok(n) => n == spec_publish_rem_len(value@),
                Err(e) => spec_publish_rem_len(value@) > usize::MAX && e.kind() == ErrorKind::Overflow,
            },
    {
        proof {
            value.lemma_view();
        }
        let mut len = MqttStr::encode_len(value.topic)?;
        if let Some(pkid) = &value.pkid {
            let packet_id = PacketId::encode_len(pkid)?;
            if len > usize::MAX - packet_id {
                return Err(Error::new(ErrorKind::Overflow, "PUBLISH encode len"));
            }
            len = len + packet_id;
        }
        if len > usize::MAX - value.payload.len() {
            return Err(Error::new(ErrorKind::Overflow, "PUBLISH encode len"));
        }
        Ok(len + value.payload.len())
    }

    /// Writes the PUBLISH packet.
    pub fn write_sync(writer: &mut Vec<u8>, value: &PublishBuilder<'a>) -> (r: Result<usize, Error>)
        ensures
            final(writer)@ == old(writer)@ + spec_publish_write(value@).0,
            match spec_publish_write(value@).1 {
                None => r matches Ok(n) && n == spec_publish_write(value@).0.len(),
                Some(k) => r matches Err(e) && e.kind() == k,
            },
    {
        proof {
            value.lemma_view();
        }
        Self::validate_value(value)?;
        let rem_len = Self::encode_len(value)?;
        let fixed = match FixedHeaderBuilder::with_flags(ControlPacketType::Publish, value.flags)
            .remaining_length(rem_len) {
            Ok(f) => f,
            Err(e) => return Err(e),
        };
        let mut written = fixed.write_sync(writer)?;
        let ghost after_fixed = writer@;
        written = written + MqttStr::write_sync(writer, value.topic)?;
        let ghost after_topic = writer@;
        if let Some(pkid) = &value.pkid {
            written = written + PacketId::write_sync(writer, pkid)?;
        }
        let ghost after_pkid = writer@;
        push_bytes(writer, value.payload);
        proof {
            crate::encoding::varint::lemma_rl_encode(rem_len as nat);
            assert(after_pkid == after_topic + spec_opt_pkid_bytes(value@.pkid));
            assert(final(writer)@ =~= old(writer)@ + spec_publish_write(value@).0);
        }
        Ok(written + value.payload.len())
    }

    /// Parses a PUBLISH packet.
    pub fn parse(buff: &'a [u8]) -> (r: Result<(Self, &'a [u8]), Error>)
        ensures
            match spec_publish_parse(buff@) {
                Ok((v, n)) => r matches Ok((this, rest)) && this@ == v && n <= buff@.len() && rest@
                    == buff@.skip(n as int),
                Err(k) => r matches Err(e) && e.kind() == k,
            },
    {
        let (fixed, rest) = FixedHeaderSlice::parse(buff)?;
        let rem_len = fixed.remaining_length().read_len();
        if rest.len() < rem_len {
            return Err(Error::new(ErrorKind::NotEnoughSpace, "PUBLISH packet"));
        }
        let (rest, rem) = rest.split_at(rem_len);
        proof {
            let h = spec_fixed_slice_parse(buff@)->Ok_0;
            assert(rest@ =~= buff@.skip(h as int).take(rl_value(buff@.subrange(1, h as int))));
            assert(rem@ =~= buff@.skip(h + rl_value(buff@.subrange(1, h as int))));
        }
        let ghost packet = rest@;
        let (topic, rest) = MqttStr::parse(rest)?;
        let ghost body = rest@;
        let has_pkid = fixed.flags().intersects(
            TypeFlags::publish_qos_1().union(TypeFlags::publish_qos_2()),
        );
        proof {
            assert(0b0000_0010u8 | 0b0000_0100u8 == 0b0000_0110u8) by (bit_vector);
        }
        let (packet_id, rest) = if has_pkid {
            let (v, r) = PacketId::parse(rest)?;
            (Some(v), r)
        } else {
            (None, rest)
        };
        proof {
            if has_pkid {
                assert(rest@ =~= body.skip(2));
            } else {
                assert(rest@ =~= body.skip(0));
            }
        }
        let this = Self { fixed, topic, packet_id, payload: rest };
        this.validate()?;
        Ok((this, rem))
    }

    /// Parses a PUBLISH packet that takes the whole buffer.
    pub fn consume(buf: &'a [u8]) -> (r: Result<Self, Error>)
        ensures
            match spec_consume(spec_publish_parse(buf@), buf@.len()) {
                Ok(v) => r matches Ok(this) && this@ == v,
                Err(k) => r matches Err(e) && e.kind() == k,
            },
    {
        let (this, rest) = Self::parse(buf)?;
        if rest.len() != 0 {
            return Err(Error::new(ErrorKind::Invalid, "remaining bytes in consumed packet"));
        }
        Ok(this)
    }
}

/// A PUBLISH written with either QoS bit set (QoS 1 or 2) is read back with the two bytes after
/// its topic as its packet identifier, and one with neither (QoS 0) without one: every value
/// written is read back, whatever bytes follow.
pub proof fn lemma_publish_qos_roundtrip(v: PublishBuilderView, rest: Seq<u8>)
    requires
        spec_publish_write(v).1 is None,
        v.flags < 16,
        (v.flags & 0b0000_0110u8 != 0) == v.pkid is Some,
        v.pkid matches Some(id) ==> id != 0,
    ensures
        spec_publish_parse(spec_publish_write(v).0 + rest) == Ok::<(PublishView, nat), ErrorKind>(
            (
                PublishView {
                    type_and_flags: spec_first_byte(ControlPacketType::Publish, v.flags),
                    topic: v.topic,
                    pkid: v.pkid,
                    payload: v.payload,
                },
                spec_publish_write(v).0.len(),
            ),
        ),
{
    let f = v.flags;
    assert(f % 16 == f);
    assert(spec_has_pkid(f) == (f & 0b0000_0110u8 != 0));
    lemma_publish_roundtrip(v, rest);
}

/// A PUBLISH built with a QoS is read back with what the QoS set: a QoS 1 or 2 publish gives back
/// its packet identifier and payload, a QoS 0 one its payload and no identifier.
pub proof fn lemma_publish_with_qos_roundtrip(
    b: PublishBuilderView,
    qos: builder::PublishQos,
    rest: Seq<u8>,
)
    requires
        b.flags < 16,
        builder::spec_apply_qos(b.flags, b.pkid, qos).1 matches Some(x) ==> x != 0,
        ({
            let (f, id) = builder::spec_apply_qos(b.flags, b.pkid, qos);
            spec_publish_write(PublishBuilderView { flags: f, pkid: id, ..b }).1 is None
        }),
    ensures
        ({
            let (f, id) = builder::spec_apply_qos(b.flags, b.pkid, qos);
            let v = PublishBuilderView { flags: f, pkid: id, ..b };
            &&& id == match qos {
                builder::PublishQos::AtMostOnce => None,
                builder::PublishQos::AtLeastOnce { pkid, .. } => Some(pkid@),
                builder::PublishQos::ExactlyOnce { pkid, .. } => Some(pkid@),
            }
            &&& spec_publish_parse(spec_publish_write(v).0 + rest) == Ok::<(PublishView, nat), ErrorKind>(
                (
                    PublishView {
                        type_and_flags: spec_first_byte(ControlPacketType::Publish, f),
                        topic: b.topic,
                        pkid: id,
                        payload: b.payload,
                    },
                    spec_publish_write(v).0.len(),
                ),
            )
        }),
{
    let (f, id) = builder::spec_apply_qos(b.flags, b.pkid, qos);
    builder::lemma_apply_qos_bits(b.flags, b.pkid, qos);
    let g = b.flags;
    assert(f < 16) by (bit_vector)
        requires
            f & 0b1111_0001u8 == g & 0b1111_0001u8,
            g < 16,
    ;
    let q = f & 0b0000_1110u8;
    assert(f & 0b0000_0110u8 == q & 0b0000_0110u8) by (bit_vector)
        requires
            q == f & 0b0000_1110u8,
    ;
    assert(0u8 & 0b0000_0110u8 == 0 && 0b0000_1010u8 & 0b0000_0110u8 != 0 && 0b0000_0010u8
        & 0b0000_0110u8 != 0 && 0b0000_1100u8 & 0b0000_0110u8 != 0 && 0b0000_0100u8 & 0b0000_0110u8
        != 0) by (bit_vector);
    let v = PublishBuilderView { flags: f, pkid: id, ..b };
    lemma_publish_qos_roundtrip(v, rest);
}

} // verus!
