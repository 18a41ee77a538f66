//! Packets that can be received from a Server.
use vstd::prelude::*;

use crate::bytes::{Error, ErrorKind};
use crate::v3::packets::common::fixed::{
    spec_first_byte, spec_fixed_array_parse, spec_fixed_bytes, spec_type_and_flags, ControlPacketType,
};
use crate::v3::packets::connect::ack::{spec_conn_ack_parse, ConnAck};
use crate::v3::packets::ping::resp::PingResp;
use crate::v3::packets::publish::ack::PubAck;
use crate::v3::packets::publish::comp::PubComp;
use crate::v3::packets::publish::builder::PublishBuilderView;
use crate::v3::packets::publish::rec::{spec_pkid_packet_bytes, spec_pkid_packet_parse, PubRec};
use crate::v3::packets::publish::rel::PubRel;
use crate::v3::packets::publish::{
    spec_has_pkid, spec_publish_parse, spec_publish_write, Publish, PublishView,
};
use crate::v3::packets::subscribe::ack::{
    spec_sub_ack_parse, spec_sub_ack_write, spec_valid_sub_ack_code, SubAck,
};
use crate::v3::packets::unsubscribe::ack::UnsubAck;

verus! {

/// The values of a received packet.
pub enum PacketView {
    /// Flags and return code of a CONNACK.
    ConnAck((u8, u8)),
    /// Values of a PUBLISH.
    Publish(PublishView),
    /// Packet identifier of a PUBACK.
    PubAck(u16),
    /// Packet identifier of a PUBREC.
    PubRec(u16),
    /// Packet identifier of a PUBREL.
    PubRel(u16),
    /// Packet identifier of a PUBCOMP.
    PubComp(u16),
    /// Packet identifier and return codes of a SUBACK.
    SubAck((u16, Seq<u8>)),
    /// Packet identifier of an UNSUBACK.
    UnsubAck(u16),
    /// A PINGRESP.
    PingResp,
}

/// Outcome of parsing a packet that a client can receive: its values and the bytes read.
pub open spec fn spec_packet_parse(buf: Seq<u8>) -> Result<(PacketView, nat), ErrorKind> {
    if buf.len() < 1 {
        Err(ErrorKind::NotEnoughSpace)
    } else {
        match spec_type_and_flags(buf[0]) {
            None => Err(ErrorKind::Invalid),
            Some((t, _)) => match t {
                ControlPacketType::ConnAck => match spec_conn_ack_parse(buf) {
                    Ok((v, n)) => Ok((PacketView::ConnAck(v), n)),
                    Err(k) => Err(k),
                },
                ControlPacketType::Publish => match spec_publish_parse(buf) {
                    Ok((v, n)) => Ok((PacketView::Publish(v), n)),
                    Err(k) => Err(k),
                },
                ControlPacketType::PubAck => match spec_pkid_packet_parse(buf) {
                    Ok((v, n)) => Ok((PacketView::PubAck(v), n)),
                    Err(k) => Err(k),
                },
                ControlPacketType::PubRec => match spec_pkid_packet_parse(buf) {
                    Ok((v, n)) => Ok((PacketView::PubRec(v), n)),
                    Err(k) => Err(k),
                },
                ControlPacketType::PubRel => match spec_pkid_packet_parse(buf) {
                    Ok((v, n)) => Ok((PacketView::PubRel(v), n)),
                    Err(k) => Err(k),
                },
                ControlPacketType::PubComp => match spec_pkid_packet_parse(buf) {
                    Ok((v, n)) => Ok((PacketView::PubComp(v), n)),
                    Err(k) => Err(k),
                },
                ControlPacketType::SubAck => match spec_sub_ack_parse(buf) {
                    Ok((v, n)) => Ok((PacketView::SubAck(v), n)),
                    Err(k) => Err(k),
                },
                ControlPacketType::UnsubAck => match spec_pkid_packet_parse(buf) {
                    Ok((v, n)) => Ok((PacketView::UnsubAck(v), n)),
                    Err(k) => Err(k),
                },
                ControlPacketType::PingResp => match spec_fixed_array_parse(buf, 1) {
                    Ok(n) => Ok((PacketView::PingResp, n)),
                    Err(k) => Err(k),
                },
                _ => Err(ErrorKind::Invalid),
            },
        }
    }
}

/// The packet identifier packets a client can receive: their type and their view with the
/// identifier.
pub open spec fn spec_pkid_packet_view(t: ControlPacketType, pkid: u16) -> Option<PacketView> {
    match t {
        ControlPacketType::PubAck => Some(PacketView::PubAck(pkid)),
        ControlPacketType::PubRec => Some(PacketView::PubRec(pkid)),
        ControlPacketType::PubRel => Some(PacketView::PubRel(pkid)),
        ControlPacketType::PubComp => Some(PacketView::PubComp(pkid)),
        ControlPacketType::UnsubAck => Some(PacketView::UnsubAck(pkid)),
        _ => None,
    }
}

/// A written PUBACK, PUBREC, PUBREL, PUBCOMP or UNSUBACK is received as the same kind of packet
/// with the same identifier, whatever bytes follow it.
pub proof fn lemma_packet_parse_pkid(t: ControlPacketType, pkid: u16, rest: Seq<u8>)
    requires
        spec_pkid_packet_view(t, pkid) is Some,
        pkid != 0,
    ensures
        spec_packet_parse(spec_pkid_packet_bytes(t, pkid) + rest) == Ok::<(PacketView, nat), ErrorKind>(
            (spec_pkid_packet_view(t, pkid)->Some_0, 4),
        ),
{
    crate::v3::packets::publish::rec::lemma_pkid_packet_roundtrip(t, pkid, rest);
    let flags = crate::v3::packets::common::fixed::builder::spec_default_flags(t);
    crate::v3::packets::common::fixed::lemma_fixed_roundtrip(
        t,
        flags,
        2,
        crate::encoding::number::spec_u16_be(pkid) + rest,
    );
    let b = spec_pkid_packet_bytes(t, pkid) + rest;
    assert(b =~= spec_fixed_bytes(t, flags, 2) + (crate::encoding::number::spec_u16_be(pkid) + rest));
}

/// A written PUBLISH is received as a PUBLISH with the same values, whatever bytes follow it.
pub proof fn lemma_packet_parse_publish(v: PublishBuilderView, rest: Seq<u8>)
    requires
        spec_publish_write(v).1 is None,
        v.flags < 16,
        spec_has_pkid(v.flags) == v.pkid is Some,
        v.pkid matches Some(id) ==> id != 0,
    ensures
        spec_packet_parse(spec_publish_write(v).0 + rest) == Ok::<(PacketView, nat), ErrorKind>(
            (
                PacketView::Publish(
                    PublishView {
                        type_and_flags: spec_first_byte(ControlPacketType::Publish, v.flags),
                        topic: v.topic,
                        pkid: v.pkid,
                        payload: v.payload,
                    },
                ),
                spec_publish_write(v).0.len(),
            ),
        ),
{
    crate::v3::packets::publish::lemma_publish_roundtrip(v, rest);
    crate::v3::packets::common::fixed::lemma_first_byte_roundtrip(ControlPacketType::Publish, v.flags);
}

/// A written SUBACK is received as a SUBACK with the same identifier and return codes,
/// whatever bytes follow it.
pub proof fn lemma_packet_parse_sub_ack(v: (u16, Seq<u8>), rest: Seq<u8>)
    requires
        spec_sub_ack_write(v).1 is None,
        v.0 != 0,
        forall|i: int| 0 <= i < v.1.len() ==> spec_valid_sub_ack_code(#[trigger] v.1[i]),
    ensures
        spec_packet_parse(spec_sub_ack_write(v).0 + rest) == Ok::<(PacketView, nat), ErrorKind>(
            (PacketView::SubAck(v), spec_sub_ack_write(v).0.len()),
        ),
{
    crate::v3::packets::subscribe::ack::lemma_sub_ack_roundtrip(v, rest);
    crate::v3::packets::common::fixed::lemma_first_byte_roundtrip(ControlPacketType::SubAck, 0);
}

/// A written PINGRESP is received as a PINGRESP, whatever bytes follow it.
pub proof fn lemma_packet_parse_ping_resp(rest: Seq<u8>)
    ensures
        spec_packet_parse(spec_fixed_bytes(ControlPacketType::PingResp, 0, 0) + rest) == Ok::<
            (PacketView, nat),
            ErrorKind,
        >((PacketView::PingResp, 2)),
{
    crate::v3::packets::common::fixed::lemma_empty_packet_roundtrip(ControlPacketType::PingResp, rest);
    crate::v3::packets::common::fixed::lemma_first_byte_roundtrip(ControlPacketType::PingResp, 0);
    reveal_with_fuel(crate::encoding::varint::rl_encode, 1);
}

/// A received CONNACK keeps its session present flag and its return code: the bytes
/// `0x20 0x02 f c` are read as the CONNACK with flags `f` and code `c`, whatever bytes follow.
pub proof fn lemma_packet_parse_conn_ack(f: u8, c: u8, rest: Seq<u8>)
    requires
        f <= 1,
        c <= 5,
    ensures
        spec_packet_parse(seq![0x20u8, 0x02u8, f, c] + rest) == Ok::<(PacketView, nat), ErrorKind>(
            (PacketView::ConnAck((f, c)), 4),
        ),
{
    crate::v3::packets::connect::ack::lemma_conn_ack_bytes(f, c, rest);
    assert(spec_type_and_flags(0x20u8) == Some((ControlPacketType::ConnAck, 0u8)));
}

/// The packets that only carry an identifier are read from their bytes: a PUBACK `0x40`, PUBREC
/// `0x50`, PUBREL `0x62`, PUBCOMP `0x70` or UNSUBACK `0xB0`, then the remaining length 2, then
/// the identifier with its most significant byte first, whatever bytes follow.
pub proof fn lemma_packet_parse_pkid_bytes(hi: u8, lo: u8, rest: Seq<u8>)
    requires
        hi != 0 || lo != 0,
    ensures
        ({
            let id = (hi as int * 256 + lo as int) as u16;
            &&& spec_packet_parse(seq![0x40u8, 0x02u8, hi, lo] + rest) == Ok::<(PacketView, nat), ErrorKind>(
                (PacketView::PubAck(id), 4),
            )
            &&& spec_packet_parse(seq![0x50u8, 0x02u8, hi, lo] + rest) == Ok::<(PacketView, nat), ErrorKind>(
                (PacketView::PubRec(id), 4),
            )
            &&& spec_packet_parse(seq![0x62u8, 0x02u8, hi, lo] + rest) == Ok::<(PacketView, nat), ErrorKind>(
                (PacketView::PubRel(id), 4),
            )
            &&& spec_packet_parse(seq![0x70u8, 0x02u8, hi, lo] + rest) == Ok::<(PacketView, nat), ErrorKind>(
                (PacketView::PubComp(id), 4),
            )
            &&& spec_packet_parse(seq![0xB0u8, 0x02u8, hi, lo] + rest) == Ok::<(PacketView, nat), ErrorKind>(
                (PacketView::UnsubAck(id), 4),
            )
        }),
{
    let id = (hi as int * 256 + lo as int) as u16;
    assert(id as int == hi as int * 256 + lo as int);
    assert(id != 0);
    assert((id / 256) as u8 == hi && (id % 256) as u8 == lo);
    reveal_with_fuel(crate::encoding::varint::rl_encode, 1);
    let ts = seq![
        ControlPacketType::PubAck,
        ControlPacketType::PubRec,
        ControlPacketType::PubRel,
        ControlPacketType::PubComp,
        ControlPacketType::UnsubAck,
    ];
    let firsts = seq![0x40u8, 0x50u8, 0x62u8, 0x70u8, 0xB0u8];
    assert forall|i: int| 0 <= i < 5 implies spec_packet_parse(seq![firsts[i], 0x02u8, hi, lo] + rest)
        == Ok::<(PacketView, nat), ErrorKind>(
        (spec_pkid_packet_view(#[trigger] ts[i], id)->Some_0, 4),
    ) by {
        let t = ts[i];
        lemma_packet_parse_pkid(t, id, rest);
        let b = crate::v3::packets::publish::rec::spec_pkid_packet_bytes(t, id);
        assert(b =~= seq![firsts[i], 0x02u8, hi, lo]);
    }
    assert(ts[0] == ControlPacketType::PubAck && firsts[0] == 0x40u8);
    assert(ts[1] == ControlPacketType::PubRec && firsts[1] == 0x50u8);
    assert(ts[2] == ControlPacketType::PubRel && firsts[2] == 0x62u8);
    assert(ts[3] == ControlPacketType::PubComp && firsts[3] == 0x70u8);
    assert(ts[4] == ControlPacketType::UnsubAck && firsts[4] == 0xB0u8);
}

/// A parsed packet takes no more bytes than there are.
pub proof fn lemma_packet_parse_len(buf: Seq<u8>)
    ensures
        spec_packet_parse(buf) matches Ok((_, n)) ==> n <= buf.len(),
{
    if let Ok(h) = crate::v3::packets::common::fixed::spec_fixed_slice_parse(buf) {
        crate::encoding::varint::lemma_rl_value_bound(buf.subrange(1, h as int));
        assert(h <= buf.len());
        assert(buf.skip(h as int).len() == buf.len() - h);
    }
    if let Ok(h) = spec_fixed_array_parse(buf, 1) {
        assert(h <= buf.len());
        assert(buf.skip(h as int).len() == buf.len() - h);
    }
}

/// Packets that can be received from a connection.
#[derive(Debug, Clone, Copy)]
pub enum Packet<'a> {
    /// CONNACK Packet, received after a connect.
    ConnAck(ConnAck),
    /// PUBLISH from the Server on a subscribed topic.
    Publish(Publish<'a>),
    /// PUBACK from the Server after a PUBLISH with QoS 1.
    PubAck(PubAck),
    /// PUBREC from the Server after a PUBLISH with QoS 2.
    PubRec(PubRec),
    /// A PUBREL Packet is the response to a PUBREC Packet.
    PubRel(PubRel),
    /// The PUBCOMP Packet is the response to a PUBREL Packet.
    PubComp(PubComp),
    /// A SUBACK Packet is the response to a SUBSCRIBE Packet.
    SubAck(SubAck<'a>),
    /// A UNSUBACK Packet is the response to a UNSUBSCRIBE Packet.
    UnsubAck(UnsubAck),
    /// A PINGRESP Packet is the response to a PINGREQ Packet.
    PingResp(PingResp),
}

impl<'a> View for Packet<'a> {
    type V = PacketView;

    open spec fn view(&self) -> PacketView {
        match self {
            Packet::ConnAck(p) => PacketView::ConnAck(p@),
            Packet::Publish(p) => PacketView::Publish(p@),
            Packet::PubAck(p) => PacketView::PubAck(p@),
            Packet::PubRec(p) => PacketView::PubRec(p@),
            Packet::PubRel(p) => PacketView::PubRel(p@),
            Packet::PubComp(p) => PacketView::PubComp(p@),
            Packet::SubAck(p) => PacketView::SubAck(p@),
            Packet::UnsubAck(p) => PacketView::UnsubAck(p@),
            Packet::PingResp(_) => PacketView::PingResp,
        }
    }
}

impl<'a> Packet<'a> {
    /// Returns `true` if the packet is [`ConnAck`](Packet::ConnAck).
    pub fn is_conn_ack(&self) -> (r: bool)
        ensures
            r == (*self is ConnAck),
    {
        match self {
            Packet::ConnAck(_) => true,
            _ => false,
        }
    }

    /// Returns a reference to the packet if it's [`ConnAck`](Packet::ConnAck).
    pub fn as_conn_ack(&self) -> (r: Option<&ConnAck>)
        ensures
            match r {
                Some(v) => *self == Packet::ConnAck(*v),
                None => !(*self is ConnAck),
            },
    {
        match self {
            Packet::ConnAck(v) => Some(v),
            _ => None,
        }
    }

    /// Converts the packet if it's [`ConnAck`](Packet::ConnAck), or gives it back.
    pub fn try_into_conn_ack(self) -> (r: Result<ConnAck, Self>)
        ensures
            match r {
                Ok(v) => self == Packet::ConnAck(v),
                Err(p) => !(self is ConnAck) && p == self,
            },
    {
        match self {
            Packet::ConnAck(v) => Ok(v),
            _ => Err(self),
        }
    }

    /// Returns `true` if the packet is [`Publish`](Packet::Publish).
    pub fn is_publish(&self) -> (r: bool)
        ensures
            r == (*self is Publish),
    {
        match self {
            Packet::Publish(_) => true,
            _ => false,
        }
    }

    /// Returns a reference to the packet if it's [`Publish`](Packet::Publish).
    pub fn as_publish(&self) -> (r: Option<&Publish<'a>>)
        ensures
            match r {
                Some(v) => *self == Packet::Publish(*v),
                None => !(*self is Publish),
            },
    {
        match self {
            Packet::Publish(v) => Some(v),
            _ => None,
        }
    }

    /// Converts the packet if it's [`Publish`](Packet::Publish), or gives it back.
    pub fn try_into_publish(self) -> (r: Result<Publish<'a>, Self>)
        ensures
            match r {
                Ok(v) => self == Packet::Publish(v),
                Err(p) => !(self is Publish) && p == self,
            },
    {
        match self {
            Packet::Publish(v) => Ok(v),
            _ => Err(self),
        }
    }

    /// Returns `true` if the packet is [`PubAck`](Packet::PubAck).
    pub fn is_pub_ack(&self) -> (r: bool)
        ensures
            r == (*self is PubAck),
    {
        match self {
            Packet::PubAck(_) => true,
            _ => false,
        }
    }

    /// Returns a reference to the packet if it's [`PubAck`](Packet::PubAck).
    pub fn as_pub_ack(&self) -> (r: Option<&PubAck>)
        ensures
            match r {
                Some(v) => *self == Packet::PubAck(*v),
                None => !(*self is PubAck),
            },
    {
        match self {
            Packet::PubAck(v) => Some(v),
            _ => None,
        }
    }

    /// Converts the packet if it's [`PubAck`](Packet::PubAck), or gives it back.
    pub fn try_into_pub_ack(self) -> (r: Result<PubAck, Self>)
        ensures
            match r {
                Ok(v) => self == Packet::PubAck(v),
                Err(p) => !(self is PubAck) && p == self,
            },
    {
        match self {
            Packet::PubAck(v) => Ok(v),
            _ => Err(self),
        }
    }

    /// There is nothing to check.
    pub fn validate(&self) -> (r: Result<(), Error>)
        ensures
            r is Ok,
    {
        Ok(())
    }

    /// Parses the packet at the front of the buffer, by its type.
    pub fn parse(buf: &'a [u8]) -> (r: Result<(Self, &'a [u8]), Error>)
        ensures
            match spec_packet_parse(buf@) {
                Ok((v, n)) => r matches Ok((this, rest)) && this@ == v && rest@ == buf@.skip(
                    n as int,
                ),
                Err(k) => r matches Err(e) && e.kind() == k,
            },
    {
        if buf.len() < 1 {
            return Err(Error::new(ErrorKind::NotEnoughSpace, "empty buffer"));
        }
        let (pkg_type, _flags) = ControlPacketType::parse(buf[0])?;
        match pkg_type {
            ControlPacketType::ConnAck => {
                let (p, rest) = ConnAck::parse(buf)?;
                Ok((Packet::ConnAck(p), rest))
            },
            ControlPacketType::Publish => {
                let (p, rest) = Publish::parse(buf)?;
                Ok((Packet::Publish(p), rest))
            },
            ControlPacketType::PubAck => {
                let (p, rest) = PubAck::parse(buf)?;
                Ok((Packet::PubAck(p), rest))
            },
            ControlPacketType::PubRec => {
                let (p, rest) = PubRec::parse(buf)?;
                Ok((Packet::PubRec(p), rest))
            },
            ControlPacketType::PubRel => {
                let (p, rest) = PubRel::parse(buf)?;
                Ok((Packet::PubRel(p), rest))
            },
            ControlPacketType::PubComp => {
                let (p, rest) = PubComp::parse(buf)?;
                Ok((Packet::PubComp(p), rest))
            },
            ControlPacketType::SubAck => {
                let (p, rest) = SubAck::parse(buf)?;
                Ok((Packet::SubAck(p), rest))
            },
            ControlPacketType::UnsubAck => {
                let (p, rest) = UnsubAck::parse(buf)?;
                Ok((Packet::UnsubAck(p), rest))
            },
            ControlPacketType::PingResp => {
                let (p, rest) = PingResp::parse(buf)?;
                Ok((Packet::PingResp(p), rest))
            },
            ControlPacketType::Connect | ControlPacketType::Subscribe
            | ControlPacketType::Unsubscribe | ControlPacketType::PingReq
            | ControlPacketType::Disconnect => {
                Err(Error::new(ErrorKind::Invalid, "packet type received"))
            },
        }
    }

    /// Parses the packet that takes the whole buffer.
    pub fn consume(buf: &'a [u8]) -> (r: Result<Self, Error>)
        ensures
            match crate::v3::packets::spec_consume(spec_packet_parse(buf@), buf@.len()) {
                Ok(v) => r matches Ok(this) && this@ == v,
                Err(k) => r matches Err(e) && e.kind() == k,
            },
    {
        let (this, rest) = Self::parse(buf)?;
        proof {
            lemma_packet_parse_len(buf@);
        }
        if rest.len() != 0 {
            return Err(Error::new(ErrorKind::Invalid, "remaining bytes in consumed packet"));
        }
        Ok(this)
    }
}

} // verus!
