//! Builder for a publish packet
use vstd::prelude::*;

use crate::v3::packets::common::fixed::TypeFlags;
use crate::v3::packets::common::packet_id::PacketId;

verus! {

/// QoS of a publish packet.
#[derive(Debug, Clone, Copy, PartialEq, Eq)]
pub enum PublishQos {
    /// At most once delivery.
    AtMostOnce,
    /// At least once delivery.
    AtLeastOnce {
        /// Whether the packet is a duplicate.
        dup: bool,
        /// Packet identifier for the publish.
        pkid: PacketId,
    },
    /// Exactly once delivery.
    ExactlyOnce {
        /// Whether the packet is a duplicate.
        dup: bool,
        /// Packet identifier for the publish.
        pkid: PacketId,
    },
}

/// The values of a [`PublishBuilder`].
pub struct PublishBuilderView {
    /// Flags of the fixed header.
    pub flags: u8,
    /// Packet identifier, for QoS 1 and 2.
    pub pkid: Option<u16>,
    /// Topic of the message.
    pub topic: Seq<char>,
    /// Content of the message.
    pub payload: Seq<u8>,
}

/// Builder for a Publish packet.
#[derive(Debug, Clone, Copy)]
pub struct PublishBuilder<'a> {
    pub(crate) flags: TypeFlags,
    pub(crate) pkid: Option<PacketId>,
    pub(crate) topic: &'a str,
    pub(crate) payload: &'a [u8],
}

/// The value of an optional packet identifier.
pub open spec fn spec_opt_pkid(pkid: Option<PacketId>) -> Option<u16> {
    match pkid {
        Some(id) => Some(id@),
        None => None,
    }
}

/// Flags and packet identifier after setting the QoS: the QoS and DUP bits and the packet
/// identifier of an earlier QoS are replaced by those of the new one.
pub open spec fn spec_apply_qos(flags: u8, pkid: Option<u16>, qos: PublishQos) -> (u8, Option<u16>) {
    let cleared = flags & !0b0000_1110u8;
    match qos {
        PublishQos::AtMostOnce => (cleared, None),
        PublishQos::AtLeastOnce { dup, pkid: id } => (
            (if dup { cleared | 0b0000_1000u8 } else { cleared }) | 0b0000_0010u8,
            Some(id@),
        ),
        PublishQos::ExactlyOnce { dup, pkid: id } => (
            (if dup { cleared | 0b0000_1000u8 } else { cleared }) | 0b0000_0100u8,
            Some(id@),
        ),
    }
}

/// Setting a QoS keeps the retain bit and the bits above the flags; it sets the QoS bits to
/// `00` for QoS 0, `01` for QoS 1 and `10` for QoS 2, sets DUP exactly when a QoS 1 or 2
/// redelivery asks for it, and takes the packet identifier of QoS 1 and 2 or none for QoS 0.
pub proof fn lemma_apply_qos_bits(flags: u8, pkid: Option<u16>, qos: PublishQos)
    ensures
        ({
            let (f, id) = spec_apply_qos(flags, pkid, qos);
            &&& f & 0b1111_0001u8 == flags & 0b1111_0001u8
            &&& match qos {
                PublishQos::AtMostOnce => f & 0b0000_1110u8 == 0 && id is None,
                PublishQos::AtLeastOnce { dup, pkid: p } => f & 0b0000_1110u8 == (if dup {
                    0b0000_1010u8
                } else {
                    0b0000_0010u8
                }) && id == Some(p@),
                PublishQos::ExactlyOnce { dup, pkid: p } => f & 0b0000_1110u8 == (if dup {
                    0b0000_1100u8
                } else {
                    0b0000_0100u8
                }) && id == Some(p@),
            }
        }),
{
    let c = flags & !0b0000_1110u8;
    assert(c & 0b1111_0001u8 == flags & 0b1111_0001u8 && c & 0b0000_1110u8 == 0) by (bit_vector)
        requires
            c == flags & !0b0000_1110u8,
    ;
    assert(((c | 0b0000_1000u8) | 0b0000_0010u8) & 0b1111_0001u8 == c & 0b1111_0001u8 && ((c
        | 0b0000_1000u8) | 0b0000_0010u8) & 0b0000_1110u8 == 0b0000_1010u8) by (bit_vector)
        requires
            c & 0b0000_1110u8 == 0,
    ;
    assert((c | 0b0000_0010u8) & 0b1111_0001u8 == c & 0b1111_0001u8 && (c | 0b0000_0010u8)
        & 0b0000_1110u8 == 0b0000_0010u8) by (bit_vector)
        requires
            c & 0b0000_1110u8 == 0,
    ;
    assert(((c | 0b0000_1000u8) | 0b0000_0100u8) & 0b1111_0001u8 == c & 0b1111_0001u8 && ((c
        | 0b0000_1000u8) | 0b0000_0100u8) & 0b0000_1110u8 == 0b0000_1100u8) by (bit_vector)
        requires
            c & 0b0000_1110u8 == 0,
    ;
    assert((c | 0b0000_0100u8) & 0b1111_0001u8 == c & 0b1111_0001u8 && (c | 0b0000_0100u8)
        & 0b0000_1110u8 == 0b0000_0100u8) by (bit_vector)
        requires
            c & 0b0000_1110u8 == 0,
    ;
}

impl<'a> View for PublishBuilder<'a> {
    type V = PublishBuilderView;

    closed spec fn view(&self) -> PublishBuilderView {
        PublishBuilderView {
            flags: self.flags@,
            pkid: spec_opt_pkid(self.pkid),
            topic: self.topic@,
            payload: self.payload@,
        }
    }
}

impl<'a> PublishBuilder<'a> {
    /// The view is made of the views of the fields.
    pub(crate) proof fn lemma_view(&self)
        ensures
            self@.flags == self.flags@,
            self@.pkid == spec_opt_pkid(self.pkid),
            self@.topic == self.topic@,
            self@.payload == self.payload@,
    {
    }

    /// Create a new publish packet with the given topic and payload.
    pub fn new(topic: &'a str, payload: &'a [u8]) -> (r: Self)
        ensures
            r@.flags == 0,
            r@.pkid is None,
            r@.topic == topic@,
            r@.payload == payload@,
    {
        Self { flags: TypeFlags::empty(), pkid: None, topic, payload }
    }

    /// Sets the retain flag on the packet
    pub fn retain(self) -> (r: Self)
        ensures
            r@.flags == self@.flags | 0b0000_0001u8,
            r@.pkid == self@.pkid,
            r@.topic == self@.topic,
            r@.payload == self@.payload,
    {
        Self { flags: self.flags.union(TypeFlags::publish_retain()), ..self }
    }

    /// Sets the QoS of the publish
    pub fn qos(self, qos: PublishQos) -> (r: Self)
        ensures
            (r@.flags, r@.pkid) == spec_apply_qos(self@.flags, self@.pkid, qos),
            r@.flags & 0b1111_0001u8 == self@.flags & 0b1111_0001u8,
            match qos {
                PublishQos::AtMostOnce => r@.flags & 0b0000_1110u8 == 0 && r@.pkid is None,
                PublishQos::AtLeastOnce { dup, pkid } => r@.flags & 0b0000_1110u8 == (if dup {
                    0b0000_1010u8
                } else {
                    0b0000_0010u8
                }) && r@.pkid == Some(pkid@),
                PublishQos::ExactlyOnce { dup, pkid } => r@.flags & 0b0000_1110u8 == (if dup {
                    0b0000_1100u8
                } else {
                    0b0000_0100u8
                }) && r@.pkid == Some(pkid@),
            },
            r@.topic == self@.topic,
            r@.payload == self@.payload,
    {
        let mut flags = self.flags.difference(
            TypeFlags::publish_qos_1().union(TypeFlags::publish_qos_2()).union(
                TypeFlags::publish_dup(),
            ),
        );
        let mut pkid: Option<PacketId> = None;
        proof {
            assert(0b0000_0010u8 | 0b0000_0100u8 | 0b0000_1000u8 == 0b0000_1110u8) by (bit_vector);
        }
        match qos {
            PublishQos::AtMostOnce => {},
            PublishQos::AtLeastOnce { dup, pkid: id } => {
                if dup {
                    flags = flags.union(TypeFlags::publish_dup());
                }
                flags = flags.union(TypeFlags::publish_qos_1());
                pkid = Some(id);
            },
            PublishQos::ExactlyOnce { dup, pkid: id } => {
                if dup {
                    flags = flags.union(TypeFlags::publish_dup());
                }
                flags = flags.union(TypeFlags::publish_qos_2());
                pkid = Some(id);
            },
        }
        proof {
            lemma_apply_qos_bits(self@.flags, self@.pkid, qos);
        }
        Self { flags, pkid, ..self }
    }
}

} // verus!
