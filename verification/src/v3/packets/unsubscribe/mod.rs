//! Handle unsubscribing from topics through the UNSUBSCRIBE packet.
use vstd::prelude::*;
use vstd::string::StringSliceAdditionalSpecFns;
use vstd::utf8::encode_utf8;

use crate::bytes::{Error, ErrorKind};
use crate::encoding::number::spec_u16_be;
use crate::encoding::topic::spec_has_valid_wildcard;
use crate::encoding::varint::{rl_value, REMAINING_LENGTH_MAX};
use crate::v3::packets::common::fixed::builder::FixedHeaderBuilder;
use crate::v3::packets::common::fixed::{
    spec_fixed_bytes, spec_fixed_slice_parse, ControlPacketType, FixedHeaderSlice,
};
use crate::v3::packets::common::packet_id::{spec_packet_id_parse, PacketId};
use crate::v3::packets::common::string::{spec_mqtt_str_parse, spec_mqtt_str_write, MqttStr};
use crate::v3::packets::common::topic::has_valid_wildcard;
use crate::v3::packets::spec_consume;

use self::builder::{spec_unsub_topics_view, UnsubscribeBuilder};
use self::iter::{parse_unsub_filters, spec_unsub_filters_parse};

pub mod ack;
pub mod builder;
pub mod iter;

verus! {

/// Bytes of the topic filters: each string with its length prefix.
pub open spec fn spec_unsub_filters_len(ts: Seq<Seq<char>>) -> nat
    decreases ts.len(),
{
    if ts.len() == 0 {
        0
    } else {
        2 + encode_utf8(ts[0]).len() + spec_unsub_filters_len(ts.drop_first())
    }
}

/// What writing the topic filters one after the other does: the bytes written, and the error
/// of the first one that fails.
pub open spec fn spec_unsub_filters_write(ts: Seq<Seq<char>>) -> (Seq<u8>, Option<ErrorKind>)
    decreases ts.len(),
{
    if ts.len() == 0 {
        (Seq::empty(), None)
    } else {
        match spec_mqtt_str_write(ts[0]) {
            Err(k) => (Seq::empty(), Some(k)),
            Ok(b) => {
                let rest = spec_unsub_filters_write(ts.drop_first());
                (b + rest.0, rest.1)
            },
        }
    }
}

/// Every topic filter has its wildcards placed correctly.
pub open spec fn spec_unsub_wildcards_valid(ts: Seq<Seq<char>>) -> bool {
    forall|i: int| 0 <= i < ts.len() ==> spec_has_valid_wildcard(encode_utf8(#[trigger] ts[i]))
}

/// What writing an UNSUBSCRIBE packet does: the bytes written, and the error if it fails.
pub open spec fn spec_unsubscribe_write(v: (u16, Seq<Seq<char>>)) -> (Seq<u8>, Option<ErrorKind>) {
    let rem = 2 + spec_unsub_filters_len(v.1);
    if !spec_unsub_wildcards_valid(v.1) {
        (Seq::empty(), Some(ErrorKind::Invalid))
    } else if rem > usize::MAX {
        (Seq::empty(), Some(ErrorKind::Overflow))
    } else if rem > REMAINING_LENGTH_MAX {
        (Seq::empty(), Some(ErrorKind::OutOfRange))
    } else {
        let filters = spec_unsub_filters_write(v.1);
        (spec_fixed_bytes(ControlPacketType::Unsubscribe, 2, rem as u32) + spec_u16_be(v.0)
            + filters.0, filters.1)
    }
}

/// Outcome of parsing an UNSUBSCRIBE packet: packet identifier, topic filters and bytes read.
pub open spec fn spec_unsubscribe_parse(buf: Seq<u8>) -> Result<((u16, Seq<Seq<char>>), nat), ErrorKind> {
    match spec_fixed_slice_parse(buf) {
        Err(k) => Err(k),
        Ok(h) => {
            let rem = rl_value(buf.subrange(1, h as int));
            let after = buf.skip(h as int);
            if after.len() < rem {
                Err(ErrorKind::NotEnoughSpace)
            } else {
                let packet = after.take(rem);
                match spec_packet_id_parse(packet) {
                    Err(k) => Err(k),
                    Ok((id, n)) => match spec_unsub_filters_parse(packet.skip(n as int)) {
                        Err(k) => Err(k),
                        Ok(ts) => Ok(((id, ts), (h + rem) as nat)),
                    },
                }
            }
        },
    }
}

/// Written topic filters take as many bytes as their length says.
pub proof fn lemma_unsub_filters_write_len(ts: Seq<Seq<char>>)
    requires
        spec_unsub_filters_write(ts).1 is None,
    ensures
        spec_unsub_filters_write(ts).0.len() == spec_unsub_filters_len(ts),
    decreases ts.len(),
{
    if ts.len() > 0 {
        lemma_unsub_filters_write_len(ts.drop_first());
    }
}

/// Writing topic filters never writes more than their length, even when it fails.
pub proof fn lemma_unsub_filters_write_len_le(ts: Seq<Seq<char>>)
    ensures
        spec_unsub_filters_write(ts).0.len() <= spec_unsub_filters_len(ts),
    decreases ts.len(),
{
    if ts.len() > 0 {
        lemma_unsub_filters_write_len_le(ts.drop_first());
    }
}

/// Written topic filters with their wildcards placed correctly are read back as the same
/// filters.
pub proof fn lemma_unsub_filters_roundtrip(ts: Seq<Seq<char>>)
    requires
        spec_unsub_filters_write(ts).1 is None,
        spec_unsub_wildcards_valid(ts),
    ensures
        spec_unsub_filters_parse(spec_unsub_filters_write(ts).0) == Ok::<Seq<Seq<char>>, ErrorKind>(
            ts,
        ),
    decreases ts.len(),
{
    if ts.len() == 0 {
        assert(ts =~= Seq::<Seq<char>>::empty());
    } else {
        let first = spec_mqtt_str_write(ts[0])->Ok_0;
        let rest = spec_unsub_filters_write(ts.drop_first());
        assert(spec_unsub_wildcards_valid(ts.drop_first())) by {
            assert forall|i: int| 0 <= i < ts.drop_first().len() implies spec_has_valid_wildcard(
                encode_utf8(#[trigger] ts.drop_first()[i]),
            ) by {
                assert(ts.drop_first()[i] == ts[i + 1]);
            }
        }
        assert(spec_has_valid_wildcard(encode_utf8(ts[0])));
        lemma_unsub_filters_roundtrip(ts.drop_first());
        crate::v3::packets::common::string::lemma_mqtt_str_roundtrip(ts[0], rest.0);
        let bytes = first + rest.0;
        assert(spec_unsub_filters_write(ts).0 == bytes);
        assert(first.len() >= 2);
        assert(seq![ts[0]] + ts.drop_first() =~= ts);
    }
}

/// A written UNSUBSCRIBE packet is read back with the same packet identifier and topic filters,
/// whatever bytes follow it.
pub proof fn lemma_unsubscribe_roundtrip(v: (u16, Seq<Seq<char>>), rest: Seq<u8>)
    requires
        spec_unsubscribe_write(v).1 is None,
        v.0 != 0,
    ensures
        spec_unsubscribe_parse(spec_unsubscribe_write(v).0 + rest) == Ok::<
            ((u16, Seq<Seq<char>>), nat),
            ErrorKind,
        >((v, spec_unsubscribe_write(v).0.len())),
{
    let rem = 2 + spec_unsub_filters_len(v.1);
    let filters = spec_unsub_filters_write(v.1).0;
    lemma_unsub_filters_write_len(v.1);
    lemma_unsub_filters_roundtrip(v.1);
    let body = spec_u16_be(v.0) + filters;
    let fixed = spec_fixed_bytes(ControlPacketType::Unsubscribe, 2, rem as u32);
    let b = spec_unsubscribe_write(v).0 + rest;
    assert(spec_unsubscribe_write(v).0 == fixed + body) by {
        assert(fixed + spec_u16_be(v.0) + filters =~= fixed + body);
    }
    assert(b =~= fixed + (body + rest));
    crate::v3::packets::common::fixed::lemma_fixed_roundtrip(
        ControlPacketType::Unsubscribe,
        2,
        rem as u32,
        body + rest,
    );
    let h = fixed.len();
    let after = b.skip(h as int);
    assert(after =~= body + rest);
    let packet = after.take(rem as int);
    assert(packet =~= body);
    crate::encoding::number::lemma_u16_be_roundtrip(v.0, filters);
    assert(spec_packet_id_parse(packet) == Ok::<(u16, nat), ErrorKind>((v.0, 2)));
    assert(packet.skip(2) =~= filters);
    assert(h + rem == spec_unsubscribe_write(v).0.len());
}

/// An UNSUBSCRIBE Packet is sent by the Client to the Server, to unsubscribe from topics.
///
/// The payload for the UNSUBSCRIBE Packet contains the list of Topic Filters that the Client wishes
/// to unsubscribe from. The Topic Filters in an UNSUBSCRIBE packet MUST be UTF-8 encoded strings as
/// packed contiguously. The Payload of an UNSUBSCRIBE packet MUST contain at least one Topic
/// Filter. An UNSUBSCRIBE packet with no payload is a protocol violation.
#[derive(Debug, Clone, Copy)]
pub struct Unsubscribe<'a> {
    pkid: PacketId,
    filters: &'a [u8],
}

impl<'a> View for Unsubscribe<'a> {
    type V = (u16, Seq<Seq<char>>);

    closed spec fn view(&self) -> (u16, Seq<Seq<char>>) {
        (self.pkid@, spec_unsub_filters_parse(self.filters@)->Ok_0)
    }
}

impl<'a> Unsubscribe<'a> {
    #[verifier::type_invariant]
    spec fn valid_filters(self) -> bool {
        spec_unsub_filters_parse(self.filters@) is Ok
    }

    /// Returns the packet identifier of the UNSUBSCRIBE.
    pub fn pkid(&self) -> (r: PacketId)
        ensures
            r@ == self@.0,
    {
        self.pkid
    }

    /// Returns the filters of the UNSUBSCRIBE.
    pub fn filters(&self) -> (r: Vec<MqttStr<'a>>)
        ensures
            r@.map_values(|t: MqttStr<'a>| t@) == self@.1,
    {
        proof {
            use_type_invariant(self);
        }
        match parse_unsub_filters(self.filters) {
            Ok(v) => v,
            Err(_) => {
                proof {
                    assert(false);
                }
                Vec::new()
            },
        }
    }

    /// The wildcards of every topic filter must be placed correctly.
    pub fn validate_value(value: &UnsubscribeBuilder<'a>) -> (r: Result<(), Error>)
        ensures
            match r {
                Ok(()) => spec_unsub_wildcards_valid(value@.1),
                Err(e) => !spec_unsub_wildcards_valid(value@.1) && e.kind() == ErrorKind::Invalid,
            },
    {
        proof {
            value.lemma_view();
        }
        let mut i: usize = 0;
        while i < value.filters.len()
            invariant
                0 <= i <= value.filters@.len(),
                value@.1 == spec_unsub_topics_view(value.filters@),
                forall|j: int|
                    0 <= j < i ==> spec_has_valid_wildcard(encode_utf8(#[trigger] value@.1[j])),
            decreases value.filters@.len() - i,
        {
            if !has_valid_wildcard(value.filters[i]) {
                proof {
                    assert(value@.1[i as int] == value.filters@[i as int]@);
                }
                return Err(Error::new(ErrorKind::Invalid, "UNSUBSCRIBE topic filter"));
            }
            proof {
                assert(value@.1[i as int] == value.filters@[i as int]@);
            }
            i = i + 1;
        }
        Ok(())
    }

    /// The encoded topic filters of the packet.
    pub closed spec fn spec_filter_bytes(&self) -> Seq<u8> {
        self.filters@
    }

    /// The filters of a parsed UNSUBSCRIBE are valid: each one is read again.
    pub fn validate(&self) -> (r: Result<(), Error>)
        ensures
            r is Ok,
            spec_unsub_filters_parse(self.spec_filter_bytes()) == Ok::<Seq<Seq<char>>, ErrorKind>(
                self@.1,
            ),
    {
        proof {
            use_type_invariant(self);
        }
        parse_unsub_filters(self.filters)?;
        Ok(())
    }

    /// The remaining length: the packet identifier and the topic filters.
    pub fn encode_len(value: &UnsubscribeBuilder<'a>) -> (r: Result<usize, Error>)
        ensures
            match r {
                Ok(n) => n == 2 + spec_unsub_filters_len(value@.1),
                Err(e) => 2 + spec_unsub_filters_len(value@.1) > usize::MAX && e.kind()
                    == ErrorKind::Overflow,
            },
    {
        proof {
            value.lemma_view();
        }
        let mut len = PacketId::encode_len(&value.pkid)?;
        proof {
            assert(value@.1.skip(0) =~= value@.1);
        }
        let mut i: usize = 0;
        while i < value.filters.len()
            invariant
                0 <= i <= value.filters@.len(),
                value@.1 == spec_unsub_topics_view(value.filters@),
                2 + spec_unsub_filters_len(value@.1) == len + spec_unsub_filters_len(
                    value@.1.skip(i as int),
                ),
            decreases value.filters@.len() - i,
        {
            let ghost suffix = value@.1.skip(i as int);
            proof {
                assert(suffix.drop_first() =~= value@.1.skip(i + 1));
                assert(suffix[0] == value.filters@[i as int]@);
            }
            let topic = MqttStr::encode_len(value.filters[i])?;
            if topic > usize::MAX - len {
                return Err(Error::new(ErrorKind::Overflow, "UNSUBSCRIBE packet len"));
            }
            len = topic + len;
            i = i + 1;
        }
        proof {
            assert(value@.1.skip(i as int) =~= Seq::<Seq<char>>::empty());
        }
        Ok(len)
    }

    /// Writes the UNSUBSCRIBE packet.
    pub fn write_sync(writer: &mut Vec<u8>, value: &UnsubscribeBuilder<'a>) -> (r: Result<usize, Error>)
        ensures
            final(writer)@ == old(writer)@ + spec_unsubscribe_write(value@).0,
            match spec_unsubscribe_write(value@).1 {
                None => r matches Ok(n) && n == spec_unsubscribe_write(value@).0.len(),
                Some(k) => r matches Err(e) && e.kind() == k,
            },
    {
        proof {
            value.lemma_view();
        }
        Self::validate_value(value)?;
        let rem_len = Self::encode_len(value)?;
        let fixed = FixedHeaderBuilder::new(ControlPacketType::Unsubscribe).remaining_length(
            rem_len,
        )?;
        let mut written = fixed.write_sync(writer)?;
        written = written + PacketId::write_sync(writer, &value.pkid)?;
        let ghost start = writer@;
        let ghost ts = value@.1;
        let ghost head = spec_fixed_bytes(ControlPacketType::Unsubscribe, 2, rem_len as u32)
            + spec_u16_be(value@.0);
        proof {
            crate::encoding::varint::lemma_rl_encode(rem_len as nat);
            assert(ts.skip(0) =~= ts);
            assert(writer@.skip(start.len() as int) =~= Seq::<u8>::empty());
            assert(writer@.take(start.len() as int) =~= start);
        }
        let mut i: usize = 0;
        while i < value.filters.len()
            invariant
                0 <= i <= value.filters@.len(),
                ts == value@.1,
                ts == spec_unsub_topics_view(value.filters@),
                start == old(writer)@ + head,
                spec_unsubscribe_write(value@) == (head + spec_unsub_filters_write(ts).0,
                spec_unsub_filters_write(ts).1),
                start.len() >= old(writer)@.len(),
                start.len() - old(writer)@.len() <= 7,
                writer@.len() >= start.len(),
                written == writer@.len() - old(writer)@.len(),
                2 + spec_unsub_filters_len(ts) <= REMAINING_LENGTH_MAX,
                spec_unsub_filters_write(ts) == ((writer@.skip(start.len() as int)
                    + spec_unsub_filters_write(ts.skip(i as int)).0), spec_unsub_filters_write(
                    ts.skip(i as int),
                ).1),
                writer@.take(start.len() as int) == start,
            decreases value.filters@.len() - i,
        {
            let ghost suffix = ts.skip(i as int);
            let ghost before = writer@;
            proof {
                assert(suffix.drop_first() =~= ts.skip(i + 1));
                assert(suffix[0] == value.filters@[i as int]@);
            }
            let res = MqttStr::write_sync(writer, value.filters[i]);
            proof {
                lemma_unsub_filters_write_len_le(ts);
            }
            let n = match res {
                Ok(n) => n,
                Err(e) => {
                    proof {
                        assert(writer@ == before);
                        assert(spec_unsub_filters_write(suffix).0 =~= Seq::<u8>::empty());
                        assert(writer@ =~= start + writer@.skip(start.len() as int));
                        assert(final(writer)@ =~= old(writer)@ + spec_unsubscribe_write(value@).0);
                    }
                    return Err(e);
                },
            };
            proof {
                assert(writer@.skip(start.len() as int) =~= before.skip(start.len() as int)
                    + spec_mqtt_str_write(suffix[0])->Ok_0);
                assert(writer@.take(start.len() as int) =~= start);
            }
            written = written + n;
            i = i + 1;
        }
        proof {
            assert(ts.skip(i as int) =~= Seq::<Seq<char>>::empty());
            assert(writer@ =~= start + writer@.skip(start.len() as int));
            assert(final(writer)@ =~= old(writer)@ + spec_unsubscribe_write(value@).0);
        }
        Ok(written)
    }

    /// Parses an UNSUBSCRIBE packet.
    pub fn parse(buf: &'a [u8]) -> (r: Result<(Self, &'a [u8]), Error>)
        ensures
            match spec_unsubscribe_parse(buf@) {
                Ok((v, n)) => r matches Ok((this, rest)) && this@ == v && n <= buf@.len() && rest@
                    == buf@.skip(n as int),
                Err(k) => r matches Err(e) && e.kind() == k,
            },
    {
        let (fixed, rest) = FixedHeaderSlice::parse(buf)?;
        let rem_len = fixed.remaining_length().read_len();
        if rest.len() < rem_len {
            return Err(Error::new(ErrorKind::NotEnoughSpace, "UNSUBSCRIBE packet"));
        }
        let (packet, rest) = rest.split_at(rem_len);
        proof {
            let h = spec_fixed_slice_parse(buf@)->Ok_0;
            assert(packet@ =~= buf@.skip(h as int).take(rl_value(buf@.subrange(1, h as int))));
            assert(rest@ =~= buf@.skip(h + rl_value(buf@.subrange(1, h as int))));
        }
        let (pkid, packet) = PacketId::parse(packet)?;
        let _ = parse_unsub_filters(packet)?;
        Ok((Unsubscribe { pkid, filters: packet }, rest))
    }

    /// Parses an UNSUBSCRIBE packet that takes the whole buffer.
    pub fn consume(buf: &'a [u8]) -> (r: Result<Self, Error>)
        ensures
            match spec_consume(spec_unsubscribe_parse(buf@), buf@.len()) {
                Ok(v) => r matches Ok(this) && this@ == v,
                Err(k) => r matches Err(e) && e.kind() == k,
            },
    {
        let (this, rest) = Self::parse(buf)?;
        if rest.len() != 0 {
            return Err(Error::new(ErrorKind::Invalid, "remaining bytes in consumed packet"));
        }
        Ok(this)
    }
}

} // verus!
