//! Handle subscribing to topics through the SUBSCRIBE packet.
use vstd::prelude::*;
use vstd::string::StringSliceAdditionalSpecFns;
use vstd::utf8::encode_utf8;

use crate::bytes::{Error, ErrorKind};
use crate::encoding::number::spec_u16_be;
use crate::encoding::topic::spec_has_valid_wildcard;
use crate::encoding::varint::{rl_value, REMAINING_LENGTH_MAX};
use crate::v3::packets::common::fixed::builder::FixedHeaderBuilder;
use crate::v3::packets::common::fixed::{
    spec_fixed_bytes, spec_fixed_slice_parse, ControlPacketType, FixedHeaderSlice,
};
use crate::v3::packets::common::packet_id::{spec_packet_id_parse, PacketId};
use crate::v3::packets::common::string::spec_mqtt_str_write;
use crate::v3::packets::spec_consume;

use self::builder::{spec_subscribe_filters_view, SubscribeBuilder, SubscribeFilter};
use self::iter::{parse_filters, spec_filters_parse};
use self::topic::{
    spec_subscribe_filter_view, spec_topic_filter_parse, spec_topic_filter_write, TopicFilter,
};

pub mod ack;
pub mod builder;
pub mod iter;
pub mod topic;

verus! {

/// Bytes of the topic filters: each string with its prefix and the requested QoS.
pub open spec fn spec_filters_len(fs: Seq<(Seq<char>, u8)>) -> nat
    decreases fs.len(),
{
    if fs.len() == 0 {
        0
    } else {
        3 + encode_utf8(fs[0].0).len() + spec_filters_len(fs.drop_first())
    }
}

/// What writing the topic filters one after the other does: the bytes written, and the error
/// of the first one that fails.
pub open spec fn spec_filters_write(fs: Seq<(Seq<char>, u8)>) -> (Seq<u8>, Option<ErrorKind>)
    decreases fs.len(),
{
    if fs.len() == 0 {
        (Seq::empty(), None)
    } else {
        let first = spec_topic_filter_write(fs[0]);
        if first.1 is Some {
            first
        } else {
            let rest = spec_filters_write(fs.drop_first());
            (first.0 + rest.0, rest.1)
        }
    }
}

/// Every topic filter has its wildcards placed correctly.
pub open spec fn spec_filters_wildcards_valid(fs: Seq<(Seq<char>, u8)>) -> bool {
    forall|i: int| 0 <= i < fs.len() ==> spec_has_valid_wildcard(encode_utf8(#[trigger] fs[i].0))
}

/// What writing a SUBSCRIBE packet does: the bytes written, and the error if it fails.
pub open spec fn spec_subscribe_write(v: (u16, Seq<(Seq<char>, u8)>)) -> (Seq<u8>, Option<ErrorKind>) {
    let rem = 2 + spec_filters_len(v.1);
    if !spec_filters_wildcards_valid(v.1) {
        (Seq::empty(), Some(ErrorKind::Invalid))
    } else if rem > usize::MAX {
        (Seq::empty(), Some(ErrorKind::Overflow))
    } else if rem > REMAINING_LENGTH_MAX {
        (Seq::empty(), Some(ErrorKind::OutOfRange))
    } else {
        let filters = spec_filters_write(v.1);
        (spec_fixed_bytes(ControlPacketType::Subscribe, 2, rem as u32) + spec_u16_be(v.0) + filters.0, filters.1)
    }
}

/// Outcome of parsing a SUBSCRIBE packet: packet identifier, topic filters and bytes read.
pub open spec fn spec_subscribe_parse(buf: Seq<u8>) -> Result<((u16, Seq<(Seq<char>, u8)>), nat), ErrorKind> {
    match spec_fixed_slice_parse(buf) {
        Err(k) => Err(k),
        Ok(h) => {
            let rem = rl_value(buf.subrange(1, h as int));
            let after = buf.skip(h as int);
            if after.len() < rem {
                Err(ErrorKind::NotEnoughSpace)
            } else {
                let packet = after.take(rem);
                match spec_packet_id_parse(packet) {
                    Err(k) => Err(k),
                    Ok((id, n)) => match spec_filters_parse(packet.skip(n as int)) {
                        Err(k) => Err(k),
                        Ok(fs) => Ok(((id, fs), (h + rem) as nat)),
                    },
                }
            }
        },
    }
}

/// Written topic filters take as many bytes as their length says.
pub proof fn lemma_filters_write_len(fs: Seq<(Seq<char>, u8)>)
    requires
        spec_filters_write(fs).1 is None,
    ensures
        spec_filters_write(fs).0.len() == spec_filters_len(fs),
    decreases fs.len(),
{
    if fs.len() > 0 {
        lemma_filters_write_len(fs.drop_first());
    }
}

/// Writing topic filters never writes more than their length, even when it fails.
pub proof fn lemma_filters_write_len_le(fs: Seq<(Seq<char>, u8)>)
    ensures
        spec_filters_write(fs).0.len() <= spec_filters_len(fs),
    decreases fs.len(),
{
    if fs.len() > 0 {
        lemma_filters_write_len_le(fs.drop_first());
    }
}

/// Written topic filters are read back as the same filters.
pub proof fn lemma_filters_roundtrip(fs: Seq<(Seq<char>, u8)>)
    requires
        spec_filters_write(fs).1 is None,
        forall|i: int| 0 <= i < fs.len() ==> #[trigger] fs[i].1 <= 2,
    ensures
        spec_filters_parse(spec_filters_write(fs).0) == Ok::<Seq<(Seq<char>, u8)>, ErrorKind>(fs),
    decreases fs.len(),
{
    if fs.len() == 0 {
        assert(fs =~= Seq::<(Seq<char>, u8)>::empty());
    } else {
        let first = spec_topic_filter_write(fs[0]);
        let rest = spec_filters_write(fs.drop_first());
        assert forall|i: int| 0 <= i < fs.drop_first().len() implies #[trigger] fs.drop_first()[i].1
            <= 2 by {
            assert(fs.drop_first()[i] == fs[i + 1]);
        }
        lemma_filters_roundtrip(fs.drop_first());
        topic::lemma_topic_filter_roundtrip(fs[0], rest.0);
        let bytes = first.0 + rest.0;
        assert(spec_filters_write(fs).0 == bytes);
        assert(first.0.len() > 0);
        assert(bytes.len() > 0);
        assert(spec_topic_filter_parse(bytes) == Ok::<((Seq<char>, u8), nat), ErrorKind>(
            (fs[0], first.0.len()),
        ));
        assert(bytes.skip(first.0.len() as int) == rest.0);
        assert(seq![fs[0]] + fs.drop_first() =~= fs);
        assert(spec_filters_parse(bytes) == Ok::<Seq<(Seq<char>, u8)>, ErrorKind>(
            seq![fs[0]] + fs.drop_first(),
        ));
    }
}

/// A written SUBSCRIBE packet is read back with the same packet identifier and topic filters,
/// whatever bytes follow it.
pub proof fn lemma_subscribe_roundtrip(v: (u16, Seq<(Seq<char>, u8)>), rest: Seq<u8>)
    requires
        spec_subscribe_write(v).1 is None,
        v.0 != 0,
        forall|i: int| 0 <= i < v.1.len() ==> #[trigger] v.1[i].1 <= 2,
    ensures
        spec_subscribe_parse(spec_subscribe_write(v).0 + rest) == Ok::<
            ((u16, Seq<(Seq<char>, u8)>), nat),
            ErrorKind,
        >((v, spec_subscribe_write(v).0.len())),
{
    let rem = 2 + spec_filters_len(v.1);
    let filters = spec_filters_write(v.1).0;
    lemma_filters_write_len(v.1);
    lemma_filters_roundtrip(v.1);
    let body = spec_u16_be(v.0) + filters;
    let fixed = spec_fixed_bytes(ControlPacketType::Subscribe, 2, rem as u32);
    let b = spec_subscribe_write(v).0 + rest;
    assert(spec_subscribe_write(v).0 == fixed + body) by {
        assert(fixed + spec_u16_be(v.0) + filters =~= fixed + body);
    }
    assert(b =~= fixed + (body + rest));
    crate::v3::packets::common::fixed::lemma_fixed_roundtrip(
        ControlPacketType::Subscribe,
        2,
        rem as u32,
        body + rest,
    );
    let h = fixed.len();
    assert(spec_fixed_slice_parse(b) == Ok::<nat, ErrorKind>(h));
    assert(rl_value(b.subrange(1, h as int)) == rem);
    let after = b.skip(h as int);
    assert(after =~= body + rest);
    let packet = after.take(rem as int);
    assert(packet =~= body);
    crate::encoding::number::lemma_u16_be_roundtrip(v.0, filters);
    assert(spec_packet_id_parse(packet) == Ok::<(u16, nat), ErrorKind>((v.0, 2)));
    assert(packet.skip(2) =~= filters);
    assert(spec_filters_parse(packet.skip(2)) == Ok::<Seq<(Seq<char>, u8)>, ErrorKind>(v.1));
    assert(h + rem == spec_subscribe_write(v).0.len());
}

/// The SUBSCRIBE Packet is sent from the Client to the Server to create one or more Subscriptions.
///
/// Each Subscription registers a Client’s interest in one or more Topics. The Server sends PUBLISH
/// Packets to the Client in order to forward Application Messages that were published to Topics
/// that match these Subscriptions. The SUBSCRIBE Packet also specifies (for each Subscription) the
/// maximum QoS with which the Server can send Application Messages to the Client.
#[derive(Debug, Clone, Copy)]
pub struct Subscribe<'a> {
    pkid: PacketId,
    filters: &'a [u8],
}

impl<'a> View for Subscribe<'a> {
    type V = (u16, Seq<(Seq<char>, u8)>);

    closed spec fn view(&self) -> (u16, Seq<(Seq<char>, u8)>) {
        (self.pkid@, spec_filters_parse(self.filters@)->Ok_0)
    }
}

impl<'a> Subscribe<'a> {
    #[verifier::type_invariant]
    spec fn valid_filters(self) -> bool {
        spec_filters_parse(self.filters@) is Ok
    }

    /// Return the packet identifier of the subscribe.
    pub fn pkid(&self) -> (r: PacketId)
        ensures
            r@ == self@.0,
    {
        self.pkid
    }

    /// Return the filters of the subscribe.
    pub fn filters(&self) -> (r: Vec<TopicFilter<'a>>)
        ensures
            r@.map_values(|f: TopicFilter<'a>| f@) == self@.1,
    {
        proof {
            use_type_invariant(self);
        }
        match parse_filters(self.filters) {
            Ok(v) => v,
            Err(_) => {
                proof {
                    assert(false);
                }
                Vec::new()
            },
        }
    }

    /// The wildcards of every topic filter must be placed correctly.
    pub fn validate_value(value: &SubscribeBuilder<'a>) -> (r: Result<(), Error>)
        ensures
            match r {
                Ok(()) => spec_filters_wildcards_valid(value@.1),
                Err(e) => !spec_filters_wildcards_valid(value@.1) && e.kind() == ErrorKind::Invalid,
            },
    {
        proof {
            value.lemma_view();
        }
        let mut i: usize = 0;
        while i < value.filters.len()
            invariant
                0 <= i <= value.filters@.len(),
                value@.1 == spec_subscribe_filters_view(value.filters@),
                forall|j: int| 0 <= j < i ==> spec_has_valid_wildcard(encode_utf8(#[trigger] value@.1[j].0)),
            decreases value.filters@.len() - i,
        {
            match TopicFilter::validate_value(&value.filters[i]) {
                Err(e) => {
                    proof {
                        assert(value@.1[i as int] == spec_subscribe_filter_view(value.filters@[i as int]));
                        assert(!spec_has_valid_wildcard(encode_utf8(value@.1[i as int].0)));
                    }
                    return Err(e);
                },
                Ok(()) => {},
            }
            proof {
                assert(value@.1[i as int] == spec_subscribe_filter_view(value.filters@[i as int]));
            }
            i = i + 1;
        }
        Ok(())
    }

    /// The encoded topic filters of the packet.
    pub closed spec fn spec_filter_bytes(&self) -> Seq<u8> {
        self.filters@
    }

    /// The filters of a parsed SUBSCRIBE are valid: each one is read again.
    pub fn validate(&self) -> (r: Result<(), Error>)
        ensures
            r is Ok,
            spec_filters_parse(self.spec_filter_bytes()) == Ok::<Seq<(Seq<char>, u8)>, ErrorKind>(
                self@.1,
            ),
    {
        proof {
            use_type_invariant(self);
        }
        parse_filters(self.filters)?;
        Ok(())
    }

    /// The remaining length: the packet identifier and the topic filters.
    pub fn encode_len(value: &SubscribeBuilder<'a>) -> (r: Result<usize, Error>)
        ensures
            match r {
                Ok(n) => n == 2 + spec_filters_len(value@.1),
                Err(e) => 2 + spec_filters_len(value@.1) > usize::MAX && e.kind()
                    == ErrorKind::Overflow,
            },
    {
        proof {
            value.lemma_view();
        }
        let mut len = PacketId::encode_len(&value.pkid)?;
        proof {
            assert(value@.1.skip(0) =~= value@.1);
        }
        let mut i: usize = 0;
        while i < value.filters.len()
            invariant
                0 <= i <= value.filters@.len(),
                value@.1 == spec_subscribe_filters_view(value.filters@),
                2 + spec_filters_len(value@.1) == len + spec_filters_len(value@.1.skip(i as int)),
            decreases value.filters@.len() - i,
        {
            let ghost suffix = value@.1.skip(i as int);
            proof {
                assert(suffix.drop_first() =~= value@.1.skip(i + 1));
                assert(suffix[0] == spec_subscribe_filter_view(value.filters@[i as int]));
            }
            let topic = TopicFilter::encode_len(&value.filters[i])?;
            if topic > usize::MAX - len {
                return Err(Error::new(ErrorKind::Overflow, "SUBSCRIBE packet len"));
            }
            len = topic + len;
            i = i + 1;
        }
        proof {
            assert(value@.1.skip(i as int) =~= Seq::<(Seq<char>, u8)>::empty());
        }
        Ok(len)
    }

    /// Writes the SUBSCRIBE packet.
    pub fn write_sync(writer: &mut Vec<u8>, value: &SubscribeBuilder<'a>) -> (r: Result<usize, Error>)
        ensures
            final(writer)@ == old(writer)@ + spec_subscribe_write(value@).0,
            match spec_subscribe_write(value@).1 {
                None => r matches Ok(n) && n == spec_subscribe_write(value@).0.len(),
                Some(k) => r matches Err(e) && e.kind() == k,
            },
    {
        proof {
            value.lemma_view();
        }
        Self::validate_value(value)?;
        let rem_len = Self::encode_len(value)?;
        let fixed = FixedHeaderBuilder::new(ControlPacketType::Subscribe).remaining_length(rem_len)?;
        let mut written = fixed.write_sync(writer)?;
        written = written + PacketId::write_sync(writer, &value.pkid)?;
        let ghost start = writer@;
        let ghost fs = value@.1;
        proof {
            crate::encoding::varint::lemma_rl_encode(rem_len as nat);
            assert(fs.skip(0) =~= fs);
            assert(start == old(writer)@ + spec_fixed_bytes(ControlPacketType::Subscribe, 2, rem_len as u32)
                + spec_u16_be(value@.0));
            assert(writer@.skip(start.len() as int) =~= Seq::<u8>::empty());
            assert(writer@.take(start.len() as int) =~= start);
            assert(spec_subscribe_write(value@) == (spec_fixed_bytes(ControlPacketType::Subscribe, 2, rem_len as u32)
                + spec_u16_be(value@.0) + spec_filters_write(fs).0, spec_filters_write(fs).1));
        }
        let ghost head = spec_fixed_bytes(ControlPacketType::Subscribe, 2, rem_len as u32) + spec_u16_be(value@.0);
        let mut i: usize = 0;
        while i < value.filters.len()
            invariant
                0 <= i <= value.filters@.len(),
                fs == value@.1,
                fs == spec_subscribe_filters_view(value.filters@),
                start == old(writer)@ + head,
                spec_subscribe_write(value@) == (head + spec_filters_write(fs).0, spec_filters_write(fs).1),
                start.len() >= old(writer)@.len(),
                start.len() - old(writer)@.len() <= 7,
                writer@.len() >= start.len(),
                written == writer@.len() - old(writer)@.len(),
                spec_filters_write(fs) == ((writer@.skip(start.len() as int) + spec_filters_write(
                    fs.skip(i as int),
                ).0), spec_filters_write(fs.skip(i as int)).1),
                writer@.take(start.len() as int) == start,
            decreases value.filters@.len() - i,
        {
            let ghost suffix = fs.skip(i as int);
            let ghost before = writer@;
            proof {
                assert(suffix.drop_first() =~= fs.skip(i + 1));
                assert(suffix[0] == spec_subscribe_filter_view(value.filters@[i as int]));
                assert(suffix[0] == fs[i as int]);
            }
            let res = TopicFilter::write_sync(writer, &value.filters[i]);
            proof {
                assert(writer@.skip(start.len() as int) =~= before.skip(start.len() as int)
                    + spec_topic_filter_write(suffix[0]).0);
                assert(writer@.take(start.len() as int) =~= start);
                lemma_filters_write_len_le(fs);
            }
            let n = match res {
                Ok(n) => n,
                Err(e) => {
                    proof {
                        assert(spec_filters_write(suffix) == spec_topic_filter_write(suffix[0]));
                        assert(spec_filters_write(fs).0 == writer@.skip(start.len() as int));
                        assert(writer@ =~= start + writer@.skip(start.len() as int));
                        assert(final(writer)@ =~= old(writer)@ + spec_subscribe_write(value@).0);
                    }
                    return Err(e);
                },
            };
            written = written + n;
            i = i + 1;
        }
        proof {
            assert(fs.skip(i as int) =~= Seq::<(Seq<char>, u8)>::empty());
            assert(writer@ =~= start + writer@.skip(start.len() as int));
            assert(final(writer)@ =~= old(writer)@ + spec_subscribe_write(value@).0);
        }
        Ok(written)
    }

    /// Parses a SUBSCRIBE packet.
    pub fn parse(buf: &'a [u8]) -> (r: Result<(Self, &'a [u8]), Error>)
        ensures
            match spec_subscribe_parse(buf@) {
                Ok((v, n)) => r matches Ok((this, rest)) && this@ == v && n <= buf@.len() && rest@
                    == buf@.skip(n as int),
                Err(k) => r matches Err(e) && e.kind() == k,
            },
    {
        let (fixed, rest) = FixedHeaderSlice::parse(buf)?;
        let rem_len = fixed.remaining_length().read_len();
        if rest.len() < rem_len {
            return Err(Error::new(ErrorKind::NotEnoughSpace, "SUBSCRIBE packet"));
        }
        let (packet, rest) = rest.split_at(rem_len);
        proof {
            let h = spec_fixed_slice_parse(buf@)->Ok_0;
            assert(packet@ =~= buf@.skip(h as int).take(rl_value(buf@.subrange(1, h as int))));
            assert(rest@ =~= buf@.skip(h + rl_value(buf@.subrange(1, h as int))));
        }
        let (pkid, packet) = PacketId::parse(packet)?;
        let _ = parse_filters(packet)?;
        Ok((Subscribe { pkid, filters: packet }, rest))
    }

    /// Parses a SUBSCRIBE packet that takes the whole buffer.
    pub fn consume(buf: &'a [u8]) -> (r: Result<Self, Error>)
        ensures
            match spec_consume(spec_subscribe_parse(buf@), buf@.len()) {
                Ok(v) => r matches Ok(this) && this@ == v,
                Err(k) => r matches Err(e) && e.kind() == k,
            },
    {
        let (this, rest) = Self::parse(buf)?;
        if rest.len() != 0 {
            return Err(Error::new(ErrorKind::Invalid, "remaining bytes in consumed packet"));
        }
        Ok(this)
    }
}

} // verus!
