//! Subscribe Topic Filter
use vstd::prelude::*;
use vstd::string::StringSliceAdditionalSpecFns;
use vstd::utf8::encode_utf8;

use crate::bytes::{Error, ErrorKind};
use crate::encoding::topic::spec_has_valid_wildcard;
use crate::v3::packets::common::string::{spec_mqtt_str_parse, spec_mqtt_str_write, MqttStr};
use crate::v3::packets::common::topic::has_valid_wildcard;

use super::builder::SubscribeFilter;

verus! {

/// Quality of Service
///
/// Each filter is followed by a byte called the Requested QoS. This gives the maximum QoS level at
/// which the Server can send Application Messages to the Client.
#[derive(Debug, Clone, Copy, PartialEq, Eq, Structural)]
pub enum RequestedQos {
    /// QoS 0: At most once delivery
    AtMostOnce,
    /// QoS 1: At least once delivery
    AtLeastOnce,
    /// QoS 2: Exactly once delivery
    ExactlyOnce,
}

/// The byte of the requested QoS.
pub open spec fn spec_requested_qos_code(q: RequestedQos) -> u8 {
    match q {
        RequestedQos::AtMostOnce => 0,
        RequestedQos::AtLeastOnce => 1,
        RequestedQos::ExactlyOnce => 2,
    }
}

impl RequestedQos {
    /// The byte of the requested QoS.
    pub fn code(self) -> (r: u8)
        ensures
            r == spec_requested_qos_code(self),
    {
        match self {
            RequestedQos::AtMostOnce => 0,
            RequestedQos::AtLeastOnce => 1,
            RequestedQos::ExactlyOnce => 2,
        }
    }

    /// The requested QoS of the byte, if it's one.
    pub fn from_code(b: u8) -> (r: Option<Self>)
        ensures
            match r {
                Some(q) => b <= 2 && spec_requested_qos_code(q) == b,
                None => b > 2,
            },
    {
        match b {
            0 => Some(RequestedQos::AtMostOnce),
            1 => Some(RequestedQos::AtLeastOnce),
            2 => Some(RequestedQos::ExactlyOnce),
            _ => None,
        }
    }
}

/// The topic and the byte of the requested QoS of a filter to write.
pub open spec fn spec_subscribe_filter_view(f: SubscribeFilter) -> (Seq<char>, u8) {
    (f.topic@, spec_requested_qos_code(f.qos))
}

/// Outcome of parsing a topic filter: its topic, requested QoS byte and the bytes read.
pub open spec fn spec_topic_filter_parse(buf: Seq<u8>) -> Result<((Seq<char>, u8), nat), ErrorKind> {
    match spec_mqtt_str_parse(buf) {
        Err(k) => Err(k),
        Ok((topic, n)) => {
            let rest = buf.skip(n as int);
            if rest.len() < 1 {
                Err(ErrorKind::NotEnoughSpace)
            } else if rest[0] > 2 {
                Err(ErrorKind::Invalid)
            } else {
                Ok(((topic, rest[0]), n + 1))
            }
        },
    }
}

/// What writing a topic filter does: the bytes written, and the error if it fails.
pub open spec fn spec_topic_filter_write(f: (Seq<char>, u8)) -> (Seq<u8>, Option<ErrorKind>) {
    if !spec_has_valid_wildcard(encode_utf8(f.0)) {
        (Seq::empty(), Some(ErrorKind::Invalid))
    } else {
        match spec_mqtt_str_write(f.0) {
            Err(k) => (Seq::empty(), Some(k)),
            Ok(b) => (b + seq![f.1], None),
        }
    }
}

/// A written topic filter is read back with the same topic and QoS, whatever follows it.
pub proof fn lemma_topic_filter_roundtrip(f: (Seq<char>, u8), rest: Seq<u8>)
    requires
        spec_topic_filter_write(f).1 is None,
        f.1 <= 2,
    ensures
        spec_topic_filter_parse(spec_topic_filter_write(f).0 + rest) == Ok::<
            ((Seq<char>, u8), nat),
            ErrorKind,
        >((f, spec_topic_filter_write(f).0.len())),
        (spec_topic_filter_write(f).0 + rest).skip(spec_topic_filter_write(f).0.len() as int)
            == rest,
{
    let b = spec_mqtt_str_write(f.0)->Ok_0;
    let all = spec_topic_filter_write(f).0 + rest;
    assert(all =~= b + (seq![f.1] + rest));
    crate::v3::packets::common::string::lemma_mqtt_str_roundtrip(f.0, seq![f.1] + rest);
    assert(all.skip(b.len() as int) =~= seq![f.1] + rest);
    assert(all.skip(b.len() + 1 as int) =~= rest);
}

/// Indicates a Topic the Clint wants to subscribe.
///
/// The server may or may not support wild card characters.
#[derive(Debug, Clone, Copy)]
pub struct TopicFilter<'a> {
    topic: MqttStr<'a>,
    qos: RequestedQos,
}

impl<'a> View for TopicFilter<'a> {
    type V = (Seq<char>, u8);

    closed spec fn view(&self) -> (Seq<char>, u8) {
        (self.topic@, spec_requested_qos_code(self.qos))
    }
}

impl<'a> TopicFilter<'a> {
    /// Returns the topic filter
    pub fn topic(&self) -> (r: MqttStr<'a>)
        ensures
            r@ == self@.0,
    {
        self.topic
    }

    /// Returns the requested QoS
    pub fn qos(&self) -> (r: RequestedQos)
        ensures
            spec_requested_qos_code(r) == self@.1,
    {
        self.qos
    }

    /// The wildcards of the topic filter must be placed correctly.
    pub fn validate_value(value: &SubscribeFilter) -> (r: Result<(), Error>)
        ensures
            match r {
                Ok(()) => spec_has_valid_wildcard(value.topic.spec_bytes()),
                Err(e) => !spec_has_valid_wildcard(value.topic.spec_bytes()) && e.kind()
                    == ErrorKind::Invalid,
            },
    {
        if !has_valid_wildcard(value.topic) {
            return Err(Error::new(ErrorKind::Invalid, "SUBSCRIBE topic filter"));
        }
        Ok(())
    }

    /// Checks the characters of the topic and the placement of its wildcards.
    pub fn validate(&self) -> (r: Result<(), Error>)
        ensures
            r is Ok <==> (crate::encoding::text::all_valid_chars(self@.0) && spec_has_valid_wildcard(
                encode_utf8(self@.0),
            )),
            r matches Err(e) ==> e.kind() == ErrorKind::Invalid,
    {
        self.topic.validate()?;
        if !has_valid_wildcard(self.topic.as_str()) {
            return Err(Error::new(ErrorKind::Invalid, "SUBSCRIBE topic filter"));
        }
        Ok(())
    }

    /// Bytes needed to write the topic filter: the string and the requested QoS.
    pub fn encode_len(value: &SubscribeFilter) -> (r: Result<usize, Error>)
        ensures
            match r {
                Ok(n) => n == 3 + value.topic.spec_bytes().len(),
                Err(e) => 3 + value.topic.spec_bytes().len() > usize::MAX && e.kind()
                    == ErrorKind::Overflow,
            },
    {
        let len = MqttStr::encode_len(value.topic)?;
        if len > usize::MAX - 1 {
            return Err(Error::new(ErrorKind::Overflow, "SUBSCRIBE topic filter"));
        }
        Ok(len + 1)
    }

    /// Writes the topic filter.
    pub fn write_sync(writer: &mut Vec<u8>, value: &SubscribeFilter) -> (r: Result<usize, Error>)
        ensures
            final(writer)@ == old(writer)@ + spec_topic_filter_write(
                spec_subscribe_filter_view(*value),
            ).0,
            match spec_topic_filter_write(spec_subscribe_filter_view(*value)).1 {
                None => r matches Ok(n) && n == spec_topic_filter_write(
                    spec_subscribe_filter_view(*value),
                ).0.len(),
                Some(k) => r matches Err(e) && e.kind() == k,
            },
    {
        Self::validate_value(value)?;
        let topic = MqttStr::write_sync(writer, value.topic)?;
        writer.push(value.qos.code());
        Ok(topic + 1)
    }

    /// Parses a topic filter and its requested QoS.
    pub fn parse(buf: &'a [u8]) -> (r: Result<(Self, &'a [u8]), Error>)
        ensures
            match spec_topic_filter_parse(buf@) {
                Ok((f, n)) => r matches Ok((this, rest)) && this@ == f && n <= buf@.len() && rest@
                    == buf@.skip(n as int),
                Err(k) => r matches Err(e) && e.kind() == k,
            },
    {
        let (topic, buf2) = MqttStr::parse(buf)?;
        if buf2.len() < 1 {
            return Err(Error::new(ErrorKind::NotEnoughSpace, "SUBSCRIBE topic filter QoS"));
        }
        let qos = match RequestedQos::from_code(buf2[0]) {
            Some(q) => q,
            None => return Err(Error::new(ErrorKind::Invalid, "SUBSCRIBE topic filter QoS")),
        };
        let (_, rest) = buf2.split_at(1);
        proof {
            let n = spec_mqtt_str_parse(buf@)->Ok_0.1;
            assert(rest@ =~= buf@.skip(n + 1 as int));
        }
        Ok((TopicFilter { topic, qos }, rest))
    }
}

/// The requested QoS of a topic filter is written as its level: 0, 1 or 2, each its own.
pub proof fn lemma_requested_qos_table(q: RequestedQos)
    ensures
        spec_requested_qos_code(RequestedQos::AtMostOnce) == 0,
        spec_requested_qos_code(RequestedQos::AtLeastOnce) == 1,
        spec_requested_qos_code(RequestedQos::ExactlyOnce) == 2,
        forall|p: RequestedQos| spec_requested_qos_code(p) == spec_requested_qos_code(q) ==> p == q,
{
}

} // verus!
