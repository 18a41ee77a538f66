//! Iterator over the topic filters in an UNSUBSCRIBE packet.
use vstd::prelude::*;
use vstd::string::StringSliceAdditionalSpecFns;
use vstd::utf8::encode_utf8;

use crate::bytes::{Error, ErrorKind};
use crate::encoding::topic::spec_has_valid_wildcard;
use crate::v3::packets::common::string::{spec_mqtt_str_parse, MqttStr};
use crate::v3::packets::common::topic::has_valid_wildcard;

verus! {

/// Outcome of reading the topic filters of an UNSUBSCRIBE that take the whole buffer: each must
/// be an MQTT string with its wildcards placed correctly, the first that is not gives the error.
pub open spec fn spec_unsub_filters_parse(bytes: Seq<u8>) -> Result<Seq<Seq<char>>, ErrorKind>
    decreases bytes.len(),
    via unsub_filters_parse_decreases
{
    if bytes.len() == 0 {
        Ok(Seq::empty())
    } else {
        match spec_mqtt_str_parse(bytes) {
            Err(k) => Err(k),
            Ok((t, n)) => if !spec_has_valid_wildcard(encode_utf8(t)) {
                Err(ErrorKind::Invalid)
            } else {
                match spec_unsub_filters_parse(bytes.skip(n as int)) {
                    Err(k) => Err(k),
                    Ok(ts) => Ok(seq![t] + ts),
                }
            },
        }
    }
}

/// A parsed string takes at least its two bytes of length and no more than there are.
pub proof fn lemma_mqtt_str_parse_len(bytes: Seq<u8>)
    ensures
        spec_mqtt_str_parse(bytes) matches Ok((_, n)) ==> 2 <= n <= bytes.len(),
{
}

#[via_fn]
proof fn unsub_filters_parse_decreases(bytes: Seq<u8>) {
    lemma_mqtt_str_parse_len(bytes);
}

/// Cursor to iterate over the topic filters of an UNSUBSCRIBE encoded in a buffer.
#[derive(Debug, Clone, Copy)]
pub struct RawUnsubscribeCursor<'a> {
    bytes: &'a [u8],
    pos: usize,
}

impl<'a> RawUnsubscribeCursor<'a> {
    #[verifier::type_invariant]
    spec fn in_bounds(self) -> bool {
        self.pos <= self.bytes@.len()
    }

    /// The whole buffer.
    pub closed spec fn spec_bytes(&self) -> Seq<u8> {
        self.bytes@
    }

    /// The bytes left to read.
    pub closed spec fn spec_remaining(&self) -> Seq<u8> {
        self.bytes@.skip(self.pos as int)
    }

    /// A cursor at the start of the buffer.
    pub fn new(bytes: &'a [u8]) -> (r: Self)
        ensures
            r.spec_bytes() == bytes@,
            r.spec_remaining() == bytes@,
    {
        proof {
            assert(bytes@.skip(0) =~= bytes@);
        }
        RawUnsubscribeCursor { bytes, pos: 0 }
    }

    /// Reads the next topic filter: `None` at the end of the buffer, the error when the string
    /// can't be parsed (and the cursor does not move).
    pub fn read(&mut self) -> (r: Option<Result<MqttStr<'a>, Error>>)
        ensures
            final(self).spec_bytes() == old(self).spec_bytes(),
            old(self).spec_remaining().len() == 0 ==> r is None && final(self).spec_remaining()
                == old(self).spec_remaining(),
            old(self).spec_remaining().len() > 0 ==> match spec_mqtt_str_parse(
                old(self).spec_remaining(),
            ) {
                Ok((t, n)) => r matches Some(Ok(topic)) && topic@ == t
                    && final(self).spec_remaining() == old(self).spec_remaining().skip(n as int),
                Err(k) => r matches Some(Err(e)) && e.kind() == k && final(self).spec_remaining()
                    == old(self).spec_remaining(),
            },
    {
        proof {
            use_type_invariant(&*self);
        }
        if self.pos >= self.bytes.len() {
            return None;
        }
        let (_, bytes) = self.bytes.split_at(self.pos);
        match MqttStr::parse(bytes) {
            Ok((topic, rest)) => {
                proof {
                    lemma_mqtt_str_parse_len(bytes@);
                }
                let n = bytes.len() - rest.len();
                proof {
                    assert(self.bytes@.skip(self.pos + n) =~= bytes@.skip(n as int));
                }
                self.pos = self.pos + n;
                Some(Ok(topic))
            },
            Err(err) => Some(Err(err)),
        }
    }

    /// Collects every topic filter left to read, or the error of the first that can't be parsed.
    pub fn to_vec(&self) -> (r: Result<Vec<MqttStr<'a>>, Error>)
        ensures
            match spec_unsub_filters_parse(self.spec_remaining()) {
                Ok(fs) => r matches Ok(v) && v@.map_values(|f: MqttStr<'a>| f@) == fs,
                Err(k) => r matches Err(e) && e.kind() == k,
            },
    {
        proof {
            use_type_invariant(self);
        }
        let (_, rest) = self.bytes.split_at(self.pos);
        parse_unsub_filters(rest)
    }

    /// Reads the next topic filter, like [`RawUnsubscribeCursor::read`].
    pub fn next(&mut self) -> (r: Option<Result<MqttStr<'a>, Error>>)
        ensures
            final(self).spec_bytes() == old(self).spec_bytes(),
            old(self).spec_remaining().len() == 0 ==> r is None && final(self).spec_remaining()
                == old(self).spec_remaining(),
            old(self).spec_remaining().len() > 0 ==> match spec_mqtt_str_parse(
                old(self).spec_remaining(),
            ) {
                Ok((t, n)) => r matches Some(Ok(topic)) && topic@ == t
                    && final(self).spec_remaining() == old(self).spec_remaining().skip(n as int),
                Err(k) => r matches Some(Err(e)) && e.kind() == k && final(self).spec_remaining()
                    == old(self).spec_remaining(),
            },
    {
        self.read()
    }
}

/// Reads every topic filter of the buffer, checking that its wildcards are placed correctly.
pub fn parse_unsub_filters<'a>(bytes: &'a [u8]) -> (r: Result<Vec<MqttStr<'a>>, Error>)
    ensures
        match spec_unsub_filters_parse(bytes@) {
            Ok(ts) => r matches Ok(v) && v@.map_values(|t: MqttStr<'a>| t@) == ts,
            Err(k) => r matches Err(e) && e.kind() == k,
        },
{
    let mut cursor = RawUnsubscribeCursor::new(bytes);
    let mut out: Vec<MqttStr<'a>> = Vec::new();
    loop
        invariant
            cursor.spec_bytes() == bytes@,
            spec_unsub_filters_parse(bytes@) == match spec_unsub_filters_parse(
                cursor.spec_remaining(),
            ) {
                Ok(ts) => Ok(out@.map_values(|t: MqttStr<'a>| t@) + ts),
                Err(k) => Err(k),
            },
        decreases cursor.spec_remaining().len(),
    {
        let ghost before = cursor.spec_remaining();
        proof {
            lemma_mqtt_str_parse_len(before);
        }
        match cursor.read() {
            None => {
                proof {
                    assert(out@.map_values(|t: MqttStr<'a>| t@) + Seq::empty() =~= out@.map_values(
                        |t: MqttStr<'a>| t@,
                    ));
                }
                return Ok(out);
            },
            Some(Err(e)) => return Err(e),
            Some(Ok(t)) => {
                if !has_valid_wildcard(t.as_str()) {
                    return Err(Error::new(ErrorKind::Invalid, "UNSUBSCRIBE topic filter"));
                }
                let ghost old_out = out@;
                out.push(t);
                proof {
                    let ts = spec_unsub_filters_parse(cursor.spec_remaining());
                    if let Ok(rest) = ts {
                        assert(out@.map_values(|t: MqttStr<'a>| t@) + rest =~= old_out.map_values(
                            |t: MqttStr<'a>| t@,
                        ) + (seq![t@] + rest));
                    }
                }
            },
        }
    }
}

} // verus!
