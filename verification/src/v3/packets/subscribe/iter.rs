//! Iterator over the topic filters in a SUBSCRIBE packet.
use vstd::prelude::*;

use crate::bytes::{Error, ErrorKind};
use crate::v3::packets::common::string::spec_mqtt_str_parse;

use super::topic::{spec_topic_filter_parse, TopicFilter};

verus! {

/// Outcome of parsing a sequence of topic filters that takes the whole buffer.
pub open spec fn spec_filters_parse(bytes: Seq<u8>) -> Result<Seq<(Seq<char>, u8)>, ErrorKind>
    decreases bytes.len(),
    via filters_parse_decreases
{
    if bytes.len() == 0 {
        Ok(Seq::empty())
    } else {
        match spec_topic_filter_parse(bytes) {
            Err(k) => Err(k),
            Ok((f, n)) => match spec_filters_parse(bytes.skip(n as int)) {
                Err(k) => Err(k),
                Ok(fs) => Ok(seq![f] + fs),
            },
        }
    }
}

/// A parsed topic filter takes at least one byte and no more than there are.
pub proof fn lemma_topic_filter_parse_len(bytes: Seq<u8>)
    ensures
        spec_topic_filter_parse(bytes) matches Ok((_, n)) ==> 1 <= n <= bytes.len(),
{
}

#[via_fn]
proof fn filters_parse_decreases(bytes: Seq<u8>) {
    lemma_topic_filter_parse_len(bytes);
}

/// Cursor to iterate over the topic filters encoded in a buffer.
#[derive(Debug, Clone, Copy)]
pub struct RawSubscribeCursor<'a> {
    bytes: &'a [u8],
    pos: usize,
}

impl<'a> RawSubscribeCursor<'a> {
    #[verifier::type_invariant]
    spec fn in_bounds(self) -> bool {
        self.pos <= self.bytes@.len()
    }

    /// The whole buffer.
    pub closed spec fn spec_bytes(&self) -> Seq<u8> {
        self.bytes@
    }

    /// The bytes left to read.
    pub closed spec fn spec_remaining(&self) -> Seq<u8> {
        self.bytes@.skip(self.pos as int)
    }

    /// A cursor at the start of the buffer.
    pub fn new(bytes: &'a [u8]) -> (r: Self)
        ensures
            r.spec_bytes() == bytes@,
            r.spec_remaining() == bytes@,
    {
        proof {
            assert(bytes@.skip(0) =~= bytes@);
        }
        RawSubscribeCursor { bytes, pos: 0 }
    }

    /// Reads the next topic filter: `None` at the end of the buffer, the error when the filter
    /// can't be parsed (and the cursor does not move).
    pub fn read(&mut self) -> (r: Option<Result<TopicFilter<'a>, Error>>)
        ensures
            final(self).spec_bytes() == old(self).spec_bytes(),
            old(self).spec_remaining().len() == 0 ==> r is None && final(self).spec_remaining()
                == old(self).spec_remaining(),
            old(self).spec_remaining().len() > 0 ==> match spec_topic_filter_parse(
                old(self).spec_remaining(),
            ) {
                Ok((f, n)) => r matches Some(Ok(filter)) && filter@ == f
                    && final(self).spec_remaining() == old(self).spec_remaining().skip(n as int),
                Err(k) => r matches Some(Err(e)) && e.kind() == k && final(self).spec_remaining()
                    == old(self).spec_remaining(),
            },
    {
        proof {
            use_type_invariant(&*self);
        }
        if self.pos >= self.bytes.len() {
            return None;
        }
        let (_, bytes) = self.bytes.split_at(self.pos);
        match TopicFilter::parse(bytes) {
            Ok((topic, rest)) => {
                let n = bytes.len() - rest.len();
                proof {
                    assert(self.bytes@.skip(self.pos + n) =~= bytes@.skip(n as int));
                }
                self.pos = self.pos + n;
                Some(Ok(topic))
            },
            Err(err) => Some(Err(err)),
        }
    }

    /// Collects every topic filter left to read, or the error of the first that can't be parsed.
    pub fn to_vec(&self) -> (r: Result<Vec<TopicFilter<'a>>, Error>)
        ensures
            match spec_filters_parse(self.spec_remaining()) {
                Ok(fs) => r matches Ok(v) && v@.map_values(|f: TopicFilter<'a>| f@) == fs,
                Err(k) => r matches Err(e) && e.kind() == k,
            },
    {
        proof {
            use_type_invariant(self);
        }
        let (_, rest) = self.bytes.split_at(self.pos);
        parse_filters(rest)
    }

    /// Reads the next topic filter, like [`RawSubscribeCursor::read`].
    pub fn next(&mut self) -> (r: Option<Result<TopicFilter<'a>, Error>>)
        ensures
            final(self).spec_bytes() == old(self).spec_bytes(),
            old(self).spec_remaining().len() == 0 ==> r is None && final(self).spec_remaining()
                == old(self).spec_remaining(),
            old(self).spec_remaining().len() > 0 ==> match spec_topic_filter_parse(
                old(self).spec_remaining(),
            ) {
                Ok((f, n)) => r matches Some(Ok(filter)) && filter@ == f
                    && final(self).spec_remaining() == old(self).spec_remaining().skip(n as int),
                Err(k) => r matches Some(Err(e)) && e.kind() == k && final(self).spec_remaining()
                    == old(self).spec_remaining(),
            },
    {
        self.read()
    }
}

/// Parses every topic filter of the buffer.
pub fn parse_filters<'a>(bytes: &'a [u8]) -> (r: Result<Vec<TopicFilter<'a>>, Error>)
    ensures
        match spec_filters_parse(bytes@) {
            Ok(fs) => r matches Ok(v) && v@.map_values(|f: TopicFilter<'a>| f@) == fs,
            Err(k) => r matches Err(e) && e.kind() == k,
        },
{
    let mut cursor = RawSubscribeCursor::new(bytes);
    let mut out: Vec<TopicFilter<'a>> = Vec::new();
    loop
        invariant
            cursor.spec_bytes() == bytes@,
            spec_filters_parse(bytes@) == match spec_filters_parse(cursor.spec_remaining()) {
                Ok(fs) => Ok(out@.map_values(|f: TopicFilter<'a>| f@) + fs),
                Err(k) => Err(k),
            },
        decreases cursor.spec_remaining().len(),
    {
        let ghost before = cursor.spec_remaining();
        proof {
            lemma_topic_filter_parse_len(before);
        }
        match cursor.read() {
            None => {
                proof {
                    assert(out@.map_values(|f: TopicFilter<'a>| f@) + Seq::empty() =~= out@.map_values(
                        |f: TopicFilter<'a>| f@,
                    ));
                }
                return Ok(out);
            },
            Some(Err(e)) => return Err(e),
            Some(Ok(f)) => {
                let ghost old_out = out@;
                out.push(f);
                proof {
                    let fs = spec_filters_parse(cursor.spec_remaining());
                    if let Ok(rest) = fs {
                        assert(out@.map_values(|f: TopicFilter<'a>| f@) + rest =~= old_out.map_values(
                            |f: TopicFilter<'a>| f@,
                        ) + (seq![f@] + rest));
                    }
                }
            },
        }
    }
}

} // verus!
