//! Topics and payloads that a client publishes.
use vstd::prelude::*;
use vstd::string::StringSliceAdditionalSpecFns;
use vstd::utf8::encode_utf8;

use crate::encoding::text::all_valid_chars;
use crate::encoding::topic::spec_contains_wildcard;
use crate::v3::packets::publish::contains_wildcard_char;

use super::header::{Str, StrError};

verus! {

/// Error for the publish [`PublishTopic`]
#[derive(Debug, Clone, Copy, PartialEq, Eq, Structural)]
pub enum TopicError {
    /// Invalid UTF-8 string for the topic.
    Str(StrError),
    /// The topic contains wildcards.
    Wildcard,
}

impl From<StrError> for TopicError {
    fn from(v: StrError) -> (r: Self) {
        TopicError::Str(v)
    }
}

impl vstd::std_specs::convert::FromSpecImpl<StrError> for TopicError {
    open spec fn obeys_from_spec() -> bool {
        true
    }

    open spec fn from_spec(v: StrError) -> TopicError {
        TopicError::Str(v)
    }
}

/// The topic is accepted for a PUBLISH: a valid MQTT string without wildcards.
pub open spec fn spec_publish_topic_check(topic: Seq<char>) -> Result<(), TopicError> {
    if encode_utf8(topic).len() > 65_535 {
        Err(TopicError::Str(StrError::MaxBytes { len: encode_utf8(topic).len() as usize }))
    } else if !all_valid_chars(topic) {
        Err(TopicError::Str(StrError::Utf8))
    } else if spec_contains_wildcard(encode_utf8(topic)) {
        Err(TopicError::Wildcard)
    } else {
        Ok(())
    }
}

/// The Topic Name identifies the information channel to which payload data is published.
#[derive(Debug, Clone, Copy)]
pub struct PublishTopic<'a>(Str<'a>);

impl<'a> View for PublishTopic<'a> {
    type V = Seq<char>;

    closed spec fn view(&self) -> Seq<char> {
        self.0@
    }
}

impl<'a> PublishTopic<'a> {
    /// The topic, if it is a valid MQTT string without wildcard characters.
    pub fn try_from(value: &'a str) -> (r: Result<Self, TopicError>)
        ensures
            match spec_publish_topic_check(value@) {
                Ok(()) => r matches Ok(t) && t@ == value@,
                Err(e) => r == Err::<Self, TopicError>(e),
            },
    {
        let topic = match Str::try_from(value) {
            Ok(t) => t,
            Err(e) => return Err(TopicError::Str(e)),
        };
        if contains_wildcard_char(topic.as_str()) {
            return Err(TopicError::Wildcard);
        }
        Ok(PublishTopic(topic))
    }

    /// The topic as a string.
    pub fn as_str(&self) -> (r: &'a str)
        ensures
            r@ == self@,
    {
        self.0.as_str()
    }
}

/// Quality of service of a publish packet.
#[derive(Debug, Clone, Copy, PartialEq, Eq, Structural)]
pub enum ClientQos {
    /// At least once delivery (QoS 1).
    AtLeastOnce,
    /// Exactly once delivery (QoS 2).
    ExactlyOnce,
}

/// Client publish data.
///
/// This is a struct can be passed to the connection to publish data.
#[derive(Debug, Clone, Copy)]
pub struct ClientPublish<'a> {
    retain: bool,
    topic: PublishTopic<'a>,
    payload: &'a [u8],
}

impl<'a> View for ClientPublish<'a> {
    /// The RETAIN flag, the topic and the payload.
    type V = (bool, Seq<char>, Seq<u8>);

    closed spec fn view(&self) -> (bool, Seq<char>, Seq<u8>) {
        (self.retain, self.topic@, self.payload@)
    }
}

impl<'a> ClientPublish<'a> {
    /// Creates a new PUBLISH with the given topic and payload.
    pub fn new(topic: PublishTopic<'a>, payload: &'a [u8]) -> (r: Self)
        ensures
            r@ == (false, topic@, payload@),
    {
        Self { retain: false, topic, payload }
    }

    /// Sets the RETAIN flag for the PUBLISH.
    pub fn retain(&mut self) -> (r: &mut Self)
        ensures
            final(self)@ == final(r)@,
            r@ == (true, old(self)@.1, old(self)@.2),
    {
        self.retain = true;
        self
    }

    /// Returns the topic.
    pub fn topic(&self) -> (r: PublishTopic<'a>)
        ensures
            r@ == self@.1,
    {
        self.topic
    }

    /// Returns the payload.
    pub fn payload(&self) -> (r: &'a [u8])
        ensures
            r@ == self@.2,
    {
        self.payload
    }

    /// Returns whether the RETAIN flag is set.
    pub fn is_retain(&self) -> (r: bool)
        ensures
            r == self@.0,
    {
        self.retain
    }
}

} // verus!
