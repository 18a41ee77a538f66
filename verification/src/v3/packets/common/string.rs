//! UTF-8 encoded string.
use vstd::prelude::*;
use vstd::string::StringSliceAdditionalSpecFns;
use vstd::utf8::{decode_utf8, encode_utf8, encode_utf8_decode_utf8, valid_utf8};

use crate::bytes::{Error, ErrorKind};
use crate::encoding::text::{
    all_chars_valid, all_valid_chars, read_len_prefixed, spec_read_len_prefixed, spec_str_bytes,
    str_from_utf8, MAX_PREFIXED_BYTES,
};

use super::message::Buff;

pub use crate::encoding::text::{is_last_two_supplementary, is_valid_char};

verus! {

/// Outcome of parsing an MQTT string: its characters and the bytes read.
pub open spec fn spec_mqtt_str_parse(buf: Seq<u8>) -> Result<(Seq<char>, nat), ErrorKind> {
    match spec_read_len_prefixed(buf) {
        None => Err(ErrorKind::NotEnoughSpace),
        Some((data, n)) => if !valid_utf8(data) {
            Err(ErrorKind::Invalid)
        } else if !all_valid_chars(decode_utf8(data)) {
            Err(ErrorKind::Invalid)
        } else {
            Ok((decode_utf8(data), n))
        },
    }
}

/// Outcome of writing an MQTT string: the bytes written.
pub open spec fn spec_mqtt_str_write(s: Seq<char>) -> Result<Seq<u8>, ErrorKind> {
    if !all_valid_chars(s) {
        Err(ErrorKind::Invalid)
    } else if encode_utf8(s).len() > MAX_PREFIXED_BYTES {
        Err(ErrorKind::OutOfRange)
    } else {
        Ok(spec_str_bytes(s))
    }
}

/// Reading a written string gives back the same string, whatever bytes follow it.
pub proof fn lemma_mqtt_str_roundtrip(s: Seq<char>, rest: Seq<u8>)
    requires
        spec_mqtt_str_write(s) is Ok,
    ensures
        spec_mqtt_str_parse(spec_mqtt_str_write(s)->Ok_0 + rest) == Ok::<(Seq<char>, nat), ErrorKind>(
            (s, spec_mqtt_str_write(s)->Ok_0.len()),
        ),
        (spec_mqtt_str_write(s)->Ok_0 + rest).skip(spec_mqtt_str_write(s)->Ok_0.len() as int)
            == rest,
{
    crate::encoding::text::lemma_len_prefixed_roundtrip(encode_utf8(s), rest);
    crate::encoding::text::lemma_utf8_roundtrip(s);
}

/// UTF-8 encoded string.
///
/// Text fields in the Control Packets described later are encoded as UTF-8 strings.
#[derive(Debug, Clone, Copy)]
pub struct MqttStr<'a> {
    data: &'a str,
}

impl<'a> View for MqttStr<'a> {
    type V = Seq<char>;

    closed spec fn view(&self) -> Seq<char> {
        self.data@
    }
}

impl<'a> MqttStr<'a> {
    /// Max number of bytes in a string
    pub const MAX_BYTES: usize = 65_535;

    /// Returns the length of the string in bytes.
    pub fn len(&self) -> (r: usize)
        ensures
            r == encode_utf8(self@).len(),
    {
        self.data.as_bytes().len()
    }

    /// Returns true if the string is empty.
    pub fn is_empty(&self) -> (r: bool)
        ensures
            r == (self@.len() == 0),
    {
        self.data.is_empty()
    }

    /// Returns the inner string.
    pub fn as_str(&self) -> (r: &'a str)
        ensures
            r@ == self@,
    {
        self.data
    }

    /// Returns the string as a byte slice.
    pub fn as_bytes(&self) -> (r: &'a [u8])
        ensures
            r@ == encode_utf8(self@),
    {
        self.data.as_bytes()
    }

    /// Checks the string has only characters allowed in an MQTT string.
    pub fn validate_value(value: &str) -> (r: Result<(), Error>)
        ensures
            match r {
                Ok(()) => all_valid_chars(value@),
                Err(e) => !all_valid_chars(value@) && e.kind() == ErrorKind::Invalid,
            },
    {
        if !all_chars_valid(value) {
            return Err(Error::new(ErrorKind::Invalid, "string contains invalid characters"));
        }
        Ok(())
    }

    /// Checks the string has only characters allowed in an MQTT string.
    pub fn validate(&self) -> (r: Result<(), Error>)
        ensures
            match r {
                Ok(()) => all_valid_chars(self@),
                Err(e) => !all_valid_chars(self@) && e.kind() == ErrorKind::Invalid,
            },
    {
        Self::validate_value(self.data)
    }

    /// Bytes needed to write the string with its length prefix.
    pub fn encode_len(value: &str) -> (r: Result<usize, Error>)
        ensures
            match r {
                Ok(n) => n == 2 + encode_utf8(value@).len(),
                Err(e) => 2 + encode_utf8(value@).len() > usize::MAX && e.kind()
                    == ErrorKind::Overflow,
            },
    {
        let n = value.as_bytes().len();
        if n > usize::MAX - 2 {
            return Err(Error::new(ErrorKind::Overflow, "string length"));
        }
        Ok(2 + n)
    }

    /// Writes the string prefixed by its length in bytes.
    pub fn write_sync(writer: &mut Vec<u8>, value: &str) -> (r: Result<usize, Error>)
        ensures
            match spec_mqtt_str_write(value@) {
                Ok(b) => r matches Ok(n) && n == b.len() && final(writer)@ == old(writer)@ + b,
                Err(k) => r matches Err(e) && e.kind() == k && final(writer)@ == old(writer)@,
            },
    {
        Self::validate_value(value)?;
        match Buff::write_sync(writer, value.as_bytes()) {
            Ok(n) => Ok(n),
            Err(error) => Err(Error::new(error.kind(), "writing MQTT string")),
        }
    }

    /// Parses a string prefixed by its length in bytes.
    pub fn parse(buf: &'a [u8]) -> (r: Result<(Self, &'a [u8]), Error>)
        ensures
            match spec_mqtt_str_parse(buf@) {
                Ok((s, n)) => r matches Ok((this, rest)) && this@ == s && rest@ == buf@.skip(
                    n as int,
                ),
                Err(k) => r matches Err(e) && e.kind() == k,
            },
    {
        let (data, rest) = match read_len_prefixed(buf) {
            Some(p) => p,
            None => return Err(Error::new(ErrorKind::NotEnoughSpace, "buf too small")),
        };
        let s = match str_from_utf8(data) {
            Some(s) => s,
            None => return Err(Error::new(ErrorKind::Invalid, "mqtt string")),
        };
        proof {
            encode_utf8_decode_utf8(s@);
        }
        let this = MqttStr { data: s };
        this.validate()?;
        Ok((this, rest))
    }

    /// Parses a string prefixed by its length that takes the whole buffer.
    pub fn consume(buf: &'a [u8]) -> (r: Result<Self, Error>)
        ensures
            match crate::v3::packets::spec_consume(spec_mqtt_str_parse(buf@), buf@.len()) {
                Ok(s) => r matches Ok(this) && this@ == s,
                Err(k) => r matches Err(e) && e.kind() == k,
            },
    {
        let (this, rest) = Self::parse(buf)?;
        proof {
            crate::v3::packets::unsubscribe::iter::lemma_mqtt_str_parse_len(buf@);
        }
        if rest.len() != 0 {
            return Err(Error::new(ErrorKind::Invalid, "remaining bytes in consumed packet"));
        }
        Ok(this)
    }
}

} // verus!
