//! Message like the MQTT Will.
use vstd::prelude::*;

use crate::bytes::{Error, ErrorKind};
use crate::encoding::text::{
    push_len_prefixed, read_len_prefixed, spec_len_prefixed, spec_read_len_prefixed,
    MAX_PREFIXED_BYTES,
};

verus! {

/// Outcome of parsing a buffer with a two bytes length prefix: the data and the bytes read.
pub open spec fn spec_buff_parse(buf: Seq<u8>) -> Result<(Seq<u8>, nat), ErrorKind> {
    match spec_read_len_prefixed(buf) {
        Some(p) => Ok(p),
        None => Err(ErrorKind::NotEnoughSpace),
    }
}

/// Outcome of writing a buffer with its length prefix: the bytes written.
pub open spec fn spec_buff_write(value: Seq<u8>) -> Result<Seq<u8>, ErrorKind> {
    if value.len() > MAX_PREFIXED_BYTES {
        Err(ErrorKind::OutOfRange)
    } else {
        Ok(spec_len_prefixed(value))
    }
}

/// MQTT buffer with two bytes prefix as length.
#[derive(Debug, Clone, Copy)]
pub struct Buff<'a> {
    data: &'a [u8],
}

impl<'a> View for Buff<'a> {
    type V = Seq<u8>;

    closed spec fn view(&self) -> Seq<u8> {
        self.data@
    }
}

impl<'a> Buff<'a> {
    /// Returns the length of the buffer.
    pub fn len(&self) -> (r: usize)
        ensures
            r == self@.len(),
    {
        self.data.len()
    }

    /// Returns buffer as a slice of bytes.
    pub fn as_slice(&self) -> (r: &'a [u8])
        ensures
            r@ == self@,
    {
        self.data
    }

    /// Returns true if the buffer is empty.
    pub fn is_empty(&self) -> (r: bool)
        ensures
            r == (self@.len() == 0),
    {
        self.len() == 0
    }

    /// Checks the buffer length fits in the two bytes prefix.
    pub fn validate_value(value: &[u8]) -> (r: Result<u16, Error>)
        ensures
            match r {
                Ok(n) => value@.len() <= MAX_PREFIXED_BYTES && n == value@.len(),
                Err(e) => value@.len() > MAX_PREFIXED_BYTES && e.kind() == ErrorKind::OutOfRange,
            },
    {
        if value.len() > MAX_PREFIXED_BYTES {
            return Err(Error::new(ErrorKind::OutOfRange, "buf len too big"));
        }
        Ok(value.len() as u16)
    }

    /// A parsed buffer is always valid.
    pub fn validate(&self) -> (r: Result<(), Error>)
        ensures
            r is Ok,
    {
        Ok(())
    }

    /// Bytes needed to write the buffer with its prefix.
    pub fn encode_len(value: &[u8]) -> (r: Result<usize, Error>)
        ensures
            match r {
                Ok(n) => n == 2 + value@.len(),
                Err(e) => 2 + value@.len() > usize::MAX && e.kind() == ErrorKind::Overflow,
            },
    {
        if value.len() > usize::MAX - 2 {
            return Err(Error::new(ErrorKind::Overflow, "buff len"));
        }
        Ok(2 + value.len())
    }

    /// Writes the buffer prefixed by its length.
    pub fn write_sync(writer: &mut Vec<u8>, value: &[u8]) -> (r: Result<usize, Error>)
        ensures
            match spec_buff_write(value@) {
                Ok(b) => r matches Ok(n) && n == b.len() && final(writer)@ == old(writer)@ + b,
                Err(k) => r matches Err(e) && e.kind() == k && final(writer)@ == old(writer)@,
            },
    {
        let _buf_len = Self::validate_value(value)?;
        push_len_prefixed(writer, value);
        Ok(2 + value.len())
    }

    /// Parses a buffer prefixed by its length.
    pub fn parse(buf: &'a [u8]) -> (r: Result<(Self, &'a [u8]), Error>)
        ensures
            match spec_buff_parse(buf@) {
                Ok((data, n)) => r matches Ok((this, rest)) && this@ == data && rest@ == buf@.skip(
                    n as int,
                ),
                Err(k) => r matches Err(e) && e.kind() == k,
            },
    {
        match read_len_prefixed(buf) {
            Some((data, rest)) => Ok((Buff { data }, rest)),
            None => Err(Error::new(ErrorKind::NotEnoughSpace, "buf too small")),
        }
    }
}

} // verus!
