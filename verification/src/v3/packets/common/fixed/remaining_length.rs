//! Remaining length for the MQTT [Fixed Header](super::FixedHeader).
use vstd::prelude::*;

use crate::bytes::{Error, ErrorKind};
use crate::encoding::varint::{
    count_leading_continues, has_continue, leading_continues, lemma_leading_continues_facts,
    lemma_rl_value_bound, rl_encode, rl_push, rl_read, rl_size, rl_size_of, rl_value,
    REMAINING_LENGTH_MAX, REMAINING_LENGTH_MAX_BYTES,
};

verus! {

/// The bytes hold no misplaced continuation flag: at most four, the last without the
/// continuation flag and all the others with it.
pub open spec fn rl_bytes_ok(s: Seq<u8>) -> bool {
    &&& s.len() <= 4
    &&& forall|i: int| 0 <= i < s.len() - 1 ==> has_continue(#[trigger] s[i])
    &&& s.len() > 0 ==> !has_continue(s[s.len() - 1])
}

/// The bytes have the shape of an encoded remaining length: one to four bytes, the last without
/// the continuation flag and all the others with it.
pub open spec fn rl_shape_ok(s: Seq<u8>) -> bool {
    &&& 1 <= s.len()
    &&& rl_bytes_ok(s)
}

/// Number of bytes of the remaining length at the front of `s`, or the error when they can't be
/// read.
pub open spec fn spec_rl_slice_parse(s: Seq<u8>) -> Result<nat, ErrorKind> {
    let c = leading_continues(s);
    if c >= 4 {
        Err(ErrorKind::Invalid)
    } else if s.len() < c + 1 {
        Err(ErrorKind::NotEnoughSpace)
    } else {
        Ok(c + 1)
    }
}

/// Number of bytes of the canonical encoding, or `OutOfRange` above the maximum.
pub open spec fn spec_rl_len(value: u32) -> Result<nat, ErrorKind> {
    if value <= REMAINING_LENGTH_MAX {
        Ok(rl_size(value as int))
    } else {
        Err(ErrorKind::OutOfRange)
    }
}

/// A remaining length parsed from the front of `s` has the expected shape.
pub proof fn lemma_rl_slice_parse_shape(s: Seq<u8>)
    requires
        spec_rl_slice_parse(s) is Ok,
    ensures
        rl_shape_ok(s.take(spec_rl_slice_parse(s)->Ok_0 as int)),
        spec_rl_slice_parse(s)->Ok_0 >= 1,
{
    lemma_leading_continues_facts(s);
    let n = spec_rl_slice_parse(s)->Ok_0 as int;
    let t = s.take(n);
    assert forall|i: int| 0 <= i < t.len() - 1 implies has_continue(#[trigger] t[i]) by {
        assert(t[i] == s[i]);
    }
}

/// The Remaining Length is the number of bytes remaining within the current packet.
///
/// It includes the data in the variable header and the payload. The Remaining Length does not
/// include the bytes used to encode the Remaining Length.
///
/// It's the encoded 1..=4 bytes for the remaining length in the encoded MQTT
/// [Fixed Header](super::FixedHeader).
#[derive(Debug, Clone, Copy)]
pub struct RemainingLength<'a> {
    len: &'a [u8],
}

/// Remaining length of any number of bytes.
pub type RemainingLengthSlice<'a> = RemainingLength<'a>;

/// Remaining length of exactly `N` bytes.
#[derive(Debug, Clone, Copy)]
pub struct RemainingLengthArray<const N: usize>;

impl<'a> View for RemainingLength<'a> {
    type V = Seq<u8>;

    closed spec fn view(&self) -> Seq<u8> {
        self.len@
    }
}

impl<'a> RemainingLength<'a> {
    #[verifier::type_invariant]
    pub open spec fn shape(self) -> bool {
        rl_bytes_ok(self@)
    }

    /// The remaining length of the bytes, which must hold no misplaced continuation flag.
    pub(crate) fn from_bytes(len: &'a [u8]) -> (r: Self)
        requires
            rl_bytes_ok(len@),
        ensures
            r@ == len@,
    {
        RemainingLength { len }
    }

    /// Maximum number of bytes of the remaining length.
    pub const MAX_BYTES: usize = 4;

    /// Check the continuation flag of the byte.
    pub fn has_continue_flag(b: u8) -> (r: bool)
        ensures
            r == has_continue(b),
    {
        b >= 128
    }

    /// Count the continue flags
    pub fn count_continue_flags(buf: &[u8]) -> (r: Result<usize, Error>)
        ensures
            match r {
                Ok(n) => n == leading_continues(buf@) && n < 4,
                Err(e) => leading_continues(buf@) >= 4 && e.kind() == ErrorKind::Invalid,
            },
    {
        let flags = count_leading_continues(buf, REMAINING_LENGTH_MAX_BYTES);
        if flags >= 4 {
            return Err(
                Error::new(
                    ErrorKind::Invalid,
                    "remaining length continuation flags require more than 4 bytes",
                ),
            );
        }
        Ok(flags)
    }

    /// Reads the value of the bytes, ignoring the continuation flags.
    pub fn read_from_buf(buff: &[u8]) -> (r: u32)
        requires
            buff@.len() <= 4,
        ensures
            r == rl_value(buff@),
    {
        rl_read(buff)
    }

    /// Reads the value of the remaining length
    pub fn read(&self) -> (r: u32)
        ensures
            r == rl_value(self@),
            r <= REMAINING_LENGTH_MAX,
    {
        proof {
            use_type_invariant(self);
            lemma_rl_value_bound(self@);
        }
        rl_read(self.len)
    }

    /// Reads the value of the remaining length as usize
    pub fn read_len(&self) -> (r: usize)
        ensures
            r == rl_value(self@),
    {
        self.read() as usize
    }

    /// The number of bytes to encode the value.
    pub fn len_from_u32(value: &u32) -> (r: Result<usize, Error>)
        ensures
            match spec_rl_len(*value) {
                Ok(n) => r == Ok::<usize, Error>(n as usize),
                Err(k) => r matches Err(e) && e.kind() == k,
            },
    {
        match rl_size_of(*value) {
            Some(n) => Ok(n),
            None => Err(Error::new(ErrorKind::OutOfRange, "remaining length")),
        }
    }

    /// Checks the value can be encoded and returns the number of bytes it needs.
    pub fn validate_value(value: &u32) -> (r: Result<usize, Error>)
        ensures
            match spec_rl_len(*value) {
                Ok(n) => r == Ok::<usize, Error>(n as usize),
                Err(k) => r matches Err(e) && e.kind() == k,
            },
    {
        Self::len_from_u32(value)
    }

    /// Checks the shape of the bytes: one to four, with the continuation flags in place.
    pub fn validate(&self) -> (r: Result<(), Error>)
        ensures
            match r {
                Ok(()) => rl_shape_ok(self@),
                Err(e) => !rl_shape_ok(self@) && e.kind() == ErrorKind::Invalid,
            },
    {
        proof {
            use_type_invariant(self);
        }
        Self::validate_bytes(self.len)
    }

    /// Checks that bytes could be an encoded remaining length.
    pub fn validate_bytes(buf: &[u8]) -> (r: Result<(), Error>)
        ensures
            match r {
                Ok(()) => rl_shape_ok(buf@),
                Err(e) => !rl_shape_ok(buf@) && e.kind() == ErrorKind::Invalid,
            },
    {
        if buf.len() > 4 {
            return Err(Error::new(ErrorKind::Invalid, "remaining length too many bytes"));
        }
        if buf.len() == 0 {
            return Err(Error::new(ErrorKind::Invalid, "remaining length without bytes"));
        }
        let last = buf.len() - 1;
        if Self::has_continue_flag(buf[last]) {
            return Err(Error::new(ErrorKind::Invalid, "remaining length last byte continuation set"));
        }
        let mut i: usize = 0;
        while i < last
            invariant
                last == buf@.len() - 1,
                0 <= i <= last,
                forall|j: int| 0 <= j < i ==> has_continue(#[trigger] buf@[j]),
            decreases last - i,
        {
            if !Self::has_continue_flag(buf[i]) {
                return Err(Error::new(ErrorKind::Invalid, "remaining length continuation flag unset"));
            }
            i = i + 1;
        }
        Ok(())
    }

    /// Bytes needed to encode the value.
    pub fn encode_len(value: &u32) -> (r: Result<usize, Error>)
        ensures
            match spec_rl_len(*value) {
                Ok(n) => r == Ok::<usize, Error>(n as usize),
                Err(k) => r matches Err(e) && e.kind() == k,
            },
    {
        Self::len_from_u32(value)
    }

    /// Writes the canonical encoding of the value.
    pub fn write_sync(writer: &mut Vec<u8>, value: &u32) -> (r: Result<usize, Error>)
        ensures
            match spec_rl_len(*value) {
                Ok(n) => r == Ok::<usize, Error>(n as usize) && final(writer)@ == old(writer)@
                    + rl_encode(*value as nat),
                Err(k) => r matches Err(e) && e.kind() == k && final(writer)@ == old(writer)@,
            },
    {
        let n = Self::len_from_u32(value)?;
        rl_push(writer, *value);
        Ok(n)
    }

    /// Parses the remaining length at the front of the buffer.
    pub fn parse(buff: &'a [u8]) -> (r: Result<(Self, &'a [u8]), Error>)
        ensures
            match spec_rl_slice_parse(buff@) {
                Ok(n) => r matches Ok((this, rest)) && this@ == buff@.take(n as int) && rest@
                    == buff@.skip(n as int),
                Err(k) => r matches Err(e) && e.kind() == k,
            },
    {
        let flags = Self::count_continue_flags(buff)?;
        if buff.len() < flags + 1 {
            return Err(Error::new(ErrorKind::NotEnoughSpace, "remaining length"));
        }
        let (this, rest) = buff.split_at(flags + 1);
        proof {
            lemma_rl_slice_parse_shape(buff@);
            assert(this@ =~= buff@.take(flags + 1));
            assert(rest@ =~= buff@.skip(flags + 1));
        }
        Ok((RemainingLength { len: this }, rest))
    }
}

impl<const N: usize> RemainingLengthArray<N> {
    /// Bytes needed to encode the value.
    pub fn encode_len(_value: &u32) -> (r: Result<usize, Error>)
        ensures
            r == Ok::<usize, Error>(N),
    {
        Ok(N)
    }

    /// Writes the value, that must need exactly `N` bytes.
    pub fn write_sync(writer: &mut Vec<u8>, value: &u32) -> (r: Result<usize, Error>)
        ensures
            match spec_rl_len(*value) {
                Ok(n) => if n == N {
                    r == Ok::<usize, Error>(N) && final(writer)@ == old(writer)@ + rl_encode(
                        *value as nat,
                    )
                } else {
                    r matches Err(e) && e.kind() == ErrorKind::OutOfRange && final(writer)@
                        == old(writer)@
                },
                Err(k) => r matches Err(e) && e.kind() == k && final(writer)@ == old(writer)@,
            },
    {
        let len = RemainingLength::validate_value(value)?;
        if len != N {
            return Err(Error::new(ErrorKind::OutOfRange, "remaining length array"));
        }
        rl_push(writer, *value);
        Ok(N)
    }

    /// Parses exactly `N` bytes of remaining length.
    pub fn parse<'a>(bytes: &'a [u8]) -> (r: Result<(RemainingLength<'a>, &'a [u8]), Error>)
        ensures
            if bytes@.len() < N {
                r matches Err(e) && e.kind() == ErrorKind::OutOfRange
            } else if !rl_shape_ok(bytes@.take(N as int)) {
                r matches Err(e) && e.kind() == ErrorKind::Invalid
            } else {
                r matches Ok((this, rest)) && this@ == bytes@.take(N as int) && rest@ == bytes@.skip(
                    N as int,
                )
            },
    {
        if bytes.len() < N {
            return Err(Error::new(ErrorKind::OutOfRange, "remaining length"));
        }
        let (this, rest) = bytes.split_at(N);
        proof {
            assert(this@ =~= bytes@.take(N as int));
            assert(rest@ =~= bytes@.skip(N as int));
        }
        RemainingLength::validate_bytes(this)?;
        Ok((RemainingLength { len: this }, rest))
    }
}

} // verus!
