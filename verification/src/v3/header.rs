//! Strings, buffers and identifiers of the packets, checked when they are built.
use vstd::prelude::*;
use vstd::string::StringSliceAdditionalSpecFns;
use vstd::utf8::encode_utf8;

use crate::encoding::text::{all_chars_valid, all_valid_chars};

pub use crate::encoding::text::{is_last_two_supplementary, is_valid_char};
pub use crate::packet::PacketIdentifier;

verus! {

/// Error returned by the MQTT [`Str`].
#[derive(Debug, Clone, Copy, PartialEq, Eq, Structural)]
#[non_exhaustive]
pub enum StrError {
    /// The length of the string exceeds the maximum size
    MaxBytes {
        /// The length of the string.
        len: usize,
    },
    /// The string is not UTF-8 encoded or contains invalid characters.
    Utf8,
}

/// UTF-8 encoded string.
///
/// Text fields in the Control Packets described later are encoded as UTF-8 strings.
#[derive(Debug, Clone, Copy)]
pub struct Str<'a>(&'a str);

impl<'a> View for Str<'a> {
    type V = Seq<char>;

    closed spec fn view(&self) -> Seq<char> {
        self.0@
    }
}

impl<'a> Str<'a> {
    /// Max number of bytes in a string
    pub const MAX_BYTES: usize = 65_535;

    /// Returns and empty string.
    pub fn new() -> (r: Self)
        ensures
            r@ == Seq::<char>::empty(),
    {
        proof {
            reveal_strlit("");
            assert(""@ =~= Seq::<char>::empty());
        }
        Self("")
    }

    /// The length of the string in bytes.
    pub fn len_as_bytes(&self) -> (r: usize)
        ensures
            r == encode_utf8(self@).len(),
    {
        self.0.as_bytes().len()
    }

    /// Returns the inner string.
    pub fn as_str(self) -> (r: &'a str)
        ensures
            r@ == self@,
    {
        self.0
    }

    /// The string, if it has at most [`Str::MAX_BYTES`] bytes and only characters allowed in
    /// an MQTT string.
    pub fn try_from(value: &'a str) -> (r: Result<Self, StrError>)
        ensures
            match r {
                Ok(s) => encode_utf8(value@).len() <= 65_535 && all_valid_chars(value@) && s@
                    == value@,
                Err(StrError::MaxBytes { len }) => encode_utf8(value@).len() > 65_535 && len
                    == encode_utf8(value@).len(),
                Err(StrError::Utf8) => encode_utf8(value@).len() <= 65_535 && !all_valid_chars(
                    value@,
                ),
            },
    {
        let len = value.as_bytes().len();
        if len > Str::MAX_BYTES {
            return Err(StrError::MaxBytes { len });
        }
        if !all_chars_valid(value) {
            return Err(StrError::Utf8);
        }
        Ok(Str(value))
    }
}

impl<'a> Default for Str<'a> {
    fn default() -> (r: Self)
        ensures
            r@ == Seq::<char>::empty(),
    {
        Self::new()
    }
}

/// Error returned by the [`BytesBuf`].
#[derive(Debug, Clone, Copy, PartialEq, Eq, Structural)]
pub struct BytesBufError {
    pub(crate) len: usize,
}

impl BytesBufError {
    /// The length of the refused buffer, in specifications.
    pub closed spec fn spec_len(&self) -> usize {
        self.len
    }

    /// The length of the refused buffer.
    #[verifier::when_used_as_spec(spec_len)]
    pub fn len(&self) -> (r: usize)
        ensures
            r == self.spec_len(),
    {
        self.len
    }
}

/// A buffer of bytes for the MQTT packet.
#[derive(Debug, Clone, Copy)]
pub struct BytesBuf<'a>(&'a [u8]);

impl<'a> View for BytesBuf<'a> {
    type V = Seq<u8>;

    closed spec fn view(&self) -> Seq<u8> {
        self.0@
    }
}

impl<'a> BytesBuf<'a> {
    /// Maximum number of bytes in the buffer.
    pub const MAX: usize = 65_535;

    /// The buffer, if it has at most [`BytesBuf::MAX`] bytes.
    pub fn try_from(value: &'a [u8]) -> (r: Result<Self, BytesBufError>)
        ensures
            match r {
                Ok(b) => value@.len() <= 65_535 && b@ == value@,
                Err(e) => value@.len() > 65_535 && e.len() == value@.len(),
            },
    {
        if value.len() > BytesBuf::MAX {
            return Err(BytesBufError { len: value.len() });
        }
        Ok(Self(value))
    }

    /// The bytes of the buffer.
    pub fn as_slice(&self) -> (r: &'a [u8])
        ensures
            r@ == self@,
    {
        self.0
    }
}

/// Error from an invalid [`PacketId`].
///
/// The packet id must be a valid non zero [`u16`] value.
#[derive(Debug, Clone, Copy, PartialEq, Eq, Structural)]
pub struct PacketIdError;

/// Identifier for a Packet with QoS > 0.
#[derive(Debug, Clone, Copy, PartialEq, Eq, Structural)]
pub struct PacketId(u16);

impl View for PacketId {
    type V = u16;

    closed spec fn view(&self) -> u16 {
        self.0
    }
}

impl PacketId {
    #[verifier::type_invariant]
    spec fn non_zero(self) -> bool {
        self.0 != 0
    }

    /// The identifier of the value, if it's not zero.
    pub fn try_from(value: u16) -> (r: Result<Self, PacketIdError>)
        ensures
            match r {
                Ok(id) => value != 0 && id@ == value,
                Err(_) => value == 0,
            },
    {
        if value == 0 {
            return Err(PacketIdError);
        }
        Ok(PacketId(value))
    }

    /// The identifier of the value, if it's a non zero 16 bits value.
    pub fn try_from_usize(value: usize) -> (r: Result<Self, PacketIdError>)
        ensures
            match r {
                Ok(id) => 0 < value <= u16::MAX && id@ == value,
                Err(_) => value == 0 || value > u16::MAX,
            },
    {
        match u16::try_from(value) {
            Ok(v) => Self::try_from(v),
            Err(_) => Err(PacketIdError),
        }
    }

    /// The value of the identifier, never zero.
    pub fn get(&self) -> (r: u16)
        ensures
            r == self@,
            r != 0,
    {
        proof {
            use_type_invariant(self);
        }
        self.0
    }
}

impl From<PacketId> for usize {
    fn from(value: PacketId) -> (r: usize) {
        value.0 as usize
    }
}

impl vstd::std_specs::convert::FromSpecImpl<PacketId> for usize {
    open spec fn obeys_from_spec() -> bool {
        true
    }

    open spec fn from_spec(v: PacketId) -> usize {
        v@ as usize
    }
}

/// Error for an invalid [`RemainingLength`].
#[derive(Debug)]
#[non_exhaustive]
pub enum RemainingLengthError {
    /// The value is greater than the [`max`](RemainingLength::MAX)
    Max {
        /// The invalid value.
        value: u32,
    },
    /// Checked integer conversion failed
    TryFromInt(core::num::TryFromIntError),
    /// Invalid remaining length for the packet
    InvalidLength {
        /// The expected length.
        expected: u32,
        /// The actual length.
        actual: u32,
    },
}

/// The Remaining Length is the number of bytes remaining within the current packet.
///
/// It includes the data in the variable header and the payload. The Remaining Length does not
/// include the bytes used to encode the Remaining Length.
#[derive(Debug, Clone, Copy, PartialEq, Eq, Structural)]
pub struct RemainingLength(u32);

impl View for RemainingLength {
    type V = u32;

    closed spec fn view(&self) -> u32 {
        self.0
    }
}

impl RemainingLength {
    /// Maximum value of the remaining length
    pub const MAX: u32 = 268_435_455;

    #[verifier::type_invariant]
    spec fn at_most_max(self) -> bool {
        self.0 <= Self::MAX
    }

    /// The remaining length of the value, if it's not above the maximum.
    pub fn try_from(value: u32) -> (r: Result<Self, RemainingLengthError>)
        ensures
            match r {
                Ok(l) => value <= Self::MAX && l@ == value,
                Err(RemainingLengthError::Max { value: v }) => value > Self::MAX && v == value,
                Err(_) => false,
            },
    {
        if value > Self::MAX {
            return Err(RemainingLengthError::Max { value });
        }
        Ok(Self(value))
    }

    /// The remaining length of the value, if it fits in 32 bits and is not above the maximum.
    pub fn try_from_usize(value: usize) -> (r: Result<Self, RemainingLengthError>)
        ensures
            match r {
                Ok(l) => value <= Self::MAX && l@ == value,
                Err(RemainingLengthError::Max { value: v }) => u32::MAX >= value > Self::MAX && v
                    == value,
                Err(RemainingLengthError::TryFromInt(_)) => value > u32::MAX,
                Err(RemainingLengthError::InvalidLength { .. }) => false,
            },
    {
        match u32::try_from(value) {
            Ok(v) => Self::try_from(v),
            Err(e) => Err(RemainingLengthError::TryFromInt(e)),
        }
    }

    /// The value of the remaining length.
    pub fn get(&self) -> (r: u32)
        ensures
            r == self@,
            r <= Self::MAX,
    {
        proof {
            use_type_invariant(self);
        }
        self.0
    }

    /// The value of the remaining length as a `usize`.
    pub fn to_usize(&self) -> (r: usize)
        ensures
            r == self@,
    {
        proof {
            use_type_invariant(self);
        }
        self.0 as usize
    }

    /// Number of bytes the length will occupy
    pub fn bytes_len(&self) -> (r: usize)
        ensures
            r == crate::encoding::varint::rl_size(self@ as int),
    {
        match crate::encoding::varint::rl_size_of(self.get()) {
            Some(n) => n,
            None => 4,
        }
    }
}

} // verus!
