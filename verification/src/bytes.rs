//! Errors returned while reading and writing some bytes of a packet.
use vstd::prelude::*;

verus! {

#[verifier::external_type_specification]
#[verifier::external_body]
pub struct ExIoErrorKind(std::io::ErrorKind);

/// Error information
#[derive(Debug, Clone, Copy, PartialEq, Eq)]
pub enum ErrorKind {
    /// Value is out of range.
    OutOfRange,
    /// Not enough space to store value.
    NotEnoughSpace,
    /// Integer operation overflow.
    Overflow,
    /// Invalid value.
    Invalid,
    /// Std io error
    StdIo(std::io::ErrorKind),
}

/// Error returned while encoding or decoding a packet.
#[derive(Debug)]
#[non_exhaustive]
pub struct Error {
    kind: ErrorKind,
    msg: &'static str,
}

impl Error {
    /// The kind of the error, in specifications.
    pub closed spec fn spec_kind(&self) -> ErrorKind {
        self.kind
    }

    /// The description of what failed, in specifications.
    pub closed spec fn spec_message(&self) -> &'static str {
        self.msg
    }

    /// Creates an error of the given kind with a description of what failed.
    pub fn new(kind: ErrorKind, msg: &'static str) -> (r: Self)
        ensures
            r.spec_kind() == kind,
            r.spec_message() == msg,
    {
        Self { kind, msg }
    }

    /// Returns the kind of the error
    #[verifier::when_used_as_spec(spec_kind)]
    pub fn kind(&self) -> (r: ErrorKind)
        ensures
            r == self.spec_kind(),
    {
        self.kind
    }

    /// Returns the description of what failed.
    pub fn message(&self) -> (r: &'static str)
        ensures
            r == self.spec_message(),
    {
        self.msg
    }
}

} // verus!
