//! Data representation of MQTT packets
use vstd::prelude::*;

use crate::bytes::ErrorKind;

pub mod common;
pub mod connect;
pub mod disconnect;
pub mod packet;
pub mod ping;
pub mod publish;
pub mod subscribe;
pub mod unsubscribe;

verus! {

/// Outcome of consuming a whole buffer with a parser: the value when the parser read every byte,
/// `Invalid` when bytes are left over.
pub open spec fn spec_consume<T>(parsed: Result<(T, nat), ErrorKind>, len: nat) -> Result<T, ErrorKind> {
    match parsed {
        Ok((v, n)) => if n == len {
            Ok(v)
        } else {
            Err(ErrorKind::Invalid)
        },
        Err(k) => Err(k),
    }
}

/// Consuming a buffer, for every packet type, is parsing it and keeping the value only when no
/// byte is left after it: with bytes left the outcome is `Invalid`, and a failed parse fails
/// with the same error kind. `parsed` is the outcome of the type's parser on `buf`, which never
/// reads more bytes than there are.
pub proof fn lemma_consume_is_parse_without_rest<T>(parsed: Result<(T, nat), ErrorKind>, buf: Seq<u8>)
    requires
        parsed matches Ok((_, n)) ==> n <= buf.len(),
    ensures
        spec_consume(parsed, buf.len()) == match parsed {
            Ok((v, n)) => if buf.skip(n as int).len() == 0 {
                Ok(v)
            } else {
                Err(ErrorKind::Invalid)
            },
            Err(k) => Err(k),
        },
{
}

/// Quality of service for a various message.
#[derive(Debug, Clone, Copy, PartialEq, Eq, Structural)]
pub enum Qos {
    /// At most once delivery.
    AtMostOnce,
    /// At least once delivery.
    AtLeastOnce,
    /// Exactly once delivery.
    ExactlyOnce,
}

/// The numeric level of the quality of service.
pub open spec fn spec_qos_level(q: Qos) -> u8 {
    match q {
        Qos::AtMostOnce => 0,
        Qos::AtLeastOnce => 1,
        Qos::ExactlyOnce => 2,
    }
}

impl Qos {
    /// The quality of service of the numeric level, or the value when it is not a level.
    pub fn try_from(value: u8) -> (r: Result<Self, u8>)
        ensures
            match r {
                Ok(q) => value <= 2 && spec_qos_level(q) == value,
                Err(v) => value > 2 && v == value,
            },
    {
        match value {
            0 => Ok(Qos::AtMostOnce),
            1 => Ok(Qos::AtLeastOnce),
            2 => Ok(Qos::ExactlyOnce),
            _ => Err(value),
        }
    }

    /// The numeric level of the quality of service.
    pub fn level(self) -> (r: u8)
        ensures
            r == spec_qos_level(self),
    {
        match self {
            Qos::AtMostOnce => 0,
            Qos::AtLeastOnce => 1,
            Qos::ExactlyOnce => 2,
        }
    }
}

impl From<Qos> for u8 {
    fn from(value: Qos) -> (r: u8) {
        value.level()
    }
}

impl vstd::std_specs::convert::FromSpecImpl<Qos> for u8 {
    open spec fn obeys_from_spec() -> bool {
        true
    }

    open spec fn from_spec(v: Qos) -> u8 {
        spec_qos_level(v)
    }
}

/// The QoS levels are numbered 0, 1 and 2, each its own.
pub proof fn lemma_qos_level_table(q: Qos)
    ensures
        spec_qos_level(Qos::AtMostOnce) == 0,
        spec_qos_level(Qos::AtLeastOnce) == 1,
        spec_qos_level(Qos::ExactlyOnce) == 2,
        forall|p: Qos| spec_qos_level(p) == spec_qos_level(q) ==> p == q,
{
}

} // verus!
