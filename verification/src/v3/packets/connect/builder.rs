//! Builder for the [`Connect`](super::Connect) packet.
use vstd::prelude::*;

use crate::bytes::Error;
use crate::v3::packets::{spec_qos_level, Qos};

use super::{ClientId, ConnectFlags, ConnectView, KeepAlive};

verus! {

/// Will message of the connection: topic and content.
#[derive(Debug, Clone, Copy, PartialEq, Eq)]
pub struct Will<'a> {
    pub(crate) topic: &'a str,
    pub(crate) message: &'a [u8],
}

impl<'a> View for Will<'a> {
    type V = (Seq<char>, Seq<u8>);

    closed spec fn view(&self) -> (Seq<char>, Seq<u8>) {
        (self.topic@, self.message@)
    }
}

impl<'a> Will<'a> {
    /// The view is made of the views of the fields.
    pub(crate) proof fn lemma_view(&self)
        ensures
            self@ == (self.topic@, self.message@),
    {
    }

    /// The will message on the topic.
    pub fn new(topic: &'a str, message: &'a [u8]) -> (r: Self)
        ensures
            r@ == (topic@, message@),
    {
        Will { topic, message }
    }
}

/// The value of an optional will.
pub open spec fn spec_opt_will(will: Option<Will>) -> Option<(Seq<char>, Seq<u8>)> {
    match will {
        Some(w) => Some(w@),
        None => None,
    }
}

/// The characters of an optional string.
pub open spec fn spec_opt_str(s: Option<&str>) -> Option<Seq<char>> {
    match s {
        Some(s) => Some(s@),
        None => None,
    }
}

/// The bytes of an optional slice.
pub open spec fn spec_opt_bytes(b: Option<&[u8]>) -> Option<Seq<u8>> {
    match b {
        Some(b) => Some(b@),
        None => None,
    }
}

/// The flags after setting a will with the QoS and retain flag: the will flag is set, the QoS
/// bits are replaced and the retain bit is set when asked for.
pub open spec fn spec_will_flags(flags: u8, qos: Qos, retain: bool) -> u8 {
    let reset = (flags | 0b0000_0100u8) & 0b1110_0111u8;
    let with_qos = match qos {
        Qos::AtMostOnce => reset,
        Qos::AtLeastOnce => reset | 0b0000_1000u8,
        Qos::ExactlyOnce => reset | 0b0001_0000u8,
    };
    if retain {
        with_qos | 0b0010_0000u8
    } else {
        with_qos
    }
}

/// The flags announce what the payload holds: the will flag is set exactly when there is a will,
/// the user name flag exactly when there is a user name, the password flag exactly when there
/// is a password.
pub open spec fn spec_connect_flags_announce(v: ConnectView) -> bool {
    &&& (v.flags & 0b0000_0100u8 != 0) == v.will is Some
    &&& (v.flags & 0b1000_0000u8 != 0) == v.username is Some
    &&& (v.flags & 0b0100_0000u8 != 0) == v.password is Some
}

/// Setting a will sets the will flag (bit 2), puts the numeric QoS level in bits 3 and 4 (0 for
/// QoS 0, 1 for QoS 1, 2 for QoS 2), sets the retain bit (5) when asked and keeps it otherwise,
/// and keeps the other bits: clean session, user name, password and the reserved bit.
pub proof fn lemma_will_flags_bits(f: u8, qos: Qos, retain: bool)
    ensures
        spec_will_flags(f, qos, retain) & 0b0000_0100u8 != 0,
        (spec_will_flags(f, qos, retain) >> 3u8) & 3u8 == match qos {
            Qos::AtMostOnce => 0u8,
            Qos::AtLeastOnce => 1u8,
            Qos::ExactlyOnce => 2u8,
        },
        spec_will_flags(f, qos, retain) & 0b0010_0000u8 == (if retain {
            0b0010_0000u8
        } else {
            f & 0b0010_0000u8
        }),
        spec_will_flags(f, qos, retain) & 0b1100_0011u8 == f & 0b1100_0011u8,
        (spec_will_flags(f, qos, retain) & 0b1000_0000u8 != 0) == (f & 0b1000_0000u8 != 0),
        (spec_will_flags(f, qos, retain) & 0b0100_0000u8 != 0) == (f & 0b0100_0000u8 != 0),
{
    let reset = (f | 0b0000_0100u8) & 0b1110_0111u8;
    let q: u8 = match qos {
        Qos::AtMostOnce => 0,
        Qos::AtLeastOnce => 0b0000_1000,
        Qos::ExactlyOnce => 0b0001_0000,
    };
    let level: u8 = match qos {
        Qos::AtMostOnce => 0,
        Qos::AtLeastOnce => 1,
        Qos::ExactlyOnce => 2,
    };
    let w = if retain { (reset | q) | 0b0010_0000u8 } else { reset | q };
    assert(w & 0b0000_0100u8 != 0 && (w >> 3u8) & 3u8 == level && w & 0b0010_0000u8 == (if retain {
        0b0010_0000u8
    } else {
        f & 0b0010_0000u8
    }) && w & 0b1100_0011u8 == f & 0b1100_0011u8 && (w & 0b1000_0000u8 != 0) == (f & 0b1000_0000u8
        != 0) && (w & 0b0100_0000u8 != 0) == (f & 0b0100_0000u8 != 0)) by (bit_vector)
        requires
            reset == (f | 0b0000_0100u8) & 0b1110_0111u8,
            (q == 0 && level == 0) || (q == 0b0000_1000u8 && level == 1) || (q == 0b0001_0000u8
                && level == 2),
            w == (if retain { (reset | q) | 0b0010_0000u8 } else { reset | q }),
    ;
    assert(reset | 0u8 == reset) by (bit_vector);
    assert(spec_will_flags(f, qos, retain) == w);
}

/// Constructs a connect packet
#[derive(Debug, Clone, Copy, PartialEq, Eq)]
pub struct ConnectBuilder<'b> {
    pub(crate) client_id: &'b str,
    pub(crate) flags: ConnectFlags,
    pub(crate) keepalive: KeepAlive,
    pub(crate) will: Option<Will<'b>>,
    pub(crate) username: Option<&'b str>,
    pub(crate) password: Option<&'b [u8]>,
}

impl<'b> View for ConnectBuilder<'b> {
    type V = ConnectView;

    closed spec fn view(&self) -> ConnectView {
        ConnectView {
            client_id: self.client_id@,
            flags: self.flags@,
            keepalive: self.keepalive@,
            will: spec_opt_will(self.will),
            username: spec_opt_str(self.username),
            password: spec_opt_bytes(self.password),
        }
    }
}

impl<'b> ConnectBuilder<'b> {
    /// Every way to build one keeps the flags in agreement with the payload.
    #[verifier::type_invariant]
    spec fn announces_payload(self) -> bool {
        spec_connect_flags_announce(self@)
    }

    /// The view is made of the views of the fields.
    pub(crate) proof fn lemma_view(&self)
        ensures
            self@.client_id == self.client_id@,
            self@.flags == self.flags@,
            self@.keepalive == self.keepalive@,
            self@.will == spec_opt_will(self.will),
            self@.username == spec_opt_str(self.username),
            self@.password == spec_opt_bytes(self.password),
    {
    }

    /// Creates the builder from the given client id.
    pub fn create(client_id: &'b str) -> (r: Result<Self, Error>)
        ensures
            r matches Ok(b) && b@ == (ConnectView {
                client_id: client_id@,
                flags: 0,
                keepalive: 60,
                will: None,
                username: None,
                password: None,
            }) && spec_connect_flags_announce(b@),
    {
        ClientId::validate_value(client_id)?;
        Ok(Self::new_unchecked(client_id))
    }

    /// Creates a builder with an empty client id.
    ///
    /// This will set the clean-session to true
    pub fn with_empty_client_id() -> (r: Self)
        ensures
            r@ == (ConnectView {
                client_id: Seq::empty(),
                flags: 0b0000_0010,
                keepalive: 60,
                will: None,
                username: None,
                password: None,
            }),
            spec_connect_flags_announce(r@),
    {
        let this = Self::new_unchecked("");
        proof {
            reveal_strlit("");
            assert(""@ =~= Seq::<char>::empty());
            assert(0u8 | 0b0000_0010u8 == 0b0000_0010u8) by (bit_vector);
        }
        this.clean_session()
    }

    /// Create a new builder without checking for a valid client ID.
    pub fn new_unchecked(client_id: &'b str) -> (r: Self)
        ensures
            r@ == (ConnectView {
                client_id: client_id@,
                flags: 0,
                keepalive: 60,
                will: None,
                username: None,
                password: None,
            }),
            spec_connect_flags_announce(r@),
    {
        proof {
            assert(0u8 & 0b0000_0100u8 == 0 && 0u8 & 0b1000_0000u8 == 0 && 0u8 & 0b0100_0000u8 == 0)
                by (bit_vector);
        }
        Self {
            client_id,
            flags: ConnectFlags::empty(),
            will: None,
            username: None,
            password: None,
            keepalive: KeepAlive::default(),
        }
    }

    /// Sets the clean session flag for the connection.
    ///
    /// It's used to control the lifetime of the session state in the broker. Calling this function
    /// will set the clean session flag and session must be discarded for the broker.
    pub fn clean_session(self) -> (r: Self)
        ensures
            r@ == (ConnectView { flags: self@.flags | 0b0000_0010u8, ..self@ }),
            spec_connect_flags_announce(r@),
    {
        proof {
            use_type_invariant(&self);
            let f = self.flags@;
            assert(((f | 0b0000_0010u8) & 0b0000_0100u8 != 0) == (f & 0b0000_0100u8 != 0)
                && ((f | 0b0000_0010u8) & 0b1000_0000u8 != 0) == (f & 0b1000_0000u8 != 0)
                && ((f | 0b0000_0010u8) & 0b0100_0000u8 != 0) == (f & 0b0100_0000u8 != 0))
                by (bit_vector);
        }
        ConnectBuilder { flags: self.flags.union(ConnectFlags::clean_session()), ..self }
    }

    /// Sets the keep alive for the connection
    pub fn keepalive(self, keepalive: KeepAlive) -> (r: Self)
        ensures
            r@ == (ConnectView { keepalive: keepalive@, ..self@ }),
            spec_connect_flags_announce(r@),
    {
        proof {
            use_type_invariant(&self);
        }
        ConnectBuilder { keepalive, ..self }
    }

    /// Sets the will for the connection.
    ///
    /// If the client is disconnected for a network failure, the keep alive expires, protocol error, or the
    /// connection is closed without a DISCONNECT packet. The Server will publish the will message
    /// on the specified topic.
    pub fn will(&mut self, topic: &'b str, message: &'b [u8], qos: Qos, retain: bool) -> (r: &mut Self)
        ensures
            final(self)@ == final(r)@,
            r@ == (ConnectView {
                flags: spec_will_flags(old(self)@.flags, qos, retain),
                will: Some((topic@, message@)),
                ..old(self)@
            }),
            spec_connect_flags_announce(r@),
            r@.flags & 0b0000_0100u8 != 0,
            (r@.flags >> 3u8) & 3u8 == match qos {
                Qos::AtMostOnce => 0u8,
                Qos::AtLeastOnce => 1u8,
                Qos::ExactlyOnce => 2u8,
            },
            r@.flags & 0b0010_0000u8 == (if retain {
                0b0010_0000u8
            } else {
                old(self)@.flags & 0b0010_0000u8
            }),
            r@.flags & 0b1100_0011u8 == old(self)@.flags & 0b1100_0011u8,
    {
        proof {
            use_type_invariant(&*self);
        }
        let mut flags = self.flags.union(ConnectFlags::will_flag());
        flags = flags.intersection(ConnectFlags::will_qos_reset());
        match qos {
            Qos::AtMostOnce => {},
            Qos::AtLeastOnce => flags = flags.union(ConnectFlags::will_qos_1()),
            Qos::ExactlyOnce => flags = flags.union(ConnectFlags::will_qos_2()),
        }
        if retain {
            flags = flags.union(ConnectFlags::will_retain());
        }
        proof {
            assert(flags@ == spec_will_flags(old(self).flags@, qos, retain));
            lemma_will_flags_bits(old(self).flags@, qos, retain);
        }
        *self = ConnectBuilder { will: Some(Will { topic, message }), flags, ..*self };
        self
    }

    /// Username for to authenticate the connection.
    pub fn username(&mut self, username: &'b str) -> (r: &mut Self)
        ensures
            final(self)@ == final(r)@,
            r@ == (ConnectView {
                flags: old(self)@.flags | 0b1000_0000u8,
                username: Some(username@),
                ..old(self)@
            }),
            spec_connect_flags_announce(r@),
    {
        proof {
            use_type_invariant(&*self);
            let f = self.flags@;
            assert((f | 0b1000_0000u8) & 0b1000_0000u8 != 0 && ((f | 0b1000_0000u8) & 0b0000_0100u8
                != 0) == (f & 0b0000_0100u8 != 0) && ((f | 0b1000_0000u8) & 0b0100_0000u8 != 0) == (f
                & 0b0100_0000u8 != 0)) by (bit_vector);
        }
        let flags = self.flags.union(ConnectFlags::username());
        *self = ConnectBuilder { flags, username: Some(username), ..*self };
        self
    }

    /// Username and password to authenticate the connection.
    pub fn username_password(&mut self, username: &'b str, password: &'b [u8]) -> (r: &mut Self)
        ensures
            final(self)@ == final(r)@,
            r@ == (ConnectView {
                flags: old(self)@.flags | 0b1100_0000u8,
                username: Some(username@),
                password: Some(password@),
                ..old(self)@
            }),
            spec_connect_flags_announce(r@),
    {
        proof {
            use_type_invariant(&*self);
            let f = self.flags@;
            assert(f | (0b1000_0000u8 | 0b0100_0000u8) == f | 0b1100_0000u8) by (bit_vector);
            assert((f | 0b1100_0000u8) & 0b1000_0000u8 != 0 && (f | 0b1100_0000u8) & 0b0100_0000u8
                != 0 && ((f | 0b1100_0000u8) & 0b0000_0100u8 != 0) == (f & 0b0000_0100u8 != 0))
                by (bit_vector);
        }
        let flags = self.flags.union(ConnectFlags::username().union(ConnectFlags::password()));
        *self = ConnectBuilder {
            flags,
            username: Some(username),
            password: Some(password),
            ..*self
        };
        self
    }
}

} // verus!
