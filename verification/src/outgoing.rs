//! PUBLISH packets with QoS 1 or 2 kept until they are acknowledged.
//!
//! Each one is stored in a [`Slab`]: its packet identifier is its index plus one.
use vstd::prelude::*;

use crate::bytes::{Error, ErrorKind};
use crate::slab::{spec_slab_full, Slab};
use crate::v3::packets::common::packet_id::PacketId;
use crate::v3::packets::publish::builder::{PublishBuilder, PublishBuilderView, PublishQos};
use crate::v3::publish::ClientQos;

verus! {

/// The flags of a PUBLISH after setting the QoS: no DUP, and the QoS bits of the level.
pub open spec fn spec_client_qos_flags(flags: u8, qos: ClientQos) -> u8 {
    let cleared = flags & !0b0000_1110u8;
    match qos {
        ClientQos::AtLeastOnce => cleared | 0b0000_0010u8,
        ClientQos::ExactlyOnce => cleared | 0b0000_0100u8,
    }
}

/// The PUBLISH stored for the QoS and packet identifier.
pub open spec fn spec_stored_publish(p: PublishBuilderView, qos: ClientQos, pkid: u16) -> PublishBuilderView {
    PublishBuilderView {
        flags: spec_client_qos_flags(p.flags, qos),
        pkid: Some(pkid),
        topic: p.topic,
        payload: p.payload,
    }
}

/// The outcome of making the PUBLISH to store at an index: the PUBLISH with the QoS and the
/// packet identifier of the index plus one, or `OutOfRange` when that does not fit.
pub open spec fn spec_publish_for_index(
    publish: PublishBuilderView,
    qos: ClientQos,
    idx: usize,
    r: Result<(PublishBuilder, PacketId), Error>,
) -> bool {
    match r {
        Ok((b, id)) => idx < 65535 && id@ == idx + 1 && b@ == spec_stored_publish(
            publish,
            qos,
            (idx + 1) as u16,
        ),
        Err(e) => idx >= 65535 && e.kind() == ErrorKind::OutOfRange,
    }
}

/// The PUBLISH with the QoS and the packet identifier of the index, if the index plus one fits
/// in a packet identifier.
fn publish_for_index<'a>(publish: PublishBuilder<'a>, qos: ClientQos, idx: usize) -> (r: Result<
    (PublishBuilder<'a>, PacketId),
    Error,
>)
    ensures
        match r {
            Ok((b, id)) => idx < 65535 && id@ == idx + 1 && b@ == spec_stored_publish(
                publish@,
                qos,
                (idx + 1) as u16,
            ),
            Err(e) => idx >= 65535 && e.kind() == ErrorKind::OutOfRange,
        },
{
    if idx >= 65535 {
        return Err(Error::new(ErrorKind::OutOfRange, "packet identifier"));
    }
    let pkid = match PacketId::new((idx + 1) as u16) {
        Some(pkid) => pkid,
        None => {
            return Err(Error::new(ErrorKind::OutOfRange, "packet identifier"));
        },
    };
    let q = match qos {
        ClientQos::AtLeastOnce => PublishQos::AtLeastOnce { dup: false, pkid },
        ClientQos::ExactlyOnce => PublishQos::ExactlyOnce { dup: false, pkid },
    };
    let b = publish.qos(q);
    Ok((b, pkid))
}

/// Stores a PUBLISH to send with QoS 1 or 2 in the first free entry and returns its packet
/// identifier: the entry's index plus one.
///
/// Returns `None` when every entry is taken, and the `OutOfRange` error when the index plus one
/// does not fit in a packet identifier.
pub fn reserve_publish<'a>(
    slab: &mut Slab<PublishBuilder<'a>>,
    publish: PublishBuilder<'a>,
    qos: ClientQos,
) -> (r: Result<Option<PacketId>, Error>)
    requires
        old(slab).wf(),
    ensures
        final(slab).wf(),
        spec_slab_full(old(slab)@) ==> (r matches Ok(None) && final(slab)@ == old(slab)@),
        !spec_slab_full(old(slab)@) ==> ({
            let idx = old(slab).spec_next_index();
            &&& idx < old(slab)@.0
            &&& !old(slab)@.1.contains_key(idx)
            &&& if idx < 65535 {
                &&& r matches Ok(Some(id)) && id@ == idx + 1
                &&& final(slab)@ == (old(slab)@.0, old(slab)@.1.insert(idx, final(slab)@.1[idx]))
                &&& final(slab)@.1[idx]@ == spec_stored_publish(publish@, qos, (idx + 1) as u16)
            } else {
                &&& r matches Err(e) && e.kind() == ErrorKind::OutOfRange
                &&& final(slab)@ == old(slab)@
            }
        }),
{
    let make = |idx: usize| -> (res: Result<(PublishBuilder<'a>, PacketId), Error>)
        ensures
            spec_publish_for_index(publish@, qos, idx, res),
        { publish_for_index(publish, qos, idx) };
    slab.try_insert(make)
}

} // verus!
