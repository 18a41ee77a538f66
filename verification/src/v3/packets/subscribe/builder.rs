//! Builder for subscribe
use vstd::prelude::*;

use crate::v3::packets::common::packet_id::PacketId;

use super::ack::{spec_sub_ack_code, SubAckCode};
use super::topic::{spec_subscribe_filter_view, RequestedQos};

verus! {

/// Topic to subscribe to.
#[derive(Debug, Clone, Copy)]
pub struct SubscribeFilter<'a> {
    /// Topic to subscribe on
    pub topic: &'a str,
    /// Requested quality of service for the topic
    pub qos: RequestedQos,
}

/// Creates a subscribe packet.
#[derive(Debug)]
pub struct SubscribeBuilder<'a> {
    pub(crate) pkid: PacketId,
    pub(crate) filters: &'a [SubscribeFilter<'a>],
}

/// The filters to write, as topics and requested QoS bytes.
pub open spec fn spec_subscribe_filters_view(filters: Seq<SubscribeFilter>) -> Seq<(Seq<char>, u8)> {
    filters.map_values(|f: SubscribeFilter| spec_subscribe_filter_view(f))
}

/// A slice of one element, with [`core::slice::from_ref`].
///
/// The contract claims what the standard library documents: the slice holds exactly the value.
#[verifier::external_body]
pub(crate) fn slice_from_ref<'a, T>(value: &'a T) -> (r: &'a [T])
    ensures
        r@ == seq![*value],
{
    core::slice::from_ref(value)
}

impl<'a> View for SubscribeBuilder<'a> {
    type V = (u16, Seq<(Seq<char>, u8)>);

    closed spec fn view(&self) -> (u16, Seq<(Seq<char>, u8)>) {
        (self.pkid@, spec_subscribe_filters_view(self.filters@))
    }
}

impl<'a> SubscribeBuilder<'a> {
    /// The view is made of the views of the fields.
    pub(crate) proof fn lemma_view(&self)
        ensures
            self@.0 == self.pkid@,
            self@.1 == spec_subscribe_filters_view(self.filters@),
    {
    }

    /// Creates a new subscribe filter
    pub fn new(pkid: PacketId, topic_filters: &'a [SubscribeFilter<'a>]) -> (r: Self)
        ensures
            r@.0 == pkid@,
            r@.1 == spec_subscribe_filters_view(topic_filters@),
    {
        Self { pkid, filters: topic_filters }
    }

    /// Set the filter to a single topic
    pub fn with_topic(pkid: PacketId, topic: &'a SubscribeFilter<'a>) -> (r: Self)
        ensures
            r@.0 == pkid@,
            r@.1 == seq![spec_subscribe_filter_view(*topic)],
    {
        let filters = slice_from_ref(topic);
        proof {
            assert(spec_subscribe_filters_view(filters@) =~= seq![spec_subscribe_filter_view(*topic)]);
        }
        Self::new(pkid, filters)
    }
}

/// Creates a SUBACK packet.
#[derive(Debug)]
pub struct SubAckBuilder<'a> {
    pub(crate) pkid: PacketId,
    pub(crate) return_codes: &'a [SubAckCode],
}

impl<'a> View for SubAckBuilder<'a> {
    type V = (u16, Seq<u8>);

    closed spec fn view(&self) -> (u16, Seq<u8>) {
        (self.pkid@, self.return_codes@.map_values(|c: SubAckCode| spec_sub_ack_code(c)))
    }
}

impl<'a> SubAckBuilder<'a> {
    /// The view is made of the views of the fields.
    pub(crate) proof fn lemma_view(&self)
        ensures
            self@.0 == self.pkid@,
            self@.1 == self.return_codes@.map_values(|c: SubAckCode| spec_sub_ack_code(c)),
    {
    }

    /// The acknowledgment of the SUBSCRIBE with the packet identifier, with a return code for
    /// each of its filters.
    pub fn new(pkid: PacketId, return_codes: &'a [SubAckCode]) -> (r: Self)
        ensures
            r@.0 == pkid@,
            r@.1 == return_codes@.map_values(|c: SubAckCode| spec_sub_ack_code(c)),
    {
        Self { pkid, return_codes }
    }
}

} // verus!
