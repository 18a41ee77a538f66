//! Builder for UNSUBSCRIBE packets.
use vstd::prelude::*;

use crate::v3::packets::common::packet_id::PacketId;

verus! {

/// Creates an UNSUBSCRIBE packet.
#[derive(Debug)]
pub struct UnsubscribeBuilder<'a> {
    pub(crate) pkid: PacketId,
    pub(crate) filters: &'a [&'a str],
}

/// The characters of each topic filter.
pub open spec fn spec_unsub_topics_view(filters: Seq<&str>) -> Seq<Seq<char>> {
    filters.map_values(|f: &str| f@)
}

impl<'a> View for UnsubscribeBuilder<'a> {
    type V = (u16, Seq<Seq<char>>);

    closed spec fn view(&self) -> (u16, Seq<Seq<char>>) {
        (self.pkid@, spec_unsub_topics_view(self.filters@))
    }
}

impl<'a> UnsubscribeBuilder<'a> {
    /// The view is made of the views of the fields.
    pub(crate) proof fn lemma_view(&self)
        ensures
            self@.0 == self.pkid@,
            self@.1 == spec_unsub_topics_view(self.filters@),
    {
    }

    /// Creates an UNSUBSCRIBE from the topic filters.
    pub fn new(pkid: PacketId, topic_filters: &'a [&'a str]) -> (r: Self)
        ensures
            r@.0 == pkid@,
            r@.1 == spec_unsub_topics_view(topic_filters@),
    {
        Self { pkid, filters: topic_filters }
    }

    /// Creates an UNSUBSCRIBE from a single topic filter.
    pub fn with_topic(pkid: PacketId, topic: &'a &'a str) -> (r: Self)
        ensures
            r@.0 == pkid@,
            r@.1 == seq![topic@],
    {
        let filters = crate::v3::packets::subscribe::builder::slice_from_ref(topic);
        proof {
            assert(spec_unsub_topics_view(filters@) =~= seq![topic@]);
        }
        Self::new(pkid, filters)
    }
}

} // verus!
