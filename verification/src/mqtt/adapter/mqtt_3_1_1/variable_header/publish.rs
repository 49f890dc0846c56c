//! The variable header of a PUBLISH.
use vstd::prelude::*;

verus! {

#[derive(Debug, Clone, PartialEq)]
pub struct PublishVariableHeader {
    topic_name: String,
    packet_identifier: Option<u16>,
}

impl PublishVariableHeader {
    pub closed spec fn spec_topic_name(&self) -> Seq<char> {
        self.topic_name@
    }

    pub closed spec fn spec_packet_identifier(&self) -> Option<u16> {
        self.packet_identifier
    }

    pub fn new(topic_name: String, packet_identifier: Option<u16>) -> (r: Self)
        ensures
            r.spec_topic_name() == topic_name@,
            r.spec_packet_identifier() == packet_identifier,
    {
        PublishVariableHeader { topic_name, packet_identifier }
    }

    pub fn topic_name(&self) -> (r: &str)
        ensures
            r@ == self.spec_topic_name(),
    {
        self.topic_name.as_str()
    }

    pub fn packet_identifier(&self) -> (r: Option<u16>)
        ensures
            r == self.spec_packet_identifier(),
    {
        self.packet_identifier
    }
}

} // verus!
