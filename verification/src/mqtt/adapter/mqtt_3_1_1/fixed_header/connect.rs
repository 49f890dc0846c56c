//! The fixed header of a CONNECT.
use crate::mqtt::adapter::common::control_packet_type::ControlPacketType;
use vstd::prelude::*;

verus! {

#[derive(Debug, Clone, PartialEq, Eq, Structural)]
pub struct ConnectFixedHeader {
    control_packet_type: ControlPacketType,
    remaining_len: u32,
}

impl ConnectFixedHeader {
    /// The packet type the header names.
    pub closed spec fn spec_control_packet_type(&self) -> ControlPacketType {
        self.control_packet_type
    }

    /// The length of the rest of the packet.
    pub closed spec fn spec_remaining_len(&self) -> u32 {
        self.remaining_len
    }

    /// A CONNECT header, before the length of the rest is known.
    pub fn new() -> (r: Self)
        ensures
            r.spec_control_packet_type() == ControlPacketType::Connect,
            r.spec_remaining_len() == 0,
    {
        ConnectFixedHeader { control_packet_type: ControlPacketType::Connect, remaining_len: 0 }
    }

    pub fn control_packet_type(&self) -> (r: &ControlPacketType)
        ensures
            *r == self.spec_control_packet_type(),
    {
        &self.control_packet_type
    }

    pub fn set_remaining_len(&mut self, len: u32)
        ensures
            final(self).spec_remaining_len() == len,
            final(self).spec_control_packet_type() == old(self).spec_control_packet_type(),
    {
        self.remaining_len = len;
    }
}

} // verus!
