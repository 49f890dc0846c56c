//! Types that the packet parts share.
pub mod control_packet_type;
pub mod protocol_level;
pub mod qos;
