//! The control packet types, as the fixed header names them.
pub use crate::mqtt::v2::mqttv4::control_packet_type::ControlPacketType;
