//! The parts of an MQTT 3.1.1 packet and their parsers.
pub mod control_packet_type;
pub mod fixed_header;
pub mod fixed_header_flags;
pub mod mqtt_protocol_error;
pub mod remaining_length;
pub mod variable_header;
