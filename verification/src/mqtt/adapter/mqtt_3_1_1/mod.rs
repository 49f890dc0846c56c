//! The parts of MQTT 3.1.1 packets.
pub mod fixed_header;
pub mod payload;
pub mod variable_header;
