//! Typed MQTT 3.1.1 packet parts: fixed headers, variable headers and
//! payloads.
pub mod common;
pub mod mqtt_3_1_1;
