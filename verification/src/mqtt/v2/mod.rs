//! A second MQTT 3.1.1 decoder, built from small parsers over byte
//! operations: the fixed header with its flags and remaining length, and
//! MQTT's UTF-8 strings.
pub mod byte_adapter;
pub mod mqttv4;
pub mod protocol_error;
pub mod utils;
