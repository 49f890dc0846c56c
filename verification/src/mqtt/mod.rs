pub mod adapter;
pub mod codec;
pub mod codec_acks;
pub mod codec_connect;
pub mod common;
pub mod debug_text;
pub mod descriptions;
pub mod framing;
pub mod mqtt_protocol_error;
pub mod mqttv4;
pub mod mqttv5;
pub mod v2;
pub mod vbi;
