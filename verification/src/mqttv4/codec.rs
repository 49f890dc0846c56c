//! The MQTT 3.1.1 codec.
pub use crate::mqtt::mqttv4::codec::Mqtt4Codec;
