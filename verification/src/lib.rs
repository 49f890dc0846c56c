//! Wire-format codecs for the RobustMQ protocols: MQTT 3.1.1/5.0 packets,
//! the NATS text protocol and the storage engine frames, with their
//! contracts stated over byte sequences.

pub mod buffer;
pub mod mqtt;
pub mod mqttv4;
pub mod nats;
pub mod placement_center;
pub mod protocol;
pub mod robust;
pub mod storage;
pub mod storage_engine;
pub mod text;
