//! The interface of a protocol: reading packets from a stream and writing
//! them to a buffer.
use crate::mqtt::common::MqttPacket;
use crate::mqtt::mqtt_protocol_error::MQTTProtocolError;
use bytes::BytesMut;
use vstd::prelude::*;

verus! {

pub trait Protocol {
    fn read(&mut self, stream: &mut BytesMut, max_size: usize) -> Result<MqttPacket, MQTTProtocolError>;

    fn write(&self, packet: MqttPacket, write: &mut BytesMut) -> Result<usize, MQTTProtocolError>;
}

pub struct ProtocolMQTT4 {}

} // verus!
