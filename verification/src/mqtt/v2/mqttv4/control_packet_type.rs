//! The control packet type, the high nibble of a packet's first byte.
use crate::mqtt::v2::mqttv4::mqtt_protocol_error::MQTTProtocolError;
use crate::mqtt::v2::utils::radix::radix_handler;
use vstd::prelude::*;

verus! {

/// The fourteen control packet types of MQTT 3.1.1.
#[derive(Debug, Clone, Copy, PartialEq, Eq, Structural)]
pub enum ControlPacketType {
    Connect,
    ConnAck,
    Publish,
    PubAck,
    PubRec,
    PubRel,
    PubComp,
    Subscribe,
    SubAck,
    Unsubscribe,
    UnsubAck,
    PingReq,
    PingResp,
    Disconnect,
}

/// The packet type that a high nibble names; 0 and 15 are reserved.
pub open spec fn spec_control_packet_type(nibble: u8) -> Option<ControlPacketType> {
    if nibble == 1 {
        Some(ControlPacketType::Connect)
    } else if nibble == 2 {
        Some(ControlPacketType::ConnAck)
    } else if nibble == 3 {
        Some(ControlPacketType::Publish)
    } else if nibble == 4 {
        Some(ControlPacketType::PubAck)
    } else if nibble == 5 {
        Some(ControlPacketType::PubRec)
    } else if nibble == 6 {
        Some(ControlPacketType::PubRel)
    } else if nibble == 7 {
        Some(ControlPacketType::PubComp)
    } else if nibble == 8 {
        Some(ControlPacketType::Subscribe)
    } else if nibble == 9 {
        Some(ControlPacketType::SubAck)
    } else if nibble == 10 {
        Some(ControlPacketType::Unsubscribe)
    } else if nibble == 11 {
        Some(ControlPacketType::UnsubAck)
    } else if nibble == 12 {
        Some(ControlPacketType::PingReq)
    } else if nibble == 13 {
        Some(ControlPacketType::PingResp)
    } else if nibble == 14 {
        Some(ControlPacketType::Disconnect)
    } else {
        None
    }
}

impl ControlPacketType {
    /// The packet type of a first byte; a reserved type is an error.
    pub fn parse(binary_byte: u8) -> (r: Result<ControlPacketType, MQTTProtocolError>)
        ensures
            match spec_control_packet_type(binary_byte / 16) {
                Some(t) => r matches Ok(x) && x == t,
                None => r matches Err(MQTTProtocolError::InvalidPacketType),
            },
    {
        match radix_handler::high_nibble(binary_byte) {
            1 => Ok(ControlPacketType::Connect),
            2 => Ok(ControlPacketType::ConnAck),
            3 => Ok(ControlPacketType::Publish),
            4 => Ok(ControlPacketType::PubAck),
            5 => Ok(ControlPacketType::PubRec),
            6 => Ok(ControlPacketType::PubRel),
            7 => Ok(ControlPacketType::PubComp),
            8 => Ok(ControlPacketType::Subscribe),
            9 => Ok(ControlPacketType::SubAck),
            10 => Ok(ControlPacketType::Unsubscribe),
            11 => Ok(ControlPacketType::UnsubAck),
            12 => Ok(ControlPacketType::PingReq),
            13 => Ok(ControlPacketType::PingResp),
            14 => Ok(ControlPacketType::Disconnect),
            _ => Err(MQTTProtocolError::InvalidPacketType),
        }
    }
}

/// The packet type of a first byte is the one its high four bits number in
/// MQTT 3.1.1: 1 CONNECT, 2 CONNACK, 3 PUBLISH, 4 PUBACK, 5 PUBREC, 6
/// PUBREL, 7 PUBCOMP, 8 SUBSCRIBE, 9 SUBACK, 10 UNSUBSCRIBE, 11 UNSUBACK, 12
/// PINGREQ, 13 PINGRESP, 14 DISCONNECT; 0 and 15 are reserved.
pub proof fn lemma_control_packet_type_numbers(b: u8)
    ensures
        b >> 4u8 == 1 ==> spec_control_packet_type(b / 16) == Some(ControlPacketType::Connect),
        b >> 4u8 == 2 ==> spec_control_packet_type(b / 16) == Some(ControlPacketType::ConnAck),
        b >> 4u8 == 3 ==> spec_control_packet_type(b / 16) == Some(ControlPacketType::Publish),
        b >> 4u8 == 4 ==> spec_control_packet_type(b / 16) == Some(ControlPacketType::PubAck),
        b >> 4u8 == 5 ==> spec_control_packet_type(b / 16) == Some(ControlPacketType::PubRec),
        b >> 4u8 == 6 ==> spec_control_packet_type(b / 16) == Some(ControlPacketType::PubRel),
        b >> 4u8 == 7 ==> spec_control_packet_type(b / 16) == Some(ControlPacketType::PubComp),
        b >> 4u8 == 8 ==> spec_control_packet_type(b / 16) == Some(ControlPacketType::Subscribe),
        b >> 4u8 == 9 ==> spec_control_packet_type(b / 16) == Some(ControlPacketType::SubAck),
        b >> 4u8 == 10 ==> spec_control_packet_type(b / 16) == Some(ControlPacketType::Unsubscribe),
        b >> 4u8 == 11 ==> spec_control_packet_type(b / 16) == Some(ControlPacketType::UnsubAck),
        b >> 4u8 == 12 ==> spec_control_packet_type(b / 16) == Some(ControlPacketType::PingReq),
        b >> 4u8 == 13 ==> spec_control_packet_type(b / 16) == Some(ControlPacketType::PingResp),
        b >> 4u8 == 14 ==> spec_control_packet_type(b / 16) == Some(ControlPacketType::Disconnect),
        b >> 4u8 == 0 || b >> 4u8 == 15 ==> spec_control_packet_type(b / 16) is None,
{
    assert(b >> 4u8 == b / 16) by (bit_vector);
}

} // verus!
