//! The flags in the low nibble of a packet's first byte: reserved values
//! for every type but PUBLISH, whose flags carry dup, QoS and retain.
use crate::mqtt::v2::mqttv4::control_packet_type::ControlPacketType;
use crate::mqtt::v2::mqttv4::mqtt_protocol_error::MQTTProtocolError;
use crate::mqtt::v2::utils::radix::radix_handler;
use vstd::prelude::*;

verus! {

#[derive(Debug, Clone, Copy, PartialEq, Eq, Structural)]
pub enum FixedHeaderFlags {
    Publish { dup: bool, qos: u8, retain: bool },
    Connect,
    ConnAck,
    PubAck,
    PubRec,
    PubRel,
    PubComp,
    Subscribe,
    SubAck,
    Unsubscribe,
    UnsubAck,
    PingReq,
    PingResp,
    Disconnect,
}

/// The value that the flags of a packet type must have; PUBLISH has none.
pub open spec fn reserved_flags(t: ControlPacketType) -> Option<u8> {
    match t {
        ControlPacketType::PubRel | ControlPacketType::Subscribe | ControlPacketType::Unsubscribe => Some(
            0b0000_0010u8,
        ),
        ControlPacketType::Publish => None,
        _ => Some(0b0000_0000u8),
    }
}

/// The flags of a packet type other than PUBLISH.
pub open spec fn plain_flags(t: ControlPacketType) -> FixedHeaderFlags {
    match t {
        ControlPacketType::Publish => FixedHeaderFlags::Connect,
        ControlPacketType::Connect => FixedHeaderFlags::Connect,
        ControlPacketType::ConnAck => FixedHeaderFlags::ConnAck,
        ControlPacketType::PubAck => FixedHeaderFlags::PubAck,
        ControlPacketType::PubRec => FixedHeaderFlags::PubRec,
        ControlPacketType::PubRel => FixedHeaderFlags::PubRel,
        ControlPacketType::PubComp => FixedHeaderFlags::PubComp,
        ControlPacketType::Subscribe => FixedHeaderFlags::Subscribe,
        ControlPacketType::SubAck => FixedHeaderFlags::SubAck,
        ControlPacketType::Unsubscribe => FixedHeaderFlags::Unsubscribe,
        ControlPacketType::UnsubAck => FixedHeaderFlags::UnsubAck,
        ControlPacketType::PingReq => FixedHeaderFlags::PingReq,
        ControlPacketType::PingResp => FixedHeaderFlags::PingResp,
        ControlPacketType::Disconnect => FixedHeaderFlags::Disconnect,
    }
}

/// What parsing the flags of a first byte gives, as a value or an error.
pub open spec fn spec_parse_flags(t: ControlPacketType, byte: u8) -> Result<FixedHeaderFlags, MQTTProtocolError> {
    match reserved_flags(t) {
        Some(v) => if byte % 16 != v {
            Err(MQTTProtocolError::InvalidFixedHeaderFlags)
        } else {
            Ok(plain_flags(t))
        },
        None => {
            let low = byte % 16;
            let qos = (low / 2) % 4;
            if qos > 2 {
                Err(MQTTProtocolError::QoSLevelNotSupported(qos))
            } else {
                Ok(FixedHeaderFlags::Publish { dup: low / 8 == 1, qos, retain: low % 2 == 1 })
            }
        },
    }
}

/// The low four bits of a first byte, as MQTT 3.1.1 fixes them: 0b0010 for
/// PUBREL, SUBSCRIBE and UNSUBSCRIBE, 0 for every other type but PUBLISH,
/// any other value refused; for PUBLISH, bit 3 is dup, bits 1-2 the QoS (3
/// refused) and bit 0 retain.
pub proof fn lemma_fixed_header_flag_bits(t: ControlPacketType, b: u8)
    ensures
        (t == ControlPacketType::PubRel || t == ControlPacketType::Subscribe || t == ControlPacketType::Unsubscribe)
            ==> (spec_parse_flags(t, b) is Ok <==> b & 0x0F == 0x02),
        (t != ControlPacketType::PubRel && t != ControlPacketType::Subscribe && t != ControlPacketType::Unsubscribe
            && t != ControlPacketType::Publish) ==> (spec_parse_flags(t, b) is Ok <==> b & 0x0F == 0),
        t == ControlPacketType::Publish && (b >> 1u8) & 3 == 3 ==> spec_parse_flags(t, b) == Err::<
            FixedHeaderFlags,
            MQTTProtocolError,
        >(MQTTProtocolError::QoSLevelNotSupported(3)),
        t == ControlPacketType::Publish && (b >> 1u8) & 3 != 3 ==> spec_parse_flags(t, b) == Ok::<
            FixedHeaderFlags,
            MQTTProtocolError,
        >(FixedHeaderFlags::Publish { dup: b & 0x08 != 0, qos: (b >> 1u8) & 3, retain: b & 0x01 != 0 }),
{
    assert(b % 16 == b & 0x0F) by (bit_vector);
    assert(((b % 16) / 2) % 4 == (b >> 1u8) & 3) by (bit_vector);
    assert(((b % 16) / 8 == 1) == (b & 0x08 != 0)) by (bit_vector);
    assert(((b % 16) % 2 == 1) == (b & 0x01 != 0)) by (bit_vector);
}

proof fn lemma_publish_bits(low: u8)
    requires
        low < 16,
    ensures
        (low & 0b0000_1000) >> 3 == low / 8,
        (low & 0b0000_0110) >> 1 == (low / 2) % 4,
        low & 0b0000_0001 == low % 2,
{
    assert((low & 0b0000_1000) >> 3 == low / 8) by (bit_vector)
        requires
            low < 16,
    ;
    assert((low & 0b0000_0110) >> 1 == (low / 2) % 4) by (bit_vector);
    assert(low & 0b0000_0001 == low % 2) by (bit_vector);
}

impl FixedHeaderFlags {
    /// Checks the reserved flags, then reads the flags of the first byte.
    pub fn parse(control_packet_type: ControlPacketType, binary_byte: u8) -> (r: Result<Self, MQTTProtocolError>)
        ensures
            match (r, spec_parse_flags(control_packet_type, binary_byte)) {
                (Ok(f), Ok(sf)) => f == sf,
                (Err(MQTTProtocolError::InvalidFixedHeaderFlags), Err(MQTTProtocolError::InvalidFixedHeaderFlags)) => true,
                (Err(MQTTProtocolError::QoSLevelNotSupported(q)), Err(MQTTProtocolError::QoSLevelNotSupported(sq))) => q == sq,
                _ => false,
            },
    {
        match Self::verify(control_packet_type, binary_byte) {
            Ok(()) => {},
            Err(e) => return Err(e),
        }
        Self::create_factory(control_packet_type, binary_byte)
    }

    /// Checks that the flags of a packet type have their reserved value.
    pub fn verify(control_packet_type: ControlPacketType, binary_byte: u8) -> (r: Result<(), MQTTProtocolError>)
        ensures
            match reserved_flags(control_packet_type) {
                Some(v) => if binary_byte % 16 != v {
                    r matches Err(MQTTProtocolError::InvalidFixedHeaderFlags)
                } else {
                    r is Ok
                },
                None => r is Ok,
            },
    {
        match control_packet_type {
            ControlPacketType::Connect | ControlPacketType::ConnAck | ControlPacketType::PubAck
            | ControlPacketType::PubRec | ControlPacketType::PubComp | ControlPacketType::UnsubAck
            | ControlPacketType::PingReq | ControlPacketType::PingResp | ControlPacketType::Disconnect
            | ControlPacketType::SubAck => Self::check_reserved_value(binary_byte, 0b0000_0000),
            ControlPacketType::PubRel | ControlPacketType::Subscribe | ControlPacketType::Unsubscribe => {
                Self::check_reserved_value(binary_byte, 0b0000_0010)
            },
            ControlPacketType::Publish => Ok(()),
        }
    }

    /// Checks that the low nibble of a byte is the reserved value.
    pub fn check_reserved_value(binary_byte: u8, reserved_value: u8) -> (r: Result<(), MQTTProtocolError>)
        ensures
            binary_byte % 16 != reserved_value ==> r matches Err(MQTTProtocolError::InvalidFixedHeaderFlags),
            binary_byte % 16 == reserved_value ==> r is Ok,
    {
        if radix_handler::low_nibble(binary_byte) != reserved_value {
            return Err(MQTTProtocolError::InvalidFixedHeaderFlags);
        }
        Ok(())
    }

    fn create_factory(control_packet_type: ControlPacketType, binary_byte: u8) -> (r: Result<
        Self,
        MQTTProtocolError,
    >)
        ensures
            control_packet_type != ControlPacketType::Publish ==> r == Ok::<Self, MQTTProtocolError>(
                plain_flags(control_packet_type),
            ),
            control_packet_type == ControlPacketType::Publish ==> match (
                r,
                spec_parse_flags(ControlPacketType::Publish, binary_byte),
            ) {
                (Ok(f), Ok(sf)) => f == sf,
                (Err(MQTTProtocolError::QoSLevelNotSupported(q)), Err(MQTTProtocolError::QoSLevelNotSupported(sq))) => q == sq,
                _ => false,
            },
    {
        match control_packet_type {
            ControlPacketType::Publish => Self::create_publish_fixed_header_flags(binary_byte),
            ControlPacketType::Connect => Ok(FixedHeaderFlags::Connect),
            ControlPacketType::ConnAck => Ok(FixedHeaderFlags::ConnAck),
            ControlPacketType::PubAck => Ok(FixedHeaderFlags::PubAck),
            ControlPacketType::PubRec => Ok(FixedHeaderFlags::PubRec),
            ControlPacketType::PubRel => Ok(FixedHeaderFlags::PubRel),
            ControlPacketType::PubComp => Ok(FixedHeaderFlags::PubComp),
            ControlPacketType::Subscribe => Ok(FixedHeaderFlags::Subscribe),
            ControlPacketType::SubAck => Ok(FixedHeaderFlags::SubAck),
            ControlPacketType::Unsubscribe => Ok(FixedHeaderFlags::Unsubscribe),
            ControlPacketType::UnsubAck => Ok(FixedHeaderFlags::UnsubAck),
            ControlPacketType::PingReq => Ok(FixedHeaderFlags::PingReq),
            ControlPacketType::PingResp => Ok(FixedHeaderFlags::PingResp),
            ControlPacketType::Disconnect => Ok(FixedHeaderFlags::Disconnect),
        }
    }

    fn create_publish_fixed_header_flags(binary_byte: u8) -> (r: Result<Self, MQTTProtocolError>)
        ensures
            match (r, spec_parse_flags(ControlPacketType::Publish, binary_byte)) {
                (Ok(f), Ok(sf)) => f == sf,
                (Err(MQTTProtocolError::QoSLevelNotSupported(q)), Err(MQTTProtocolError::QoSLevelNotSupported(sq))) => q == sq,
                _ => false,
            },
    {
        let low4bits = radix_handler::low_nibble(binary_byte);
        proof {
            lemma_publish_bits(low4bits);
        }
        let dup = (low4bits & 0b0000_1000) >> 3 == 1;
        let qos = (low4bits & 0b0000_0110) >> 1;
        if qos > 2 {
            return Err(MQTTProtocolError::QoSLevelNotSupported(qos));
        }
        let retain = (low4bits & 0b0000_0001) == 1;
        Ok(FixedHeaderFlags::Publish { dup, qos, retain })
    }
}

} // verus!
