//! The fixed header of an MQTT 3.1.1 packet: type, flags and remaining
//! length.
use crate::mqtt::v2::byte_adapter::byte_operations::ByteOperations;
use crate::mqtt::v2::mqttv4::control_packet_type::{spec_control_packet_type, ControlPacketType};
use crate::mqtt::v2::mqttv4::fixed_header_flags::{spec_parse_flags, FixedHeaderFlags};
use crate::mqtt::v2::mqttv4::mqtt_protocol_error::MQTTProtocolError;
use crate::mqtt::v2::mqttv4::remaining_length::remaining_length_parser::{
    self, remaining_length_result, spec_remaining_length,
};
use vstd::prelude::*;

verus! {

pub struct FixedHeader {
    pub control_packet_type: ControlPacketType,
    pub fixed_header_reserve_flags: FixedHeaderFlags,
    pub remaining_length: u32,
}

/// What parsing a fixed header from `s` gives; the error is described by
/// the error that the failing part reports.
pub open spec fn spec_fixed_header_parse(s: Seq<u8>) -> Result<
    (ControlPacketType, FixedHeaderFlags, u32),
    MQTTProtocolError,
> {
    if s.len() == 0 {
        Err(MQTTProtocolError::PacketTooShort)
    } else {
        match spec_control_packet_type(s[0] / 16) {
            None => Err(MQTTProtocolError::InvalidPacketType),
            Some(t) => match spec_parse_flags(t, s[0]) {
                Err(e) => Err(e),
                Ok(f) => match spec_remaining_length(s.skip(1)).0 {
                    Err(e) => Err(e),
                    Ok(len) => Ok((t, f, len)),
                },
            },
        }
    }
}

/// Whether an error is the described one.
pub open spec fn same_error(e: MQTTProtocolError, se: MQTTProtocolError) -> bool {
    match (e, se) {
        (MQTTProtocolError::PacketTooShort, MQTTProtocolError::PacketTooShort) => true,
        (MQTTProtocolError::InvalidPacketType, MQTTProtocolError::InvalidPacketType) => true,
        (MQTTProtocolError::InvalidFixedHeaderFlags, MQTTProtocolError::InvalidFixedHeaderFlags) => true,
        (MQTTProtocolError::MalformedRemainingLength, MQTTProtocolError::MalformedRemainingLength) => true,
        (MQTTProtocolError::QoSLevelNotSupported(q), MQTTProtocolError::QoSLevelNotSupported(sq)) => q == sq,
        _ => false,
    }
}

impl FixedHeader {
    pub fn parse<B: ByteOperations>(bytes: &mut B) -> (r: Result<FixedHeader, MQTTProtocolError>)
        ensures
            match (r, spec_fixed_header_parse(old(bytes).byte_seq())) {
                (Ok(h), Ok((t, f, len))) => h.control_packet_type == t && h.fixed_header_reserve_flags == f
                    && h.remaining_length == len && final(bytes).byte_seq() == spec_remaining_length(
                    old(bytes).byte_seq().skip(1),
                ).1,
                (Err(e), Err(se)) => same_error(e, se),
                _ => false,
            },
    {
        let first_byte = match bytes.read_a_byte() {
            Some(b) => b,
            None => return Err(MQTTProtocolError::PacketTooShort),
        };
        let control_packet_type = match ControlPacketType::parse(first_byte) {
            Ok(t) => t,
            Err(e) => return Err(e),
        };
        let fixed_header_reserve_flags = match FixedHeaderFlags::parse(control_packet_type, first_byte) {
            Ok(f) => f,
            Err(e) => return Err(e),
        };
        let remaining_length = match remaining_length_parser::parse(bytes) {
            Ok(l) => l,
            Err(e) => return Err(e),
        };
        Ok(FixedHeader { control_packet_type, fixed_header_reserve_flags, remaining_length })
    }
}

} // verus!
