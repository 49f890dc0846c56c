//! The errors of the MQTT 3.1.1 parsers.
use crate::mqtt::v2::utils::code_error::{code_error_text, CodeError};
use crate::text::{concat, decimal, decimal_chars};
use vstd::prelude::*;

verus! {

#[derive(Debug)]
pub enum MQTTProtocolError {
    MalformedPacket,
    InvalidPacketType,
    InvalidFixedHeaderFlags,
    QoSLevelNotSupported(u8),
    MalformedRemainingLength,
    PacketTooShort,
    ProtocolNameError(String),
    CodeError(CodeError),
}

/// The text that describes a parser error.
pub open spec fn mqtt_protocol_error_text(e: MQTTProtocolError) -> Seq<char> {
    match e {
        MQTTProtocolError::MalformedPacket => "Malformed packet"@,
        MQTTProtocolError::InvalidPacketType => "Invalid packet type: reserved bits are forbidden to use"@,
        MQTTProtocolError::InvalidFixedHeaderFlags => "This Control Packet type reserved flag is invalid"@,
        MQTTProtocolError::QoSLevelNotSupported(q) => "QoS can support 0, 1, 2, the specified QoS "@
            + decimal_chars(q as nat) + " level is not supported"@,
        MQTTProtocolError::MalformedRemainingLength => "Remaining Length field is malformed"@,
        MQTTProtocolError::PacketTooShort => "Packet does not have enough bytes"@,
        MQTTProtocolError::ProtocolNameError(name) => "Protocol Name error: "@ + name@,
        MQTTProtocolError::CodeError(c) => "from CodeError: "@ + code_error_text(c),
    }
}

impl MQTTProtocolError {
    /// The parser error that a conversion error stands for.
    pub fn from_code_error(e: CodeError) -> (r: MQTTProtocolError)
        ensures
            r == MQTTProtocolError::CodeError(e),
    {
        MQTTProtocolError::CodeError(e)
    }

    /// The text that describes the error.
    pub fn message(&self) -> (r: String)
        ensures
            r@ == mqtt_protocol_error_text(*self),
    {
        match self {
            MQTTProtocolError::MalformedPacket => "Malformed packet".to_owned(),
            MQTTProtocolError::InvalidPacketType => "Invalid packet type: reserved bits are forbidden to use".to_owned(),
            MQTTProtocolError::InvalidFixedHeaderFlags => "This Control Packet type reserved flag is invalid".to_owned(),
            MQTTProtocolError::QoSLevelNotSupported(q) => {
                let a = concat("QoS can support 0, 1, 2, the specified QoS ", decimal(*q as u64).as_str());
                concat(a.as_str(), " level is not supported")
            },
            MQTTProtocolError::MalformedRemainingLength => "Remaining Length field is malformed".to_owned(),
            MQTTProtocolError::PacketTooShort => "Packet does not have enough bytes".to_owned(),
            MQTTProtocolError::ProtocolNameError(name) => concat("Protocol Name error: ", name.as_str()),
            MQTTProtocolError::CodeError(c) => concat("from CodeError: ", c.message().as_str()),
        }
    }
}

} // verus!
