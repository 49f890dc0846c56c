//! The error that the MQTT 3.1.1 and 5.0 packet codecs report.
use crate::mqtt::common::Error;
use vstd::prelude::*;

verus! {

#[derive(Debug, Clone, PartialEq, Eq)]
pub enum MQTTProtocolError {
    InvalidConnectReturnCode(u8),
    InvalidReason(u8),
    InvalidRemainingLength(usize),
    InvalidProtocol,
    InvalidProtocolName,
    InvalidProtocolLevel(u8),
    ReservedSetError,
    IncorrectPacketFormat,
    InvalidPacketType(u8),
    InvalidRetainForwardRule(u8),
    InvalidQoS(u8),
    PayloadTooLong,
    PayloadNotUtf8,
    BoundaryCrossed(usize),
    MalformedPacket,
    MalformedRemainingLength,
    InsufficientBytes(usize),
    PacketIdZero,
    PayloadSizeLimitExceeded(usize),
    EmptySubscription,
    InvalidSubscribeReasonCode(u8),
    TopicNotUtf8,
    PayloadSizeIncorrect,
    InvalidPropertyType(u8),
}

/// The protocol error that stands for a codec error: the same kind, the
/// same payload.
pub open spec fn spec_from_error(e: Error) -> MQTTProtocolError {
    match e {
        Error::InvalidConnectReturnCode(c) => MQTTProtocolError::InvalidConnectReturnCode(c),
        Error::InvalidReason(c) => MQTTProtocolError::InvalidReason(c),
        Error::InvalidRemainingLength(n) => MQTTProtocolError::InvalidRemainingLength(n),
        Error::InvalidProtocol => MQTTProtocolError::InvalidProtocol,
        Error::InvalidProtocolLevel(l) => MQTTProtocolError::InvalidProtocolLevel(l),
        Error::IncorrectPacketFormat => MQTTProtocolError::IncorrectPacketFormat,
        Error::InvalidPacketType(t) => MQTTProtocolError::InvalidPacketType(t),
        Error::InvalidRetainForwardRule(r) => MQTTProtocolError::InvalidRetainForwardRule(r),
        Error::InvalidQoS(q) => MQTTProtocolError::InvalidQoS(q),
        Error::PayloadTooLong => MQTTProtocolError::PayloadTooLong,
        Error::PayloadNotUtf8 => MQTTProtocolError::PayloadNotUtf8,
        Error::BoundaryCrossed(n) => MQTTProtocolError::BoundaryCrossed(n),
        Error::MalformedPacket => MQTTProtocolError::MalformedPacket,
        Error::MalformedRemainingLength => MQTTProtocolError::MalformedRemainingLength,
        Error::InsufficientBytes(n) => MQTTProtocolError::InsufficientBytes(n),
        Error::PacketIdZero => MQTTProtocolError::PacketIdZero,
        Error::PayloadSizeLimitExceeded(n) => MQTTProtocolError::PayloadSizeLimitExceeded(n),
        Error::EmptySubscription => MQTTProtocolError::EmptySubscription,
        Error::InvalidSubscribeReasonCode(c) => MQTTProtocolError::InvalidSubscribeReasonCode(c),
        Error::TopicNotUtf8 => MQTTProtocolError::TopicNotUtf8,
        Error::PayloadSizeIncorrect => MQTTProtocolError::PayloadSizeIncorrect,
        Error::InvalidPropertyType(p) => MQTTProtocolError::InvalidPropertyType(p),
    }
}

impl MQTTProtocolError {
    /// The protocol error that stands for a codec error.
    pub fn from_error(e: Error) -> (r: MQTTProtocolError)
        ensures
            r == spec_from_error(e),
    {
        match e {
            Error::InvalidConnectReturnCode(c) => MQTTProtocolError::InvalidConnectReturnCode(c),
            Error::InvalidReason(c) => MQTTProtocolError::InvalidReason(c),
            Error::InvalidRemainingLength(n) => MQTTProtocolError::InvalidRemainingLength(n),
            Error::InvalidProtocol => MQTTProtocolError::InvalidProtocol,
            Error::InvalidProtocolLevel(l) => MQTTProtocolError::InvalidProtocolLevel(l),
            Error::IncorrectPacketFormat => MQTTProtocolError::IncorrectPacketFormat,
            Error::InvalidPacketType(t) => MQTTProtocolError::InvalidPacketType(t),
            Error::InvalidRetainForwardRule(r) => MQTTProtocolError::InvalidRetainForwardRule(r),
            Error::InvalidQoS(q) => MQTTProtocolError::InvalidQoS(q),
            Error::PayloadTooLong => MQTTProtocolError::PayloadTooLong,
            Error::PayloadNotUtf8 => MQTTProtocolError::PayloadNotUtf8,
            Error::BoundaryCrossed(n) => MQTTProtocolError::BoundaryCrossed(n),
            Error::MalformedPacket => MQTTProtocolError::MalformedPacket,
            Error::MalformedRemainingLength => MQTTProtocolError::MalformedRemainingLength,
            Error::InsufficientBytes(n) => MQTTProtocolError::InsufficientBytes(n),
            Error::PacketIdZero => MQTTProtocolError::PacketIdZero,
            Error::PayloadSizeLimitExceeded(n) => MQTTProtocolError::PayloadSizeLimitExceeded(n),
            Error::EmptySubscription => MQTTProtocolError::EmptySubscription,
            Error::InvalidSubscribeReasonCode(c) => MQTTProtocolError::InvalidSubscribeReasonCode(c),
            Error::TopicNotUtf8 => MQTTProtocolError::TopicNotUtf8,
            Error::PayloadSizeIncorrect => MQTTProtocolError::PayloadSizeIncorrect,
            Error::InvalidPropertyType(p) => MQTTProtocolError::InvalidPropertyType(p),
        }
    }
}

} // verus!
