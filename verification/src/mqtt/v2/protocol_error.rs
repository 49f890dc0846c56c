//! The error of telling which protocol a connection speaks.
use crate::mqtt::v2::mqttv4::mqtt_protocol_error::{mqtt_protocol_error_text, MQTTProtocolError};
use crate::text::concat;
use vstd::prelude::*;

verus! {

#[derive(Debug)]
pub enum ProtocolError {
    UnknownProtocol,
    MQTTProtocolError(MQTTProtocolError),
}

/// The text that describes a protocol error.
pub open spec fn protocol_error_text(e: ProtocolError) -> Seq<char> {
    match e {
        ProtocolError::UnknownProtocol => "Unknown protocol"@,
        ProtocolError::MQTTProtocolError(m) => "from MQTTProtocolError: "@ + mqtt_protocol_error_text(m),
    }
}

impl From<MQTTProtocolError> for ProtocolError {
    fn from(e: MQTTProtocolError) -> (r: ProtocolError) {
        ProtocolError::MQTTProtocolError(e)
    }
}

impl vstd::std_specs::convert::FromSpecImpl<MQTTProtocolError> for ProtocolError {
    open spec fn obeys_from_spec() -> bool {
        true
    }

    open spec fn from_spec(e: MQTTProtocolError) -> ProtocolError {
        ProtocolError::MQTTProtocolError(e)
    }
}

impl ProtocolError {
    /// The protocol error that a parser error stands for.
    pub fn from_mqtt_error(e: MQTTProtocolError) -> (r: ProtocolError)
        ensures
            r == ProtocolError::MQTTProtocolError(e),
    {
        ProtocolError::MQTTProtocolError(e)
    }

    /// The text that describes the error.
    pub fn message(&self) -> (r: String)
        ensures
            r@ == protocol_error_text(*self),
    {
        match self {
            ProtocolError::UnknownProtocol => "Unknown protocol".to_owned(),
            ProtocolError::MQTTProtocolError(m) => concat("from MQTTProtocolError: ", m.message().as_str()),
        }
    }
}

} // verus!
