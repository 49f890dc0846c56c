//! The protocols a RobustMQ connection speaks, and what a codec keeps of
//! each connection besides its packets.
use crate::mqtt::common::MqttProtocol;
use kafka_protocol::messages::{RequestHeader, ResponseHeader};
use vstd::prelude::*;

verus! {

#[verifier::external_type_specification]
#[verifier::external_body]
pub struct ExRequestHeader(kafka_protocol::messages::RequestHeader);

#[verifier::external_type_specification]
#[verifier::external_body]
pub struct ExResponseHeader(kafka_protocol::messages::ResponseHeader);

/// `Clone` for a Kafka request header (derived field by field): the same
/// header.
pub assume_specification[ <kafka_protocol::messages::RequestHeader as core::clone::Clone>::clone ](
    h: &kafka_protocol::messages::RequestHeader,
) -> (r: kafka_protocol::messages::RequestHeader)
    ensures
        r == *h,
;

/// `Clone` for a Kafka response header (derived field by field): the same
/// header.
pub assume_specification[ <kafka_protocol::messages::ResponseHeader as core::clone::Clone>::clone ](
    h: &kafka_protocol::messages::ResponseHeader,
) -> (r: kafka_protocol::messages::ResponseHeader)
    ensures
        r == *h,
;

/// `RequestHeader::default`: the header with every number 0, an empty
/// client id and no tagged fields. Which value that is, is not stated here.
#[verifier::external_body]
fn default_request_header() -> (r: RequestHeader) {
    RequestHeader::default()
}

#[derive(Clone, Copy, Debug, PartialEq, Eq, Structural)]
pub enum RobustMQProtocol {
    MQTT3,
    MQTT4,
    MQTT5,
    KAFKA,
}

/// The name of a protocol.
pub open spec fn protocol_label(p: RobustMQProtocol) -> Seq<char> {
    match p {
        RobustMQProtocol::MQTT3 => "MQTT3"@,
        RobustMQProtocol::MQTT4 => "MQTT4"@,
        RobustMQProtocol::MQTT5 => "MQTT5"@,
        RobustMQProtocol::KAFKA => "KAFKA"@,
    }
}

/// The number of a protocol: the MQTT protocol level, 0 for Kafka.
pub open spec fn protocol_number(p: RobustMQProtocol) -> u8 {
    match p {
        RobustMQProtocol::MQTT3 => 3,
        RobustMQProtocol::MQTT4 => 4,
        RobustMQProtocol::MQTT5 => 5,
        RobustMQProtocol::KAFKA => 0,
    }
}

/// The protocol of an MQTT protocol level; any level but 4 and 5 reads as
/// MQTT 3.
pub open spec fn protocol_of_number(n: u8) -> RobustMQProtocol {
    if n == 4 {
        RobustMQProtocol::MQTT4
    } else if n == 5 {
        RobustMQProtocol::MQTT5
    } else {
        RobustMQProtocol::MQTT3
    }
}

/// The protocols by number and name: MQTT 3, 4 and 5 by their protocol
/// levels 3, 4 and 5 and the names `MQTT3`, `MQTT4`, `MQTT5`; Kafka by 0 and
/// `KAFKA`. A level of 4 or 5 reads back as that MQTT version, any other as
/// MQTT 3.
pub proof fn lemma_protocol_numbers(n: u8)
    ensures
        protocol_number(RobustMQProtocol::MQTT3) == 3 && protocol_label(RobustMQProtocol::MQTT3) == "MQTT3"@,
        protocol_number(RobustMQProtocol::MQTT4) == 4 && protocol_label(RobustMQProtocol::MQTT4) == "MQTT4"@,
        protocol_number(RobustMQProtocol::MQTT5) == 5 && protocol_label(RobustMQProtocol::MQTT5) == "MQTT5"@,
        protocol_number(RobustMQProtocol::KAFKA) == 0 && protocol_label(RobustMQProtocol::KAFKA) == "KAFKA"@,
        protocol_of_number(n) == if n == 4 {
            RobustMQProtocol::MQTT4
        } else if n == 5 {
            RobustMQProtocol::MQTT5
        } else {
            RobustMQProtocol::MQTT3
        },
{
}

impl RobustMQProtocol {
    pub fn is_mqtt(&self) -> (r: bool)
        ensures
            r == (*self != RobustMQProtocol::KAFKA),
    {
        *self == RobustMQProtocol::MQTT3 || *self == RobustMQProtocol::MQTT4 || *self
            == RobustMQProtocol::MQTT5
    }

    pub fn is_mqtt5(&self) -> (r: bool)
        ensures
            r == (*self == RobustMQProtocol::MQTT5),
    {
        *self == RobustMQProtocol::MQTT5
    }

    pub fn is_kafka(&self) -> (r: bool)
        ensures
            r == (*self == RobustMQProtocol::KAFKA),
    {
        *self == RobustMQProtocol::KAFKA
    }

    pub fn to_u8(&self) -> (r: u8)
        ensures
            r == protocol_number(*self),
    {
        match *self {
            RobustMQProtocol::MQTT3 => 3,
            RobustMQProtocol::MQTT4 => 4,
            RobustMQProtocol::MQTT5 => 5,
            RobustMQProtocol::KAFKA => 0,
        }
    }

    pub fn to_str(&self) -> (r: String)
        ensures
            r@ == protocol_label(*self),
    {
        match *self {
            RobustMQProtocol::MQTT3 => "MQTT3".to_owned(),
            RobustMQProtocol::MQTT4 => "MQTT4".to_owned(),
            RobustMQProtocol::MQTT5 => "MQTT5".to_owned(),
            RobustMQProtocol::KAFKA => "KAFKA".to_owned(),
        }
    }

    /// The MQTT protocol of this protocol; Kafka reads as MQTT 3.
    pub fn to_mqtt(&self) -> (r: MqttProtocol)
        ensures
            r == match *self {
                RobustMQProtocol::MQTT4 => MqttProtocol::Mqtt4,
                RobustMQProtocol::MQTT5 => MqttProtocol::Mqtt5,
                _ => MqttProtocol::Mqtt3,
            },
    {
        match *self {
            RobustMQProtocol::MQTT3 => MqttProtocol::Mqtt3,
            RobustMQProtocol::MQTT4 => MqttProtocol::Mqtt4,
            RobustMQProtocol::MQTT5 => MqttProtocol::Mqtt5,
            RobustMQProtocol::KAFKA => MqttProtocol::Mqtt3,
        }
    }

    pub fn from_u8(protocol: u8) -> (r: RobustMQProtocol)
        ensures
            r == protocol_of_number(protocol),
    {
        match protocol {
            4 => RobustMQProtocol::MQTT4,
            5 => RobustMQProtocol::MQTT5,
            _ => RobustMQProtocol::MQTT3,
        }
    }
}

/// An MQTT protocol reads back from its number; Kafka, numbered 0, reads
/// back as MQTT 3.
pub proof fn lemma_protocol_number_roundtrip(p: RobustMQProtocol)
    ensures
        p != RobustMQProtocol::KAFKA ==> protocol_of_number(protocol_number(p)) == p,
        p == RobustMQProtocol::KAFKA ==> protocol_of_number(protocol_number(p))
            == RobustMQProtocol::MQTT3,
{
}

#[derive(Clone, Debug, Default)]
pub struct MqttWrapperExtend {
    pub protocol_version: u8,
}

/// The header of a Kafka request or response.
#[derive(Clone, Debug)]
pub enum KafkaHeader {
    Request(RequestHeader),
    Response(ResponseHeader),
}

#[derive(Clone, Debug)]
pub struct KafkaWrapperExtend {
    pub api_version: i16,
    pub header: KafkaHeader,
}

#[derive(Clone, Debug)]
pub enum RobustMQWrapperExtend {
    MQTT(MqttWrapperExtend),
    KAFKA(KafkaWrapperExtend),
}

impl RobustMQWrapperExtend {
    /// The MQTT protocol level of the connection; 3 for a Kafka one.
    pub fn to_mqtt_protocol(&self) -> (r: u8)
        ensures
            r == match *self {
                RobustMQWrapperExtend::MQTT(e) => e.protocol_version,
                RobustMQWrapperExtend::KAFKA(_) => 3u8,
            },
    {
        match self {
            RobustMQWrapperExtend::MQTT(extend) => extend.protocol_version,
            RobustMQWrapperExtend::KAFKA(_) => 3,
        }
    }

    /// The request header of a Kafka connection; the default header for
    /// any other.
    pub fn get_kafka_header(&self) -> (r: RequestHeader)
        ensures
            self matches RobustMQWrapperExtend::KAFKA(e) ==> (e.header matches KafkaHeader::Request(
                req,
            ) ==> r == req),
    {
        match self {
            RobustMQWrapperExtend::KAFKA(extend) => match &extend.header {
                KafkaHeader::Request(req) => req.clone(),
                _ => default_request_header(),
            },
            _ => default_request_header(),
        }
    }
}

} // verus!
