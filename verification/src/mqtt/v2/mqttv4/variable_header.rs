//! The variable header of an MQTT 3.1.1 packet.
use crate::mqtt::mqttv4::connect::{is_protocol_name, lemma_protocol_name};
use crate::mqtt::v2::byte_adapter::byte_operations::ByteOperations;
use crate::mqtt::v2::mqttv4::mqtt_protocol_error::MQTTProtocolError;
use crate::mqtt::v2::utils::utf::utf_8_handler::{self, spec_parse};
use vstd::prelude::*;
use vstd::utf8::{encode_utf8_decode_utf8};

verus! {

pub enum VariableHeader {
    Connect {
        protocol_level: u8,
        user_name_flag: bool,
        password_flag: bool,
        will_retain: bool,
        will_qos: u8,
        will_flag: bool,
        clean_session: bool,
        keep_alive: u16,
    },
    ConnAck,
    Publish,
    PubAck,
    PubRec,
    PubRel,
    PubComp,
    Subscribe,
    SubAck,
    Unsubscribe,
    UnsubAck,
    PingReq,
    PingResp,
    Disconnect,
}

impl VariableHeader {
    /// Reads the protocol name and checks that it is "MQTT".
    pub fn verify_protocol_name<B: ByteOperations>(bytes: &mut B) -> (r: Result<(), MQTTProtocolError>)
        ensures
            ({
                let (sr, rest) = spec_parse(old(bytes).byte_seq());
                &&& final(bytes).byte_seq() == rest
                &&& match (r, sr) {
                    (Ok(()), Ok(name)) => name == "MQTT"@,
                    (Err(MQTTProtocolError::ProtocolNameError(n)), Ok(name)) => n@ == name && name != "MQTT"@,
                    (Err(MQTTProtocolError::CodeError(e)), Err(se)) => e == se,
                    _ => false,
                }
            }),
    {
        let protocol_name = match utf_8_handler::parse(bytes) {
            Ok(n) => n,
            Err(e) => return Err(MQTTProtocolError::from_code_error(e)),
        };
        proof {
            lemma_protocol_name();
            encode_utf8_decode_utf8(protocol_name@);
            encode_utf8_decode_utf8("MQTT"@);
        }
        if !is_protocol_name(protocol_name.as_str().as_bytes()) {
            return Err(MQTTProtocolError::ProtocolNameError(protocol_name));
        }
        Ok(())
    }
}

} // verus!
