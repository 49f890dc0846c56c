//! The reason string and user properties of a PUBACK.
use crate::buffer::{bytes_mut_seq, bytes_seq};
use crate::mqtt::common::{PubAckProperties, MAX_REMAINING_LENGTH};
use crate::mqtt::mqtt_protocol_error::MQTTProtocolError;
use crate::mqtt::mqttv5::puback::{opt_props_view, spec_puback_props};
use crate::mqtt::mqttv5::{
    read_reason_props, reason_props_encoding, reason_props_len, reason_props_length, write_reason_props,
    ReasonPropsResult,
};
use bytes::{Bytes, BytesMut};
use vstd::prelude::*;

verus! {
pub fn len(properties: &PubAckProperties) -> (r: usize)
    requires
        reason_props_len(properties@) <= usize::MAX,
    ensures
        r == reason_props_len(properties@),
{
    reason_props_length(&properties.reason_string, &properties.user_properties)
}

pub fn write(properties: &PubAckProperties, buffer: &mut BytesMut) -> (r: Result<(), MQTTProtocolError>)
    requires
        bytes_mut_seq(*old(buffer)).len() + 4 + reason_props_len(properties@) <= usize::MAX,
    ensures
        reason_props_len(properties@) > MAX_REMAINING_LENGTH ==> r == Err::<(), MQTTProtocolError>(
            MQTTProtocolError::PayloadTooLong,
        ) && bytes_mut_seq(*final(buffer)) == bytes_mut_seq(*old(buffer)),
        reason_props_len(properties@) <= MAX_REMAINING_LENGTH ==> r == Ok::<(), MQTTProtocolError>(())
            && bytes_mut_seq(*final(buffer)) == bytes_mut_seq(*old(buffer)) + reason_props_encoding(
            properties@,
        ),
{
    match write_reason_props(&properties.reason_string, &properties.user_properties, buffer) {
        Ok(()) => Ok(()),
        Err(e) => Err(MQTTProtocolError::from_error(e)),
    }
}

pub fn read(bytes: &mut Bytes) -> (r: Result<Option<PubAckProperties>, MQTTProtocolError>)
    ensures
        match (r, spec_puback_props(bytes_seq(*old(bytes)))) {
            (Ok(p), Ok(sp)) => opt_props_view(p) == sp,
            (Err(e), Err(se)) => e == se,
            _ => false,
        },
{
    match read_reason_props(bytes) {
        ReasonPropsResult::Props(reason_string, user_properties) => Ok(
            Some(PubAckProperties { reason_string, user_properties }),
        ),
        ReasonPropsResult::NoProps => Ok(None),
        ReasonPropsResult::Failed(e) => Err(MQTTProtocolError::from_error(e)),
        ReasonPropsResult::Unexpected(p) => Err(MQTTProtocolError::InvalidPropertyType(p)),
    }
}

} // verus!
