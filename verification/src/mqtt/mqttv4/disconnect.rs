//! DISCONNECT in MQTT 3.1.1: two bytes, no reason code and no properties.
use crate::buffer::{bytes_mut_extend, bytes_mut_seq};
use crate::mqtt::common::{Disconnect, DisconnectReasonCode, Error};
use bytes::BytesMut;
use vstd::prelude::*;

verus! {

impl Disconnect {
    /// The disconnect that an MQTT 3.1.1 client sends.
    pub fn mqttv4() -> (r: Disconnect)
        ensures
            r.reason_code == Some(DisconnectReasonCode::NormalDisconnection),
    {
        Disconnect { reason_code: Some(DisconnectReasonCode::NormalDisconnection) }
    }
}

// In MQTT V4(3.1.1) there are no reason code and properties for disconnect packet
pub fn write(_disconnect: &Disconnect, payload: &mut BytesMut) -> (r: Result<usize, Error>)
    requires
        bytes_mut_seq(*old(payload)).len() + 2 <= usize::MAX,
    ensures
        r == Ok::<usize, Error>(2),
        bytes_mut_seq(*final(payload)) == bytes_mut_seq(*old(payload)) + seq![0xE0u8, 0x00u8],
{
    // 1110(14) is the packet type of disconnect, 0000 the reserved flags
    let bytes: [u8; 2] = [0xE0, 0x00];
    bytes_mut_extend(payload, &bytes);
    assert(bytes@ == seq![0xE0u8, 0x00u8]);
    Ok(2)
}

} // verus!
