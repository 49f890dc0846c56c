//! PUBACK in MQTT 3.1.1: the acknowledgement to a QoS 1 publish.
use crate::buffer::{bytes_advance, bytes_mut_put_u16, bytes_mut_put_u8, bytes_mut_seq, bytes_seq};
use crate::mqtt::common::{
    lemma_pkid_ack_roundtrip, pkid_ack_encoding, read_u16, spec_parse_fixed_header, spec_read_pkid,
    write_remaining_length, FixedHeader, PubAck, PubAckReason,
};
use crate::mqtt::mqtt_protocol_error::{spec_from_error, MQTTProtocolError};
use bytes::{Bytes, BytesMut};
use vstd::prelude::*;

verus! {

fn len() -> (r: usize)
    ensures
        r == 2,
{
    2  // pkid - publish identifier

}

/// What reading a PUBACK packet from `s` gives.
pub open spec fn spec_puback_read(h: FixedHeader, s: Seq<u8>) -> Result<PubAck, MQTTProtocolError> {
    if h.remaining_len != 2 {
        Err(MQTTProtocolError::InvalidRemainingLength(h.remaining_len))
    } else {
        match spec_read_pkid(s.skip(h.fixed_header_len as int)) {
            Ok(pkid) => Ok(PubAck { pkid, reason: Some(PubAckReason::Success) }),
            Err(e) => Err(spec_from_error(e)),
        }
    }
}

pub fn read(fixed_header: FixedHeader, bytes: Bytes) -> (r: Result<PubAck, MQTTProtocolError>)
    requires
        fixed_header.fixed_header_len <= bytes_seq(bytes).len(),
    ensures
        r == spec_puback_read(fixed_header, bytes_seq(bytes)),
{
    let mut bytes = bytes;
    let variable_header_index = fixed_header.fixed_header_len;
    bytes_advance(&mut bytes, variable_header_index);
    if fixed_header.remaining_len != 2 {
        return Err(MQTTProtocolError::InvalidRemainingLength(fixed_header.remaining_len));
    }
    let pkid = match read_u16(&mut bytes) {
        Ok(v) => v,
        Err(e) => return Err(MQTTProtocolError::from_error(e)),
    };
    Ok(PubAck { pkid, reason: Some(PubAckReason::Success) })
}

pub fn write(puback: &PubAck, buffer: &mut BytesMut) -> (r: Result<usize, MQTTProtocolError>)
    requires
        bytes_mut_seq(*old(buffer)).len() + 8 <= usize::MAX,
    ensures
        r == Ok::<usize, MQTTProtocolError>(4),
        bytes_mut_seq(*final(buffer)) == bytes_mut_seq(*old(buffer)) + pkid_ack_encoding(0x40, puback.pkid),
{
    let len = len();
    bytes_mut_put_u8(buffer, 0x40);
    let count = match write_remaining_length(buffer, len) {
        Ok(c) => c,
        Err(e) => return Err(MQTTProtocolError::from_error(e)),
    };
    bytes_mut_put_u16(buffer, puback.pkid);
    assert(bytes_mut_seq(*buffer) =~= bytes_mut_seq(*old(buffer)) + pkid_ack_encoding(0x40, puback.pkid));
    Ok(1 + count + len)
}

/// A PUBACK that is written and read back carries the same packet
/// identifier, with the reason Success.
pub proof fn lemma_puback_roundtrip(p: PubAck)
    ensures
        spec_parse_fixed_header(pkid_ack_encoding(0x40, p.pkid)) matches Ok(h) && h.byte1 == 0x40
            && spec_puback_read(h, pkid_ack_encoding(0x40, p.pkid)) == Ok::<PubAck, MQTTProtocolError>(
            PubAck { pkid: p.pkid, reason: Some(PubAckReason::Success) },
        ),
{
    lemma_pkid_ack_roundtrip(0x40, p.pkid);
}

} // verus!
