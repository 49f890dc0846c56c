//! PUBCOMP in MQTT 3.1.1: the last acknowledgement of a QoS 2 exchange.
use crate::buffer::{bytes_advance, bytes_mut_put_u16, bytes_mut_put_u8, bytes_mut_seq, bytes_seq};
use crate::mqtt::common::{
    lemma_pkid_ack_roundtrip, pkid_ack_encoding, read_u16, spec_parse_fixed_header, spec_read_pkid,
    write_remaining_length, FixedHeader, PubComp, PubCompReason,
};
use crate::mqtt::mqtt_protocol_error::{spec_from_error, MQTTProtocolError};
use bytes::{Bytes, BytesMut};
use vstd::prelude::*;

verus! {

fn len() -> (r: usize)
    ensures
        r == 2,
{
    2  // pkid which is packet identifier

}

/// What reading a PUBCOMP packet from `s` gives.
pub open spec fn spec_pubcomp_read(h: FixedHeader, s: Seq<u8>) -> Result<PubComp, MQTTProtocolError> {
    match spec_read_pkid(s.skip(h.fixed_header_len as int)) {
        Err(e) => Err(spec_from_error(e)),
        Ok(pkid) => if h.remaining_len == 2 {
            Ok(PubComp { pkid, reason: Some(PubCompReason::Success) })
        } else {
            Err(MQTTProtocolError::InvalidRemainingLength(h.remaining_len))
        },
    }
}

pub fn read(fixed_header: FixedHeader, bytes: Bytes) -> (r: Result<PubComp, MQTTProtocolError>)
    requires
        fixed_header.fixed_header_len <= bytes_seq(bytes).len(),
    ensures
        r == spec_pubcomp_read(fixed_header, bytes_seq(bytes)),
{
    let mut bytes = bytes;
    let variable_header_index = fixed_header.fixed_header_len;
    bytes_advance(&mut bytes, variable_header_index);
    let pkid = match read_u16(&mut bytes) {
        Ok(v) => v,
        Err(e) => return Err(MQTTProtocolError::from_error(e)),
    };
    if fixed_header.remaining_len == 2 {
        Ok(PubComp { pkid, reason: Some(PubCompReason::Success) })
    } else {
        Err(MQTTProtocolError::InvalidRemainingLength(fixed_header.remaining_len))
    }
}

pub fn write(pubcomp: &PubComp, buffer: &mut BytesMut) -> (r: Result<usize, MQTTProtocolError>)
    requires
        bytes_mut_seq(*old(buffer)).len() + 8 <= usize::MAX,
    ensures
        r == Ok::<usize, MQTTProtocolError>(4),
        bytes_mut_seq(*final(buffer)) == bytes_mut_seq(*old(buffer)) + pkid_ack_encoding(0x70, pubcomp.pkid),
{
    let len = len();
    bytes_mut_put_u8(buffer, 0x70);
    let count = match write_remaining_length(buffer, len) {
        Ok(c) => c,
        Err(e) => return Err(MQTTProtocolError::from_error(e)),
    };
    bytes_mut_put_u16(buffer, pubcomp.pkid);
    assert(bytes_mut_seq(*buffer) =~= bytes_mut_seq(*old(buffer)) + pkid_ack_encoding(0x70, pubcomp.pkid));
    Ok(1 + count + len)
}

/// A PUBCOMP that is written and read back carries the same packet
/// identifier, with the reason Success.
pub proof fn lemma_pubcomp_roundtrip(p: PubComp)
    ensures
        spec_parse_fixed_header(pkid_ack_encoding(0x70, p.pkid)) matches Ok(h) && h.byte1 == 0x70
            && spec_pubcomp_read(h, pkid_ack_encoding(0x70, p.pkid)) == Ok::<PubComp, MQTTProtocolError>(
            PubComp { pkid: p.pkid, reason: Some(PubCompReason::Success) },
        ),
{
    lemma_pkid_ack_roundtrip(0x70, p.pkid);
}

} // verus!
