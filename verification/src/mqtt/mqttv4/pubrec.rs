//! PUBREC in MQTT 3.1.1: the first acknowledgement of a QoS 2 publish.
use crate::buffer::{bytes_advance, bytes_mut_put_u16, bytes_mut_put_u8, bytes_mut_seq, bytes_seq};
use crate::mqtt::common::{
    lemma_pkid_ack_roundtrip, pkid_ack_encoding, read_u16, spec_parse_fixed_header, spec_read_pkid,
    write_remaining_length, Error, FixedHeader, PubRec, PubRecReason,
};
use bytes::{Bytes, BytesMut};
use vstd::prelude::*;

verus! {

fn len() -> (r: usize)
    ensures
        r == 2,
{
    2  // pkid

}

/// What reading the packet from `s` gives.
pub open spec fn spec_pubrec_read(h: FixedHeader, s: Seq<u8>) -> Result<PubRec, Error> {
    match spec_read_pkid(s.skip(h.fixed_header_len as int)) {
        Err(e) => Err(e),
        Ok(pkid) => if h.remaining_len == 2 {
            Ok(PubRec { pkid, reason: Some(PubRecReason::Success) })
        } else {
            Err(Error::InvalidRemainingLength(h.remaining_len))
        },
    }
}

pub fn read(fixed_header: FixedHeader, bytes: Bytes) -> (r: Result<PubRec, Error>)
    requires
        fixed_header.fixed_header_len <= bytes_seq(bytes).len(),
    ensures
        r == spec_pubrec_read(fixed_header, bytes_seq(bytes)),
{
    let mut bytes = bytes;
    let variable_header_index = fixed_header.fixed_header_len;
    bytes_advance(&mut bytes, variable_header_index);
    let pkid = match read_u16(&mut bytes) {
        Ok(v) => v,
        Err(e) => return Err(e),
    };
    if fixed_header.remaining_len == 2 {
        Ok(PubRec { pkid, reason: Some(PubRecReason::Success) })
    } else {
        Err(Error::InvalidRemainingLength(fixed_header.remaining_len))
    }
}

pub fn write(pubrec: &PubRec, buffer: &mut BytesMut) -> (r: Result<usize, Error>)
    requires
        bytes_mut_seq(*old(buffer)).len() + 8 <= usize::MAX,
    ensures
        r == Ok::<usize, Error>(4),
        bytes_mut_seq(*final(buffer)) == bytes_mut_seq(*old(buffer)) + pkid_ack_encoding(0x50, pubrec.pkid),
{
    let len = len();
    bytes_mut_put_u8(buffer, 0x50);
    let count = match write_remaining_length(buffer, len) {
        Ok(c) => c,
        Err(e) => return Err(e),
    };
    bytes_mut_put_u16(buffer, pubrec.pkid);
    assert(bytes_mut_seq(*buffer) =~= bytes_mut_seq(*old(buffer)) + pkid_ack_encoding(0x50, pubrec.pkid));
    Ok(1 + count + len)
}

/// A packet that is written and read back carries the same packet
/// identifier, with the reason Success.
pub proof fn lemma_pubrec_roundtrip(p: PubRec)
    ensures
        spec_parse_fixed_header(pkid_ack_encoding(0x50, p.pkid)) matches Ok(h) && h.byte1 == 0x50
            && spec_pubrec_read(h, pkid_ack_encoding(0x50, p.pkid)) == Ok::<PubRec, Error>(
            PubRec { pkid: p.pkid, reason: Some(PubRecReason::Success) },
        ),
{
    lemma_pkid_ack_roundtrip(0x50, p.pkid);
}

} // verus!
