//! UNSUBACK in MQTT 3.1.1: the acknowledgement to an unsubscribe.
use crate::buffer::{be_u16_bytes, bytes_advance, bytes_mut_extend, bytes_mut_put_u16, bytes_mut_seq, bytes_seq};
use crate::mqtt::common::{
    lemma_pkid_ack_roundtrip, pkid_ack_encoding, read_u16, spec_parse_fixed_header, spec_read_pkid,
    Error, FixedHeader, UnsubAck,
};
use bytes::{Bytes, BytesMut};
use vstd::prelude::*;

verus! {

pub fn write(unsuback: &UnsubAck, buffer: &mut BytesMut) -> (r: Result<usize, Error>)
    requires
        bytes_mut_seq(*old(buffer)).len() + 8 <= usize::MAX,
    ensures
        r == Ok::<usize, Error>(4),
        bytes_mut_seq(*final(buffer)) == bytes_mut_seq(*old(buffer)) + pkid_ack_encoding(0xB0, unsuback.pkid),
{
    let head: [u8; 2] = [0xB0, 0x02];
    bytes_mut_extend(buffer, &head);
    bytes_mut_put_u16(buffer, unsuback.pkid);
    proof {
        reveal_with_fuel(crate::mqtt::common::vbi_encode, 1);
        assert(crate::mqtt::common::vbi_encode(2) == seq![2u8]);
    }
    assert(bytes_mut_seq(*buffer) =~= bytes_mut_seq(*old(buffer)) + pkid_ack_encoding(0xB0, unsuback.pkid));
    Ok(4)
}

/// What reading an UNSUBACK packet from `s` gives.
pub open spec fn spec_unsuback_read(h: FixedHeader, s: Seq<u8>) -> Result<u16, Error> {
    if h.remaining_len != 2 {
        Err(Error::PayloadSizeIncorrect)
    } else {
        spec_read_pkid(s.skip(h.fixed_header_len as int))
    }
}

pub fn read(fixed_header: FixedHeader, bytes: Bytes) -> (r: Result<UnsubAck, Error>)
    requires
        fixed_header.fixed_header_len <= bytes_seq(bytes).len(),
    ensures
        match (r, spec_unsuback_read(fixed_header, bytes_seq(bytes))) {
            (Ok(u), Ok(pkid)) => u.pkid == pkid && u.reasons@.len() == 0,
            (Err(e), Err(se)) => e == se,
            _ => false,
        },
{
    if fixed_header.remaining_len != 2 {
        return Err(Error::PayloadSizeIncorrect);
    }
    let mut bytes = bytes;
    let variable_header_index = fixed_header.fixed_header_len;
    bytes_advance(&mut bytes, variable_header_index);
    let pkid = match read_u16(&mut bytes) {
        Ok(v) => v,
        Err(e) => return Err(e),
    };
    Ok(UnsubAck { pkid, reasons: Vec::new() })
}

/// An UNSUBACK that is written and read back carries the same packet
/// identifier and no reasons.
pub proof fn lemma_unsuback_roundtrip(pkid: u16)
    ensures
        spec_parse_fixed_header(pkid_ack_encoding(0xB0, pkid)) matches Ok(h) && h.byte1 == 0xB0
            && spec_unsuback_read(h, pkid_ack_encoding(0xB0, pkid)) == Ok::<u16, Error>(pkid),
{
    lemma_pkid_ack_roundtrip(0xB0, pkid);
}

} // verus!
