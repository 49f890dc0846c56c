//! Reading the remaining length: seven bits per byte, least significant
//! first, at most four bytes.
use crate::mqtt::common::{lemma_vbi_byte, lemma_vbi_roundtrip, vbi_decode, vbi_encode, vbi_scan, Error, MAX_REMAINING_LENGTH};
use crate::mqtt::v2::byte_adapter::byte_operations::ByteOperations;
use crate::mqtt::v2::mqttv4::mqtt_protocol_error::MQTTProtocolError;
use crate::mqtt::vbi::{lemma_vbi_decode_closed_form, vbi_ends_at, vbi_groups_value, vbi_unterminated};
use vstd::prelude::*;

verus! {

const MAX_MULTIPLIER: u32 = 2097152;

/// What reading the remaining length from `s` gives: the value and the
/// bytes it took, or the error and the bytes read before it.
pub open spec fn spec_remaining_length(s: Seq<u8>) -> (Result<u32, MQTTProtocolError>, Seq<u8>) {
    match vbi_decode(s) {
        Ok((c, v)) => (Ok(v as u32), s.skip(c as int)),
        Err(Error::MalformedRemainingLength) => (Err(MQTTProtocolError::MalformedRemainingLength), s.skip(4)),
        Err(_) => (Err(MQTTProtocolError::PacketTooShort), Seq::empty()),
    }
}

/// Whether a parse result is the described one.
pub open spec fn remaining_length_result(r: Result<u32, MQTTProtocolError>, s: Result<u32, MQTTProtocolError>) -> bool {
    match (r, s) {
        (Ok(v), Ok(sv)) => v == sv,
        (Err(MQTTProtocolError::MalformedRemainingLength), Err(MQTTProtocolError::MalformedRemainingLength)) => true,
        (Err(MQTTProtocolError::PacketTooShort), Err(MQTTProtocolError::PacketTooShort)) => true,
        _ => false,
    }
}

pub fn parse<B: ByteOperations>(bytes_ops: &mut B) -> (r: Result<u32, MQTTProtocolError>)
    ensures
        remaining_length_result(r, spec_remaining_length(old(bytes_ops).byte_seq()).0),
        final(bytes_ops).byte_seq() == spec_remaining_length(old(bytes_ops).byte_seq()).1,
{
    let ghost orig = bytes_ops.byte_seq();
    let mut value: u32 = 0;
    let mut multiplier: u32 = 1;
    let mut bytes_read: usize = 0;
    loop
        invariant
            orig == old(bytes_ops).byte_seq(),
            bytes_read <= 3,
            (bytes_read == 0 && multiplier == 1) || (bytes_read == 1 && multiplier == 128) || (bytes_read == 2
                && multiplier == 16384) || (bytes_read == 3 && multiplier == 2097152),
            value < multiplier,
            bytes_read <= orig.len(),
            bytes_ops.byte_seq() == orig.skip(bytes_read as int),
            vbi_decode(orig) == vbi_scan(orig, bytes_read as nat, value as nat, multiplier as nat),
        decreases 4 - bytes_read,
    {
        let current_byte = match bytes_ops.read_a_byte() {
            Some(b) => b,
            None => {
                assert(orig.skip(bytes_read as int).len() == 0);
                assert(bytes_ops.byte_seq() =~= Seq::<u8>::empty());
                return Err(MQTTProtocolError::PacketTooShort);
            },
        };
        assert(orig[bytes_read as int] == current_byte);
        assert(orig.skip(bytes_read as int).skip(1) =~= orig.skip(bytes_read + 1));
        bytes_read = bytes_read + 1;
        proof {
            lemma_vbi_byte(current_byte);
        }
        value = value + calculate_current_value(current_byte, multiplier);
        if is_end_byte(current_byte) {
            return Ok(value);
        }
        if exceeds_max_multiplier(multiplier) {
            return Err(MQTTProtocolError::MalformedRemainingLength);
        }
        if exceeds_max_bytes(bytes_read) {
            return Err(MQTTProtocolError::MalformedRemainingLength);
        }
        multiplier = multiplier * 128;
    }
}

fn calculate_current_value(encoded_byte: u8, multiplier: u32) -> (r: u32)
    requires
        multiplier <= 2097152,
    ensures
        r == (encoded_byte % 128) * multiplier,
{
    proof {
        lemma_vbi_byte(encoded_byte);
    }
    let low = (encoded_byte & 0x7F) as u32;
    assert(low * multiplier <= 127 * 2097152) by (nonlinear_arith)
        requires
            low <= 127,
            multiplier <= 2097152,
    ;
    low * multiplier
}

fn is_end_byte(encoded_byte: u8) -> (r: bool)
    ensures
        r == (encoded_byte < 128),
{
    proof {
        lemma_vbi_byte(encoded_byte);
    }
    (encoded_byte & 0x80) == 0
}

fn exceeds_max_multiplier(multiplier: u32) -> (r: bool)
    ensures
        r == (multiplier > MAX_MULTIPLIER),
{
    multiplier > MAX_MULTIPLIER
}

fn exceeds_max_bytes(bytes_read: usize) -> (r: bool)
    ensures
        r == (bytes_read == 4),
{
    bytes_read == 4
}

/// A remaining length that the packet codecs write reads back here, with
/// what follows left in the buffer.
pub proof fn lemma_remaining_length_roundtrip(n: nat, rest: Seq<u8>)
    requires
        n <= MAX_REMAINING_LENGTH,
    ensures
        spec_remaining_length(vbi_encode(n) + rest).0 matches Ok(v) && v == n,
        spec_remaining_length(vbi_encode(n) + rest).1 == rest,
{
    lemma_vbi_roundtrip(n, rest);
    assert((vbi_encode(n) + rest).skip(vbi_encode(n).len() as int) =~= rest);
}

/// The remaining length in closed form: where the `k`-th byte is the first
/// of the first four with bit 7 clear, the value is the sum of the seven-bit
/// groups of those `k` bytes times powers of 128 and exactly `k` bytes are
/// taken; where none of the first four ends it, fewer than four bytes are
/// too short and four or more are malformed, with four bytes taken.
pub proof fn lemma_remaining_length_closed_form(s: Seq<u8>, k: nat)
    ensures
        vbi_ends_at(s, k) ==> spec_remaining_length(s).0 == Ok::<u32, MQTTProtocolError>(
            vbi_groups_value(s, k) as u32,
        ) && spec_remaining_length(s).1 == s.skip(k as int),
        vbi_unterminated(s) && s.len() < 4 ==> spec_remaining_length(s) == (
            Err::<u32, MQTTProtocolError>(MQTTProtocolError::PacketTooShort),
            Seq::<u8>::empty(),
        ),
        vbi_unterminated(s) && s.len() >= 4 ==> spec_remaining_length(s) == (
            Err::<u32, MQTTProtocolError>(MQTTProtocolError::MalformedRemainingLength),
            s.skip(4),
        ),
{
    lemma_vbi_decode_closed_form(s, k);
}

} // verus!
