//! Conversions between bytes, nibbles and big-endian 16-bit numbers.
use crate::buffer::{be_u16_bytes, be_u16_value};
use crate::mqtt::v2::utils::code_error::CodeError;
use vstd::prelude::*;

verus! {

/// The low four bits of a byte.
pub fn low_nibble(binary_byte: u8) -> (r: u8)
    ensures
        r == binary_byte % 16,
{
    proof {
        crate::mqtt::common::lemma_low_nibble(binary_byte);
    }
    binary_byte & 0x0F
}

/// The high four bits of a byte, as a number.
pub fn high_nibble(binary_byte: u8) -> (r: u8)
    ensures
        r == binary_byte / 16,
{
    proof {
        crate::mqtt::common::lemma_high_nibble(binary_byte);
    }
    binary_byte >> 4
}

pub fn binary_byte_to_decimal(binary_byte: u8) -> (r: u8)
    ensures
        r == binary_byte,
{
    binary_byte
}

pub fn decimal_to_binary_byte(decimal_value: u8) -> (r: u8)
    ensures
        r == decimal_value,
{
    decimal_value
}

/// The number that the first two bytes spell, most significant first.
pub fn be_bytes_to_u16(bytes: &[u8]) -> (r: Result<u16, CodeError>)
    ensures
        bytes@.len() < 2 ==> (r matches Err(CodeError::CodeLengthError(e, g)) && e == 2 && g == bytes@.len()),
        bytes@.len() >= 2 ==> (r matches Ok(v) && v == be_u16_value(bytes@)),
{
    if bytes.len() < 2 {
        return Err(CodeError::CodeLengthError(2, bytes.len()));
    }
    Ok((bytes[0] as u16) * 256 + bytes[1] as u16)
}

/// The two bytes of a length that fits 16 bits, most significant first.
pub fn u16_to_be_2_bytes(length: usize) -> (r: Result<[u8; 2], CodeError>)
    ensures
        length > 65535 ==> (r matches Err(CodeError::UsizeConversionError(v, t)) && v == length && t@
            == "u16"@),
        length <= 65535 ==> (r matches Ok(b) && b@ == be_u16_bytes(length as u16)),
{
    if length > 65535 {
        return Err(CodeError::UsizeConversionError(length, "u16"));
    }
    let length_u16 = length as u16;
    let b: [u8; 2] = [(length_u16 / 256) as u8, (length_u16 % 256) as u8];
    assert(b@ =~= be_u16_bytes(length as u16));
    Ok(b)
}

} // verus!
