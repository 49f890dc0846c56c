//! Reading, checking and writing MQTT's length-prefixed UTF-8 strings.
use crate::buffer::{be_u16_bytes, be_u16_value, string_from_utf8};
use crate::mqtt::v2::byte_adapter::byte_operations::ByteOperations;
use crate::mqtt::v2::utils::code_error::CodeError;
use crate::mqtt::v2::utils::radix::radix_handler;
use vstd::prelude::*;
use vstd::std_specs::iter::IteratorSpec;
use vstd::slice::slice_to_vec;
use vstd::utf8::{encode_utf8_decode_utf8, encode_utf8_valid_utf8, valid_utf8};

verus! {

/// Whether MQTT forbids a character in its strings: the null character,
/// the C0 and C1 controls and the non-characters, the byte order mark
/// excepted.
pub open spec fn mqtt_forbidden(v: u32) -> bool {
    v != 0xFEFF && (v <= 0x001F || (0x007F <= v && v <= 0x009F) || (0xFDD0 <= v && v <= 0xFDEF) || (0xFFFE
        <= v && v <= 0xFFFF))
}

/// The first character of `cs` that MQTT forbids, if any.
pub open spec fn first_forbidden(cs: Seq<char>) -> Option<u32>
    decreases cs.len(),
{
    if cs.len() == 0 {
        None
    } else if mqtt_forbidden(cs[0] as u32) {
        Some(cs[0] as u32)
    } else {
        first_forbidden(cs.drop_first())
    }
}

/// What checking bytes for an MQTT string gives.
pub open spec fn spec_verify_for_mqtt(b: Seq<u8>) -> Result<(), CodeError> {
    if !valid_utf8(b) {
        Err(CodeError::UTF8DecodingError)
    } else {
        match first_forbidden(vstd::utf8::decode_utf8(b)) {
            Some(v) => Err(CodeError::MQTTInvalidCode(v)),
            None => Ok(()),
        }
    }
}

/// The number of bytes `want` of `s` that can be had.
pub open spec fn available(want: nat, s: Seq<u8>) -> int {
    if want < s.len() {
        want as int
    } else {
        s.len() as int
    }
}

/// What reading an MQTT string from `s` gives, and the bytes left.
pub open spec fn spec_parse(s: Seq<u8>) -> (Result<Seq<char>, CodeError>, Seq<u8>) {
    let r1 = s.skip(available(2, s));
    if s.len() < 2 {
        (Err(CodeError::CodeLengthError(2, s.len() as usize)), r1)
    } else {
        let n = available(be_u16_value(s) as nat, r1);
        let b = r1.take(n);
        let r2 = r1.skip(n);
        match spec_verify_for_mqtt(b) {
            Err(e) => (Err(e), r2),
            Ok(()) => (Ok(vstd::utf8::decode_utf8(b)), r2),
        }
    }
}

pub fn parse<B: ByteOperations>(byte_opts: &mut B) -> (r: Result<String, CodeError>)
    ensures
        ({
            let (sr, rest) = spec_parse(old(byte_opts).byte_seq());
            &&& final(byte_opts).byte_seq() == rest
            &&& match (r, sr) {
                (Ok(v), Ok(sv)) => v@ == sv,
                (Err(e), Err(se)) => e == se,
                _ => false,
            }
        }),
{
    let utf_8_length = match calculate_str_length(byte_opts) {
        Ok(n) => n,
        Err(e) => return Err(e),
    };
    read_str(byte_opts, utf_8_length)
}

/// Reads two bytes of length.
pub fn calculate_str_length<B: ByteOperations>(byte_opts: &mut B) -> (r: Result<u16, CodeError>)
    ensures
        final(byte_opts).byte_seq() == old(byte_opts).byte_seq().skip(available(2, old(byte_opts).byte_seq())),
        old(byte_opts).byte_seq().len() < 2 ==> (r matches Err(CodeError::CodeLengthError(e, g)) && e == 2 && g
            == old(byte_opts).byte_seq().len()),
        old(byte_opts).byte_seq().len() >= 2 ==> (r matches Ok(v) && v == be_u16_value(old(byte_opts).byte_seq())),
{
    let length_bytes = byte_opts.read_bytes(2);
    radix_handler::be_bytes_to_u16(length_bytes.as_slice())
}

/// Reads up to `utf_8_length` bytes and checks them as an MQTT string.
pub fn read_str<B: ByteOperations>(byte_opts: &mut B, utf_8_length: u16) -> (r: Result<String, CodeError>)
    ensures
        ({
            let s = old(byte_opts).byte_seq();
            let n = available(utf_8_length as nat, s);
            &&& final(byte_opts).byte_seq() == s.skip(n)
            &&& match (r, spec_verify_for_mqtt(s.take(n))) {
                (Ok(v), Ok(())) => v@ == vstd::utf8::decode_utf8(s.take(n)),
                (Err(e), Err(se)) => e == se,
                _ => false,
            }
        }),
{
    let string_bytes = byte_opts.read_bytes(utf_8_length as usize);
    match verify_for_mqtt(string_bytes.as_slice()) {
        Ok(()) => {},
        Err(e) => return Err(e),
    }
    decode_utf8(string_bytes)
}

/// Checks that bytes are UTF-8 without the characters MQTT forbids.
pub fn verify_for_mqtt(string_bytes: &[u8]) -> (r: Result<(), CodeError>)
    ensures
        match (r, spec_verify_for_mqtt(string_bytes@)) {
            (Ok(()), Ok(())) => true,
            (Err(e), Err(se)) => e == se,
            _ => false,
        },
{
    broadcast use vstd::string::axiom_spec_iter, vstd::string::next_postcondition;

    let text = match string_from_utf8(slice_to_vec(string_bytes)) {
        Some(t) => t,
        None => return Err(CodeError::UTF8DecodingError),
    };
    let s = text.as_str();
    let ghost all = s@;
    let mut chars = s.chars();
    assert(chars.remaining() == all);
    loop
        invariant
            all == vstd::utf8::decode_utf8(string_bytes@),
            valid_utf8(string_bytes@),
            first_forbidden(all) == first_forbidden(chars.remaining()),
            chars.decrease() is Some,
        ensures
            first_forbidden(all) is None,
        decreases chars.decrease()->0,
    {
        let ghost before = chars.remaining();
        let next = chars.next();
        match next {
            None => {
                assert(before.len() == 0);
                break;
            },
            Some(c) => {
                let value = c as u32;
                if value == 0xFEFF {
                    continue;
                }
                if value <= 0x001F || (0x007F <= value && value <= 0x009F) || (0xFDD0 <= value && value
                    <= 0xFDEF) || (0xFFFE <= value && value <= 0xFFFF) {
                    return Err(CodeError::MQTTInvalidCode(value));
                }
            },
        }
    }
    Ok(())
}

/// The text that UTF-8 bytes spell.
pub fn decode_utf8(string_bytes: Vec<u8>) -> (r: Result<String, CodeError>)
    ensures
        valid_utf8(string_bytes@) ==> (r matches Ok(s) && s@ == vstd::utf8::decode_utf8(string_bytes@)),
        !valid_utf8(string_bytes@) ==> (r matches Err(CodeError::UTF8DecodingError)),
{
    match string_from_utf8(string_bytes) {
        Some(s) => Ok(s),
        None => Err(CodeError::UTF8DecodingError),
    }
}

/// The UTF-8 bytes of a text.
pub fn encode_utf8(input: &str) -> (r: Vec<u8>)
    ensures
        r@ == vstd::utf8::encode_utf8(input@),
{
    slice_to_vec(input.as_bytes())
}

/// Writes a text as an MQTT string: two bytes of length, then its UTF-8
/// bytes.
pub fn write_utf8_for_mqtt<B: ByteOperations>(byte_opts: &mut B, input: &str) -> (r: Result<(), CodeError>)
    requires
        old(byte_opts).byte_seq().len() + 2 + vstd::utf8::encode_utf8(input@).len() <= usize::MAX,
    ensures
        ({
            let b = vstd::utf8::encode_utf8(input@);
            &&& first_forbidden(input@) matches Some(v) ==> (r matches Err(CodeError::MQTTInvalidCode(x)) && x == v
                && final(byte_opts).byte_seq() == old(byte_opts).byte_seq())
            &&& first_forbidden(input@) is None && b.len() > 65535 ==> (r matches Err(
                CodeError::UsizeConversionError(n, t),
            ) && n == b.len() && t@ == "u16"@ && final(byte_opts).byte_seq() == old(byte_opts).byte_seq())
            &&& first_forbidden(input@) is None && b.len() <= 65535 ==> r is Ok && final(byte_opts).byte_seq()
                == old(byte_opts).byte_seq() + be_u16_bytes(b.len() as u16) + b
        }),
{
    let string_bytes = encode_utf8(input);
    proof {
        encode_utf8_valid_utf8(input@);
        encode_utf8_decode_utf8(input@);
    }
    match verify_for_mqtt(string_bytes.as_slice()) {
        Ok(()) => {},
        Err(e) => return Err(e),
    }
    let length_bytes = match radix_handler::u16_to_be_2_bytes(string_bytes.len()) {
        Ok(b) => b,
        Err(e) => return Err(e),
    };
    byte_opts.write_bytes(&length_bytes);
    byte_opts.write_bytes(string_bytes.as_slice());
    Ok(())
}

/// An MQTT string that is written and read back gives the same text,
/// whatever follows it: a text without forbidden characters whose UTF-8
/// bytes fit a two-byte length.
pub proof fn lemma_utf8_roundtrip(input: Seq<char>, rest: Seq<u8>)
    requires
        first_forbidden(input) is None,
        vstd::utf8::encode_utf8(input).len() <= 65535,
    ensures
        spec_parse(be_u16_bytes(vstd::utf8::encode_utf8(input).len() as u16) + vstd::utf8::encode_utf8(input)
            + rest) == (Ok::<Seq<char>, CodeError>(input), rest),
{
    let b = vstd::utf8::encode_utf8(input);
    let s = be_u16_bytes(b.len() as u16) + b + rest;
    crate::buffer::lemma_be_u16_roundtrip(b.len() as u16);
    assert(be_u16_value(s) == b.len()) by {
        assert(s[0] == be_u16_bytes(b.len() as u16)[0]);
        assert(s[1] == be_u16_bytes(b.len() as u16)[1]);
    }
    let r1 = s.skip(2);
    assert(r1 =~= b + rest);
    assert(r1.take(b.len() as int) =~= b);
    assert(r1.skip(b.len() as int) =~= rest);
    encode_utf8_valid_utf8(input);
    encode_utf8_decode_utf8(input);
}

} // verus!
