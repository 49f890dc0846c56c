//! CONNACK in MQTT 3.1.1: acknowledge flags and a return code.
use crate::buffer::{bytes_advance, bytes_len, bytes_mut_put_u8, bytes_mut_seq, bytes_seq};
use crate::mqtt::common::{
    fixed_header_encoding, lemma_fixed_header_roundtrip, lemma_low_bit, read_u8,
    spec_parse_fixed_header, write_remaining_length, ConnAck, ConnectReturnCode, FixedHeader,
};
use crate::mqtt::mqtt_protocol_error::{spec_from_error, MQTTProtocolError};
use bytes::{Bytes, BytesMut};
use vstd::prelude::*;

verus! {

pub const MQTT_CONTROL_PACKET_TYPE_CONNACK: u8 = 0b0010_0000;

const MQTT_CONNECT_ACKNOWLEDGE_FLAGS_LENGTH: usize = 1;

const MQTT_CONNECT_RETURN_CODE_LENGTH: usize = 1;

fn remaining_length() -> (r: usize)
    ensures
        r == 2,
{
    // variable header length of connack is 2 bytes(connect acknowledge flags + connect return code)
    MQTT_CONNECT_ACKNOWLEDGE_FLAGS_LENGTH + MQTT_CONNECT_RETURN_CODE_LENGTH
}

/// The return code that a number stands for in MQTT 3.1.1.
pub open spec fn spec_connect_return(num: u8) -> Result<ConnectReturnCode, MQTTProtocolError> {
    if num == 0 {
        Ok(ConnectReturnCode::Success)
    } else if num == 1 {
        Ok(ConnectReturnCode::UnacceptableProtocolVersion)
    } else if num == 2 {
        Ok(ConnectReturnCode::IdentifierRejected)
    } else if num == 3 {
        Ok(ConnectReturnCode::ServiceUnavailable)
    } else if num == 4 {
        Ok(ConnectReturnCode::BadUserNamePassword)
    } else if num == 5 {
        Ok(ConnectReturnCode::NotAuthorized)
    } else {
        Err(MQTTProtocolError::InvalidConnectReturnCode(num))
    }
}

/// The return codes that MQTT 3.1.1 has.
pub open spec fn is_v4_return_code(code: ConnectReturnCode) -> bool {
    code == ConnectReturnCode::Success || code == ConnectReturnCode::UnacceptableProtocolVersion
        || code == ConnectReturnCode::IdentifierRejected || code
        == ConnectReturnCode::ServiceUnavailable || code == ConnectReturnCode::BadUserNamePassword
        || code == ConnectReturnCode::NotAuthorized
}

/// The number of an MQTT 3.1.1 return code.
pub open spec fn spec_connect_code(code: ConnectReturnCode) -> u8 {
    if code == ConnectReturnCode::Success {
        0
    } else if code == ConnectReturnCode::UnacceptableProtocolVersion {
        1
    } else if code == ConnectReturnCode::IdentifierRejected {
        2
    } else if code == ConnectReturnCode::ServiceUnavailable {
        3
    } else if code == ConnectReturnCode::BadUserNamePassword {
        4
    } else {
        5
    }
}

/// The bytes of a CONNACK packet.
pub open spec fn connack_encoding(c: ConnAck) -> Seq<u8> {
    fixed_header_encoding(MQTT_CONTROL_PACKET_TYPE_CONNACK, 2) + seq![
        if c.session_present {
            1u8
        } else {
            0u8
        },
        spec_connect_code(c.code),
    ]
}

/// What reading a CONNACK packet from `s` gives.
pub open spec fn spec_connack_read(h: FixedHeader, s: Seq<u8>) -> Result<ConnAck, MQTTProtocolError> {
    let v = s.skip(h.fixed_header_len as int);
    if v.len() < 2 {
        Err(MQTTProtocolError::MalformedPacket)
    } else {
        match spec_connect_return(v[1]) {
            Ok(code) => Ok(ConnAck { session_present: v[0] % 2 == 1, code }),
            Err(e) => Err(e),
        }
    }
}

pub fn read(fixed_header: FixedHeader, bytes: Bytes) -> (r: Result<ConnAck, MQTTProtocolError>)
    requires
        fixed_header.fixed_header_len <= bytes_seq(bytes).len(),
    ensures
        r == spec_connack_read(fixed_header, bytes_seq(bytes)),
{
    let mut bytes = bytes;
    let variable_header_index = fixed_header.fixed_header_len;
    bytes_advance(&mut bytes, variable_header_index);
    let flags = match read_u8(&mut bytes) {
        Ok(v) => v,
        Err(e) => return Err(MQTTProtocolError::from_error(e)),
    };
    let return_code = match read_u8(&mut bytes) {
        Ok(v) => v,
        Err(e) => return Err(MQTTProtocolError::from_error(e)),
    };
    proof {
        lemma_low_bit(flags);
    }
    let session_present = (flags & 0x01) == 1;
    let code = match connect_return(return_code) {
        Ok(c) => c,
        Err(e) => return Err(e),
    };
    Ok(ConnAck { session_present, code })
}

pub fn write(connack: &ConnAck, buffer: &mut BytesMut) -> (r: Result<usize, MQTTProtocolError>)
    requires
        is_v4_return_code(connack.code),
        bytes_mut_seq(*old(buffer)).len() + 8 <= usize::MAX,
    ensures
        r == Ok::<usize, MQTTProtocolError>(4),
        bytes_mut_seq(*final(buffer)) == bytes_mut_seq(*old(buffer)) + connack_encoding(*connack),
{
    // write the first byte 0010 0000 to demonstrate this packet type
    // as a connack(connection acknowledgement)
    bytes_mut_put_u8(buffer, MQTT_CONTROL_PACKET_TYPE_CONNACK);
    let len = remaining_length();
    let count = match write_remaining_length(buffer, len) {
        Ok(c) => c,
        Err(e) => return Err(MQTTProtocolError::from_error(e)),
    };
    // variable header
    bytes_mut_put_u8(buffer, if connack.session_present { 1 } else { 0 });
    bytes_mut_put_u8(buffer, connect_code(connack.code));
    assert(bytes_mut_seq(*buffer) =~= bytes_mut_seq(*old(buffer)) + connack_encoding(*connack));
    Ok(1 + count + len)
}

fn connect_return(num: u8) -> (r: Result<ConnectReturnCode, MQTTProtocolError>)
    ensures
        r == spec_connect_return(num),
{
    match num {
        0 => Ok(ConnectReturnCode::Success),
        1 => Ok(ConnectReturnCode::UnacceptableProtocolVersion),
        2 => Ok(ConnectReturnCode::IdentifierRejected),
        3 => Ok(ConnectReturnCode::ServiceUnavailable),
        4 => Ok(ConnectReturnCode::BadUserNamePassword),
        5 => Ok(ConnectReturnCode::NotAuthorized),
        num => Err(MQTTProtocolError::InvalidConnectReturnCode(num)),
    }
}

fn connect_code(return_code: ConnectReturnCode) -> (r: u8)
    requires
        is_v4_return_code(return_code),
    ensures
        r == spec_connect_code(return_code),
{
    match return_code {
        ConnectReturnCode::Success => 0,
        ConnectReturnCode::UnacceptableProtocolVersion => 1,
        ConnectReturnCode::IdentifierRejected => 2,
        ConnectReturnCode::ServiceUnavailable => 3,
        ConnectReturnCode::BadUserNamePassword => 4,
        _ => 5,
    }
}

/// A CONNACK that is written and read back is the same CONNACK.
pub proof fn lemma_connack_roundtrip(c: ConnAck)
    requires
        is_v4_return_code(c.code),
    ensures
        spec_parse_fixed_header(connack_encoding(c)) matches Ok(h) && h.byte1
            == MQTT_CONTROL_PACKET_TYPE_CONNACK && h.remaining_len == 2 && spec_connack_read(
            h,
            connack_encoding(c),
        ) == Ok::<ConnAck, MQTTProtocolError>(c),
{
    let body = seq![if c.session_present { 1u8 } else { 0u8 }, spec_connect_code(c.code)];
    lemma_fixed_header_roundtrip(MQTT_CONTROL_PACKET_TYPE_CONNACK, 2, body);
    let e = connack_encoding(c);
    assert(e.skip(2) =~= body);
}

/// A CONNACK is the first byte 0x20, remaining length 2, the session-present
/// flag as 1 or 0, and the MQTT 3.1.1 return code: 0 accepted, 1
/// unacceptable protocol version, 2 identifier rejected, 3 server
/// unavailable, 4 bad user name or password, 5 not authorized. Reading one
/// gives the session-present flag from bit 0 of the third byte and the
/// return code that the fourth byte names, and refuses any other number.
pub proof fn lemma_connack_bytes(c: ConnAck, f: u8, n: u8)
    ensures
        ({
            let sp: u8 = if c.session_present { 1u8 } else { 0u8 };
            &&& c.code == ConnectReturnCode::Success ==> connack_encoding(c) == seq![0x20u8, 2u8, sp, 0u8]
            &&& c.code == ConnectReturnCode::UnacceptableProtocolVersion ==> connack_encoding(c) == seq![0x20u8, 2u8, sp, 1u8]
            &&& c.code == ConnectReturnCode::IdentifierRejected ==> connack_encoding(c) == seq![0x20u8, 2u8, sp, 2u8]
            &&& c.code == ConnectReturnCode::ServiceUnavailable ==> connack_encoding(c) == seq![0x20u8, 2u8, sp, 3u8]
            &&& c.code == ConnectReturnCode::BadUserNamePassword ==> connack_encoding(c) == seq![0x20u8, 2u8, sp, 4u8]
            &&& c.code == ConnectReturnCode::NotAuthorized ==> connack_encoding(c) == seq![0x20u8, 2u8, sp, 5u8]
        }),
        ({
            let s = seq![0x20u8, 2u8, f, n];
            spec_parse_fixed_header(s) matches Ok(h) && spec_connack_read(h, s) == match n {
                0u8 => Ok::<ConnAck, MQTTProtocolError>(ConnAck { session_present: f & 0x01 != 0, code: ConnectReturnCode::Success }),
                1u8 => Ok::<ConnAck, MQTTProtocolError>(ConnAck { session_present: f & 0x01 != 0, code: ConnectReturnCode::UnacceptableProtocolVersion }),
                2u8 => Ok::<ConnAck, MQTTProtocolError>(ConnAck { session_present: f & 0x01 != 0, code: ConnectReturnCode::IdentifierRejected }),
                3u8 => Ok::<ConnAck, MQTTProtocolError>(ConnAck { session_present: f & 0x01 != 0, code: ConnectReturnCode::ServiceUnavailable }),
                4u8 => Ok::<ConnAck, MQTTProtocolError>(ConnAck { session_present: f & 0x01 != 0, code: ConnectReturnCode::BadUserNamePassword }),
                5u8 => Ok::<ConnAck, MQTTProtocolError>(ConnAck { session_present: f & 0x01 != 0, code: ConnectReturnCode::NotAuthorized }),
                _ => Err::<ConnAck, MQTTProtocolError>(MQTTProtocolError::InvalidConnectReturnCode(n)),
            }
        }),
{
    assert(crate::mqtt::common::vbi_encode(2) =~= seq![2u8]);
    let s = seq![0x20u8, 2u8, f, n];
    lemma_fixed_header_roundtrip(0x20, 2, s.skip(2));
    assert(fixed_header_encoding(0x20, 2) + s.skip(2) =~= s);
    assert(s.skip(2) =~= seq![f, n]);
    lemma_low_bit(f);
    let sp: u8 = if c.session_present { 1u8 } else { 0u8 };
    assert(connack_encoding(c) =~= seq![0x20u8, 2u8, sp, spec_connect_code(c.code)]);
}

} // verus!
