//! AUTH in MQTT 5.0: a reason code and the properties of an authentication
//! exchange.
pub mod properties;
pub mod roundtrip;

use crate::buffer::{bytes_advance, bytes_mut_put_u8, bytes_mut_seq, bytes_seq};
use crate::mqtt::common::{
    len_len, lemma_high_nibble, lemma_low_nibble, read_u8, spec_len_len, spec_read_u8, vbi_encode,
    write_remaining_length, Auth, AuthProperties, AuthPropertiesView, AuthReason, FixedHeader,
    MAX_REMAINING_LENGTH,
};
use crate::mqtt::mqtt_protocol_error::{spec_from_error, MQTTProtocolError};
use self::properties::{auth_props_body, auth_props_len, opt_auth_props_view, spec_auth_props_read};
use bytes::{Bytes, BytesMut};
use vstd::prelude::*;

verus! {

/// The code of an AUTH reason.
pub open spec fn auth_code(r: AuthReason) -> u8 {
    match r {
        AuthReason::Success => 0x00,
        AuthReason::ContinueAuthentication => 0x18,
        AuthReason::ReAuthenticate => 0x19,
    }
}

/// The AUTH reason that a code names.
pub open spec fn spec_auth_reason(code: u8) -> Option<AuthReason> {
    if code == 0x00 {
        Some(AuthReason::Success)
    } else if code == 0x18 {
        Some(AuthReason::ContinueAuthentication)
    } else if code == 0x19 {
        Some(AuthReason::ReAuthenticate)
    } else {
        None
    }
}

/// The remaining length that an AUTH announces: 2 for Success without
/// properties, else the properties with their length; the reason code is
/// not counted.
pub open spec fn auth_len(reason: AuthReason, props: Option<AuthPropertiesView>) -> nat {
    if reason == AuthReason::Success && props is None {
        2
    } else {
        match props {
            Some(p) => spec_len_len(auth_props_len(p)) + auth_props_len(p),
            None => 1,
        }
    }
}

/// The bytes of an AUTH.
pub open spec fn auth_encoding(reason: AuthReason, props: Option<AuthPropertiesView>) -> Seq<u8> {
    if auth_len(reason, props) == 2 {
        seq![0xF0u8, 0x00u8]
    } else {
        seq![0xF0u8] + vbi_encode(auth_len(reason, props)) + seq![auth_code(reason)] + match props {
            Some(p) => vbi_encode(auth_props_len(p)) + auth_props_body(p),
            None => seq![0u8],
        }
    }
}

/// What reading an AUTH packet from `s` gives.
pub open spec fn spec_auth_read(h: FixedHeader, s: Seq<u8>) -> Result<
    (AuthReason, Option<AuthPropertiesView>),
    MQTTProtocolError,
> {
    let packet_type = h.byte1 / 16;
    let flags = h.byte1 % 16;
    if packet_type != 15 {
        Err(MQTTProtocolError::InvalidPacketType(packet_type))
    } else if flags != 0 {
        Err(MQTTProtocolError::MalformedPacket)
    } else if h.remaining_len == 0 {
        Ok((AuthReason::Success, None))
    } else {
        match spec_read_u8(s.skip(h.fixed_header_len as int)) {
            (Err(e), _) => Err(spec_from_error(e)),
            (Ok(code), r1) => match spec_auth_reason(code) {
                None => Err(MQTTProtocolError::InvalidConnectReturnCode(code)),
                Some(reason) => match spec_auth_props_read(r1) {
                    Err(e) => Err(e),
                    Ok(p) => Ok((reason, p)),
                },
            },
        }
    }
}

pub fn len(auth: &Auth, properties: &Option<AuthProperties>) -> (r: usize)
    requires
        auth.reason is Some,
        match properties {
            Some(p) => auth_props_len(p@) + 8 <= usize::MAX,
            None => true,
        },
    ensures
        r == auth_len(auth.reason->Some_0, opt_auth_props_view(*properties)),
{
    // The Reason Code and Property Length can be omitted if the Reason Code is 0x00(Success)
    // and there are no properties. In this case the AUTH packet has a remaining length of 2.
    if auth.reason.unwrap() == AuthReason::Success && properties.is_none() {
        return 2;  // Packet type + 0x00
    }
    let mut len: usize = 0;
    if let Some(p) = properties {
        let properties_len = properties::len(p);
        let properties_len_len = len_len(properties_len);
        len = len + properties_len_len + properties_len;
    } else {
        // just 1 byte representing 0 len
        len = len + 1;
    }
    len
}

pub fn write(auth: &Auth, properties: &Option<AuthProperties>, buffer: &mut BytesMut) -> (r: Result<
    usize,
    MQTTProtocolError,
>)
    requires
        auth.reason is Some,
        bytes_mut_seq(*old(buffer)).len() + 16 + match properties {
            Some(p) => auth_props_len(p@),
            None => 0,
        } <= usize::MAX,
        match properties {
            Some(p) => auth_props_len(p@) + 8 <= usize::MAX,
            None => true,
        },
    ensures
        ({
            let reason = auth.reason->Some_0;
            let props = opt_auth_props_view(*properties);
            let n = auth_len(reason, props);
            let old_b = bytes_mut_seq(*old(buffer));
            let new_b = bytes_mut_seq(*final(buffer));
            &&& n == 2 ==> r == Ok::<usize, MQTTProtocolError>(2) && new_b == old_b + auth_encoding(reason, props)
            &&& n != 2 && n > MAX_REMAINING_LENGTH ==> r == Err::<usize, MQTTProtocolError>(
                MQTTProtocolError::PayloadTooLong,
            ) && new_b == old_b.push(0xF0)
            &&& n != 2 && n <= MAX_REMAINING_LENGTH ==> r == Ok::<usize, MQTTProtocolError>(
                (1 + spec_len_len(n) + n) as usize,
            ) && new_b == old_b + auth_encoding(reason, props)
        }),
{
    let ghost props = opt_auth_props_view(*properties);
    let len = len(auth, properties);
    bytes_mut_put_u8(buffer, 0b1111_0000);
    if len == 2 {
        bytes_mut_put_u8(buffer, 0x00);  // reason code Success (0x00)
        assert(bytes_mut_seq(*buffer) =~= bytes_mut_seq(*old(buffer)) + auth_encoding(auth.reason->Some_0, props));
        return Ok(len);
    }
    let count = match write_remaining_length(buffer, len) {
        Ok(c) => c,
        Err(e) => return Err(MQTTProtocolError::from_error(e)),
    };
    bytes_mut_put_u8(buffer, code(auth.reason.unwrap()));
    if let Some(p) = properties {
        match properties::write(p, buffer) {
            Ok(()) => {},
            Err(e) => return Err(e),
        }
    } else {
        match write_remaining_length(buffer, 0) {
            Ok(_) => {},
            Err(e) => return Err(MQTTProtocolError::from_error(e)),
        }
        proof {
            reveal_with_fuel(vbi_encode, 1);
        }
    }
    assert(bytes_mut_seq(*buffer) =~= bytes_mut_seq(*old(buffer)) + auth_encoding(auth.reason->Some_0, props));
    Ok(1 + count + len)
}

pub fn read(fixed_header: FixedHeader, bytes: Bytes) -> (r: Result<(Auth, Option<AuthProperties>), MQTTProtocolError>)
    requires
        fixed_header.fixed_header_len <= bytes_seq(bytes).len(),
    ensures
        match (r, spec_auth_read(fixed_header, bytes_seq(bytes))) {
            (Ok((a, p)), Ok((sr, sp))) => a.reason == Some(sr) && opt_auth_props_view(p) == sp,
            (Err(e), Err(se)) => e == se,
            _ => false,
        },
{
    proof {
        lemma_high_nibble(fixed_header.byte1);
        lemma_low_nibble(fixed_header.byte1);
    }
    let packet_type = fixed_header.byte1 >> 4;
    let flags = fixed_header.byte1 & 0b0000_1111;
    let mut buf = bytes;
    bytes_advance(&mut buf, fixed_header.fixed_header_len);
    if packet_type != 15 {
        return Err(MQTTProtocolError::InvalidPacketType(packet_type));
    }
    if flags != 0x00 {
        return Err(MQTTProtocolError::MalformedPacket);
    }
    if fixed_header.remaining_len == 0 {
        return Ok((Auth { reason: Some(AuthReason::Success) }, None));
    }
    let reason_code = match read_u8(&mut buf) {
        Ok(v) => v,
        Err(e) => return Err(MQTTProtocolError::from_error(e)),
    };
    let auth = Auth {
        reason: Some(
            match reason(reason_code) {
                Ok(r) => r,
                Err(e) => return Err(e),
            },
        ),
    };
    let properties = match properties::read(&mut buf) {
        Ok(p) => p,
        Err(e) => return Err(e),
    };
    Ok((auth, properties))
}

fn code(reason: AuthReason) -> (r: u8)
    ensures
        r == auth_code(reason),
        spec_auth_reason(r) == Some(reason),
{
    match reason {
        AuthReason::Success => 0x00,
        AuthReason::ContinueAuthentication => 0x18,
        AuthReason::ReAuthenticate => 0x19,
    }
}

fn reason(code: u8) -> (r: Result<AuthReason, MQTTProtocolError>)
    ensures
        match spec_auth_reason(code) {
            Some(x) => r == Ok::<AuthReason, MQTTProtocolError>(x),
            None => r == Err::<AuthReason, MQTTProtocolError>(MQTTProtocolError::InvalidConnectReturnCode(code)),
        },
{
    match code {
        0x00 => Ok(AuthReason::Success),
        0x18 => Ok(AuthReason::ContinueAuthentication),
        0x19 => Ok(AuthReason::ReAuthenticate),
        other => Err(MQTTProtocolError::InvalidConnectReturnCode(other)),
    }
}

/// An AUTH carries its reason as the MQTT 5.0 reason code: 0x00 success,
/// 0x18 continue authentication, 0x19 re-authenticate. Written without
/// properties, an AUTH whose reason is not success is the first byte 0xF0,
/// remaining length 1, the code and a property length of 0, and a success
/// is 0xF0 0x00. Reading an AUTH of remaining length 2 whose properties
/// are empty gives the reason that its code names, and refuses any other
/// code.
pub proof fn lemma_auth_reason_codes(n: u8)
    ensures
        auth_encoding(AuthReason::Success, None) == seq![0xF0u8, 0x00u8],
        auth_encoding(AuthReason::ContinueAuthentication, None) == seq![0xF0u8, 0x01u8, 0x18u8, 0x00u8],
        auth_encoding(AuthReason::ReAuthenticate, None) == seq![0xF0u8, 0x01u8, 0x19u8, 0x00u8],
        ({
            let s = seq![0xF0u8, 2u8, n, 0u8];
            crate::mqtt::common::spec_parse_fixed_header(s) matches Ok(h) && spec_auth_read(h, s) == match n {
                0x00u8 => Ok::<(AuthReason, Option<AuthPropertiesView>), MQTTProtocolError>((AuthReason::Success, None)),
                0x18u8 => Ok::<(AuthReason, Option<AuthPropertiesView>), MQTTProtocolError>(
                    (AuthReason::ContinueAuthentication, None),
                ),
                0x19u8 => Ok::<(AuthReason, Option<AuthPropertiesView>), MQTTProtocolError>(
                    (AuthReason::ReAuthenticate, None),
                ),
                _ => Err::<(AuthReason, Option<AuthPropertiesView>), MQTTProtocolError>(
                    MQTTProtocolError::InvalidConnectReturnCode(n),
                ),
            }
        }),
{
    assert(vbi_encode(1) =~= seq![1u8]);
    assert(vbi_encode(2) =~= seq![2u8]);
    assert(vbi_encode(0) =~= seq![0u8]);
    let s = seq![0xF0u8, 2u8, n, 0u8];
    crate::mqtt::common::lemma_fixed_header_roundtrip(0xF0, 2, s.skip(2));
    assert(crate::mqtt::common::fixed_header_encoding(0xF0, 2) + s.skip(2) =~= s);
    assert(s.skip(2) =~= seq![n, 0u8]);
    assert(seq![n, 0u8].skip(1) =~= seq![0u8]);
    crate::mqtt::common::lemma_vbi_roundtrip(0, Seq::empty());
    assert(vbi_encode(0) + Seq::<u8>::empty() =~= seq![0u8]);
    assert(0xF0u8 / 16 == 15 && 0xF0u8 % 16 == 0);
}

} // verus!
