//! PUBACK in MQTT 5.0: the packet identifier, then a reason code and
//! properties where they say more than Success.
pub mod properties;

use crate::buffer::{be_u16_bytes, bytes_advance, bytes_mut_put_u16, bytes_mut_put_u8, bytes_mut_seq, bytes_seq};
use crate::mqtt::common::{
    fixed_header_encoding, len_len, lemma_fixed_header_roundtrip, lemma_vbi_encode_len, read_u16, read_u8,
    spec_len_len, spec_parse_fixed_header, spec_read_u16, spec_read_u8, vbi_encode, write_remaining_length,
    Error, FixedHeader, PubAck, PubAckProperties, PubAckReason, ReasonPropertiesView, MAX_REMAINING_LENGTH,
};
use crate::mqtt::mqtt_protocol_error::{spec_from_error, MQTTProtocolError};
use crate::mqtt::mqttv5::{
    lemma_reason_props_roundtrip, reason_props_encoding, reason_props_fit, reason_props_len, spec_read_reason_props,
    ReasonPropsRead,
};
use bytes::{Bytes, BytesMut};
use vstd::prelude::*;

verus! {

/// The reason code that stands for a PUBACK reason.
pub open spec fn puback_code(r: PubAckReason) -> u8 {
    match r {
        PubAckReason::Success => 0,
        PubAckReason::NoMatchingSubscribers => 16,
        PubAckReason::UnspecifiedError => 128,
        PubAckReason::ImplementationSpecificError => 131,
        PubAckReason::NotAuthorized => 135,
        PubAckReason::TopicNameInvalid => 144,
        PubAckReason::PacketIdentifierInUse => 145,
        PubAckReason::QuotaExceeded => 151,
        PubAckReason::PayloadFormatInvalid => 153,
    }
}

/// The PUBACK reason that a code names.
pub open spec fn spec_puback_reason(num: u8) -> Option<PubAckReason> {
    if num == 0 {
        Some(PubAckReason::Success)
    } else if num == 16 {
        Some(PubAckReason::NoMatchingSubscribers)
    } else if num == 128 {
        Some(PubAckReason::UnspecifiedError)
    } else if num == 131 {
        Some(PubAckReason::ImplementationSpecificError)
    } else if num == 135 {
        Some(PubAckReason::NotAuthorized)
    } else if num == 144 {
        Some(PubAckReason::TopicNameInvalid)
    } else if num == 145 {
        Some(PubAckReason::PacketIdentifierInUse)
    } else if num == 151 {
        Some(PubAckReason::QuotaExceeded)
    } else if num == 153 {
        Some(PubAckReason::PayloadFormatInvalid)
    } else {
        None
    }
}

/// The view of optional properties.
pub open spec fn opt_props_view(p: Option<PubAckProperties>) -> Option<ReasonPropertiesView> {
    match p {
        Some(p) => Some(p@),
        None => None,
    }
}

/// Whether a PUBACK is written short: Success without properties.
pub open spec fn puback_short(reason: Option<PubAckReason>, props: Option<ReasonPropertiesView>) -> bool {
    reason == Some(PubAckReason::Success) && props is None
}

/// The remaining length of a PUBACK.
pub open spec fn puback_body_len(reason: Option<PubAckReason>, props: Option<ReasonPropertiesView>) -> nat {
    if puback_short(reason, props) {
        2
    } else {
        3 + match props {
            Some(p) => spec_len_len(reason_props_len(p)) + reason_props_len(p),
            None => 1,
        }
    }
}

/// The bytes of a PUBACK.
pub open spec fn puback_encoding(pkid: u16, reason: Option<PubAckReason>, props: Option<ReasonPropertiesView>) -> Seq<u8> {
    if puback_short(reason, props) {
        fixed_header_encoding(0x40, 2) + be_u16_bytes(pkid)
    } else {
        fixed_header_encoding(0x40, puback_body_len(reason, props)) + be_u16_bytes(pkid) + (match reason {
            Some(r) => seq![puback_code(r)],
            None => Seq::empty(),
        }) + match props {
            Some(p) => reason_props_encoding(p),
            None => seq![0u8],
        }
    }
}

/// What reading the properties gives.
pub open spec fn spec_puback_props(s: Seq<u8>) -> Result<Option<ReasonPropertiesView>, MQTTProtocolError> {
    match spec_read_reason_props(s) {
        ReasonPropsRead::Props(r, u) => Ok(Some(ReasonPropertiesView { reason_string: r, user_properties: u })),
        ReasonPropsRead::NoProps => Ok(None),
        ReasonPropsRead::Failed(e) => Err(spec_from_error(e)),
        ReasonPropsRead::Unexpected(p) => Err(MQTTProtocolError::InvalidPropertyType(p)),
    }
}

/// What reading a PUBACK packet from `s` gives.
pub open spec fn spec_puback5_read(h: FixedHeader, s: Seq<u8>) -> Result<
    (PubAck, Option<ReasonPropertiesView>),
    MQTTProtocolError,
> {
    match spec_read_u16(s.skip(h.fixed_header_len as int)) {
        (Err(e), _) => Err(spec_from_error(e)),
        (Ok(pkid), r1) => if h.remaining_len == 2 {
            Ok((PubAck { pkid, reason: Some(PubAckReason::Success) }, None))
        } else {
            match spec_read_u8(r1) {
                (Err(e), _) => Err(spec_from_error(e)),
                (Ok(code), r2) => match spec_puback_reason(code) {
                    None => Err(MQTTProtocolError::InvalidConnectReturnCode(code)),
                    Some(reason) => if h.remaining_len < 4 {
                        Ok((PubAck { pkid, reason: Some(reason) }, None))
                    } else {
                        match spec_puback_props(r2) {
                            Err(e) => Err(e),
                            Ok(p) => Ok((PubAck { pkid, reason: Some(reason) }, p)),
                        }
                    },
                },
            }
        },
    }
}

fn len(puback: &PubAck, properties: &Option<PubAckProperties>) -> (r: usize)
    requires
        match properties {
            Some(p) => reason_props_len(p@) + 8 <= usize::MAX,
            None => true,
        },
    ensures
        r == puback_body_len(puback.reason, opt_props_view(*properties)),
{
    let mut len: usize = 2 + 1;  // pkid + reason code
    // If there are no properties, sending reason code is optional
    if let Some(reason) = puback.reason {
        if reason == PubAckReason::Success && properties.is_none() {
            return 2;
        }
    }
    if let Some(p) = properties {
        let properties_len = properties::len(p);
        let properties_len_len = len_len(properties_len);
        len = len + properties_len_len + properties_len;
    } else {
        // just 1 byte representing 0 len properties
        len = len + 1;
    }
    len
}

pub fn write(puback: &PubAck, properties: &Option<PubAckProperties>, buffer: &mut BytesMut) -> (r: Result<
    usize,
    MQTTProtocolError,
>)
    requires
        bytes_mut_seq(*old(buffer)).len() + 16 + match properties {
            Some(p) => reason_props_len(p@),
            None => 0,
        } <= usize::MAX,
        match properties {
            Some(p) => reason_props_len(p@) + 8 <= usize::MAX,
            None => true,
        },
    ensures
        ({
            let props = opt_props_view(*properties);
            let n = puback_body_len(puback.reason, props);
            let old_b = bytes_mut_seq(*old(buffer));
            let new_b = bytes_mut_seq(*final(buffer));
            &&& n > MAX_REMAINING_LENGTH ==> r == Err::<usize, MQTTProtocolError>(
                MQTTProtocolError::PayloadTooLong,
            ) && new_b == old_b.push(0x40)
            &&& n <= MAX_REMAINING_LENGTH ==> new_b == old_b + puback_encoding(puback.pkid, puback.reason, props)
                && r == Ok::<usize, MQTTProtocolError>(
                if puback_short(puback.reason, props) {
                    4
                } else {
                    (1 + spec_len_len(n) + n) as usize
                },
            )
        }),
{
    let ghost props = opt_props_view(*properties);
    let len = len(puback, properties);
    bytes_mut_put_u8(buffer, 0x40);  // 1st byte
    let count = match write_remaining_length(buffer, len) {
        Ok(c) => c,
        Err(e) => return Err(MQTTProtocolError::from_error(e)),
    };
    bytes_mut_put_u16(buffer, puback.pkid);
    let ghost head = bytes_mut_seq(*buffer);
    // Reason code is optional with success if there are no properties
    if let Some(reason) = puback.reason {
        if reason == PubAckReason::Success && properties.is_none() {
            assert(bytes_mut_seq(*buffer) =~= bytes_mut_seq(*old(buffer)) + puback_encoding(
                puback.pkid,
                puback.reason,
                props,
            ));
            return Ok(4);
        }
        bytes_mut_put_u8(buffer, code(reason));
    }
    let ghost with_code = bytes_mut_seq(*buffer);
    if let Some(p) = properties {
        match properties::write(p, buffer) {
            Ok(()) => {},
            Err(e) => return Err(e),
        }
    } else {
        match write_remaining_length(buffer, 0) {
            Ok(_) => {},
            Err(e) => return Err(MQTTProtocolError::from_error(e)),
        }
        proof {
            reveal_with_fuel(vbi_encode, 1);
        }
    }
    assert(bytes_mut_seq(*buffer) =~= bytes_mut_seq(*old(buffer)) + puback_encoding(puback.pkid, puback.reason, props));
    Ok(1 + count + len)
}

pub fn read(fixed_header: FixedHeader, bytes: Bytes) -> (r: Result<
    (PubAck, Option<PubAckProperties>),
    MQTTProtocolError,
>)
    requires
        fixed_header.fixed_header_len <= bytes_seq(bytes).len(),
    ensures
        match (r, spec_puback5_read(fixed_header, bytes_seq(bytes))) {
            (Ok((a, p)), Ok((sa, sp))) => a == sa && opt_props_view(p) == sp,
            (Err(e), Err(se)) => e == se,
            _ => false,
        },
{
    let mut buf = bytes;
    let variable_header_index = fixed_header.fixed_header_len;
    bytes_advance(&mut buf, variable_header_index);
    let pkid = match read_u16(&mut buf) {
        Ok(v) => v,
        Err(e) => return Err(MQTTProtocolError::from_error(e)),
    };
    // No reason code or properties if remaining length is 2
    if fixed_header.remaining_len == 2 {
        return Ok((PubAck { pkid, reason: Some(PubAckReason::Success) }, None));
    }
    // No properties len or properties if remaining len > 2 but < 4
    let ack_reason = match read_u8(&mut buf) {
        Ok(v) => v,
        Err(e) => return Err(MQTTProtocolError::from_error(e)),
    };
    let reason = match reason(ack_reason) {
        Ok(r) => r,
        Err(e) => return Err(e),
    };
    if fixed_header.remaining_len < 4 {
        return Ok((PubAck { pkid, reason: Some(reason) }, None));
    }
    let puback = PubAck { pkid, reason: Some(reason) };
    let properties = match properties::read(&mut buf) {
        Ok(p) => p,
        Err(e) => return Err(e),
    };
    Ok((puback, properties))
}

/// The reason that a PUBACK code names.
fn reason(num: u8) -> (r: Result<PubAckReason, MQTTProtocolError>)
    ensures
        match spec_puback_reason(num) {
            Some(x) => r == Ok::<PubAckReason, MQTTProtocolError>(x),
            None => r == Err::<PubAckReason, MQTTProtocolError>(MQTTProtocolError::InvalidConnectReturnCode(num)),
        },
{
    match num {
        0 => Ok(PubAckReason::Success),
        16 => Ok(PubAckReason::NoMatchingSubscribers),
        128 => Ok(PubAckReason::UnspecifiedError),
        131 => Ok(PubAckReason::ImplementationSpecificError),
        135 => Ok(PubAckReason::NotAuthorized),
        144 => Ok(PubAckReason::TopicNameInvalid),
        145 => Ok(PubAckReason::PacketIdentifierInUse),
        151 => Ok(PubAckReason::QuotaExceeded),
        153 => Ok(PubAckReason::PayloadFormatInvalid),
        _ => Err(MQTTProtocolError::InvalidConnectReturnCode(num)),
    }
}

/// The code of a PUBACK reason.
fn code(reason: PubAckReason) -> (r: u8)
    ensures
        r == puback_code(reason),
        spec_puback_reason(r) == Some(reason),
{
    match reason {
        PubAckReason::Success => 0,
        PubAckReason::NoMatchingSubscribers => 16,
        PubAckReason::UnspecifiedError => 128,
        PubAckReason::ImplementationSpecificError => 131,
        PubAckReason::NotAuthorized => 135,
        PubAckReason::TopicNameInvalid => 144,
        PubAckReason::PacketIdentifierInUse => 145,
        PubAckReason::QuotaExceeded => 151,
        PubAckReason::PayloadFormatInvalid => 153,
    }
}

/// A PUBACK with a reason, whose properties' strings fit a length prefix
/// and whose remaining length fits four bytes, reads back with the same
/// packet identifier and reason; its properties read back as written, but
/// as none where they are empty.
pub proof fn lemma_puback5_roundtrip(pkid: u16, reason: PubAckReason, props: Option<ReasonPropertiesView>)
    requires
        props matches Some(p) ==> reason_props_fit(p),
        puback_body_len(Some(reason), props) <= MAX_REMAINING_LENGTH,
    ensures
        spec_parse_fixed_header(puback_encoding(pkid, Some(reason), props)) matches Ok(h) && h.byte1 == 0x40
            && spec_puback5_read(h, puback_encoding(pkid, Some(reason), props)) == Ok::<
            (PubAck, Option<ReasonPropertiesView>),
            MQTTProtocolError,
        >(
            (PubAck { pkid, reason: Some(reason) }, match props {
                Some(p) => if reason_props_len(p) == 0 {
                    None
                } else {
                    Some(p)
                },
                None => None,
            }),
        ),
{
    let n = puback_body_len(Some(reason), props);
    let e = puback_encoding(pkid, Some(reason), props);
    crate::buffer::lemma_be_u16_roundtrip(pkid);
    if puback_short(Some(reason), props) {
        let body = be_u16_bytes(pkid);
        lemma_fixed_header_roundtrip(0x40, 2, body);
        let h = spec_parse_fixed_header(e)->Ok_0;
        assert(e.skip(h.fixed_header_len as int) =~= body);
    } else {
        let pp = match props {
            Some(p) => reason_props_encoding(p),
            None => seq![0u8],
        };
        let tail = seq![puback_code(reason)] + pp;
        let body = be_u16_bytes(pkid) + tail;
        assert(e =~= fixed_header_encoding(0x40, n) + body);
        lemma_fixed_header_roundtrip(0x40, n, body);
        let h = spec_parse_fixed_header(e)->Ok_0;
        assert(e.skip(h.fixed_header_len as int) =~= body);
        assert(body.skip(2) =~= tail);
        assert(body[0] == be_u16_bytes(pkid)[0] && body[1] == be_u16_bytes(pkid)[1]);
        assert(tail.skip(1) =~= pp);
        match props {
            Some(p) => {
                lemma_reason_props_roundtrip(p, Seq::empty());
                assert(pp + Seq::<u8>::empty() =~= pp);
                lemma_vbi_encode_len(reason_props_len(p));
            },
            None => {
                reveal_with_fuel(crate::mqtt::common::vbi_encode, 1);
                assert(crate::mqtt::mqttv5::spec_read_reason_props(seq![0u8]) == ReasonPropsRead::NoProps);
            },
        }
    }
}

/// A PUBACK carries its reason as the MQTT 5.0 reason code: 0 success, 16
/// no matching subscribers, 128 unspecified error, 131 implementation
/// specific error, 135 not authorized, 144 topic name invalid, 145 packet
/// identifier in use, 151 quota exceeded, 153 payload format invalid.
/// Written without properties, a PUBACK whose reason is not success is the
/// first byte 0x40, remaining length 4, the packet identifier, the code and
/// a property length of 0. Reading a PUBACK of remaining length 3 gives the
/// reason that its code names, and refuses any other code.
pub proof fn lemma_puback_reason_codes(pkid: u16, r: PubAckReason, n: u8)
    ensures
        r != PubAckReason::Success ==> puback_encoding(pkid, Some(r), None) == seq![
            0x40u8,
            4u8,
            (pkid / 256) as u8,
            (pkid % 256) as u8,
            match r {
                PubAckReason::Success => 0u8,
                PubAckReason::NoMatchingSubscribers => 16u8,
                PubAckReason::UnspecifiedError => 128u8,
                PubAckReason::ImplementationSpecificError => 131u8,
                PubAckReason::NotAuthorized => 135u8,
                PubAckReason::TopicNameInvalid => 144u8,
                PubAckReason::PacketIdentifierInUse => 145u8,
                PubAckReason::QuotaExceeded => 151u8,
                PubAckReason::PayloadFormatInvalid => 153u8,
            },
            0u8,
        ],
        ({
            let s = seq![0x40u8, 3u8, (pkid / 256) as u8, (pkid % 256) as u8, n];
            spec_parse_fixed_header(s) matches Ok(h) && spec_puback5_read(h, s) == match n {
                0u8 => Ok::<(PubAck, Option<ReasonPropertiesView>), MQTTProtocolError>((PubAck { pkid, reason: Some(PubAckReason::Success) }, None)),
                16u8 => Ok::<(PubAck, Option<ReasonPropertiesView>), MQTTProtocolError>((PubAck { pkid, reason: Some(PubAckReason::NoMatchingSubscribers) }, None)),
                128u8 => Ok::<(PubAck, Option<ReasonPropertiesView>), MQTTProtocolError>((PubAck { pkid, reason: Some(PubAckReason::UnspecifiedError) }, None)),
                131u8 => Ok::<(PubAck, Option<ReasonPropertiesView>), MQTTProtocolError>((PubAck { pkid, reason: Some(PubAckReason::ImplementationSpecificError) }, None)),
                135u8 => Ok::<(PubAck, Option<ReasonPropertiesView>), MQTTProtocolError>((PubAck { pkid, reason: Some(PubAckReason::NotAuthorized) }, None)),
                144u8 => Ok::<(PubAck, Option<ReasonPropertiesView>), MQTTProtocolError>((PubAck { pkid, reason: Some(PubAckReason::TopicNameInvalid) }, None)),
                145u8 => Ok::<(PubAck, Option<ReasonPropertiesView>), MQTTProtocolError>((PubAck { pkid, reason: Some(PubAckReason::PacketIdentifierInUse) }, None)),
                151u8 => Ok::<(PubAck, Option<ReasonPropertiesView>), MQTTProtocolError>((PubAck { pkid, reason: Some(PubAckReason::QuotaExceeded) }, None)),
                153u8 => Ok::<(PubAck, Option<ReasonPropertiesView>), MQTTProtocolError>((PubAck { pkid, reason: Some(PubAckReason::PayloadFormatInvalid) }, None)),
                _ => Err::<(PubAck, Option<ReasonPropertiesView>), MQTTProtocolError>(MQTTProtocolError::InvalidConnectReturnCode(n)),
            }
        }),
{
    assert(vbi_encode(4) =~= seq![4u8]);
    assert(vbi_encode(3) =~= seq![3u8]);
    let s = seq![0x40u8, 3u8, (pkid / 256) as u8, (pkid % 256) as u8, n];
    lemma_fixed_header_roundtrip(0x40, 3, s.skip(2));
    assert(fixed_header_encoding(0x40, 3) + s.skip(2) =~= s);
    crate::buffer::lemma_be_u16_roundtrip(pkid);
    assert(s.skip(2) =~= be_u16_bytes(pkid) + seq![n]);
    assert((be_u16_bytes(pkid) + seq![n]).skip(2) =~= seq![n]);
    assert(seq![n].skip(1) =~= Seq::<u8>::empty());
    if r != PubAckReason::Success {
        assert(puback_encoding(pkid, Some(r), None) =~= seq![0x40u8, 4u8] + be_u16_bytes(pkid) + seq![puback_code(r)]
            + seq![0u8]);
    }
}

} // verus!
