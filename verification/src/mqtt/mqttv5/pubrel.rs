//! PUBREL in MQTT 5.0: the packet identifier, then a reason code and
//! properties where they say more than Success.
pub mod properties;

use crate::buffer::{be_u16_bytes, bytes_advance, bytes_mut_put_u16, bytes_mut_put_u8, bytes_mut_seq, bytes_seq};
use crate::mqtt::common::{
    fixed_header_encoding, len_len, lemma_fixed_header_roundtrip, lemma_vbi_encode_len, read_u16, read_u8,
    spec_len_len, spec_parse_fixed_header, spec_read_u16, spec_read_u8, vbi_encode, write_remaining_length,
    Error, FixedHeader, PubRel, PubRelProperties, PubRelReason, ReasonPropertiesView, MAX_REMAINING_LENGTH,
};
use crate::mqtt::mqttv5::{
    lemma_reason_props_roundtrip, reason_props_encoding, reason_props_fit, reason_props_len, spec_read_reason_props,
    ReasonPropsRead,
};
use bytes::{Bytes, BytesMut};
use vstd::prelude::*;

verus! {

/// The reason code that stands for a PUBREL reason.
pub open spec fn pubrel_code(r: PubRelReason) -> u8 {
    match r {
        PubRelReason::Success => 0,
        PubRelReason::PacketIdentifierNotFound => 146,
    }
}

/// The PUBREL reason that a code names.
pub open spec fn spec_pubrel_reason(num: u8) -> Option<PubRelReason> {
    if num == 0 {
        Some(PubRelReason::Success)
    } else if num == 146 {
        Some(PubRelReason::PacketIdentifierNotFound)
    } else {
        None
    }
}

/// The view of optional properties.
pub open spec fn opt_props_view(p: Option<PubRelProperties>) -> Option<ReasonPropertiesView> {
    match p {
        Some(p) => Some(p@),
        None => None,
    }
}

/// Whether a PUBREL is written short: Success without properties.
pub open spec fn pubrel_short(reason: Option<PubRelReason>, props: Option<ReasonPropertiesView>) -> bool {
    reason == Some(PubRelReason::Success) && props is None
}

/// The remaining length of a PUBREL.
pub open spec fn pubrel_body_len(reason: Option<PubRelReason>, props: Option<ReasonPropertiesView>) -> nat {
    if pubrel_short(reason, props) {
        2
    } else {
        3 + match props {
            Some(p) => spec_len_len(reason_props_len(p)) + reason_props_len(p),
            None => 1,
        }
    }
}

/// The bytes of a PUBREL.
pub open spec fn pubrel_encoding(pkid: u16, reason: Option<PubRelReason>, props: Option<ReasonPropertiesView>) -> Seq<u8> {
    if pubrel_short(reason, props) {
        fixed_header_encoding(0x62, 2) + be_u16_bytes(pkid)
    } else {
        fixed_header_encoding(0x62, pubrel_body_len(reason, props)) + be_u16_bytes(pkid) + (match reason {
            Some(r) => seq![pubrel_code(r)],
            None => Seq::empty(),
        }) + match props {
            Some(p) => reason_props_encoding(p),
            None => seq![0u8],
        }
    }
}

/// What reading the properties gives.
pub open spec fn spec_pubrel_props(s: Seq<u8>) -> Result<Option<ReasonPropertiesView>, Error> {
    match spec_read_reason_props(s) {
        ReasonPropsRead::Props(r, u) => Ok(Some(ReasonPropertiesView { reason_string: r, user_properties: u })),
        ReasonPropsRead::NoProps => Ok(None),
        ReasonPropsRead::Failed(e) => Err(e),
        ReasonPropsRead::Unexpected(p) => Err(Error::InvalidPacketType(p)),
    }
}

/// What reading a PUBREL packet from `s` gives.
pub open spec fn spec_pubrel5_read(h: FixedHeader, s: Seq<u8>) -> Result<
    (PubRel, Option<ReasonPropertiesView>),
    Error,
> {
    match spec_read_u16(s.skip(h.fixed_header_len as int)) {
        (Err(e), _) => Err(e),
        (Ok(pkid), r1) => if h.remaining_len == 2 {
            Ok((PubRel { pkid, reason: Some(PubRelReason::Success) }, None))
        } else {
            match spec_read_u8(r1) {
                (Err(e), _) => Err(e),
                (Ok(code), r2) => match spec_pubrel_reason(code) {
                    None => Err(Error::InvalidConnectReturnCode(code)),
                    Some(reason) => if h.remaining_len < 4 {
                        Ok((PubRel { pkid, reason: Some(reason) }, None))
                    } else {
                        match spec_pubrel_props(r2) {
                            Err(e) => Err(e),
                            Ok(p) => Ok((PubRel { pkid, reason: Some(reason) }, p)),
                        }
                    },
                },
            }
        },
    }
}

fn len(pubrel: &PubRel, properties: &Option<PubRelProperties>) -> (r: usize)
    requires
        pubrel.reason is Some,
        match properties {
            Some(p) => reason_props_len(p@) + 8 <= usize::MAX,
            None => true,
        },
    ensures
        r == pubrel_body_len(pubrel.reason, opt_props_view(*properties)),
{
    let mut len: usize = 2 + 1;  // pkid + reason
    // The reason code and property length can be omitted if the reason code is Success(0x00)
    // and there are no properties. In this case the remaining length of PubRel should be 2.
    if pubrel.reason.unwrap() == PubRelReason::Success && properties.is_none() {
        return 2;
    }
    if let Some(p) = properties {
        let properties_len = properties::len(p);
        let properties_len_len = len_len(properties_len);
        len = len + properties_len_len + properties_len;
    } else {
        // just 1 byte representing 0 len properties
        len = len + 1;
    }
    len
}

pub fn write(pubrel: &PubRel, properties: &Option<PubRelProperties>, buffer: &mut BytesMut) -> (r: Result<
    usize,
    Error,
>)
    requires
        pubrel.reason is Some,
        bytes_mut_seq(*old(buffer)).len() + 16 + match properties {
            Some(p) => reason_props_len(p@),
            None => 0,
        } <= usize::MAX,
        match properties {
            Some(p) => reason_props_len(p@) + 8 <= usize::MAX,
            None => true,
        },
    ensures
        ({
            let props = opt_props_view(*properties);
            let n = pubrel_body_len(pubrel.reason, props);
            let old_b = bytes_mut_seq(*old(buffer));
            let new_b = bytes_mut_seq(*final(buffer));
            &&& n > MAX_REMAINING_LENGTH ==> r == Err::<usize, Error>(
                Error::PayloadTooLong,
            ) && new_b == old_b.push(0x62)
            &&& n <= MAX_REMAINING_LENGTH ==> new_b == old_b + pubrel_encoding(pubrel.pkid, pubrel.reason, props)
                && r == Ok::<usize, Error>(
                if pubrel_short(pubrel.reason, props) {
                    4
                } else {
                    (1 + spec_len_len(n) + n) as usize
                },
            )
        }),
{
    let ghost props = opt_props_view(*properties);
    let len = len(pubrel, properties);
    bytes_mut_put_u8(buffer, 0x62);  // 1st byte
    let count = match write_remaining_length(buffer, len) {
        Ok(c) => c,
        Err(e) => return Err(e),
    };
    bytes_mut_put_u16(buffer, pubrel.pkid);
    let ghost head = bytes_mut_seq(*buffer);
    // if there are no properties during success, reason code is optional as it is 0x00
    if pubrel.reason.unwrap() == PubRelReason::Success && properties.is_none() {
        assert(bytes_mut_seq(*buffer) =~= bytes_mut_seq(*old(buffer)) + pubrel_encoding(
            pubrel.pkid,
            pubrel.reason,
            props,
        ));
        return Ok(4);
    }
    bytes_mut_put_u8(buffer, code(pubrel.reason.unwrap()));
    let ghost with_code = bytes_mut_seq(*buffer);
    if let Some(p) = properties {
        match properties::write(p, buffer) {
            Ok(()) => {},
            Err(e) => return Err(e),
        }
    } else {
        match write_remaining_length(buffer, 0) {
            Ok(_) => {},
            Err(e) => return Err(e),
        }
        proof {
            reveal_with_fuel(vbi_encode, 1);
        }
    }
    assert(bytes_mut_seq(*buffer) =~= bytes_mut_seq(*old(buffer)) + pubrel_encoding(pubrel.pkid, pubrel.reason, props));
    Ok(1 + count + len)
}

pub fn read(fixed_header: FixedHeader, bytes: Bytes) -> (r: Result<
    (PubRel, Option<PubRelProperties>),
    Error,
>)
    requires
        fixed_header.fixed_header_len <= bytes_seq(bytes).len(),
    ensures
        match (r, spec_pubrel5_read(fixed_header, bytes_seq(bytes))) {
            (Ok((a, p)), Ok((sa, sp))) => a == sa && opt_props_view(p) == sp,
            (Err(e), Err(se)) => e == se,
            _ => false,
        },
{
    let mut buf = bytes;
    let variable_header_index = fixed_header.fixed_header_len;
    bytes_advance(&mut buf, variable_header_index);
    let pkid = match read_u16(&mut buf) {
        Ok(v) => v,
        Err(e) => return Err(e),
    };
    // No reason code or properties if remaining length is 2
    if fixed_header.remaining_len == 2 {
        return Ok((PubRel { pkid, reason: Some(PubRelReason::Success) }, None));
    }
    // No properties len or properties if remaining len > 2 but < 4
    let ack_reason = match read_u8(&mut buf) {
        Ok(v) => v,
        Err(e) => return Err(e),
    };
    let reason = match reason(ack_reason) {
        Ok(r) => r,
        Err(e) => return Err(e),
    };
    if fixed_header.remaining_len < 4 {
        return Ok((PubRel { pkid, reason: Some(reason) }, None));
    }
    let pubrel = PubRel { pkid, reason: Some(reason) };
    let properties = match properties::read(&mut buf) {
        Ok(p) => p,
        Err(e) => return Err(e),
    };
    Ok((pubrel, properties))
}

/// The reason that a PUBREL code names.
fn reason(num: u8) -> (r: Result<PubRelReason, Error>)
    ensures
        match spec_pubrel_reason(num) {
            Some(x) => r == Ok::<PubRelReason, Error>(x),
            None => r == Err::<PubRelReason, Error>(Error::InvalidConnectReturnCode(num)),
        },
{
    match num {
        0 => Ok(PubRelReason::Success),
        146 => Ok(PubRelReason::PacketIdentifierNotFound),
        _ => Err(Error::InvalidConnectReturnCode(num)),
    }
}

/// The code of a PUBREL reason.
fn code(reason: PubRelReason) -> (r: u8)
    ensures
        r == pubrel_code(reason),
        spec_pubrel_reason(r) == Some(reason),
{
    match reason {
        PubRelReason::Success => 0,
        PubRelReason::PacketIdentifierNotFound => 146,
    }
}

/// A PUBREL with a reason, whose properties' strings fit a length prefix
/// and whose remaining length fits four bytes, reads back with the same
/// packet identifier and reason; its properties read back as written, but
/// as none where they are empty.
pub proof fn lemma_pubrel5_roundtrip(pkid: u16, reason: PubRelReason, props: Option<ReasonPropertiesView>)
    requires
        props matches Some(p) ==> reason_props_fit(p),
        pubrel_body_len(Some(reason), props) <= MAX_REMAINING_LENGTH,
    ensures
        spec_parse_fixed_header(pubrel_encoding(pkid, Some(reason), props)) matches Ok(h) && h.byte1 == 0x62
            && spec_pubrel5_read(h, pubrel_encoding(pkid, Some(reason), props)) == Ok::<
            (PubRel, Option<ReasonPropertiesView>),
            Error,
        >(
            (PubRel { pkid, reason: Some(reason) }, match props {
                Some(p) => if reason_props_len(p) == 0 {
                    None
                } else {
                    Some(p)
                },
                None => None,
            }),
        ),
{
    let n = pubrel_body_len(Some(reason), props);
    let e = pubrel_encoding(pkid, Some(reason), props);
    crate::buffer::lemma_be_u16_roundtrip(pkid);
    if pubrel_short(Some(reason), props) {
        let body = be_u16_bytes(pkid);
        lemma_fixed_header_roundtrip(0x62, 2, body);
        let h = spec_parse_fixed_header(e)->Ok_0;
        assert(e.skip(h.fixed_header_len as int) =~= body);
    } else {
        let pp = match props {
            Some(p) => reason_props_encoding(p),
            None => seq![0u8],
        };
        let tail = seq![pubrel_code(reason)] + pp;
        let body = be_u16_bytes(pkid) + tail;
        assert(e =~= fixed_header_encoding(0x62, n) + body);
        lemma_fixed_header_roundtrip(0x62, n, body);
        let h = spec_parse_fixed_header(e)->Ok_0;
        assert(e.skip(h.fixed_header_len as int) =~= body);
        assert(body.skip(2) =~= tail);
        assert(body[0] == be_u16_bytes(pkid)[0] && body[1] == be_u16_bytes(pkid)[1]);
        assert(tail.skip(1) =~= pp);
        match props {
            Some(p) => {
                lemma_reason_props_roundtrip(p, Seq::empty());
                assert(pp + Seq::<u8>::empty() =~= pp);
                lemma_vbi_encode_len(reason_props_len(p));
            },
            None => {
                reveal_with_fuel(crate::mqtt::common::vbi_encode, 1);
                assert(crate::mqtt::mqttv5::spec_read_reason_props(seq![0u8]) == ReasonPropsRead::NoProps);
            },
        }
    }
}

/// A PUBREL carries its reason as the MQTT 5.0 reason code: 0 success, 146
/// packet identifier not found. Written without properties, a PUBREL whose
/// packet identifier was not found is the first byte 0x62, remaining length
/// 4, the packet identifier, the code 146 and a property length of 0.
/// Reading a PUBREL of remaining length 3 gives the reason that its code
/// names, and refuses any other code.
pub proof fn lemma_pubrel_reason_codes(pkid: u16, n: u8)
    ensures
        pubrel_encoding(pkid, Some(PubRelReason::PacketIdentifierNotFound), None) == seq![
            0x62u8,
            4u8,
            (pkid / 256) as u8,
            (pkid % 256) as u8,
            146u8,
            0u8,
        ],
        ({
            let s = seq![0x62u8, 3u8, (pkid / 256) as u8, (pkid % 256) as u8, n];
            spec_parse_fixed_header(s) matches Ok(h) && spec_pubrel5_read(h, s) == match n {
                0u8 => Ok::<(PubRel, Option<ReasonPropertiesView>), Error>(
                    (PubRel { pkid, reason: Some(PubRelReason::Success) }, None),
                ),
                146u8 => Ok::<(PubRel, Option<ReasonPropertiesView>), Error>(
                    (PubRel { pkid, reason: Some(PubRelReason::PacketIdentifierNotFound) }, None),
                ),
                _ => Err::<(PubRel, Option<ReasonPropertiesView>), Error>(Error::InvalidConnectReturnCode(n)),
            }
        }),
{
    assert(vbi_encode(4) =~= seq![4u8]);
    assert(vbi_encode(3) =~= seq![3u8]);
    let s = seq![0x62u8, 3u8, (pkid / 256) as u8, (pkid % 256) as u8, n];
    lemma_fixed_header_roundtrip(0x62, 3, s.skip(2));
    assert(fixed_header_encoding(0x62, 3) + s.skip(2) =~= s);
    crate::buffer::lemma_be_u16_roundtrip(pkid);
    assert(s.skip(2) =~= be_u16_bytes(pkid) + seq![n]);
    assert((be_u16_bytes(pkid) + seq![n]).skip(2) =~= seq![n]);
    assert(seq![n].skip(1) =~= Seq::<u8>::empty());
    assert(pubrel_encoding(pkid, Some(PubRelReason::PacketIdentifierNotFound), None) =~= seq![0x62u8, 4u8]
        + be_u16_bytes(pkid) + seq![146u8] + seq![0u8]);
}

} // verus!
