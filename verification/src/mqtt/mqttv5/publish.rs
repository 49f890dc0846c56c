//! PUBLISH in MQTT 5.0: the 3.1.1 layout with properties between the packet
//! identifier and the payload.
pub mod properties;
pub mod roundtrip;

use crate::buffer::{
    be_u16_bytes, bytes_advance, bytes_as_slice, bytes_len, bytes_mut_extend, bytes_mut_put_u16,
    bytes_mut_put_u8, bytes_mut_seq, bytes_seq,
};
use crate::mqtt::common::{
    lemma_fixed_header_roundtrip, lemma_mqtt_bytes_roundtrip, lemma_vbi_roundtrip, spec_parse_fixed_header,
    fixed_header_encoding, len_len, mqtt_bytes_encoding, qos, qos_to_u8, read_mqtt_bytes, read_u16,
    spec_len_len, spec_qos, spec_read_mqtt_bytes, spec_read_u16, vbi_encode, write_mqtt_bytes,
    write_remaining_length, Error, FixedHeader, Publish, PublishProperties, PublishView, QoS,
    MAX_REMAINING_LENGTH,
};
use crate::mqtt::mqttv4::publish::{lemma_publish_flags, publish_first_byte};
use bytes::{Bytes, BytesMut};
use properties::{
    ids_fit, ids_written, opt_pub_props_view, pub_props_body, pub_props_head, pub_props_len,
    spec_read_pub_props, PubPropsRead, PublishPropertiesView,
};
use roundtrip::pub_props_fit;
use vstd::prelude::*;

verus! {

/// The remaining length of a PUBLISH as the writer counts it: the packet
/// identifier only where it is nonzero and asked for, and one byte of
/// length where there are no properties.
pub open spec fn publish_v5_len(p: PublishView, props: Option<PublishPropertiesView>) -> nat {
    2 + p.topic.len() + (if p.qos != QoS::AtMostOnce && p.pkid != 0 {
        2nat
    } else {
        0nat
    }) + (match props {
        Some(pp) => spec_len_len(pub_props_len(pp)) + pub_props_len(pp),
        None => 1nat,
    }) + p.payload.len()
}

/// The bytes of the properties with their length in front; a single 0
/// where there are none.
pub open spec fn pub_props_block(props: Option<PublishPropertiesView>) -> Seq<u8> {
    match props {
        Some(pp) => vbi_encode(pub_props_len(pp)) + pub_props_body(pp),
        None => vbi_encode(0),
    }
}

/// The packet identifier's bytes, where the QoS asks for one.
pub open spec fn pkid_bytes(p: PublishView) -> Seq<u8> {
    if p.qos != QoS::AtMostOnce {
        be_u16_bytes(p.pkid)
    } else {
        Seq::empty()
    }
}

/// The bytes of a PUBLISH packet in MQTT 5.0.
pub open spec fn publish_v5_encoding(p: PublishView, props: Option<PublishPropertiesView>) -> Seq<u8> {
    fixed_header_encoding(publish_first_byte(p.dup, p.qos, p.retain), publish_v5_len(p, props))
        + mqtt_bytes_encoding(p.topic) + pkid_bytes(p) + pub_props_block(props) + p.payload
}

/// What reading a PUBLISH packet in MQTT 5.0 from `s` gives: the packet,
/// whose payload is whatever follows the properties, and the properties.
pub open spec fn spec_publish_v5_read(h: FixedHeader, s: Seq<u8>) -> Result<
    (PublishView, Option<PublishPropertiesView>),
    Error,
> {
    let qos_num = ((h.byte1 / 2) % 4) as u8;
    match spec_qos(qos_num) {
        None => Err(Error::InvalidQoS(qos_num)),
        Some(q) => {
            let dup = (h.byte1 / 8) % 2 == 1;
            let retain = h.byte1 % 2 == 1;
            match spec_read_mqtt_bytes(s.skip(h.fixed_header_len as int)) {
                (Err(e), _) => Err(e),
                (Ok(topic), r1) => {
                    let (pk, r2) = if q == QoS::AtMostOnce {
                        (Ok::<u16, Error>(0u16), r1)
                    } else {
                        spec_read_u16(r1)
                    };
                    match pk {
                        Err(e) => Err(e),
                        Ok(pkid) => if q != QoS::AtMostOnce && pkid == 0 {
                            Err(Error::PacketIdZero)
                        } else {
                            match spec_read_pub_props(r2) {
                                PubPropsRead::Failed(e) => Err(e),
                                PubPropsRead::NoProps(rest) => Ok(
                                    (PublishView { dup, qos: q, pkid, retain, topic, payload: rest }, None),
                                ),
                                PubPropsRead::Props(pp, rest) => Ok(
                                    (PublishView { dup, qos: q, pkid, retain, topic, payload: rest }, Some(pp)),
                                ),
                            }
                        },
                    }
                },
            }
        },
    }
}

/// The remaining length of a PUBLISH as the writer counts it.
pub fn len(publish: &Publish, properties: &Option<PublishProperties>) -> (r: usize)
    requires
        publish_v5_len(publish@, opt_pub_props_view(*properties)) <= usize::MAX,
    ensures
        r == publish_v5_len(publish@, opt_pub_props_view(*properties)),
{
    let mut len = 2 + bytes_len(&publish.topic);
    // Publish identifier length if exists (QoS 1 or 2)
    if publish.qos != QoS::AtMostOnce && publish.pkid != 0 {
        len = len + 2;
    }
    if let Some(p) = properties {
        let properties_len = properties::len(p);
        let properties_len_len = len_len(properties_len);
        len = len + properties_len_len + properties_len;
    } else {
        // just 1 byte representing 0 len
        len = len + 1;
    }
    len = len + bytes_len(&publish.payload);
    len
}

/// Writes the properties with their length in front, or a 0 where there
/// are none.
fn write_props_block(properties: &Option<PublishProperties>, buffer: &mut BytesMut) -> (r: Result<(), Error>)
    requires
        ({
            let props = opt_pub_props_view(*properties);
            &&& props matches Some(pp) ==> pub_props_len(pp) <= MAX_REMAINING_LENGTH
                && bytes_mut_seq(*old(buffer)).len() + 32 + 2 * pub_props_len(pp) <= usize::MAX
            &&& bytes_mut_seq(*old(buffer)).len() + 4 <= usize::MAX
        }),
    ensures
        ({
            let props = opt_pub_props_view(*properties);
            let old_b = bytes_mut_seq(*old(buffer));
            let new_b = bytes_mut_seq(*final(buffer));
            if props is Some && !ids_fit(props->0.subscription_identifiers) {
                r == Err::<(), Error>(Error::PayloadTooLong) && new_b == old_b + vbi_encode(
                    pub_props_len(props->0),
                ) + pub_props_head(props->0) + ids_written(props->0.subscription_identifiers)
            } else {
                &&& r == Ok::<(), Error>(())
                &&& new_b == old_b + pub_props_block(props)
                &&& pub_props_block(props).len() <= match props {
                    Some(pp) => spec_len_len(pub_props_len(pp)) + pub_props_len(pp) + 1,
                    None => 1,
                }
            }
        }),
{
    if let Some(pp) = properties {
        proof {
            crate::mqtt::common::lemma_vbi_encode_len(pub_props_len(pp@));
            if ids_fit(pp@.subscription_identifiers) {
                properties::lemma_pub_props_body_len(pp@);
            }
        }
        properties::write(pp, buffer)
    } else {
        let _ = write_remaining_length(buffer, 0);
        proof {
            crate::mqtt::common::lemma_vbi_encode_len(0);
        }
        Ok(())
    }
}

/// Writes a PUBLISH packet with its properties. The count returned is that
/// of the fixed header and the remaining length as counted.
#[verifier::rlimit(40)]
pub fn write(publish: &Publish, properties: &Option<PublishProperties>, buffer: &mut BytesMut) -> (r: Result<
    usize,
    Error,
>)
    requires
        bytes_mut_seq(*old(buffer)).len() + 48 + 2 * publish_v5_len(publish@, opt_pub_props_view(*properties))
            <= usize::MAX,
    ensures
        ({
            let p = publish@;
            let props = opt_pub_props_view(*properties);
            let len = publish_v5_len(p, props);
            let first = publish_first_byte(p.dup, p.qos, p.retain);
            let old_b = bytes_mut_seq(*old(buffer));
            let new_b = bytes_mut_seq(*final(buffer));
            if len > MAX_REMAINING_LENGTH {
                r == Err::<usize, Error>(Error::PayloadTooLong) && new_b == old_b.push(first)
            } else if p.qos != QoS::AtMostOnce && p.pkid == 0 {
                r == Err::<usize, Error>(Error::PacketIdZero) && new_b == old_b + fixed_header_encoding(
                    first,
                    len,
                ) + mqtt_bytes_encoding(p.topic)
            } else if props is Some && !ids_fit(props->0.subscription_identifiers) {
                r == Err::<usize, Error>(Error::PayloadTooLong) && new_b == old_b + fixed_header_encoding(
                    first,
                    len,
                ) + mqtt_bytes_encoding(p.topic) + pkid_bytes(p) + vbi_encode(pub_props_len(props->0))
                    + pub_props_head(props->0) + ids_written(props->0.subscription_identifiers)
            } else {
                r == Ok::<usize, Error>((1 + spec_len_len(len) + len) as usize) && new_b == old_b
                    + publish_v5_encoding(p, props)
            }
        }),
{
    let ghost p = publish@;
    let ghost props = opt_pub_props_view(*properties);
    let len = len(publish, properties);
    let dup: u8 = if publish.dup { 1 } else { 0 };
    let q = qos_to_u8(publish.qos);
    let retain: u8 = if publish.retain { 1 } else { 0 };
    proof {
        crate::mqtt::mqttv4::publish::lemma_publish_byte(retain, q, dup);
    }
    let first = 0b0011_0000 | retain | q << 1 | dup << 3;
    assert(first == publish_first_byte(p.dup, p.qos, p.retain));
    bytes_mut_put_u8(buffer, first);
    let count = match write_remaining_length(buffer, len) {
        Ok(c) => c,
        Err(e) => return Err(e),
    };
    write_mqtt_bytes(buffer, bytes_as_slice(&publish.topic));
    let ghost after_topic = bytes_mut_seq(*buffer);
    assert(after_topic =~= bytes_mut_seq(*old(buffer)) + fixed_header_encoding(first, len as nat)
        + mqtt_bytes_encoding(p.topic));
    if publish.qos != QoS::AtMostOnce {
        let pkid = publish.pkid;
        if pkid == 0 {
            return Err(Error::PacketIdZero);
        }
        bytes_mut_put_u16(buffer, pkid);
    }
    let ghost after_pkid = bytes_mut_seq(*buffer);
    assert(after_pkid =~= after_topic + pkid_bytes(p));
    match write_props_block(properties, buffer) {
        Ok(_) => {},
        Err(e) => return Err(e),
    }
    bytes_mut_extend(buffer, bytes_as_slice(&publish.payload));
    assert(bytes_mut_seq(*buffer) =~= bytes_mut_seq(*old(buffer)) + publish_v5_encoding(p, props));
    Ok(1 + count + len)
}

/// Reads a PUBLISH packet in MQTT 5.0 and its properties.
pub fn read(fixed_header: FixedHeader, bytes: Bytes) -> (r: Result<(Publish, Option<PublishProperties>), Error>)
    requires
        fixed_header.fixed_header_len <= bytes_seq(bytes).len(),
    ensures
        match (r, spec_publish_v5_read(fixed_header, bytes_seq(bytes))) {
            (Ok((p, pp)), Ok((sp, spp))) => p@ == sp && opt_pub_props_view(pp) == spp,
            (Err(e), Err(se)) => e == se,
            _ => false,
        },
{
    proof {
        lemma_publish_flags(fixed_header.byte1);
    }
    let qos_num = (fixed_header.byte1 & 0b0110) >> 1;
    let q = match qos(qos_num) {
        Some(q) => q,
        None => return Err(Error::InvalidQoS(qos_num)),
    };
    let dup = (fixed_header.byte1 & 0b1000) != 0;
    let retain = (fixed_header.byte1 & 0b0001) != 0;
    let mut bytes = bytes;
    let variable_header_index = fixed_header.fixed_header_len;
    bytes_advance(&mut bytes, variable_header_index);
    let topic = match read_mqtt_bytes(&mut bytes) {
        Ok(t) => t,
        Err(e) => return Err(e),
    };
    // Packet identifier exists where QoS > 0
    let pkid = match q {
        QoS::AtMostOnce => 0,
        QoS::AtLeastOnce | QoS::ExactlyOnce => match read_u16(&mut bytes) {
            Ok(v) => v,
            Err(e) => return Err(e),
        },
    };
    if q != QoS::AtMostOnce && pkid == 0 {
        return Err(Error::PacketIdZero);
    }
    let properties = match properties::read(&mut bytes) {
        Ok(p) => p,
        Err(e) => return Err(e),
    };
    let publish = Publish { dup, retain, qos: q, pkid, topic, payload: bytes };
    Ok((publish, properties))
}

/// What the reader gives back of properties that were written: none where
/// there were none or their length is 0.
pub open spec fn props_read_back(props: Option<PublishPropertiesView>) -> Option<PublishPropertiesView> {
    match props {
        Some(pp) => if pub_props_len(pp) == 0 {
            None
        } else {
            Some(pp)
        },
        None => None,
    }
}

/// A PUBLISH frame around any block of properties: the reader gets the
/// header fields back and reads the properties from the block on.
proof fn lemma_publish_v5_frame(p: PublishView, len: nat, block: Seq<u8>)
    requires
        p.topic.len() <= 65535,
        len <= MAX_REMAINING_LENGTH,
        p.qos != QoS::AtMostOnce ==> p.pkid != 0,
    ensures
        ({
            let first = publish_first_byte(p.dup, p.qos, p.retain);
            let e = fixed_header_encoding(first, len) + mqtt_bytes_encoding(p.topic) + pkid_bytes(p) + block
                + p.payload;
            let pk: u16 = if p.qos == QoS::AtMostOnce { 0 } else { p.pkid };
            &&& spec_parse_fixed_header(e) matches Ok(h)
            &&& h.byte1 == first
            &&& spec_publish_v5_read(h, e) == match spec_read_pub_props(block + p.payload) {
                PubPropsRead::Failed(er) => Err(er),
                PubPropsRead::NoProps(rest) => Ok((PublishView { pkid: pk, payload: rest, ..p }, None)),
                PubPropsRead::Props(pp, rest) => Ok((PublishView { pkid: pk, payload: rest, ..p }, Some(pp))),
            }
        }),
{
    let first = publish_first_byte(p.dup, p.qos, p.retain);
    let after_pk = block + p.payload;
    let tail = pkid_bytes(p) + after_pk;
    let body = mqtt_bytes_encoding(p.topic) + tail;
    let e = fixed_header_encoding(first, len) + mqtt_bytes_encoding(p.topic) + pkid_bytes(p) + block + p.payload;
    assert(e =~= fixed_header_encoding(first, len) + body);
    lemma_fixed_header_roundtrip(first, len, body);
    let h = spec_parse_fixed_header(e)->Ok_0;
    assert(e.skip(h.fixed_header_len as int) =~= body);
    lemma_mqtt_bytes_roundtrip(p.topic, tail);
    crate::mqtt::mqttv4::publish::lemma_publish_first_byte(p.dup, p.qos, p.retain);
    assert(spec_qos(((h.byte1 / 2) % 4) as u8) == Some(p.qos));
    if p.qos != QoS::AtMostOnce {
        crate::buffer::lemma_be_u16_roundtrip(p.pkid);
        assert(tail.skip(2) =~= after_pk);
        assert(tail[0] == pkid_bytes(p)[0] && tail[1] == pkid_bytes(p)[1]);
        assert(spec_read_u16(tail) == (Ok::<u16, Error>(p.pkid), after_pk));
    } else {
        assert(tail =~= after_pk);
    }
}

/// A PUBLISH whose topic fits a length prefix, that carries a nonzero
/// packet identifier when its QoS asks for one, and whose properties fit
/// and hold no subscription identifier, reads back as written, its
/// payload after the properties; a QoS 0 publish reads back with packet
/// identifier 0.
pub proof fn lemma_publish_v5_roundtrip(p: PublishView, props: Option<PublishPropertiesView>)
    requires
        p.topic.len() <= 65535,
        publish_v5_len(p, props) <= MAX_REMAINING_LENGTH,
        p.qos != QoS::AtMostOnce ==> p.pkid != 0,
        props matches Some(pp) ==> pub_props_fit(pp) && pp.subscription_identifiers.len() == 0,
    ensures
        spec_parse_fixed_header(publish_v5_encoding(p, props)) matches Ok(h) && h.byte1 == publish_first_byte(
            p.dup,
            p.qos,
            p.retain,
        ) && spec_publish_v5_read(h, publish_v5_encoding(p, props)) == Ok::<
            (PublishView, Option<PublishPropertiesView>),
            Error,
        >(
            (
                PublishView { pkid: if p.qos == QoS::AtMostOnce { 0 } else { p.pkid }, ..p },
                props_read_back(props),
            ),
        ),
{
    let len = publish_v5_len(p, props);
    assert(props matches Some(pp) ==> pub_props_len(pp) <= len);
    lemma_publish_v5_frame(p, len, pub_props_block(props));
    lemma_props_block_read(props, p.payload);
}

/// The properties' block reads back as written, whatever follows.
proof fn lemma_props_block_read(props: Option<PublishPropertiesView>, payload: Seq<u8>)
    requires
        props matches Some(pp) ==> pub_props_fit(pp) && pp.subscription_identifiers.len() == 0
            && pub_props_len(pp) <= MAX_REMAINING_LENGTH,
    ensures
        spec_read_pub_props(pub_props_block(props) + payload) == match props_read_back(props) {
            Some(pp) => PubPropsRead::Props(pp, payload),
            None => PubPropsRead::NoProps(payload),
        },
{
    match props {
        Some(pp) => {
            roundtrip::lemma_pub_props_roundtrip(pp, payload);
        },
        None => {
            lemma_vbi_roundtrip(0, payload);
            crate::mqtt::common::lemma_vbi_encode_len(0);
            assert((vbi_encode(0) + payload).skip(vbi_encode(0).len() as int) =~= payload);
        },
    }
}

} // verus!
