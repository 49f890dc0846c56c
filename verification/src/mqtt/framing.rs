//! How the reader frames what the writers write: a packet whose fixed
//! header announces exactly the bytes after it is taken whole from the
//! front of a stream, and what follows it is left for the next read.
use crate::buffer::be_u16_bytes;
use crate::mqtt::codec::{written_v4, written_v5, MAX_PACKET_SIZE};
use crate::mqtt::common::{
    concat_map, fixed_header_encoding, lemma_concat_map_len, lemma_fixed_header_roundtrip, lemma_vbi_encode_len,
    mqtt_string_encoding, spec_check, sum_map, vbi_encode, FilterView, MqttPacket, MAX_REMAINING_LENGTH,
};
use crate::mqtt::mqtt_protocol_error::MQTTProtocolError;
use crate::mqtt::mqttv4::connect::{connect_body_len, connect_encoding};
use crate::mqtt::mqttv4::subscribe::filter::{filter_encoding, filter_len};
use crate::mqtt::mqttv4::unsubscribe::topic_len;
use crate::mqtt::mqttv5::reason_props_encoding;
use crate::mqtt::mqttv5::subscribe::filter::{filter5_encoding, filter5_len};
use crate::mqtt::mqttv5::subscribe::properties::{lemma_sub_props_body_len, sub_props_id_fits};
use crate::mqtt::mqttv5::subscribe::{sub_props_part, subscribe5_body_len};
use vstd::prelude::*;
use vstd::utf8::*;

verus! {

/// A frame whose fixed header announces exactly the bytes after it, and
/// no more than the largest packet, is taken whole from the front of a
/// stream, whatever follows it.
pub proof fn lemma_frame_taken_whole(byte1: u8, body: Seq<u8>, rest: Seq<u8>)
    requires
        body.len() <= MAX_PACKET_SIZE,
    ensures
        ({
            let e = fixed_header_encoding(byte1, body.len()) + body;
            &&& spec_check(e + rest, MAX_PACKET_SIZE) matches Ok(h) && h.byte1 == byte1 && h.fixed_header_len
                + h.remaining_len == e.len() && h.remaining_len == body.len()
            &&& (e + rest).take(e.len() as int) == e
            &&& (e + rest).skip(e.len() as int) == rest
        }),
{
    let e = fixed_header_encoding(byte1, body.len());
    assert(e + body + rest =~= e + (body + rest));
    lemma_fixed_header_roundtrip(byte1, body.len(), body + rest);
    lemma_vbi_encode_len(body.len());
    assert((e + body + rest).take((e + body).len() as int) =~= e + body);
    assert((e + body + rest).skip((e + body).len() as int) =~= rest);
}

/// The bytes that a buffer gained.
pub open spec fn written_part(old_b: Seq<u8>, new_b: Seq<u8>) -> Seq<u8> {
    new_b.skip(old_b.len() as int)
}

/// The frame that a reader takes from the front of `s`, with the bytes
/// that are left.
pub open spec fn framed(e: Seq<u8>, rest: Seq<u8>) -> bool {
    &&& spec_check(e + rest, MAX_PACKET_SIZE) matches Ok(h) && h.fixed_header_len + h.remaining_len == e.len()
    &&& (e + rest).take(e.len() as int) == e
    &&& (e + rest).skip(e.len() as int) == rest
}

proof fn lemma_framed(byte1: u8, body: Seq<u8>, e: Seq<u8>, rest: Seq<u8>)
    requires
        body.len() <= MAX_PACKET_SIZE,
        e == fixed_header_encoding(byte1, body.len()) + body,
    ensures
        framed(e, rest),
{
    lemma_frame_taken_whole(byte1, body, rest);
}

/// A string's encoding is two bytes longer than its UTF-8 bytes.
proof fn lemma_string_len(t: Seq<char>)
    ensures
        mqtt_string_encoding(t).len() == 2 + encode_utf8(t).len(),
{
}

proof fn lemma_filters_len(fs: Seq<FilterView>)
    ensures
        concat_map(fs, |f: FilterView| filter_encoding(f)).len() == sum_map(fs, |f: FilterView| filter_len(f)),
        concat_map(fs, |f: FilterView| filter5_encoding(f)).len() == sum_map(fs, |f: FilterView| filter5_len(f)),
{
    let fe = |f: FilterView| filter_encoding(f);
    let fl = |f: FilterView| filter_len(f);
    assert forall|x: FilterView| #[trigger] fe(x).len() == fl(x) by {}
    lemma_concat_map_len(fs, fe, fl);
    let fe5 = |f: FilterView| filter5_encoding(f);
    let fl5 = |f: FilterView| filter5_len(f);
    assert forall|x: FilterView| #[trigger] fe5(x).len() == fl5(x) by {}
    lemma_concat_map_len(fs, fe5, fl5);
}

proof fn lemma_topics_len(ts: Seq<Seq<char>>)
    ensures
        concat_map(ts, |t: Seq<char>| mqtt_string_encoding(t)).len() == sum_map(ts, |t: Seq<char>| topic_len(t)),
{
    let fe = |t: Seq<char>| mqtt_string_encoding(t);
    let fl = |t: Seq<char>| topic_len(t);
    assert forall|x: Seq<char>| #[trigger] fe(x).len() == fl(x) by {}
    lemma_concat_map_len(ts, fe, fl);
}

/// What a buffer gained when it became `old_b + x`.
proof fn lemma_gain(old_b: Seq<u8>, new_b: Seq<u8>, x: Seq<u8>)
    requires
        new_b == old_b + x,
    ensures
        new_b.len() >= old_b.len(),
        new_b.take(old_b.len() as int) == old_b,
        written_part(old_b, new_b) == x,
{
    assert(new_b.take(old_b.len() as int) =~= old_b);
    assert(new_b.skip(old_b.len() as int) =~= x);
}

proof fn lemma_ack_framed(byte1: u8, pkid: u16, rest: Seq<u8>)
    ensures
        framed(fixed_header_encoding(byte1, 2) + be_u16_bytes(pkid), rest),
{
    lemma_framed(byte1, be_u16_bytes(pkid), fixed_header_encoding(byte1, 2) + be_u16_bytes(pkid), rest);
}

proof fn lemma_empty_framed(byte1: u8, rest: Seq<u8>)
    ensures
        framed(seq![byte1, 0x00u8], rest),
{
    assert(vbi_encode(0) =~= seq![0u8]) by {
        reveal_with_fuel(vbi_encode, 1);
    }
    assert(seq![byte1, 0x00u8] =~= fixed_header_encoding(byte1, 0) + Seq::<u8>::empty());
    lemma_framed(byte1, Seq::<u8>::empty(), seq![byte1, 0x00u8], rest);
}

proof fn lemma_connack_framed(a: crate::mqtt::common::ConnAck, rest: Seq<u8>)
    ensures
        framed(crate::mqtt::mqttv4::connack::connack_encoding(a), rest),
{
    let body = seq![
        if a.session_present {
            1u8
        } else {
            0u8
        },
        crate::mqtt::mqttv4::connack::spec_connect_code(a.code),
    ];
    assert(crate::mqtt::mqttv4::connack::connack_encoding(a) =~= fixed_header_encoding(0x20, 2) + body);
    lemma_framed(0x20, body, crate::mqtt::mqttv4::connack::connack_encoding(a), rest);
}

proof fn lemma_publish4_framed(pv: crate::mqtt::common::PublishView, rest: Seq<u8>)
    requires
        crate::mqtt::common::publish_body_len(pv) <= MAX_PACKET_SIZE,
    ensures
        framed(crate::mqtt::mqttv4::publish::publish_encoding(pv), rest),
{
    let first = crate::mqtt::mqttv4::publish::publish_first_byte(pv.dup, pv.qos, pv.retain);
    let enc = crate::mqtt::mqttv4::publish::publish_encoding(pv);
    let fh = fixed_header_encoding(first, crate::mqtt::common::publish_body_len(pv));
    let body = enc.skip(fh.len() as int);
    assert(enc =~= fh + body);
    lemma_framed(first, body, enc, rest);
}

proof fn lemma_subscribe4_framed(sv: crate::mqtt::common::SubscribeView, rest: Seq<u8>)
    requires
        crate::mqtt::mqttv4::subscribe::subscribe_encoding(sv).len() <= MAX_PACKET_SIZE,
    ensures
        framed(crate::mqtt::mqttv4::subscribe::subscribe_encoding(sv), rest),
{
    lemma_filters_len(sv.filters);
    let body = be_u16_bytes(sv.packet_identifier) + concat_map(sv.filters, |f: FilterView| filter_encoding(f));
    let enc = crate::mqtt::mqttv4::subscribe::subscribe_encoding(sv);
    assert(enc =~= fixed_header_encoding(0x82, crate::mqtt::mqttv4::subscribe::subscribe_body_len(sv)) + body);
    lemma_framed(0x82, body, enc, rest);
}

proof fn lemma_unsubscribe4_framed(uv: crate::mqtt::common::UnsubscribeView, rest: Seq<u8>)
    requires
        crate::mqtt::mqttv4::unsubscribe::unsubscribe_encoding(uv).len() <= MAX_PACKET_SIZE,
    ensures
        framed(crate::mqtt::mqttv4::unsubscribe::unsubscribe_encoding(uv), rest),
{
    lemma_topics_len(uv.filters);
    let body = be_u16_bytes(uv.pkid) + concat_map(uv.filters, |t: Seq<char>| mqtt_string_encoding(t));
    let enc = crate::mqtt::mqttv4::unsubscribe::unsubscribe_encoding(uv);
    assert(enc =~= fixed_header_encoding(0xA2, crate::mqtt::mqttv4::unsubscribe::unsubscribe_body_len(uv)) + body);
    lemma_framed(0xA2, body, enc, rest);
}

pub(crate) proof fn lemma_connect_framed(
    cv: crate::mqtt::common::ConnectView,
    lv: Option<crate::mqtt::common::LoginView>,
    wv: Option<crate::mqtt::common::LastWillView>,
    rest: Seq<u8>,
)
    requires
        connect_body_len(cv, lv, wv) <= MAX_PACKET_SIZE,
    ensures
        ({
            let len = connect_body_len(cv, lv, wv);
            let clean: u8 = if cv.clean_session { 0x02u8 } else { 0u8 };
            framed(
                connect_encoding(cv, lv, wv, clean).update(
                    crate::mqtt::common::spec_len_len(len) + 8int,
                    crate::mqtt::mqttv4::connect::connect_flags(cv, lv, wv),
                ),
                rest,
            )
        }),
{
    let len = connect_body_len(cv, lv, wv);
    let clean: u8 = if cv.clean_session { 0x02u8 } else { 0u8 };
    let enc = connect_encoding(cv, lv, wv, clean);
    let flags = crate::mqtt::mqttv4::connect::connect_flags(cv, lv, wv);
    let k = crate::mqtt::common::spec_len_len(len) + 8int;
    lemma_vbi_encode_len(len);
    let fh = fixed_header_encoding(0x10, len);
    let body0 = enc.skip(fh.len() as int);
    assert(enc =~= fh + body0);
    lemma_string_len(cv.client_id);
    assert(body0.len() == len) by {
        if let Some(x) = lv {
            if x.username.len() != 0 {
                lemma_string_len(x.username);
            }
            if x.password.len() != 0 {
                lemma_string_len(x.password);
            }
        }
    }
    let body = body0.update(k - fh.len(), flags);
    assert(enc.update(k, flags) =~= fh + body);
    lemma_framed(0x10, body, enc.update(k, flags), rest);
}

/// Every packet that the MQTT 3.1.1 writer writes is framed whole by the
/// reader, whatever follows it, as long as it is no longer than the
/// largest packet; a CONNECT when the buffer held nothing before it.
pub proof fn lemma_v4_written_is_framed(p: MqttPacket, old_b: Seq<u8>, new_b: Seq<u8>, n: usize, rest: Seq<u8>)
    requires
        written_v4(p, old_b, new_b, Ok::<usize, MQTTProtocolError>(n)),
        new_b.len() <= old_b.len() + MAX_PACKET_SIZE,
        p is Connect ==> old_b.len() == 0,
    ensures
        new_b.len() >= old_b.len(),
        new_b.take(old_b.len() as int) == old_b,
        framed(written_part(old_b, new_b), rest),
{
    match p {
        MqttPacket::Connect(_, c, None, w, None, l) => {
            let cv = c@;
            let lv = crate::mqtt::mqttv4::connect::opt_login_view(l);
            let wv = crate::mqtt::mqttv4::connect::opt_will_view(w);
            let clean: u8 = if cv.clean_session { 0x02u8 } else { 0u8 };
            let len = connect_body_len(cv, lv, wv);
            let x = connect_encoding(cv, lv, wv, clean).update(
                crate::mqtt::common::spec_len_len(len) + 8int,
                crate::mqtt::mqttv4::connect::connect_flags(cv, lv, wv),
            );
            assert(old_b + connect_encoding(cv, lv, wv, clean) =~= connect_encoding(cv, lv, wv, clean));
            assert(new_b == old_b + x);
            lemma_gain(old_b, new_b, x);
            lemma_connect_framed(cv, lv, wv, rest);
        },
        MqttPacket::ConnAck(a, _) => {
            lemma_gain(old_b, new_b, crate::mqtt::mqttv4::connack::connack_encoding(a));
            lemma_connack_framed(a, rest);
        },
        MqttPacket::Publish(pb, None) => {
            let enc = crate::mqtt::mqttv4::publish::publish_encoding(pb@);
            lemma_gain(old_b, new_b, enc);
            lemma_publish4_framed(pb@, rest);
        },
        MqttPacket::PubAck(a, None) => {
            lemma_gain(old_b, new_b, fixed_header_encoding(0x40, 2) + be_u16_bytes(a.pkid));
            lemma_ack_framed(0x40, a.pkid, rest);
        },
        MqttPacket::PubRec(a, None) => {
            lemma_gain(old_b, new_b, fixed_header_encoding(0x50, 2) + be_u16_bytes(a.pkid));
            lemma_ack_framed(0x50, a.pkid, rest);
        },
        MqttPacket::PubRel(a, None) => {
            lemma_gain(old_b, new_b, fixed_header_encoding(0x62, 2) + be_u16_bytes(a.pkid));
            lemma_ack_framed(0x62, a.pkid, rest);
        },
        MqttPacket::PubComp(a, None) => {
            lemma_gain(old_b, new_b, fixed_header_encoding(0x70, 2) + be_u16_bytes(a.pkid));
            lemma_ack_framed(0x70, a.pkid, rest);
        },
        MqttPacket::Subscribe(sb, None) => {
            lemma_gain(old_b, new_b, crate::mqtt::mqttv4::subscribe::subscribe_encoding(sb@));
            lemma_subscribe4_framed(sb@, rest);
        },
        MqttPacket::Unsubscribe(u, None) => {
            lemma_gain(old_b, new_b, crate::mqtt::mqttv4::unsubscribe::unsubscribe_encoding(u@));
            lemma_unsubscribe4_framed(u@, rest);
        },
        MqttPacket::UnsubAck(u, None) => {
            lemma_gain(old_b, new_b, fixed_header_encoding(0xB0, 2) + be_u16_bytes(u.pkid));
            lemma_ack_framed(0xB0, u.pkid, rest);
        },
        MqttPacket::PingReq(_) => {
            lemma_gain(old_b, new_b, seq![0xC0u8, 0x00u8]);
            lemma_empty_framed(0xC0, rest);
        },
        MqttPacket::PingResp(_) => {
            lemma_gain(old_b, new_b, seq![0xD0u8, 0x00u8]);
            lemma_empty_framed(0xD0, rest);
        },
        MqttPacket::Disconnect(_, None) => {
            lemma_gain(old_b, new_b, seq![0xE0u8, 0x00u8]);
            lemma_empty_framed(0xE0, rest);
        },
        _ => {},
    }
}

/// The properties' block of an acknowledgement is as long as the length
/// that counts it.
proof fn lemma_reason_block_len(props: Option<crate::mqtt::common::ReasonPropertiesView>)
    requires
        props matches Some(x) ==> crate::mqtt::mqttv5::reason_props_len(x) <= MAX_REMAINING_LENGTH,
    ensures
        (match props {
            Some(x) => reason_props_encoding(x),
            None => seq![0u8],
        }).len() == match props {
            Some(x) => crate::mqtt::common::spec_len_len(crate::mqtt::mqttv5::reason_props_len(x))
                + crate::mqtt::mqttv5::reason_props_len(x),
            None => 1,
        },
{
    if let Some(x) = props {
        lemma_vbi_encode_len(crate::mqtt::mqttv5::reason_props_len(x));
        let fe = |kv: (Seq<char>, Seq<char>)| crate::mqtt::mqttv5::user_property_encoding(kv);
        let fl = |kv: (Seq<char>, Seq<char>)| crate::mqtt::mqttv5::user_property_len(kv);
        assert forall|y: (Seq<char>, Seq<char>)| #[trigger] fe(y).len() == fl(y) by {}
        lemma_concat_map_len(x.user_properties, fe, fl);
    }
}

proof fn lemma_puback5_framed(
    pkid: u16,
    reason: Option<crate::mqtt::common::PubAckReason>,
    pv: Option<crate::mqtt::common::ReasonPropertiesView>,
    rest: Seq<u8>,
)
    requires
        reason is Some,
        crate::mqtt::mqttv5::puback::puback_body_len(reason, pv) <= MAX_PACKET_SIZE,
    ensures
        framed(crate::mqtt::mqttv5::puback::puback_encoding(pkid, reason, pv), rest),
{
    let enc = crate::mqtt::mqttv5::puback::puback_encoding(pkid, reason, pv);
    let n = crate::mqtt::mqttv5::puback::puback_body_len(reason, pv);
    if crate::mqtt::mqttv5::puback::puback_short(reason, pv) {
        lemma_ack_framed(0x40, pkid, rest);
    } else {
        lemma_reason_block_len(pv);
        let fh = fixed_header_encoding(0x40, n);
        let body = enc.skip(fh.len() as int);
        assert(enc =~= fh + body);
        lemma_framed(0x40, body, enc, rest);
    }
}

proof fn lemma_pubrel5_framed(
    pkid: u16,
    reason: Option<crate::mqtt::common::PubRelReason>,
    pv: Option<crate::mqtt::common::ReasonPropertiesView>,
    rest: Seq<u8>,
)
    requires
        reason is Some,
        crate::mqtt::mqttv5::pubrel::pubrel_body_len(reason, pv) <= MAX_PACKET_SIZE,
    ensures
        framed(crate::mqtt::mqttv5::pubrel::pubrel_encoding(pkid, reason, pv), rest),
{
    let enc = crate::mqtt::mqttv5::pubrel::pubrel_encoding(pkid, reason, pv);
    let n = crate::mqtt::mqttv5::pubrel::pubrel_body_len(reason, pv);
    if crate::mqtt::mqttv5::pubrel::pubrel_short(reason, pv) {
        lemma_ack_framed(0x62, pkid, rest);
    } else {
        lemma_reason_block_len(pv);
        let fh = fixed_header_encoding(0x62, n);
        let body = enc.skip(fh.len() as int);
        assert(enc =~= fh + body);
        lemma_framed(0x62, body, enc, rest);
    }
}

proof fn lemma_subscribe5_framed(
    sv: crate::mqtt::common::SubscribeView,
    props: Option<crate::mqtt::common::SubscribePropertiesView>,
    rest: Seq<u8>,
)
    requires
        props matches Some(x) ==> sub_props_id_fits(x) && crate::mqtt::mqttv5::subscribe::properties::sub_props_len(
            x,
        ) <= MAX_REMAINING_LENGTH,
        subscribe5_body_len(sv, props) <= MAX_PACKET_SIZE,
    ensures
        framed(crate::mqtt::mqttv5::subscribe::subscribe5_encoding(sv, props), rest),
{
    let enc = crate::mqtt::mqttv5::subscribe::subscribe5_encoding(sv, props);
    let n = subscribe5_body_len(sv, props);
    lemma_filters_len(sv.filters);
    if let Some(x) = props {
        lemma_sub_props_body_len(x);
        lemma_vbi_encode_len(crate::mqtt::mqttv5::subscribe::properties::sub_props_len(x));
    }
    let fh = fixed_header_encoding(0x82, n);
    let body = enc.skip(fh.len() as int);
    assert(enc =~= fh + body);
    assert(body =~= be_u16_bytes(sv.packet_identifier) + sub_props_part(props) + concat_map(
        sv.filters,
        |f: FilterView| filter5_encoding(f),
    ));
    lemma_framed(0x82, body, enc, rest);
}

proof fn lemma_publish5_framed(
    pv: crate::mqtt::common::PublishView,
    props: Option<crate::mqtt::mqttv5::publish::properties::PublishPropertiesView>,
    rest: Seq<u8>,
)
    requires
        props matches Some(x) ==> crate::mqtt::mqttv5::publish::properties::ids_fit(x.subscription_identifiers)
            && x.topic_alias is None,
        pv.qos != crate::mqtt::common::QoS::AtMostOnce ==> pv.pkid != 0,
        crate::mqtt::mqttv5::publish::publish_v5_len(pv, props) <= MAX_REMAINING_LENGTH,
        crate::mqtt::mqttv5::publish::publish_v5_encoding(pv, props).len() <= MAX_PACKET_SIZE,
    ensures
        framed(crate::mqtt::mqttv5::publish::publish_v5_encoding(pv, props), rest),
{
    let enc = crate::mqtt::mqttv5::publish::publish_v5_encoding(pv, props);
    let n = crate::mqtt::mqttv5::publish::publish_v5_len(pv, props);
    let first = crate::mqtt::mqttv4::publish::publish_first_byte(pv.dup, pv.qos, pv.retain);
    match props {
        Some(x) => {
            crate::mqtt::mqttv5::publish::properties::lemma_pub_props_body_exact_len(x);
            lemma_vbi_encode_len(crate::mqtt::mqttv5::publish::properties::pub_props_len(x));
        },
        None => {
            lemma_vbi_encode_len(0);
        },
    }
    let fh = fixed_header_encoding(first, n);
    let body = enc.skip(fh.len() as int);
    assert(enc =~= fh + body);
    lemma_framed(first, body, enc, rest);
}

/// Every packet that the MQTT 5.0 writer writes is framed whole by the
/// reader, whatever follows it, as long as it is no longer than the
/// largest packet: a PUBACK or PUBREL that carries a reason, a PUBLISH
/// without a topic alias, a SUBSCRIBE, a PINGREQ or PINGRESP, and an AUTH
/// of Success without properties.
pub proof fn lemma_v5_written_is_framed(p: MqttPacket, old_b: Seq<u8>, new_b: Seq<u8>, n: usize, rest: Seq<u8>)
    requires
        written_v5(p, old_b, new_b, Ok::<usize, MQTTProtocolError>(n)),
        new_b.len() <= old_b.len() + MAX_PACKET_SIZE,
        p matches MqttPacket::PubAck(a, _) ==> a.reason is Some,
        p matches MqttPacket::PubRel(a, _) ==> a.reason is Some,
        p matches MqttPacket::Publish(_, Some(x)) ==> x.topic_alias is None,
        p matches MqttPacket::Auth(a, x) ==> a.reason == Some(crate::mqtt::common::AuthReason::Success)
            && x is None,
    ensures
        new_b.len() >= old_b.len(),
        new_b.take(old_b.len() as int) == old_b,
        framed(written_part(old_b, new_b), rest),
{
    match p {
        MqttPacket::PubAck(a, props) => {
            let pv = crate::mqtt::mqttv5::puback::opt_props_view(props);
            let enc = crate::mqtt::mqttv5::puback::puback_encoding(a.pkid, a.reason, pv);
            lemma_gain(old_b, new_b, enc);
            lemma_reason_block_len(pv);
            lemma_puback5_framed(a.pkid, a.reason, pv, rest);
        },
        MqttPacket::PubRel(a, props) => {
            let pv = crate::mqtt::mqttv5::pubrel::opt_props_view(props);
            let enc = crate::mqtt::mqttv5::pubrel::pubrel_encoding(a.pkid, a.reason, pv);
            lemma_gain(old_b, new_b, enc);
            lemma_reason_block_len(pv);
            lemma_pubrel5_framed(a.pkid, a.reason, pv, rest);
        },
        MqttPacket::Subscribe(sb, props) => {
            let pv = crate::mqtt::mqttv5::subscribe::properties::opt_sub_props_view(props);
            let enc = crate::mqtt::mqttv5::subscribe::subscribe5_encoding(sb@, pv);
            lemma_gain(old_b, new_b, enc);
            lemma_filters_len(sb@.filters);
            if let Some(x) = pv {
                lemma_sub_props_body_len(x);
            }
            lemma_subscribe5_framed(sb@, pv, rest);
        },
        MqttPacket::Publish(pb, props) => {
            let pv = crate::mqtt::mqttv5::publish::properties::opt_pub_props_view(props);
            let enc = crate::mqtt::mqttv5::publish::publish_v5_encoding(pb@, pv);
            lemma_gain(old_b, new_b, enc);
            lemma_publish5_framed(pb@, pv, rest);
        },
        MqttPacket::Auth(a, props) => {
            lemma_gain(old_b, new_b, seq![0xF0u8, 0x00u8]);
            lemma_empty_framed(0xF0, rest);
        },
        MqttPacket::PingReq(_) => {
            lemma_gain(old_b, new_b, seq![0xC0u8, 0x00u8]);
            lemma_empty_framed(0xC0, rest);
        },
        MqttPacket::PingResp(_) => {
            lemma_gain(old_b, new_b, seq![0xD0u8, 0x00u8]);
            lemma_empty_framed(0xD0, rest);
        },
        _ => {},
    }
}

} // verus!
