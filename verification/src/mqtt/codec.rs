//! A codec that follows the protocol level of a connection: a CONNECT
//! tells it the level, and later packets are read by the codec of that
//! level.
use crate::buffer::{
    be_u16_bytes, bytes_mut_as_slice, bytes_mut_extend, bytes_mut_freeze, bytes_mut_new, bytes_mut_seq,
    bytes_mut_split_to, bytes_seq,
};
use crate::mqtt::common::{
    check, connect_read, fixed_header_encoding, mqtt_bytes_encoding, pkid_ack_encoding, publish_body_len,
    spec_check, spec_connect_read_any, spec_len_len, spec_packet_type, Error, FixedHeader, MqttPacket,
    PacketType, PingReq, PingResp, QoS, MAX_REMAINING_LENGTH,
};
use crate::mqtt::mqttv4::connack::{connack_encoding, is_v4_return_code};
use crate::mqtt::mqttv4::connect::{connect_body_len, connect_encoding, connect_flags};
use crate::mqtt::mqttv4::publish::{publish_encoding, publish_first_byte};
use crate::mqtt::mqttv4::subscribe::{subscribe_body_len, subscribe_encoding};
use crate::mqtt::mqttv4::unsubscribe::{unsubscribe_body_len, unsubscribe_encoding};
use crate::mqtt::mqttv5::auth::{auth_encoding, auth_len};
use crate::mqtt::mqttv5::auth::properties::{auth_props_len, opt_auth_props_view};
use crate::mqtt::mqttv5::puback::{puback_body_len, puback_encoding, puback_short};
use crate::mqtt::mqttv5::pubrel::{pubrel_body_len, pubrel_encoding, pubrel_short};
use crate::mqtt::mqttv5::reason_props_len;
use crate::mqtt::mqttv5::subscribe::{subscribe5_body_len, subscribe5_encoding};
use crate::mqtt::mqttv5::subscribe::properties::{sub_props_id_fits, sub_props_len};

use crate::mqtt::mqtt_protocol_error::{spec_from_error, MQTTProtocolError};
use crate::mqtt::mqttv4::connack::spec_connack_read;
use crate::mqtt::mqttv4::connect::{opt_login_view, opt_will_view};
use crate::mqtt::mqttv4::puback::spec_puback_read;
use crate::mqtt::mqttv4::pubcomp::spec_pubcomp_read;
use crate::mqtt::mqttv4::publish::spec_publish_read;
use crate::mqtt::mqttv4::pubrec::spec_pubrec_read;
use crate::mqtt::mqttv4::pubrel::spec_pubrel_read;
use crate::mqtt::mqttv4::subscribe::spec_subscribe_read;
use crate::mqtt::mqttv4::unsuback::spec_unsuback_read;
use crate::mqtt::mqttv4::unsubscribe::spec_unsubscribe_read;
use crate::mqtt::mqttv5::puback::spec_puback5_read;
use crate::mqtt::mqttv5::pubrel::spec_pubrel5_read;
use crate::mqtt::mqttv5::subscribe::spec_subscribe5_read;
use crate::mqtt::mqttv5::subscribe::properties::opt_sub_props_view;
use crate::mqtt::mqttv5::publish::{publish_v5_encoding, publish_v5_len, pkid_bytes, spec_publish_v5_read};
use crate::mqtt::mqttv5::publish::properties::{ids_fit, ids_written, opt_pub_props_view, pub_props_head, pub_props_len};
use bytes::BytesMut;
use vstd::prelude::*;

verus! {

/// A packet with the protocol level it is written at.
#[derive(Debug, Clone)]
pub struct MqttPacketWrapper {
    pub protocol_version: u8,
    pub packet: MqttPacket,
}

/// The codec of one connection, with the protocol level that its CONNECT
/// named.
#[derive(Clone, Debug)]
pub struct MqttCodec {
    pub protocol_version: Option<u8>,
}

/// The largest packet the codec accepts.
pub const MAX_PACKET_SIZE: usize = 1000000;

/// What decoding a frame of MQTT 3.1.1 of packet type `t` gives.
pub open spec fn decoded_v4(h: FixedHeader, t: PacketType, f: Seq<u8>, r: Result<Option<MqttPacket>, MQTTProtocolError>) -> bool {
    match t {
        PacketType::ConnAck => match (r, spec_connack_read(h, f)) {
            (Ok(Some(MqttPacket::ConnAck(a, None))), Ok(sa)) => a == sa,
            (Err(e), Err(se)) => e == se,
            _ => false,
        },
        PacketType::Publish => match (r, spec_publish_read(h, f)) {
            (Ok(Some(MqttPacket::Publish(p, None))), Ok(sp)) => p@ == sp,
            (Err(e), Err(se)) => e == spec_from_error(se),
            _ => false,
        },
        PacketType::PubAck => match (r, spec_puback_read(h, f)) {
            (Ok(Some(MqttPacket::PubAck(a, None))), Ok(sa)) => a == sa,
            (Err(e), Err(se)) => e == se,
            _ => false,
        },
        PacketType::PubRec => match (r, spec_pubrec_read(h, f)) {
            (Ok(Some(MqttPacket::PubRec(a, None))), Ok(sa)) => a == sa,
            (Err(e), Err(se)) => e == spec_from_error(se),
            _ => false,
        },
        PacketType::PubRel => match (r, spec_pubrel_read(h, f)) {
            (Ok(Some(MqttPacket::PubRel(a, None))), Ok(sa)) => a == sa,
            (Err(e), Err(se)) => e == spec_from_error(se),
            _ => false,
        },
        PacketType::PubComp => match (r, spec_pubcomp_read(h, f)) {
            (Ok(Some(MqttPacket::PubComp(a, None))), Ok(sa)) => a == sa,
            (Err(e), Err(se)) => e == se,
            _ => false,
        },
        PacketType::Subscribe => match (r, spec_subscribe_read(h, f)) {
            (Ok(Some(MqttPacket::Subscribe(s, None))), Ok(ss)) => s@ == ss,
            (Err(e), Err(se)) => e == se,
            _ => false,
        },
        PacketType::Unsubscribe => match (r, spec_unsubscribe_read(h, f)) {
            (Ok(Some(MqttPacket::Unsubscribe(u, None))), Some(Ok(su))) => u@ == su,
            (Err(e), Some(Err(se))) => e == spec_from_error(se),
            _ => false,
        },
        PacketType::UnsubAck => match (r, spec_unsuback_read(h, f)) {
            (Ok(Some(MqttPacket::UnsubAck(u, None))), Ok(pkid)) => u.pkid == pkid && u.reasons@.len() == 0,
            (Err(e), Err(se)) => e == spec_from_error(se),
            _ => false,
        },
        PacketType::PingReq => r matches Ok(Some(MqttPacket::PingReq(_))),
        PacketType::PingResp => r matches Ok(Some(MqttPacket::PingResp(_))),
        // this library has no MQTT 3.1.1 codec for these
        PacketType::SubAck => r == Err::<Option<MqttPacket>, MQTTProtocolError>(
            MQTTProtocolError::InvalidPacketType(9),
        ),
        PacketType::Disconnect => r == Err::<Option<MqttPacket>, MQTTProtocolError>(
            MQTTProtocolError::InvalidPacketType(14),
        ),
        _ => false,
    }
}

/// What decoding a frame of MQTT 5.0 of packet type `t` gives.
pub open spec fn decoded_v5(h: FixedHeader, t: PacketType, f: Seq<u8>, r: Result<Option<MqttPacket>, MQTTProtocolError>) -> bool {
    match t {
        PacketType::Publish => match (r, spec_publish_v5_read(h, f)) {
            (Ok(Some(MqttPacket::Publish(p, pp))), Ok((sp, spp))) => p@ == sp && opt_pub_props_view(pp) == spp,
            (Err(e), Err(se)) => e == spec_from_error(se),
            _ => false,
        },
        PacketType::PubAck => match (r, spec_puback5_read(h, f)) {
            (Ok(Some(MqttPacket::PubAck(a, p))), Ok((sa, sp))) => a == sa
                && crate::mqtt::mqttv5::puback::opt_props_view(p) == sp,
            (Err(e), Err(se)) => e == se,
            _ => false,
        },
        PacketType::PubRel => match (r, spec_pubrel5_read(h, f)) {
            (Ok(Some(MqttPacket::PubRel(a, p))), Ok((sa, sp))) => a == sa
                && crate::mqtt::mqttv5::pubrel::opt_props_view(p) == sp,
            (Err(e), Err(se)) => e == spec_from_error(se),
            _ => false,
        },
        PacketType::Subscribe => match (r, spec_subscribe5_read(h, f)) {
            (Ok(Some(MqttPacket::Subscribe(s, p))), Ok((ss, sp))) => s@ == ss && opt_sub_props_view(p) == sp,
            (Err(e), Err(se)) => e == se,
            _ => false,
        },
        PacketType::PingReq => r matches Ok(Some(MqttPacket::PingReq(_))),
        PacketType::PingResp => r matches Ok(Some(MqttPacket::PingResp(_))),
        PacketType::Connect | PacketType::Auth => false,
        // this library has no MQTT 5.0 codec for the others
        _ => r == Err::<Option<MqttPacket>, MQTTProtocolError>(
            MQTTProtocolError::InvalidPacketType(crate::mqtt::common::packet_type_number(t)),
        ),
    }
}

/// What decoding a whole frame `f` with header `h` and type `t` gives, for
/// a codec at level `ver` that is at level `ver_after` afterwards.
pub open spec fn decoded(
    ver: Option<u8>,
    h: FixedHeader,
    t: PacketType,
    f: Seq<u8>,
    r: Result<Option<MqttPacket>, MQTTProtocolError>,
    ver_after: Option<u8>,
) -> bool {
    if t == PacketType::Connect {
        match spec_connect_read_any(h, f) {
            Err(_) => r == Err::<Option<MqttPacket>, MQTTProtocolError>(MQTTProtocolError::InvalidProtocolName)
                && ver_after == ver,
            Ok(so) => ver_after == Some(so.0) && (r matches Ok(Some(MqttPacket::Connect(lvl, c, p, w, wp, l)))
                && lvl == so.0 && c@ == so.1 && p is None && wp is None && opt_login_view(l) == so.2
                && opt_will_view(w) == so.3),
        }
    } else {
        ver_after == ver && match ver {
            None => r == Err::<Option<MqttPacket>, MQTTProtocolError>(MQTTProtocolError::InvalidProtocolName),
            Some(v) => if v == 4 || v == 3 {
                decoded_v4(h, t, f, r)
            } else if v == 5 {
                decoded_v5(h, t, f, r)
            } else {
                r == Err::<Option<MqttPacket>, MQTTProtocolError>(MQTTProtocolError::InvalidProtocolName)
            },
        }
    }
}

/// Whether the codec at level `ver` can decode the stream without giving
/// up: an AUTH is not read at a known level, and the filters of an
/// UNSUBSCRIBE of MQTT 3.1.1 add up to its remaining length.
pub open spec fn decodable(ver: Option<u8>, s: Seq<u8>) -> bool {
    match spec_check(s, MAX_PACKET_SIZE) {
        Err(_) => true,
        Ok(h) => match spec_packet_type(h.byte1) {
            Err(_) => true,
            Ok(t) => {
                let f = s.take(h.fixed_header_len + h.remaining_len);
                &&& (t == PacketType::Auth ==> !((ver matches Some(v) && (v == 3 || v == 4 || v == 5))))
                &&& (t == PacketType::Unsubscribe && (ver matches Some(v) && (v == 3 || v == 4))) ==> (
                h.remaining_len >= 2 && spec_unsubscribe_read(h, f) is Some)
            },
        },
    }
}

impl MqttCodec {
    pub fn new(protocol_version: Option<u8>) -> (r: MqttCodec)
        ensures
            r.protocol_version == protocol_version,
    {
        MqttCodec { protocol_version }
    }

    /// Whether `decode_data` can take the front of `stream`: an AUTH is not
    /// sent once MQTT 3.1, 3.1.1 or 5 is agreed, and the topic filters of an
    /// UNSUBSCRIBE under MQTT 3.1 or 3.1.1 fit in its remaining length.
    pub fn can_decode(&self, stream: &BytesMut) -> (r: bool)
        ensures
            r == decodable(self.protocol_version, bytes_mut_seq(*stream)),
    {
        let s = bytes_mut_as_slice(stream);
        let h = match check(s, MAX_PACKET_SIZE) {
            Ok(h) => h,
            Err(_) => return true,
        };
        let t = match h.packet_type() {
            Ok(t) => t,
            Err(_) => return true,
        };
        let agreed = match self.protocol_version {
            Some(v) => v,
            None => 0,
        };
        if t == PacketType::Auth && (agreed == 3 || agreed == 4 || agreed == 5) {
            return false;
        }
        if t == PacketType::Unsubscribe && (agreed == 3 || agreed == 4) {
            let n = h.frame_length();
            let frame = crate::buffer::bytes_copy_from_slice(vstd::slice::slice_subrange(s, 0, n));
            assert(bytes_seq(frame) =~= bytes_mut_seq(*stream).take(n as int));
            return crate::mqtt::mqttv4::unsubscribe::lengths_fit(h, frame);
        }
        true
    }

    /// Takes one whole packet from the front of the stream and decodes it.
    pub fn decode_data(&mut self, stream: &mut BytesMut) -> (r: Result<Option<MqttPacket>, MQTTProtocolError>)
        requires
            decodable(old(self).protocol_version, bytes_mut_seq(*old(stream))),
        ensures
            ({
                let s = bytes_mut_seq(*old(stream));
                match spec_check(s, MAX_PACKET_SIZE) {
                    Err(e) => r == Err::<Option<MqttPacket>, MQTTProtocolError>(spec_from_error(e))
                        && bytes_mut_seq(*final(stream)) == s && final(self).protocol_version == old(self).protocol_version,
                    Ok(h) => match spec_packet_type(h.byte1) {
                        Err(e) => r == Err::<Option<MqttPacket>, MQTTProtocolError>(spec_from_error(e))
                            && bytes_mut_seq(*final(stream)) == s && final(self).protocol_version == old(self).protocol_version,
                        Ok(t) => {
                            let n = h.fixed_header_len + h.remaining_len;
                            &&& bytes_mut_seq(*final(stream)) == s.skip(n)
                            &&& decoded(
                                old(self).protocol_version,
                                h,
                                t,
                                s.take(n),
                                r,
                                final(self).protocol_version,
                            )
                        },
                    },
                }
            }),
    {
        let fixed_header = match check(bytes_mut_as_slice(stream), MAX_PACKET_SIZE) {
            Ok(h) => h,
            Err(e) => return Err(MQTTProtocolError::from_error(e)),
        };
        let packet_type = match fixed_header.packet_type() {
            Ok(t) => t,
            Err(e) => return Err(MQTTProtocolError::from_error(e)),
        };
        let packet = bytes_mut_split_to(stream, fixed_header.frame_length());
        let packet = bytes_mut_freeze(packet);
        if packet_type == PacketType::Connect {
            match connect_read(fixed_header, packet.clone()) {
                Ok(outcome) => {
                    let protocol_version = outcome.protocol_version;
                    self.protocol_version = Some(protocol_version);
                    return Ok(
                        Some(
                            MqttPacket::Connect(
                                protocol_version,
                                outcome.connect,
                                None,
                                outcome.last_will,
                                None,
                                outcome.login,
                            ),
                        ),
                    );
                },
                Err(_) => {
                    return Err(MQTTProtocolError::InvalidProtocolName);
                },
            }
        }
        let protocol_version = match self.protocol_version {
            Some(v) => v,
            None => return Err(MQTTProtocolError::InvalidProtocolName),
        };
        if protocol_version == 4 || protocol_version == 3 {
            let packet = match packet_type {
                PacketType::ConnAck => match crate::mqtt::mqttv4::connack::read(fixed_header, packet) {
                    Ok(a) => MqttPacket::ConnAck(a, None),
                    Err(e) => return Err(e),
                },
                PacketType::Publish => match crate::mqtt::mqttv4::publish::read(fixed_header, packet) {
                    Ok(p) => MqttPacket::Publish(p, None),
                    Err(e) => return Err(MQTTProtocolError::from_error(e)),
                },
                PacketType::PubAck => match crate::mqtt::mqttv4::puback::read(fixed_header, packet) {
                    Ok(a) => MqttPacket::PubAck(a, None),
                    Err(e) => return Err(e),
                },
                PacketType::PubRec => match crate::mqtt::mqttv4::pubrec::read(fixed_header, packet) {
                    Ok(a) => MqttPacket::PubRec(a, None),
                    Err(e) => return Err(MQTTProtocolError::from_error(e)),
                },
                PacketType::PubRel => match crate::mqtt::mqttv4::pubrel::read(fixed_header, packet) {
                    Ok(a) => MqttPacket::PubRel(a, None),
                    Err(e) => return Err(MQTTProtocolError::from_error(e)),
                },
                PacketType::PubComp => match crate::mqtt::mqttv4::pubcomp::read(fixed_header, packet) {
                    Ok(a) => MqttPacket::PubComp(a, None),
                    Err(e) => return Err(e),
                },
                PacketType::Subscribe => match crate::mqtt::mqttv4::subscribe::read(fixed_header, packet) {
                    Ok(s) => MqttPacket::Subscribe(s, None),
                    Err(e) => return Err(e),
                },
                PacketType::SubAck => return Err(MQTTProtocolError::InvalidPacketType(9)),
                PacketType::Unsubscribe => match crate::mqtt::mqttv4::unsubscribe::read(fixed_header, packet) {
                    Ok(u) => MqttPacket::Unsubscribe(u, None),
                    Err(e) => return Err(MQTTProtocolError::from_error(e)),
                },
                PacketType::UnsubAck => match crate::mqtt::mqttv4::unsuback::read(fixed_header, packet) {
                    Ok(u) => MqttPacket::UnsubAck(u, None),
                    Err(e) => return Err(MQTTProtocolError::from_error(e)),
                },
                PacketType::PingReq => MqttPacket::PingReq(PingReq),
                PacketType::PingResp => MqttPacket::PingResp(PingResp),
                PacketType::Disconnect => return Err(MQTTProtocolError::InvalidPacketType(14)),
                PacketType::Connect | PacketType::Auth => {
                    assert(false);
                    return Err(MQTTProtocolError::InvalidProtocolName);
                },
            };
            return Ok(Some(packet));
        } else if protocol_version == 5 {
            let packet = match packet_type {
                PacketType::Publish => match crate::mqtt::mqttv5::publish::read(fixed_header, packet) {
                    Ok((p, pp)) => MqttPacket::Publish(p, pp),
                    Err(e) => return Err(MQTTProtocolError::from_error(e)),
                },
                PacketType::PubAck => match crate::mqtt::mqttv5::puback::read(fixed_header, packet) {
                    Ok((a, p)) => MqttPacket::PubAck(a, p),
                    Err(e) => return Err(e),
                },
                PacketType::PubRel => match crate::mqtt::mqttv5::pubrel::read(fixed_header, packet) {
                    Ok((a, p)) => MqttPacket::PubRel(a, p),
                    Err(e) => return Err(MQTTProtocolError::from_error(e)),
                },
                PacketType::Subscribe => match crate::mqtt::mqttv5::subscribe::read(fixed_header, packet) {
                    Ok((s, p)) => MqttPacket::Subscribe(s, p),
                    Err(e) => return Err(e),
                },
                PacketType::PingReq => MqttPacket::PingReq(PingReq),
                PacketType::PingResp => MqttPacket::PingResp(PingResp),
                PacketType::Connect | PacketType::Auth => {
                    assert(false);
                    return Err(MQTTProtocolError::InvalidProtocolName);
                },
                other => return Err(MQTTProtocolError::InvalidPacketType(other.number())),
            };
            return Ok(Some(packet));
        }
        Err(MQTTProtocolError::InvalidProtocolName)
    }
}

/// How a packet is written in MQTT 3.1.1: the result and the bytes of the
/// buffer afterwards.
pub open spec fn written_v4(p: MqttPacket, old_b: Seq<u8>, new_b: Seq<u8>, r: Result<usize, MQTTProtocolError>) -> bool {
    match p {
        MqttPacket::Connect(_, c, None, w, None, l) => {
            let cv = c@;
            let lv = opt_login_view(l);
            let wv = opt_will_view(w);
            let n = connect_body_len(cv, lv, wv);
            let clean: u8 = if cv.clean_session {
                0x02u8
            } else {
                0u8
            };
            &&& n > MAX_REMAINING_LENGTH ==> r == Err::<usize, MQTTProtocolError>(MQTTProtocolError::PayloadTooLong)
                && new_b == old_b.push(0x10)
            &&& n <= MAX_REMAINING_LENGTH ==> r == Ok::<usize, MQTTProtocolError>(n as usize) && new_b == (old_b
                + connect_encoding(cv, lv, wv, clean)).update(spec_len_len(n) + 8int, connect_flags(cv, lv, wv))
        },
        MqttPacket::ConnAck(a, _) => r == Ok::<usize, MQTTProtocolError>(4) && new_b == old_b + connack_encoding(a),
        MqttPacket::Publish(pb, None) => {
            let pv = pb@;
            let first = publish_first_byte(pv.dup, pv.qos, pv.retain);
            if publish_body_len(pv) > MAX_REMAINING_LENGTH {
                r == Err::<usize, MQTTProtocolError>(MQTTProtocolError::PayloadTooLong) && new_b == old_b.push(first)
            } else if pv.qos != QoS::AtMostOnce && pv.pkid == 0 {
                r == Err::<usize, MQTTProtocolError>(MQTTProtocolError::PacketIdZero) && new_b == old_b
                    + fixed_header_encoding(first, publish_body_len(pv)) + mqtt_bytes_encoding(pv.topic)
            } else {
                r == Ok::<usize, MQTTProtocolError>(publish_encoding(pv).len() as usize) && new_b == old_b
                    + publish_encoding(pv)
            }
        },
        MqttPacket::PubAck(a, None) => r == Ok::<usize, MQTTProtocolError>(4) && new_b == old_b + pkid_ack_encoding(
            0x40,
            a.pkid,
        ),
        MqttPacket::PubRec(a, None) => r == Ok::<usize, MQTTProtocolError>(4) && new_b == old_b + pkid_ack_encoding(
            0x50,
            a.pkid,
        ),
        MqttPacket::PubRel(a, None) => r == Ok::<usize, MQTTProtocolError>(4) && new_b == old_b + pkid_ack_encoding(
            0x62,
            a.pkid,
        ),
        MqttPacket::PubComp(a, None) => r == Ok::<usize, MQTTProtocolError>(4) && new_b == old_b + pkid_ack_encoding(
            0x70,
            a.pkid,
        ),
        MqttPacket::Subscribe(sb, None) => {
            &&& subscribe_body_len(sb@) > MAX_REMAINING_LENGTH ==> r == Err::<usize, MQTTProtocolError>(
                MQTTProtocolError::PayloadTooLong,
            ) && new_b == old_b.push(0x82)
            &&& subscribe_body_len(sb@) <= MAX_REMAINING_LENGTH ==> r == Ok::<usize, MQTTProtocolError>(
                subscribe_encoding(sb@).len() as usize,
            ) && new_b == old_b + subscribe_encoding(sb@)
        },
        MqttPacket::SubAck(_, None) => r == Err::<usize, MQTTProtocolError>(MQTTProtocolError::InvalidPacketType(9))
            && new_b == old_b,
        MqttPacket::Unsubscribe(u, None) => {
            &&& unsubscribe_body_len(u@) > MAX_REMAINING_LENGTH ==> r == Err::<usize, MQTTProtocolError>(
                MQTTProtocolError::PayloadTooLong,
            ) && new_b == old_b.push(0xA2)
            &&& unsubscribe_body_len(u@) <= MAX_REMAINING_LENGTH ==> r == Ok::<usize, MQTTProtocolError>(
                unsubscribe_encoding(u@).len() as usize,
            ) && new_b == old_b + unsubscribe_encoding(u@)
        },
        MqttPacket::UnsubAck(u, None) => r == Ok::<usize, MQTTProtocolError>(4) && new_b == old_b
            + pkid_ack_encoding(0xB0, u.pkid),
        MqttPacket::PingReq(_) => r == Ok::<usize, MQTTProtocolError>(2) && new_b == old_b + seq![0xC0u8, 0x00u8],
        MqttPacket::PingResp(_) => r == Ok::<usize, MQTTProtocolError>(2) && new_b == old_b + seq![0xD0u8, 0x00u8],
        MqttPacket::Disconnect(_, None) => r == Ok::<usize, MQTTProtocolError>(2) && new_b == old_b + seq![
            0xE0u8,
            0x00u8,
        ],
        _ => false,
    }
}

/// How a packet is written in MQTT 5.0.
pub open spec fn written_v5(p: MqttPacket, old_b: Seq<u8>, new_b: Seq<u8>, r: Result<usize, MQTTProtocolError>) -> bool {
    match p {
        MqttPacket::PubAck(a, props) => {
            let pv = crate::mqtt::mqttv5::puback::opt_props_view(props);
            let n = puback_body_len(a.reason, pv);
            &&& n > MAX_REMAINING_LENGTH ==> r == Err::<usize, MQTTProtocolError>(MQTTProtocolError::PayloadTooLong)
                && new_b == old_b.push(0x40)
            &&& n <= MAX_REMAINING_LENGTH ==> new_b == old_b + puback_encoding(a.pkid, a.reason, pv) && r == Ok::<
                usize,
                MQTTProtocolError,
            >(
                if puback_short(a.reason, pv) {
                    4
                } else {
                    (1 + spec_len_len(n) + n) as usize
                },
            )
        },
        MqttPacket::PubRel(a, props) => {
            let pv = crate::mqtt::mqttv5::pubrel::opt_props_view(props);
            let n = pubrel_body_len(a.reason, pv);
            &&& n > MAX_REMAINING_LENGTH ==> r == Err::<usize, MQTTProtocolError>(MQTTProtocolError::PayloadTooLong)
                && new_b == old_b.push(0x62)
            &&& n <= MAX_REMAINING_LENGTH ==> new_b == old_b + pubrel_encoding(a.pkid, a.reason, pv) && r == Ok::<
                usize,
                MQTTProtocolError,
            >(
                if pubrel_short(a.reason, pv) {
                    4
                } else {
                    (1 + spec_len_len(n) + n) as usize
                },
            )
        },
        MqttPacket::Subscribe(sb, props) => {
            let pv = opt_sub_props_view(props);
            let n = subscribe5_body_len(sb@, pv);
            let id_fits = match pv {
                Some(x) => sub_props_id_fits(x),
                None => true,
            };
            &&& n > MAX_REMAINING_LENGTH ==> r == Err::<usize, MQTTProtocolError>(MQTTProtocolError::PayloadTooLong)
                && new_b == old_b.push(0x82)
            &&& n <= MAX_REMAINING_LENGTH && !id_fits ==> r == Err::<usize, MQTTProtocolError>(
                MQTTProtocolError::PayloadTooLong,
            ) && new_b == old_b + fixed_header_encoding(0x82, n) + be_u16_bytes(sb@.packet_identifier)
                + crate::mqtt::common::vbi_encode(sub_props_len(pv->Some_0)) + seq![11u8]
            &&& n <= MAX_REMAINING_LENGTH && id_fits ==> r == Ok::<usize, MQTTProtocolError>(
                (1 + spec_len_len(n) + n) as usize,
            ) && new_b == old_b + subscribe5_encoding(sb@, pv)
        },
        MqttPacket::Auth(a, props) => {
            let reason = a.reason->Some_0;
            let pv = opt_auth_props_view(props);
            let n = auth_len(reason, pv);
            &&& n == 2 ==> r == Ok::<usize, MQTTProtocolError>(2) && new_b == old_b + auth_encoding(reason, pv)
            &&& n != 2 && n > MAX_REMAINING_LENGTH ==> r == Err::<usize, MQTTProtocolError>(
                MQTTProtocolError::PayloadTooLong,
            ) && new_b == old_b.push(0xF0)
            &&& n != 2 && n <= MAX_REMAINING_LENGTH ==> r == Ok::<usize, MQTTProtocolError>(
                (1 + spec_len_len(n) + n) as usize,
            ) && new_b == old_b + auth_encoding(reason, pv)
        },
        MqttPacket::PingReq(_) => r == Ok::<usize, MQTTProtocolError>(2) && new_b == old_b + seq![0xC0u8, 0x00u8],
        MqttPacket::PingResp(_) => r == Ok::<usize, MQTTProtocolError>(2) && new_b == old_b + seq![0xD0u8, 0x00u8],
        // this library has no MQTT 5.0 codec for the others
        MqttPacket::Connect(..) => r == Err::<usize, MQTTProtocolError>(MQTTProtocolError::InvalidPacketType(1))
            && new_b == old_b,
        MqttPacket::ConnAck(..) => r == Err::<usize, MQTTProtocolError>(MQTTProtocolError::InvalidPacketType(2))
            && new_b == old_b,
        MqttPacket::Publish(pb, props) => {
            let p = pb@;
            let pv = opt_pub_props_view(props);
            let len = publish_v5_len(p, pv);
            let first = publish_first_byte(p.dup, p.qos, p.retain);
            if len > MAX_REMAINING_LENGTH {
                r == Err::<usize, MQTTProtocolError>(MQTTProtocolError::PayloadTooLong) && new_b == old_b.push(first)
            } else if p.qos != QoS::AtMostOnce && p.pkid == 0 {
                r == Err::<usize, MQTTProtocolError>(MQTTProtocolError::PacketIdZero) && new_b == old_b
                    + fixed_header_encoding(first, len) + mqtt_bytes_encoding(p.topic)
            } else if pv is Some && !ids_fit(pv->0.subscription_identifiers) {
                r == Err::<usize, MQTTProtocolError>(MQTTProtocolError::PayloadTooLong) && new_b == old_b
                    + fixed_header_encoding(first, len) + mqtt_bytes_encoding(p.topic) + pkid_bytes(p)
                    + crate::mqtt::common::vbi_encode(pub_props_len(pv->0)) + pub_props_head(pv->0) + ids_written(
                    pv->0.subscription_identifiers,
                )
            } else {
                r == Ok::<usize, MQTTProtocolError>((1 + spec_len_len(len) + len) as usize) && new_b == old_b
                    + publish_v5_encoding(p, pv)
            }
        },
        MqttPacket::PubRec(..) => r == Err::<usize, MQTTProtocolError>(MQTTProtocolError::InvalidPacketType(5))
            && new_b == old_b,
        MqttPacket::PubComp(..) => r == Err::<usize, MQTTProtocolError>(MQTTProtocolError::InvalidPacketType(7))
            && new_b == old_b,
        MqttPacket::SubAck(..) => r == Err::<usize, MQTTProtocolError>(MQTTProtocolError::InvalidPacketType(9))
            && new_b == old_b,
        MqttPacket::Unsubscribe(..) => r == Err::<usize, MQTTProtocolError>(
            MQTTProtocolError::InvalidPacketType(10),
        ) && new_b == old_b,
        MqttPacket::UnsubAck(..) => r == Err::<usize, MQTTProtocolError>(MQTTProtocolError::InvalidPacketType(11))
            && new_b == old_b,
        MqttPacket::Disconnect(..) => r == Err::<usize, MQTTProtocolError>(
            MQTTProtocolError::InvalidPacketType(14),
        ) && new_b == old_b,
    }
}

/// Whether a packet can be written at a level into a buffer holding
/// `held` bytes: MQTT 3.1.1 packets carry no properties and a 3.1.1
/// CONNACK code, an MQTT 5.0 PUBREL and AUTH carry a reason, and the
/// buffer has room.
pub open spec fn encodable(ver: u8, p: MqttPacket, held: nat) -> bool {
    if ver == 4 || ver == 3 {
        match p {
            MqttPacket::Connect(_, c, None, w, None, l) => held + 5 + connect_body_len(
                c@,
                opt_login_view(l),
                opt_will_view(w),
            ) <= usize::MAX,
            MqttPacket::ConnAck(a, _) => is_v4_return_code(a.code) && held + 8 <= usize::MAX,
            MqttPacket::Publish(pb, None) => held + 11 + bytes_seq(pb.topic).len() + bytes_seq(pb.payload).len()
                <= usize::MAX,
            MqttPacket::PubAck(_, None) | MqttPacket::PubRec(_, None) | MqttPacket::PubRel(_, None)
            | MqttPacket::PubComp(_, None) | MqttPacket::UnsubAck(_, None) | MqttPacket::PingReq(_)
            | MqttPacket::PingResp(_) | MqttPacket::Disconnect(_, None) | MqttPacket::SubAck(_, None) => held + 8
                <= usize::MAX,
            MqttPacket::Subscribe(sb, None) => held + 7 + subscribe_body_len(sb@) <= usize::MAX,
            MqttPacket::Unsubscribe(u, None) => held + 7 + unsubscribe_body_len(u@) <= usize::MAX,
            _ => false,
        }
    } else if ver == 5 {
        match p {
            MqttPacket::PubAck(_, props) => match props {
                Some(x) => held + 16 + reason_props_len(x@) <= usize::MAX && reason_props_len(x@) + 8 <= usize::MAX,
                None => held + 16 <= usize::MAX,
            },
            MqttPacket::PubRel(a, props) => a.reason is Some && match props {
                Some(x) => held + 16 + reason_props_len(x@) <= usize::MAX && reason_props_len(x@) + 8 <= usize::MAX,
                None => held + 16 <= usize::MAX,
            },
            MqttPacket::Subscribe(sb, props) => held + 20 + subscribe5_body_len(sb@, opt_sub_props_view(props))
                <= usize::MAX,
            MqttPacket::Publish(pb, props) => held + 48 + 2 * publish_v5_len(pb@, opt_pub_props_view(props))
                <= usize::MAX,
            MqttPacket::Auth(a, props) => a.reason is Some && match props {
                Some(x) => held + 16 + auth_props_len(x@) <= usize::MAX && auth_props_len(x@) + 8 <= usize::MAX,
                None => held + 16 <= usize::MAX,
            },
            _ => held + 2 <= usize::MAX,
        }
    } else {
        true
    }
}

/// Writes a packet at a level and returns what the packet's writer returns;
/// at another level than 3, 4 or 5 nothing is written and the size is 0.
pub(crate) fn write_packet(protocol_version: u8, packet: MqttPacket, buffer: &mut BytesMut) -> (r: Result<usize, MQTTProtocolError>)
    requires
        encodable(protocol_version, packet, bytes_mut_seq(*old(buffer)).len()),
    ensures
        protocol_version == 4 || protocol_version == 3 ==> written_v4(
            packet,
            bytes_mut_seq(*old(buffer)),
            bytes_mut_seq(*final(buffer)),
            r,
        ),
        protocol_version == 5 ==> written_v5(packet, bytes_mut_seq(*old(buffer)), bytes_mut_seq(*final(buffer)), r),
        protocol_version != 3 && protocol_version != 4 && protocol_version != 5 ==> r == Ok::<
            usize,
            MQTTProtocolError,
        >(0) && bytes_mut_seq(*final(buffer)) == bytes_mut_seq(*old(buffer)),
{
    if protocol_version == 4 || protocol_version == 3 {
        match packet {
            MqttPacket::Connect(_, connect, None, last_will, None, login) => crate::mqtt::mqttv4::connect::write(
                &connect,
                &login,
                &last_will,
                buffer,
            ),
            MqttPacket::ConnAck(connack, _) => crate::mqtt::mqttv4::connack::write(&connack, buffer),
            MqttPacket::Publish(publish, None) => match crate::mqtt::mqttv4::publish::write(&publish, buffer) {
                Ok(n) => Ok(n),
                Err(e) => Err(MQTTProtocolError::from_error(e)),
            },
            MqttPacket::PubAck(puback, None) => crate::mqtt::mqttv4::puback::write(&puback, buffer),
            MqttPacket::PubRec(pubrec, None) => match crate::mqtt::mqttv4::pubrec::write(&pubrec, buffer) {
                Ok(n) => Ok(n),
                Err(e) => Err(MQTTProtocolError::from_error(e)),
            },
            MqttPacket::PubRel(pubrel, None) => match crate::mqtt::mqttv4::pubrel::write(&pubrel, buffer) {
                Ok(n) => Ok(n),
                Err(e) => Err(MQTTProtocolError::from_error(e)),
            },
            MqttPacket::PubComp(pubcomp, None) => crate::mqtt::mqttv4::pubcomp::write(&pubcomp, buffer),
            MqttPacket::Subscribe(subscribe, None) => crate::mqtt::mqttv4::subscribe::write(&subscribe, buffer),
            MqttPacket::SubAck(_, None) => Err(MQTTProtocolError::InvalidPacketType(9)),
            MqttPacket::Unsubscribe(unsubscribe, None) => match crate::mqtt::mqttv4::unsubscribe::write(
                &unsubscribe,
                buffer,
            ) {
                Ok(n) => Ok(n),
                Err(e) => Err(MQTTProtocolError::from_error(e)),
            },
            MqttPacket::UnsubAck(unsuback, None) => match crate::mqtt::mqttv4::unsuback::write(&unsuback, buffer) {
                Ok(n) => Ok(n),
                Err(e) => Err(MQTTProtocolError::from_error(e)),
            },
            MqttPacket::PingReq(_) => {
                let b: [u8; 2] = [0xC0, 0x00];
                bytes_mut_extend(buffer, &b);
                assert(b@ =~= seq![0xC0u8, 0x00u8]);
                Ok(2)
            },
            MqttPacket::PingResp(_) => {
                let b: [u8; 2] = [0xD0, 0x00];
                bytes_mut_extend(buffer, &b);
                assert(b@ =~= seq![0xD0u8, 0x00u8]);
                Ok(2)
            },
            MqttPacket::Disconnect(disconnect, None) => match crate::mqtt::mqttv4::disconnect::write(
                &disconnect,
                buffer,
            ) {
                Ok(n) => Ok(n),
                Err(e) => Err(MQTTProtocolError::from_error(e)),
            },
            _ => {
                assert(false);
                Ok(0)
            },
        }
    } else if protocol_version == 5 {
        match packet {
            MqttPacket::PubAck(puback, properties) => crate::mqtt::mqttv5::puback::write(&puback, &properties, buffer),
            MqttPacket::PubRel(pubrel, properties) => match crate::mqtt::mqttv5::pubrel::write(
                &pubrel,
                &properties,
                buffer,
            ) {
                Ok(n) => Ok(n),
                Err(e) => Err(MQTTProtocolError::from_error(e)),
            },
            MqttPacket::Subscribe(subscribe, properties) => crate::mqtt::mqttv5::subscribe::write(
                &subscribe,
                &properties,
                buffer,
            ),
            MqttPacket::Auth(auth, properties) => crate::mqtt::mqttv5::auth::write(&auth, &properties, buffer),
            MqttPacket::PingReq(_) => {
                let b: [u8; 2] = [0xC0, 0x00];
                bytes_mut_extend(buffer, &b);
                assert(b@ =~= seq![0xC0u8, 0x00u8]);
                Ok(2)
            },
            MqttPacket::PingResp(_) => {
                let b: [u8; 2] = [0xD0, 0x00];
                bytes_mut_extend(buffer, &b);
                assert(b@ =~= seq![0xD0u8, 0x00u8]);
                Ok(2)
            },
            MqttPacket::Connect(..) => Err(MQTTProtocolError::InvalidPacketType(1)),
            MqttPacket::ConnAck(..) => Err(MQTTProtocolError::InvalidPacketType(2)),
            MqttPacket::Publish(publish, properties) => match crate::mqtt::mqttv5::publish::write(
                &publish,
                &properties,
                buffer,
            ) {
                Ok(n) => Ok(n),
                Err(e) => Err(MQTTProtocolError::from_error(e)),
            },
            MqttPacket::PubRec(..) => Err(MQTTProtocolError::InvalidPacketType(5)),
            MqttPacket::PubComp(..) => Err(MQTTProtocolError::InvalidPacketType(7)),
            MqttPacket::SubAck(..) => Err(MQTTProtocolError::InvalidPacketType(9)),
            MqttPacket::Unsubscribe(..) => Err(MQTTProtocolError::InvalidPacketType(10)),
            MqttPacket::UnsubAck(..) => Err(MQTTProtocolError::InvalidPacketType(11)),
            MqttPacket::Disconnect(..) => Err(MQTTProtocolError::InvalidPacketType(14)),
        }
    } else {
        Ok(0)
    }
}

impl MqttCodec {
    /// Writes a packet at the level that it is wrapped with.
    pub fn encode_data(&mut self, packet_wrapper: MqttPacketWrapper, buffer: &mut BytesMut) -> (r: Result<
        (),
        MQTTProtocolError,
    >)
        requires
            encodable(
                packet_wrapper.protocol_version,
                packet_wrapper.packet,
                bytes_mut_seq(*old(buffer)).len(),
            ),
        ensures
            final(self).protocol_version == old(self).protocol_version,
            exists|w: Result<usize, MQTTProtocolError>|
                #[trigger] written(
                    packet_wrapper.protocol_version,
                    packet_wrapper.packet,
                    bytes_mut_seq(*old(buffer)),
                    bytes_mut_seq(*final(buffer)),
                    w,
                ) && match (r, w) {
                    (Ok(()), Ok(_)) => true,
                    (Err(e), Err(we)) => e == we,
                    _ => false,
                },
    {
        let packet = packet_wrapper.packet;
        let protocol_version = packet_wrapper.protocol_version;
        let ghost old_b = bytes_mut_seq(*buffer);
        let res = write_packet(protocol_version, packet, buffer);
        assert(written(protocol_version, packet_wrapper.packet, old_b, bytes_mut_seq(*buffer), res));
        match res {
            Ok(_) => Ok(()),
            Err(e) => Err(e),
        }
    }
}

/// The size of a packet as its writer reports it, or 0 where writing fails.
pub fn calc_mqtt_packet_size(packet_wrapper: MqttPacketWrapper) -> (r: usize)
    requires
        encodable(packet_wrapper.protocol_version, packet_wrapper.packet, 0),
    ensures
        exists|b: Seq<u8>, w: Result<usize, MQTTProtocolError>|
            {
                &&& packet_size_outcome(packet_wrapper, b, w)
                &&& r == match w {
                    Ok(n) => n,
                    Err(_) => 0,
                }
            },
{
    match calc_mqtt_packet_len(packet_wrapper) {
        Ok(n) => n,
        Err(_) => 0,
    }
}

/// Whether writing a packet at level `ver` turns the buffer `old_b` into
/// `new_b` with the result `w`; at another level than 3, 4 or 5 nothing is
/// written.
pub open spec fn written(ver: u8, p: MqttPacket, old_b: Seq<u8>, new_b: Seq<u8>, w: Result<usize, MQTTProtocolError>) -> bool {
    &&& (ver == 4 || ver == 3 ==> written_v4(p, old_b, new_b, w))
    &&& (ver == 5 ==> written_v5(p, old_b, new_b, w))
    &&& (ver != 3 && ver != 4 && ver != 5 ==> new_b == old_b && w == Ok::<usize, MQTTProtocolError>(0))
}

/// Whether writing a packet into an empty buffer gives the bytes `b` and
/// the result `w`.
pub open spec fn packet_size_outcome(pw: MqttPacketWrapper, b: Seq<u8>, w: Result<usize, MQTTProtocolError>) -> bool {
    &&& (pw.protocol_version == 4 || pw.protocol_version == 3 ==> written_v4(pw.packet, Seq::empty(), b, w))
    &&& (pw.protocol_version == 5 ==> written_v5(pw.packet, Seq::empty(), b, w))
    &&& (pw.protocol_version != 3 && pw.protocol_version != 4 && pw.protocol_version != 5 ==> w == Ok::<
        usize,
        MQTTProtocolError,
    >(0))
}

/// The size that the packet's writer reports when it writes the packet
/// into an empty buffer.
pub fn calc_mqtt_packet_len(packet_wrapper: MqttPacketWrapper) -> (r: Result<usize, MQTTProtocolError>)
    requires
        encodable(packet_wrapper.protocol_version, packet_wrapper.packet, 0),
    ensures
        exists|b: Seq<u8>| packet_size_outcome(packet_wrapper, b, r),
{
    let packet = packet_wrapper.packet;
    let protocol_version = packet_wrapper.protocol_version;
    let mut buffer = bytes_mut_new();
    let r = write_packet(protocol_version, packet, &mut buffer);
    assert(packet_size_outcome(packet_wrapper, bytes_mut_seq(buffer), r));
    r
}

/// The name of a packet's kind.
pub open spec fn packet_name(p: MqttPacket) -> Seq<char> {
    match p {
        MqttPacket::Connect(..) => "connect"@,
        MqttPacket::ConnAck(..) => "conn_ack"@,
        MqttPacket::Publish(..) => "publish"@,
        MqttPacket::PubAck(..) => "pub_ack"@,
        MqttPacket::PubRec(..) => "pub_rec"@,
        MqttPacket::PubRel(..) => "pub_rel"@,
        MqttPacket::PubComp(..) => "pub_comp"@,
        MqttPacket::Subscribe(..) => "subscribe"@,
        MqttPacket::SubAck(..) => "sub_ack"@,
        MqttPacket::Unsubscribe(..) => "sub_ack"@,
        MqttPacket::UnsubAck(..) => "unsub_ack"@,
        MqttPacket::PingReq(..) => "ping"@,
        MqttPacket::PingResp(..) => "pong"@,
        MqttPacket::Disconnect(..) => "disconnect"@,
        MqttPacket::Auth(..) => "auth"@,
    }
}

/// The name of a packet's kind.
pub fn parse_mqtt_packet_to_name(packet: MqttPacket) -> (r: String)
    ensures
        r@ == packet_name(packet),
{
    let name = match packet {
        MqttPacket::Connect(..) => "connect",
        MqttPacket::ConnAck(..) => "conn_ack",
        MqttPacket::Publish(..) => "publish",
        MqttPacket::PubAck(..) => "pub_ack",
        MqttPacket::PubRec(..) => "pub_rec",
        MqttPacket::PubRel(..) => "pub_rel",
        MqttPacket::PubComp(..) => "pub_comp",
        MqttPacket::Subscribe(..) => "subscribe",
        MqttPacket::SubAck(..) => "sub_ack",
        MqttPacket::Unsubscribe(..) => "sub_ack",
        MqttPacket::UnsubAck(..) => "unsub_ack",
        MqttPacket::PingReq(..) => "ping",
        MqttPacket::PingResp(..) => "pong",
        MqttPacket::Disconnect(..) => "disconnect",
        MqttPacket::Auth(..) => "auth",
    };
    name.to_owned()
}

} // verus!
