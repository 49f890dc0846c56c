//! The MQTT 3.1.1 codec: one whole packet at a time from a stream, and
//! packets into a buffer.
use crate::buffer::{bytes_mut_as_slice, bytes_mut_freeze, bytes_mut_seq, bytes_mut_split_to, bytes_seq};
use crate::mqtt::codec::{decoded_v4, encodable, written_v4, MAX_PACKET_SIZE};
use crate::mqtt::common::{check, spec_check, spec_packet_type, MqttPacket, PacketType, PingReq, PingResp};
use crate::mqtt::mqtt_protocol_error::{spec_from_error, MQTTProtocolError};
use crate::mqtt::mqttv4::connect::{connect_read_view, opt_login_view, opt_will_view, spec_connect_read};
use crate::mqtt::mqttv4::unsubscribe::spec_unsubscribe_read;
use bytes::BytesMut;
use vstd::prelude::*;

verus! {

#[derive(Clone, Debug)]
pub struct Mqtt4Codec {}

impl Default for Mqtt4Codec {
    fn default() -> (r: Self)
        ensures
            r == (Mqtt4Codec {  }),
    {
        Self::new()
    }
}

/// What decoding an MQTT 3.1.1 frame `f` of type `t` gives.
pub open spec fn decoded4(h: crate::mqtt::common::FixedHeader, t: PacketType, f: Seq<u8>, r: Result<
    Option<MqttPacket>,
    MQTTProtocolError,
>) -> bool {
    match t {
        PacketType::Connect => match (r, spec_connect_read(h, f)) {
            (Ok(Some(MqttPacket::Connect(lvl, c, p, w, wp, l))), Ok(so)) => lvl == so.0 && c@ == so.1 && p is None
                && wp is None && opt_login_view(l) == so.2 && opt_will_view(w) == so.3,
            (Err(e), Err(se)) => e == se,
            _ => false,
        },
        PacketType::Disconnect | PacketType::Auth => r == Err::<Option<MqttPacket>, MQTTProtocolError>(
            MQTTProtocolError::InvalidProtocolName,
        ),
        _ => decoded_v4(h, t, f, r),
    }
}

impl Mqtt4Codec {
    pub fn new() -> (r: Mqtt4Codec)
        ensures
            r == (Mqtt4Codec {  }),
    {
        Mqtt4Codec {  }
    }

    /// Takes one whole packet from the front of the stream and decodes it.
    pub fn decode(&mut self, stream: &mut BytesMut) -> (r: Result<Option<MqttPacket>, MQTTProtocolError>)
        requires
            spec_check(bytes_mut_seq(*old(stream)), MAX_PACKET_SIZE) matches Ok(h) ==> (spec_packet_type(h.byte1)
                == Ok::<PacketType, crate::mqtt::common::Error>(PacketType::Unsubscribe) ==> h.remaining_len >= 2
                && spec_unsubscribe_read(h, bytes_mut_seq(*old(stream)).take(h.fixed_header_len + h.remaining_len))
                is Some),
        ensures
            ({
                let s = bytes_mut_seq(*old(stream));
                match spec_check(s, MAX_PACKET_SIZE) {
                    Err(e) => r == Err::<Option<MqttPacket>, MQTTProtocolError>(spec_from_error(e))
                        && bytes_mut_seq(*final(stream)) == s,
                    Ok(h) => {
                        let n = h.fixed_header_len + h.remaining_len;
                        &&& bytes_mut_seq(*final(stream)) == s.skip(n)
                        &&& match spec_packet_type(h.byte1) {
                            Err(e) => r == Err::<Option<MqttPacket>, MQTTProtocolError>(spec_from_error(e)),
                            Ok(t) => decoded4(h, t, s.take(n), r),
                        }
                    },
                }
            }),
    {
        let fixed_header = match check(bytes_mut_as_slice(stream), MAX_PACKET_SIZE) {
            Ok(h) => h,
            Err(e) => return Err(MQTTProtocolError::from_error(e)),
        };
        let packet = bytes_mut_split_to(stream, fixed_header.frame_length());
        let packet_type = match fixed_header.packet_type() {
            Ok(t) => t,
            Err(e) => return Err(MQTTProtocolError::from_error(e)),
        };
        let packet = bytes_mut_freeze(packet);
        let packet = match packet_type {
            PacketType::Connect => match crate::mqtt::mqttv4::connect::read(fixed_header, packet) {
                Ok((protocol_level, connect, login, lastwill)) => MqttPacket::Connect(
                    protocol_level,
                    connect,
                    None,
                    lastwill,
                    None,
                    login,
                ),
                Err(e) => return Err(e),
            },
            PacketType::ConnAck => match crate::mqtt::mqttv4::connack::read(fixed_header, packet) {
                Ok(a) => MqttPacket::ConnAck(a, None),
                Err(e) => return Err(e),
            },
            PacketType::Publish => match crate::mqtt::mqttv4::publish::read(fixed_header, packet) {
                Ok(p) => MqttPacket::Publish(p, None),
                Err(e) => return Err(MQTTProtocolError::from_error(e)),
            },
            PacketType::PubAck => match crate::mqtt::mqttv4::puback::read(fixed_header, packet) {
                Ok(a) => MqttPacket::PubAck(a, None),
                Err(e) => return Err(e),
            },
            PacketType::PubRec => match crate::mqtt::mqttv4::pubrec::read(fixed_header, packet) {
                Ok(a) => MqttPacket::PubRec(a, None),
                Err(e) => return Err(MQTTProtocolError::from_error(e)),
            },
            PacketType::PubRel => match crate::mqtt::mqttv4::pubrel::read(fixed_header, packet) {
                Ok(a) => MqttPacket::PubRel(a, None),
                Err(e) => return Err(MQTTProtocolError::from_error(e)),
            },
            PacketType::PubComp => match crate::mqtt::mqttv4::pubcomp::read(fixed_header, packet) {
                Ok(a) => MqttPacket::PubComp(a, None),
                Err(e) => return Err(e),
            },
            PacketType::Subscribe => match crate::mqtt::mqttv4::subscribe::read(fixed_header, packet) {
                Ok(s) => MqttPacket::Subscribe(s, None),
                Err(e) => return Err(e),
            },
            PacketType::SubAck => return Err(MQTTProtocolError::InvalidPacketType(9)),
            PacketType::Unsubscribe => match crate::mqtt::mqttv4::unsubscribe::read(fixed_header, packet) {
                Ok(u) => MqttPacket::Unsubscribe(u, None),
                Err(e) => return Err(MQTTProtocolError::from_error(e)),
            },
            PacketType::UnsubAck => match crate::mqtt::mqttv4::unsuback::read(fixed_header, packet) {
                Ok(u) => MqttPacket::UnsubAck(u, None),
                Err(e) => return Err(MQTTProtocolError::from_error(e)),
            },
            PacketType::PingReq => MqttPacket::PingReq(PingReq),
            PacketType::PingResp => MqttPacket::PingResp(PingResp),
            // A DISCONNECT of MQTT 3.1.1 has no remaining length to read;
            // one that comes here carries properties of MQTT 5.0.
            PacketType::Disconnect => return Err(MQTTProtocolError::InvalidProtocolName),
            PacketType::Auth => return Err(MQTTProtocolError::InvalidProtocolName),
        };
        Ok(Some(packet))
    }

    /// Writes a packet of MQTT 3.1.1.
    pub fn encode(&mut self, packet: MqttPacket, buffer: &mut BytesMut) -> (r: Result<(), MQTTProtocolError>)
        requires
            encodable(4, packet, bytes_mut_seq(*old(buffer)).len()),
        ensures
            exists|w: Result<usize, MQTTProtocolError>|
                #[trigger] written_v4(packet, bytes_mut_seq(*old(buffer)), bytes_mut_seq(*final(buffer)), w)
                    && match (r, w) {
                    (Ok(()), Ok(_)) => true,
                    (Err(e), Err(we)) => e == we,
                    _ => false,
                },
    {
        let ghost old_b = bytes_mut_seq(*buffer);
        let res = crate::mqtt::codec::write_packet(4, packet, buffer);
        assert(written_v4(packet, old_b, bytes_mut_seq(*buffer), res));
        match res {
            Ok(_) => Ok(()),
            Err(e) => Err(e),
        }
    }
}

/// The codec holds no state: every two codecs are the same value, the one
/// that `new` and `default` give, so a codec after any calls decodes and
/// encodes as a fresh one, and what it returns depends on the arguments of
/// the call alone.
pub proof fn lemma_mqtt4_codec_stateless(a: Mqtt4Codec, b: Mqtt4Codec)
    ensures
        a == b,
        a == (Mqtt4Codec {  }),
{
}

} // verus!
