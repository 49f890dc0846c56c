//! The MQTT 5.0 codec: one whole packet at a time from a stream, and
//! packets into a buffer.
use crate::buffer::{bytes_mut_as_slice, bytes_mut_freeze, bytes_mut_seq, bytes_mut_split_to, bytes_seq};
use crate::mqtt::codec::{decoded_v5, encodable, written_v5, MAX_PACKET_SIZE};
use crate::mqtt::common::{check, spec_check, spec_packet_type, FixedHeader, MqttPacket, PacketType, PingReq, PingResp};
use crate::mqtt::mqtt_protocol_error::{spec_from_error, MQTTProtocolError};
use crate::mqtt::mqttv5::auth::spec_auth_read;
use crate::mqtt::mqttv5::auth::properties::opt_auth_props_view;
use bytes::BytesMut;
use vstd::prelude::*;

verus! {

#[derive(Clone, Debug)]
pub struct Mqtt5Codec {}

impl Default for Mqtt5Codec {
    fn default() -> (r: Self)
        ensures
            r == (Mqtt5Codec {  }),
    {
        Self::new()
    }
}

/// What decoding an MQTT 5.0 frame `f` of type `t` gives.
pub open spec fn decoded5(h: FixedHeader, t: PacketType, f: Seq<u8>, r: Result<Option<MqttPacket>, MQTTProtocolError>) -> bool {
    match t {
        // this library has no MQTT 5.0 codec for CONNECT
        PacketType::Connect => r == Err::<Option<MqttPacket>, MQTTProtocolError>(
            MQTTProtocolError::InvalidPacketType(1),
        ),
        PacketType::Auth => match (r, spec_auth_read(h, f)) {
            (Ok(Some(MqttPacket::Auth(a, p))), Ok((sr, sp))) => a.reason == Some(sr) && opt_auth_props_view(p) == sp,
            (Err(e), Err(se)) => e == se,
            _ => false,
        },
        _ => decoded_v5(h, t, f, r),
    }
}

impl Mqtt5Codec {
    pub fn new() -> (r: Mqtt5Codec)
        ensures
            r == (Mqtt5Codec {  }),
    {
        Mqtt5Codec {  }
    }

    /// Takes one whole packet from the front of the stream and decodes it.
    pub fn decode(&mut self, stream: &mut BytesMut) -> (r: Result<Option<MqttPacket>, MQTTProtocolError>)
        ensures
            ({
                let s = bytes_mut_seq(*old(stream));
                match spec_check(s, MAX_PACKET_SIZE) {
                    Err(e) => r == Err::<Option<MqttPacket>, MQTTProtocolError>(spec_from_error(e))
                        && bytes_mut_seq(*final(stream)) == s,
                    Ok(h) => {
                        let n = h.fixed_header_len + h.remaining_len;
                        &&& bytes_mut_seq(*final(stream)) == s.skip(n)
                        &&& match spec_packet_type(h.byte1) {
                            Err(e) => r == Err::<Option<MqttPacket>, MQTTProtocolError>(spec_from_error(e)),
                            Ok(t) => decoded5(h, t, s.take(n), r),
                        }
                    },
                }
            }),
    {
        let fixed_header = match check(bytes_mut_as_slice(stream), MAX_PACKET_SIZE) {
            Ok(h) => h,
            Err(e) => return Err(MQTTProtocolError::from_error(e)),
        };
        let packet = bytes_mut_split_to(stream, fixed_header.frame_length());
        let packet_type = match fixed_header.packet_type() {
            Ok(t) => t,
            Err(e) => return Err(MQTTProtocolError::from_error(e)),
        };
        let packet = bytes_mut_freeze(packet);
        let packet = match packet_type {
            PacketType::Publish => match crate::mqtt::mqttv5::publish::read(fixed_header, packet) {
                Ok((p, pp)) => MqttPacket::Publish(p, pp),
                Err(e) => return Err(MQTTProtocolError::from_error(e)),
            },
            PacketType::PubAck => match crate::mqtt::mqttv5::puback::read(fixed_header, packet) {
                Ok((a, p)) => MqttPacket::PubAck(a, p),
                Err(e) => return Err(e),
            },
            PacketType::PubRel => match crate::mqtt::mqttv5::pubrel::read(fixed_header, packet) {
                Ok((a, p)) => MqttPacket::PubRel(a, p),
                Err(e) => return Err(MQTTProtocolError::from_error(e)),
            },
            PacketType::Subscribe => match crate::mqtt::mqttv5::subscribe::read(fixed_header, packet) {
                Ok((s, p)) => MqttPacket::Subscribe(s, p),
                Err(e) => return Err(e),
            },
            PacketType::Auth => match crate::mqtt::mqttv5::auth::read(fixed_header, packet) {
                Ok((a, p)) => MqttPacket::Auth(a, p),
                Err(e) => return Err(e),
            },
            PacketType::PingReq => MqttPacket::PingReq(PingReq),
            PacketType::PingResp => MqttPacket::PingResp(PingResp),
            other => return Err(MQTTProtocolError::InvalidPacketType(other.number())),
        };
        Ok(Some(packet))
    }

    /// Writes a packet of MQTT 5.0.
    pub fn encode(&mut self, packet: MqttPacket, buffer: &mut BytesMut) -> (r: Result<(), MQTTProtocolError>)
        requires
            encodable(5, packet, bytes_mut_seq(*old(buffer)).len()),
        ensures
            exists|w: Result<usize, MQTTProtocolError>|
                #[trigger] written_v5(packet, bytes_mut_seq(*old(buffer)), bytes_mut_seq(*final(buffer)), w)
                    && match (r, w) {
                    (Ok(()), Ok(_)) => true,
                    (Err(e), Err(we)) => e == we,
                    _ => false,
                },
    {
        let ghost old_b = bytes_mut_seq(*buffer);
        let res = crate::mqtt::codec::write_packet(5, packet, buffer);
        assert(written_v5(packet, old_b, bytes_mut_seq(*buffer), res));
        match res {
            Ok(_) => Ok(()),
            Err(e) => Err(e),
        }
    }
}

/// The codec holds no state: every two codecs are the same value, the one
/// that `new` and `default` give, so a codec after any calls decodes and
/// encodes as a fresh one, and what it returns depends on the arguments of
/// the call alone.
pub proof fn lemma_mqtt5_codec_stateless(a: Mqtt5Codec, b: Mqtt5Codec)
    ensures
        a == b,
        a == (Mqtt5Codec {  }),
{
}

} // verus!
