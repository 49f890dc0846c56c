//! The acknowledgements of MQTT 3.1.1 through the codec: the bytes they are
//! written as and the packets those bytes are read back as.
use crate::buffer::lemma_be_u16_roundtrip;
use crate::mqtt::codec::{decoded, written_v4, MAX_PACKET_SIZE};
use crate::mqtt::common::{
    lemma_fixed_header_roundtrip, spec_check, spec_packet_type, Error, MqttPacket, PacketType, PubAck,
    PubAckReason, PubComp, PubCompReason, PubRec, PubRecReason, PubRel, PubRelReason,
};
use crate::mqtt::mqtt_protocol_error::MQTTProtocolError;
use vstd::prelude::*;

verus! {

/// Whether a packet is an acknowledgement of MQTT 3.1.1 that carries only a
/// packet identifier.
pub open spec fn is_v4_ack(p: MqttPacket) -> bool {
    p matches MqttPacket::PubAck(_, None) || p matches MqttPacket::PubRec(_, None) || p matches MqttPacket::PubRel(
        _,
        None,
    ) || p matches MqttPacket::PubComp(_, None)
}

proof fn lemma_ack_frame(b1: u8, hi: u8, lo: u8, rest: Seq<u8>)
    ensures
        ({
            let s = seq![b1, 2u8, hi, lo] + rest;
            &&& spec_check(s, MAX_PACKET_SIZE) matches Ok(h) && h.byte1 == b1 && h.fixed_header_len == 2
                && h.remaining_len == 2
            &&& s.take(4) == seq![b1, 2u8, hi, lo]
            &&& s.skip(4) == rest
            &&& s.take(4).skip(2) == seq![hi, lo]
        }),
{
    let s = seq![b1, 2u8, hi, lo] + rest;
    assert(crate::mqtt::common::vbi_encode(2) =~= seq![2u8]);
    lemma_fixed_header_roundtrip(b1, 2, seq![hi, lo] + rest);
    assert(crate::mqtt::common::fixed_header_encoding(b1, 2) + (seq![hi, lo] + rest) =~= s);
    assert(s.take(4) =~= seq![b1, 2u8, hi, lo]);
    assert(s.skip(4) =~= rest);
    assert(s.take(4).skip(2) =~= seq![hi, lo]);
}

/// An acknowledgement of MQTT 3.1.1 is written as four bytes: 0x40 for a
/// PUBACK, 0x50 for a PUBREC, 0x62 for a PUBREL or 0x70 for a PUBCOMP, the
/// remaining length 2 and the packet identifier, high byte first. A codec
/// at level 3 or 4 takes those four bytes from the front of a stream,
/// leaves the rest, and reads them back as the same kind of packet with the
/// same packet identifier and the reason Success.
pub proof fn lemma_v4_ack_bytes(
    p: MqttPacket,
    old_b: Seq<u8>,
    new_b: Seq<u8>,
    w: Result<usize, MQTTProtocolError>,
    ver: u8,
    rest: Seq<u8>,
    r: Result<Option<MqttPacket>, MQTTProtocolError>,
    ver_after: Option<u8>,
)
    requires
        is_v4_ack(p),
        ver == 3 || ver == 4,
    ensures
        ({
            let (b1, pkid): (u8, u16) = match p {
                MqttPacket::PubAck(a, _) => (0x40u8, a.pkid),
                MqttPacket::PubRec(a, _) => (0x50u8, a.pkid),
                MqttPacket::PubRel(a, _) => (0x62u8, a.pkid),
                MqttPacket::PubComp(a, _) => (0x70u8, a.pkid),
                _ => (0u8, 0u16),
            };
            let bytes = seq![b1, 2u8, (pkid / 256) as u8, (pkid % 256) as u8];
            let s = bytes + rest;
            &&& written_v4(p, old_b, new_b, w) ==> new_b == old_b + bytes && w == Ok::<usize, MQTTProtocolError>(4)
            &&& spec_check(s, MAX_PACKET_SIZE) matches Ok(h) && h.fixed_header_len + h.remaining_len == 4
                && s.take(4) == bytes && s.skip(4) == rest && (spec_packet_type(h.byte1) matches Ok(t) && (decoded(
                Some(ver),
                h,
                t,
                bytes,
                r,
                ver_after,
            ) ==> ver_after == Some(ver) && r == Ok::<Option<MqttPacket>, MQTTProtocolError>(
                Some(
                    match p {
                        MqttPacket::PubAck(a, _) => MqttPacket::PubAck(
                            PubAck { pkid, reason: Some(PubAckReason::Success) },
                            None,
                        ),
                        MqttPacket::PubRec(a, _) => MqttPacket::PubRec(
                            PubRec { pkid, reason: Some(PubRecReason::Success) },
                            None,
                        ),
                        MqttPacket::PubRel(a, _) => MqttPacket::PubRel(
                            PubRel { pkid, reason: Some(PubRelReason::Success) },
                            None,
                        ),
                        _ => MqttPacket::PubComp(PubComp { pkid, reason: Some(PubCompReason::Success) }, None),
                    },
                ),
            )))
        }),
{
    let (b1, pkid): (u8, u16) = match p {
        MqttPacket::PubAck(a, _) => (0x40u8, a.pkid),
        MqttPacket::PubRec(a, _) => (0x50u8, a.pkid),
        MqttPacket::PubRel(a, _) => (0x62u8, a.pkid),
        MqttPacket::PubComp(a, _) => (0x70u8, a.pkid),
        _ => (0u8, 0u16),
    };
    let hi = (pkid / 256) as u8;
    let lo = (pkid % 256) as u8;
    lemma_ack_frame(b1, hi, lo, rest);
    lemma_be_u16_roundtrip(pkid);
    assert(crate::mqtt::common::vbi_encode(2) =~= seq![2u8]);
    assert(crate::mqtt::common::pkid_ack_encoding(b1, pkid) =~= seq![b1, 2u8, hi, lo]);
    assert(b1 / 16 == 4 || b1 / 16 == 5 || b1 / 16 == 6 || b1 / 16 == 7);
}

} // verus!
