//! PUBLISH in MQTT 3.1.1: flags in the first byte, topic, packet identifier
//! when QoS > 0, then the payload up to the end of the packet.
use crate::buffer::{
    be_u16_bytes, bytes_advance, bytes_as_slice, bytes_mut_extend, bytes_mut_put_u16, bytes_mut_put_u8,
    bytes_mut_seq, bytes_seq,
};
use crate::mqtt::common::{
    fixed_header_encoding, lemma_fixed_header_roundtrip, lemma_mqtt_bytes_roundtrip, mqtt_bytes_encoding,
    publish_body_len, qos, qos_number, qos_to_u8, read_mqtt_bytes, read_u16, spec_parse_fixed_header,
    spec_qos, spec_read_mqtt_bytes, spec_read_u16, write_mqtt_bytes, write_remaining_length, Error,
    FixedHeader, Publish, PublishView, QoS, MAX_REMAINING_LENGTH,
};
use bytes::{Bytes, BytesMut};
use vstd::prelude::*;

verus! {

/// First byte of a PUBLISH: packet type 3, then dup, QoS and retain.
pub open spec fn publish_first_byte(dup: bool, q: QoS, retain: bool) -> u8 {
    (48 + (if retain {
        1int
    } else {
        0int
    }) + 2 * qos_number(q) + (if dup {
        8int
    } else {
        0int
    })) as u8
}

/// The flags that the first byte of a PUBLISH carries: the QoS number, dup
/// and retain.
pub proof fn lemma_publish_flags(b: u8)
    ensures
        (b & 0b0110) >> 1 == (b / 2) % 4,
        ((b & 0b1000) != 0) == ((b / 8) % 2 == 1),
        ((b & 0b0001) != 0) == (b % 2 == 1),
{
    assert((b & 0b0110) >> 1 == (b / 2) % 4) by (bit_vector);
    assert(((b & 0b1000) != 0) == ((b / 8) % 2 == 1)) by (bit_vector);
    assert(((b & 0b0001) != 0) == (b % 2 == 1)) by (bit_vector);
}

pub proof fn lemma_publish_byte(retain: u8, q: u8, dup: u8)
    requires
        retain <= 1,
        q <= 2,
        dup <= 1,
    ensures
        0b0011_0000 | retain | q << 1 | dup << 3 == 48 + retain + 2 * q + 8 * dup,
{
    assert(0b0011_0000 | retain | q << 1 | dup << 3 == 48 + retain + 2 * q + 8 * dup) by (bit_vector)
        requires
            retain <= 1,
            q <= 2,
            dup <= 1,
    ;
}

/// The bytes of a PUBLISH packet.
pub open spec fn publish_encoding(p: PublishView) -> Seq<u8> {
    fixed_header_encoding(publish_first_byte(p.dup, p.qos, p.retain), publish_body_len(p))
        + mqtt_bytes_encoding(p.topic) + (if p.qos != QoS::AtMostOnce {
        be_u16_bytes(p.pkid)
    } else {
        Seq::<u8>::empty()
    }) + p.payload
}

/// What reading a PUBLISH packet from `s` gives.
pub open spec fn spec_publish_read(h: FixedHeader, s: Seq<u8>) -> Result<PublishView, Error> {
    let qos_num = ((h.byte1 / 2) % 4) as u8;
    match spec_qos(qos_num) {
        None => Err(Error::InvalidQoS(qos_num)),
        Some(q) => {
            let dup = (h.byte1 / 8) % 2 == 1;
            let retain = h.byte1 % 2 == 1;
            match spec_read_mqtt_bytes(s.skip(h.fixed_header_len as int)) {
                (Err(e), _) => Err(e),
                (Ok(topic), r1) => if q == QoS::AtMostOnce {
                    Ok(PublishView { dup, qos: q, pkid: 0, retain, topic, payload: r1 })
                } else {
                    match spec_read_u16(r1) {
                        (Err(e), _) => Err(e),
                        (Ok(pkid), r2) => if pkid == 0 {
                            Err(Error::PacketIdZero)
                        } else {
                            Ok(PublishView { dup, qos: q, pkid, retain, topic, payload: r2 })
                        },
                    }
                },
            }
        },
    }
}

pub fn read(fixed_header: FixedHeader, bytes: Bytes) -> (r: Result<Publish, Error>)
    requires
        fixed_header.fixed_header_len <= bytes_seq(bytes).len(),
    ensures
        match (r, spec_publish_read(fixed_header, bytes_seq(bytes))) {
            (Ok(p), Ok(sp)) => p@ == sp,
            (Err(e), Err(se)) => e == se,
            _ => false,
        },
{
    proof {
        lemma_publish_flags(fixed_header.byte1);
    }
    let qos_num = (fixed_header.byte1 & 0b0110) >> 1;
    let q = match qos(qos_num) {
        Some(q) => q,
        None => return Err(Error::InvalidQoS(qos_num)),
    };
    let dup = (fixed_header.byte1 & 0b1000) != 0;
    let retain = (fixed_header.byte1 & 0b0001) != 0;
    let mut bytes = bytes;
    let variable_header_index = fixed_header.fixed_header_len;
    bytes_advance(&mut bytes, variable_header_index);
    let topic = match read_mqtt_bytes(&mut bytes) {
        Ok(t) => t,
        Err(e) => return Err(e),
    };
    // Packet identifier exists where QoS > 0
    let pkid = match q {
        QoS::AtMostOnce => 0,
        QoS::AtLeastOnce | QoS::ExactlyOnce => match read_u16(&mut bytes) {
            Ok(v) => v,
            Err(e) => return Err(e),
        },
    };
    if q != QoS::AtMostOnce && pkid == 0 {
        return Err(Error::PacketIdZero);
    }
    Ok(Publish { dup, retain, qos: q, pkid, topic, payload: bytes })
}

pub fn write(publish: &Publish, buffer: &mut BytesMut) -> (r: Result<usize, Error>)
    requires
        bytes_mut_seq(*old(buffer)).len() + 11 + bytes_seq(publish.topic).len() + bytes_seq(
            publish.payload,
        ).len() <= usize::MAX,
    ensures
        ({
            let p = publish@;
            let first = publish_first_byte(p.dup, p.qos, p.retain);
            let old_b = bytes_mut_seq(*old(buffer));
            let new_b = bytes_mut_seq(*final(buffer));
            if publish_body_len(p) > MAX_REMAINING_LENGTH {
                r == Err::<usize, Error>(Error::PayloadTooLong) && new_b == old_b.push(first)
            } else if p.qos != QoS::AtMostOnce && p.pkid == 0 {
                r == Err::<usize, Error>(Error::PacketIdZero) && new_b == old_b + fixed_header_encoding(
                    first,
                    publish_body_len(p),
                ) + mqtt_bytes_encoding(p.topic)
            } else {
                r == Ok::<usize, Error>((publish_encoding(p).len()) as usize) && new_b == old_b
                    + publish_encoding(p)
            }
        }),
{
    let ghost p = publish@;
    let len = publish.len();
    let dup: u8 = if publish.dup { 1 } else { 0 };
    let q = qos_to_u8(publish.qos);
    let retain: u8 = if publish.retain { 1 } else { 0 };
    proof {
        lemma_publish_byte(retain, q, dup);
    }
    let first = 0b0011_0000 | retain | q << 1 | dup << 3;
    assert(first == publish_first_byte(p.dup, p.qos, p.retain));
    bytes_mut_put_u8(buffer, first);
    let count = match write_remaining_length(buffer, len) {
        Ok(c) => c,
        Err(e) => return Err(e),
    };
    write_mqtt_bytes(buffer, bytes_as_slice(&publish.topic));
    let ghost after_topic = bytes_mut_seq(*buffer);
    if publish.qos != QoS::AtMostOnce {
        let pkid = publish.pkid;
        if pkid == 0 {
            assert(after_topic =~= bytes_mut_seq(*old(buffer)) + fixed_header_encoding(first, len as nat)
                + mqtt_bytes_encoding(p.topic));
            return Err(Error::PacketIdZero);
        }
        bytes_mut_put_u16(buffer, pkid);
    }
    bytes_mut_extend(buffer, bytes_as_slice(&publish.payload));
    assert(bytes_mut_seq(*buffer) =~= bytes_mut_seq(*old(buffer)) + publish_encoding(p));
    assert(publish_encoding(p).len() == 1 + count + len);
    Ok(1 + count + len)
}

/// The first byte of a PUBLISH: packet type 3 in its high four bits, the
/// QoS number in bits 1-2, dup in bit 3 and retain in bit 0.
pub proof fn lemma_publish_first_byte(dup: bool, q: QoS, retain: bool)
    ensures
        ({
            let first = publish_first_byte(dup, q, retain);
            &&& first / 16 == 3
            &&& ((first / 2) % 4) as u8 == qos_number(q)
            &&& ((first / 8) % 2 == 1) == dup
            &&& (first % 2 == 1) == retain
        }),
{
}

/// A PUBLISH whose topic fits a length prefix, that carries a nonzero
/// packet identifier when its QoS asks for one, reads back as written; a
/// QoS 0 publish reads back with packet identifier 0.
pub proof fn lemma_publish_roundtrip(p: PublishView)
    requires
        p.topic.len() <= 65535,
        publish_body_len(p) <= MAX_REMAINING_LENGTH,
        p.qos != QoS::AtMostOnce ==> p.pkid != 0,
    ensures
        spec_parse_fixed_header(publish_encoding(p)) matches Ok(h) && h.byte1 == publish_first_byte(
            p.dup,
            p.qos,
            p.retain,
        ) && spec_publish_read(h, publish_encoding(p)) == Ok::<PublishView, Error>(
            PublishView { pkid: if p.qos == QoS::AtMostOnce { 0 } else { p.pkid }, ..p },
        ),
{
    let first = publish_first_byte(p.dup, p.qos, p.retain);
    let len = publish_body_len(p);
    let pk = if p.qos != QoS::AtMostOnce {
        be_u16_bytes(p.pkid)
    } else {
        Seq::<u8>::empty()
    };
    let tail = pk + p.payload;
    let body = mqtt_bytes_encoding(p.topic) + tail;
    let e = publish_encoding(p);
    assert(e =~= fixed_header_encoding(first, len) + body);
    lemma_fixed_header_roundtrip(first, len, body);
    let h = spec_parse_fixed_header(e)->Ok_0;
    assert(e.skip(h.fixed_header_len as int) =~= body);
    lemma_mqtt_bytes_roundtrip(p.topic, tail);
    lemma_publish_first_byte(p.dup, p.qos, p.retain);
    assert(spec_qos(((h.byte1 / 2) % 4) as u8) == Some(p.qos));
    if p.qos != QoS::AtMostOnce {
        crate::buffer::lemma_be_u16_roundtrip(p.pkid);
        assert(tail.skip(2) =~= p.payload);
        assert(tail[0] == pk[0] && tail[1] == pk[1]);
        assert(spec_read_u16(tail) == (Ok::<u16, Error>(p.pkid), p.payload));
    } else {
        assert(tail =~= p.payload);
    }
}

} // verus!
