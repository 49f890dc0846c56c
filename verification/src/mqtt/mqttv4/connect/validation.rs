//! The order in which reading a CONNECT checks its variable header and
//! payload, stated over CONNECTs built from their parts.
use crate::mqtt::common::{lemma_mqtt_bytes_roundtrip, mqtt_bytes_encoding, mqtt_string_encoding, ConnectView, FixedHeader, LastWillView, QoS};
use crate::mqtt::mqtt_protocol_error::MQTTProtocolError;
use crate::mqtt::mqttv4::connect::{lemma_protocol_name, protocol_name_bytes, spec_connect_read, spec_connect_read_rest};
use crate::mqtt::mqttv4::connect::login::spec_login_read;
use crate::mqtt::mqttv4::connect::will::spec_will_read;
use vstd::prelude::*;
use vstd::utf8::*;

verus! {

/// The bytes of a CONNECT after a two-byte fixed header `b0, b1`: protocol
/// name `name`, protocol level `level`, connect flags `flags`, keep alive 0
/// and client identifier `cid`, then, where the flags carry a will, its
/// topic and message, each length-prefixed.
pub open spec fn connect_probe(
    b0: u8,
    b1: u8,
    name: Seq<char>,
    level: u8,
    flags: u8,
    cid: Seq<char>,
    topic: Seq<u8>,
    message: Seq<u8>,
) -> Seq<u8> {
    seq![b0, b1] + mqtt_string_encoding(name) + seq![level, flags, 0u8, 0u8] + mqtt_string_encoding(cid) + if flags
        & 0b100 != 0 {
        mqtt_bytes_encoding(topic) + mqtt_bytes_encoding(message)
    } else {
        Seq::empty()
    }
}

/// The first check, in the order reading makes them, that a CONNECT with
/// this name, level, flags and client identifier fails: the name must be
/// `MQTT`, the level 3 or 4, the reserved flag clear; an empty client
/// identifier asks for a clean session; without the will flag the will
/// QoS and retain must be clear; the will QoS must not be 3; and a
/// password needs a user name.
pub open spec fn connect_first_error(name: Seq<char>, level: u8, flags: u8, cid: Seq<char>) -> Option<MQTTProtocolError> {
    if name != "MQTT"@ {
        Some(MQTTProtocolError::InvalidProtocolName)
    } else if level != 3 && level != 4 {
        Some(MQTTProtocolError::InvalidProtocolLevel(level))
    } else if flags & 0x01 != 0 {
        Some(MQTTProtocolError::ReservedSetError)
    } else if cid.len() == 0 && flags & 0x02 == 0 {
        Some(MQTTProtocolError::IncorrectPacketFormat)
    } else if flags & 0x04 == 0 && flags & 0x38 != 0 {
        Some(MQTTProtocolError::IncorrectPacketFormat)
    } else if flags & 0x1C == 0x1C {
        Some(MQTTProtocolError::InvalidQoS(3))
    } else if flags & 0xC0 == 0x40 {
        Some(MQTTProtocolError::IncorrectPacketFormat)
    } else {
        None
    }
}

/// The last will that flags `flags` announce, with this topic and message.
pub open spec fn probe_will(flags: u8, topic: Seq<u8>, message: Seq<u8>) -> Option<LastWillView> {
    if flags & 0x04 != 0 {
        Some(
            LastWillView {
                topic,
                message,
                qos: if flags & 0x18 == 0 {
                    QoS::AtMostOnce
                } else if flags & 0x18 == 0x08 {
                    QoS::AtLeastOnce
                } else {
                    QoS::ExactlyOnce
                },
                retain: flags & 0x20 != 0,
            },
        )
    } else {
        None
    }
}

proof fn lemma_flag_bits(flags: u8)
    ensures
        ((flags & 0x18) >> 3u8) == 3 <==> flags & 0x18 == 0x18,
        ((flags & 0x18) >> 3u8) == 0 <==> flags & 0x18 == 0,
        ((flags & 0x18) >> 3u8) == 1 <==> flags & 0x18 == 0x08,
        ((flags & 0x18) >> 3u8) <= 3,
        flags & 0x1C == 0x1C <==> (flags & 0x04 != 0 && flags & 0x18 == 0x18),
        flags & 0xC0 == 0x40 <==> (flags & 0x80 == 0 && flags & 0x40 != 0),
        flags & 0xC0 == 0 <==> (flags & 0x80 == 0 && flags & 0x40 == 0),
{
    assert(((flags & 0x18) >> 3u8) == 3 <==> flags & 0x18 == 0x18) by (bit_vector);
    assert(((flags & 0x18) >> 3u8) == 0 <==> flags & 0x18 == 0) by (bit_vector);
    assert(((flags & 0x18) >> 3u8) == 1 <==> flags & 0x18 == 0x08) by (bit_vector);
    assert(((flags & 0x18) >> 3u8) <= 3) by (bit_vector);
    assert(flags & 0x1C == 0x1C <==> (flags & 0x04 != 0 && flags & 0x18 == 0x18)) by (bit_vector);
    assert(flags & 0xC0 == 0x40 <==> (flags & 0x80 == 0 && flags & 0x40 != 0)) by (bit_vector);
    assert(flags & 0xC0 == 0 <==> (flags & 0x80 == 0 && flags & 0x40 == 0)) by (bit_vector);
}

proof fn lemma_name_is_mqtt(name: Seq<char>)
    ensures
        (encode_utf8(name) == protocol_name_bytes()) <==> (name == "MQTT"@),
{
    lemma_protocol_name();
    encode_utf8_decode_utf8(name);
    encode_utf8_decode_utf8("MQTT"@);
}

proof fn lemma_empty_encoding(cid: Seq<char>)
    ensures
        (encode_utf8(cid).len() == 0) <==> (cid.len() == 0),
{
    encode_utf8_decode_utf8(cid);
    if encode_utf8(cid).len() == 0 {
        assert(encode_utf8(cid) =~= Seq::<u8>::empty());
        assert(decode_utf8(Seq::<u8>::empty()) =~= Seq::<char>::empty());
    }
}

proof fn lemma_probe_head(h: FixedHeader, b0: u8, b1: u8, name: Seq<char>, level: u8, flags: u8, r3: Seq<u8>)
    requires
        h.fixed_header_len == 2,
        encode_utf8(name).len() <= 65535,
    ensures
        spec_connect_read(h, seq![b0, b1] + mqtt_string_encoding(name) + seq![level, flags] + r3) == if name
            != "MQTT"@ {
            Err(MQTTProtocolError::InvalidProtocolName)
        } else if level != 3 && level != 4 {
            Err(MQTTProtocolError::InvalidProtocolLevel(level))
        } else if flags & 0x01 != 0 {
            Err(MQTTProtocolError::ReservedSetError)
        } else {
            spec_connect_read_rest(level, flags, r3)
        },
{
    let s = seq![b0, b1] + mqtt_string_encoding(name) + seq![level, flags] + r3;
    let r1 = seq![level, flags] + r3;
    assert(s.skip(2) =~= mqtt_string_encoding(name) + r1);
    lemma_mqtt_bytes_roundtrip(encode_utf8(name), r1);
    encode_utf8_valid_utf8(name);
    lemma_name_is_mqtt(name);
    assert(r1.skip(1) =~= seq![flags] + r3);
    assert((seq![flags] + r3).skip(1) =~= r3);
}

proof fn lemma_probe_rest(level: u8, flags: u8, cid: Seq<char>, after_cid: Seq<u8>)
    requires
        encode_utf8(cid).len() <= 65535,
    ensures
        spec_connect_read_rest(level, flags, seq![0u8, 0u8] + mqtt_string_encoding(cid) + after_cid) == if cid.len()
            == 0 && flags & 0x02 == 0 {
            Err(MQTTProtocolError::IncorrectPacketFormat)
        } else {
            match spec_will_read(flags, after_cid) {
                (Err(e), _) => Err(e),
                (Ok(will), r6) => match spec_login_read(flags, r6) {
                    (Err(e), _) => Err(e),
                    (Ok(login), _) => Ok(
                        (level, ConnectView { keep_alive: 0, client_id: cid, clean_session: flags & 0x02 != 0 }, login, will),
                    ),
                },
            }
        },
{
    reveal(spec_connect_read_rest);
    let r3 = seq![0u8, 0u8] + mqtt_string_encoding(cid) + after_cid;
    assert(r3.skip(2) =~= mqtt_string_encoding(cid) + after_cid);
    lemma_mqtt_bytes_roundtrip(encode_utf8(cid), after_cid);
    encode_utf8_valid_utf8(cid);
    encode_utf8_decode_utf8(cid);
    lemma_empty_encoding(cid);
}

proof fn lemma_probe_will(flags: u8, topic: Seq<u8>, message: Seq<u8>, tail: Seq<u8>)
    requires
        topic.len() <= 65535,
        message.len() <= 65535,
    ensures
        ({
            let wpart = if flags & 0b100 != 0 {
                mqtt_bytes_encoding(topic) + mqtt_bytes_encoding(message)
            } else {
                Seq::<u8>::empty()
            };
            let r = spec_will_read(flags, wpart + tail);
            &&& flags & 0x04 == 0 && flags & 0x38 != 0 ==> r.0 == Err::<Option<LastWillView>, MQTTProtocolError>(
                MQTTProtocolError::IncorrectPacketFormat,
            )
            &&& flags & 0x1C == 0x1C ==> r.0 == Err::<Option<LastWillView>, MQTTProtocolError>(
                MQTTProtocolError::InvalidQoS(3),
            )
            &&& !(flags & 0x04 == 0 && flags & 0x38 != 0) && flags & 0x1C != 0x1C ==> r == (
                Ok::<Option<LastWillView>, MQTTProtocolError>(probe_will(flags, topic, message)),
                tail,
            )
        }),
{
    reveal(spec_will_read);
    lemma_flag_bits(flags);
    if flags & 0b100 != 0 {
        lemma_mqtt_bytes_roundtrip(topic, mqtt_bytes_encoding(message) + tail);
        assert(mqtt_bytes_encoding(topic) + mqtt_bytes_encoding(message) + tail =~= mqtt_bytes_encoding(topic) + (
        mqtt_bytes_encoding(message) + tail));
        lemma_mqtt_bytes_roundtrip(message, tail);
    } else {
        assert(Seq::<u8>::empty() + tail =~= tail);
    }
}

proof fn lemma_probe_login(flags: u8, tail: Seq<u8>)
    ensures
        flags & 0xC0 == 0x40 ==> spec_login_read(flags, tail).0 == Err::<Option<crate::mqtt::common::LoginView>, MQTTProtocolError>(
            MQTTProtocolError::IncorrectPacketFormat,
        ),
        flags & 0xC0 == 0 ==> spec_login_read(flags, tail).0 == Ok::<Option<crate::mqtt::common::LoginView>, MQTTProtocolError>(None),
{
    reveal(spec_login_read);
    lemma_flag_bits(flags);
    reveal(crate::mqtt::mqttv4::connect::login::spec_read_optional_string);
}

/// Reading a CONNECT built from a protocol name, level, flags, client
/// identifier and, where the flags carry one, a will, fails with the first
/// check that `connect_first_error` names, in that order, whatever follows
/// it. Where every check passes and the flags announce no login, it reads
/// back the level, keep alive 0, the client identifier, the clean-session
/// flag and the will.
pub proof fn lemma_connect_error_order(
    h: FixedHeader,
    b0: u8,
    b1: u8,
    name: Seq<char>,
    level: u8,
    flags: u8,
    cid: Seq<char>,
    topic: Seq<u8>,
    message: Seq<u8>,
    tail: Seq<u8>,
)
    requires
        h.fixed_header_len == 2,
        encode_utf8(name).len() <= 65535,
        encode_utf8(cid).len() <= 65535,
        topic.len() <= 65535,
        message.len() <= 65535,
    ensures
        ({
            let s = connect_probe(b0, b1, name, level, flags, cid, topic, message) + tail;
            &&& connect_first_error(name, level, flags, cid) matches Some(e) ==> spec_connect_read(h, s) == Err::<
                (u8, ConnectView, Option<crate::mqtt::common::LoginView>, Option<LastWillView>),
                MQTTProtocolError,
            >(e)
            &&& connect_first_error(name, level, flags, cid) is None && flags & 0xC0 == 0 ==> spec_connect_read(h, s)
                == Ok::<
                (u8, ConnectView, Option<crate::mqtt::common::LoginView>, Option<LastWillView>),
                MQTTProtocolError,
            >(
                (
                    level,
                    ConnectView { keep_alive: 0, client_id: cid, clean_session: flags & 0x02 != 0 },
                    None,
                    probe_will(flags, topic, message),
                ),
            )
        }),
{
    let wpart = if flags & 0b100 != 0 {
        mqtt_bytes_encoding(topic) + mqtt_bytes_encoding(message)
    } else {
        Seq::<u8>::empty()
    };
    let s = connect_probe(b0, b1, name, level, flags, cid, topic, message) + tail;
    let after_cid = wpart + tail;
    let r3 = seq![0u8, 0u8] + mqtt_string_encoding(cid) + after_cid;
    assert(s =~= seq![b0, b1] + mqtt_string_encoding(name) + seq![level, flags] + r3);
    lemma_probe_head(h, b0, b1, name, level, flags, r3);
    lemma_probe_rest(level, flags, cid, after_cid);
    lemma_probe_will(flags, topic, message, tail);
    lemma_probe_login(flags, tail);
}

/// The bytes of a CONNECT with a will and a login, in order: the fixed
/// header, the protocol name `MQTT` with its length, level 4, the flags,
/// the keep alive in two bytes, then the client identifier, the will topic,
/// the will message, the user name and the password, each after two bytes
/// of length.
pub proof fn lemma_connect_payload_order(
    c: ConnectView,
    w: LastWillView,
    u: Seq<char>,
    p: Seq<char>,
    flags: u8,
)
    requires
        encode_utf8(c.client_id).len() <= 65535,
        encode_utf8(u).len() <= 65535,
        encode_utf8(p).len() <= 65535,
        w.topic.len() <= 65535,
        w.message.len() <= 65535,
        u.len() > 0,
        p.len() > 0,
    ensures
        ({
            let l = crate::mqtt::common::LoginView { username: u, password: p };
            let n = crate::mqtt::mqttv4::connect::connect_body_len(c, Some(l), Some(w));
            let cb = encode_utf8(c.client_id);
            let ub = encode_utf8(u);
            let pb = encode_utf8(p);
            crate::mqtt::mqttv4::connect::connect_encoding(c, Some(l), Some(w), flags) == crate::mqtt::common::fixed_header_encoding(0x10, n)
                + seq![0u8, 4u8, 77u8, 81u8, 84u8, 84u8, 4u8, flags]
                + seq![(c.keep_alive / 256) as u8, (c.keep_alive % 256) as u8]
                + seq![(cb.len() / 256) as u8, (cb.len() % 256) as u8] + cb
                + seq![(w.topic.len() / 256) as u8, (w.topic.len() % 256) as u8] + w.topic
                + seq![(w.message.len() / 256) as u8, (w.message.len() % 256) as u8] + w.message
                + seq![(ub.len() / 256) as u8, (ub.len() % 256) as u8] + ub
                + seq![(pb.len() / 256) as u8, (pb.len() % 256) as u8] + pb
        }),
{
    let l = crate::mqtt::common::LoginView { username: u, password: p };
    crate::mqtt::mqttv4::connect::login::lemma_login_wire_order(u, p, Seq::empty());
    let n = crate::mqtt::mqttv4::connect::connect_body_len(c, Some(l), Some(w));
    let cb = encode_utf8(c.client_id);
    let e = crate::mqtt::mqttv4::connect::connect_encoding(c, Some(l), Some(w), flags);
    assert(mqtt_bytes_encoding(protocol_name_bytes()) =~= seq![0u8, 4u8, 77u8, 81u8, 84u8, 84u8]);
    assert(mqtt_string_encoding(c.client_id) =~= seq![(cb.len() / 256) as u8, (cb.len() % 256) as u8] + cb);
    assert(mqtt_bytes_encoding(w.topic) =~= seq![(w.topic.len() / 256) as u8, (w.topic.len() % 256) as u8]
        + w.topic);
    assert(mqtt_bytes_encoding(w.message) =~= seq![(w.message.len() / 256) as u8, (w.message.len() % 256) as u8]
        + w.message);
    assert(e =~= crate::mqtt::common::fixed_header_encoding(0x10, n) + seq![0u8, 4u8, 77u8, 81u8, 84u8, 84u8, 4u8, flags]
        + seq![(c.keep_alive / 256) as u8, (c.keep_alive % 256) as u8]
        + seq![(cb.len() / 256) as u8, (cb.len() % 256) as u8] + cb
        + seq![(w.topic.len() / 256) as u8, (w.topic.len() % 256) as u8] + w.topic
        + seq![(w.message.len() / 256) as u8, (w.message.len() % 256) as u8] + w.message
        + crate::mqtt::mqttv4::connect::login::login_encoding(l));
}

} // verus!
