//! The last will of a CONNECT: its flags, topic and message.
use crate::buffer::{bytes_as_slice, bytes_len, bytes_seq, bytes_mut_seq};
use crate::mqtt::common::{
    mqtt_bytes_encoding, qos, qos_number, qos_to_u8, read_mqtt_bytes, spec_qos, spec_read_mqtt_bytes,
    write_mqtt_bytes, LastWill, LastWillView,
};
use crate::mqtt::mqtt_protocol_error::{spec_from_error, MQTTProtocolError};
use bytes::{Bytes, BytesMut};
use vstd::prelude::*;

verus! {

/// The number of bytes a last will takes.
pub open spec fn will_len(w: LastWillView) -> nat {
    2 + w.topic.len() + 2 + w.message.len()
}

/// The bytes of a last will: the topic, then the message, each
/// length-prefixed.
pub open spec fn will_encoding(w: LastWillView) -> Seq<u8> {
    mqtt_bytes_encoding(w.topic) + mqtt_bytes_encoding(w.message)
}

/// The connect flags that a last will sets: the will flag, its QoS and
/// its retain flag.
pub open spec fn will_flags(w: LastWillView) -> u8 {
    if w.retain {
        (0x04u8 | (qos_number(w.qos) << 3u8)) | 0x20u8
    } else {
        0x04u8 | (qos_number(w.qos) << 3u8)
    }
}

/// What reading the last will that the connect flags announce gives, and
/// the bytes left.
#[verifier::opaque]
pub open spec fn spec_will_read(connect_flags: u8, s: Seq<u8>) -> (
    Result<Option<LastWillView>, MQTTProtocolError>,
    Seq<u8>,
) {
    if connect_flags & 0b100 == 0 {
        // Without the will flag, the will QoS and retain must be 0.
        if connect_flags & 0b0011_1000 != 0 {
            (Err(MQTTProtocolError::IncorrectPacketFormat), s)
        } else {
            (Ok(None), s)
        }
    } else {
        match spec_read_mqtt_bytes(s) {
            (Err(e), r1) => (Err(spec_from_error(e)), r1),
            (Ok(topic), r1) => match spec_read_mqtt_bytes(r1) {
                (Err(e), r2) => (Err(spec_from_error(e)), r2),
                (Ok(message), r2) => {
                    let qos_num = (connect_flags & 0b11000) >> 3u8;
                    match spec_qos(qos_num) {
                        None => (Err(MQTTProtocolError::InvalidQoS(qos_num)), r2),
                        Some(q) => (
                            Ok(
                                Some(
                                    LastWillView {
                                        topic,
                                        message,
                                        qos: q,
                                        retain: connect_flags & 0b0010_0000 != 0,
                                    },
                                ),
                            ),
                            r2,
                        ),
                    }
                },
            },
        }
    }
}

pub fn len(will: &LastWill) -> (r: usize)
    requires
        will_len(will@) <= usize::MAX,
    ensures
        r == will_len(will@),
{
    let mut len: usize = 0;
    len = len + 2;  // will topic length
    len = len + bytes_len(&will.topic);
    len = len + 2;  // will message length
    len = len + bytes_len(&will.message);
    len
}

pub fn read(connect_flags: u8, bytes: &mut Bytes) -> (r: Result<Option<LastWill>, MQTTProtocolError>)
    ensures
        ({
            let (sr, rest) = spec_will_read(connect_flags, bytes_seq(*old(bytes)));
            &&& bytes_seq(*final(bytes)) == rest
            &&& match (r, sr) {
                (Ok(None), Ok(None)) => true,
                (Ok(Some(w)), Ok(Some(sw))) => w@ == sw,
                (Err(e), Err(se)) => e == se,
                _ => false,
            }
        }),
{
    proof {
        reveal(spec_will_read);
    }
    // & 0b100 checks the Will Flag (bit 2)
    if connect_flags & 0b100 == 0 {
        // Will QoS (bits 3 and 4) and Will Retain (bit 5) must then be 0
        if (connect_flags & 0b0011_1000) != 0 {
            return Err(MQTTProtocolError::IncorrectPacketFormat);
        }
        return Ok(None);
    }
    let will_topic = match read_mqtt_bytes(bytes) {
        Ok(t) => t,
        Err(e) => return Err(MQTTProtocolError::from_error(e)),
    };
    let will_message = match read_mqtt_bytes(bytes) {
        Ok(m) => m,
        Err(e) => return Err(MQTTProtocolError::from_error(e)),
    };
    // figure out Will QoS number (0, 1 or 2) by &0b11000 and moving right 3 bits
    let qos_num = (connect_flags & 0b11000) >> 3;
    let will_qos = match qos(qos_num) {
        Some(q) => q,
        None => return Err(MQTTProtocolError::InvalidQoS(qos_num)),
    };
    Ok(
        Some(
            LastWill {
                topic: will_topic,
                message: will_message,
                qos: will_qos,
                retain: (connect_flags & 0b0010_0000) != 0,
            },
        ),
    )
}

pub fn write(will: &LastWill, buffer: &mut BytesMut) -> (r: Result<u8, MQTTProtocolError>)
    requires
        bytes_mut_seq(*old(buffer)).len() + will_len(will@) <= usize::MAX,
    ensures
        r == Ok::<u8, MQTTProtocolError>(will_flags(will@)),
        bytes_mut_seq(*final(buffer)) == bytes_mut_seq(*old(buffer)) + will_encoding(will@),
{
    let q = qos_to_u8(will.qos);
    let mut connect_flags: u8 = 0x04 | (q << 3);
    if will.retain {
        connect_flags = connect_flags | 0x20;
    }
    write_mqtt_bytes(buffer, bytes_as_slice(&will.topic));
    write_mqtt_bytes(buffer, bytes_as_slice(&will.message));
    assert(bytes_mut_seq(*buffer) =~= bytes_mut_seq(*old(buffer)) + will_encoding(will@));
    Ok(connect_flags)
}

/// A last will reads back as written, given flags that announce it as it
/// is: the will flag, its QoS and its retain flag; no will reads back from
/// flags without the will flag, QoS and retain.
pub proof fn lemma_will_roundtrip(connect_flags: u8, w: Option<LastWillView>, rest: Seq<u8>)
    requires
        match w {
            None => connect_flags & 0b100 == 0 && connect_flags & 0b0011_1000 == 0,
            Some(w) => {
                &&& connect_flags & 0b100 != 0
                &&& (connect_flags & 0b11000) >> 3u8 == qos_number(w.qos)
                &&& (connect_flags & 0b0010_0000 != 0) == w.retain
                &&& w.topic.len() <= 65535
                &&& w.message.len() <= 65535
            },
        },
    ensures
        spec_will_read(connect_flags, match w {
            Some(w) => will_encoding(w),
            None => Seq::empty(),
        } + rest) == (Ok::<Option<LastWillView>, MQTTProtocolError>(w), rest),
{
    reveal(spec_will_read);
    match w {
        None => {
            assert(Seq::<u8>::empty() + rest =~= rest);
        },
        Some(wv) => {
            let tail = mqtt_bytes_encoding(wv.message) + rest;
            assert(will_encoding(wv) + rest =~= mqtt_bytes_encoding(wv.topic) + tail);
            crate::mqtt::common::lemma_mqtt_bytes_roundtrip(wv.topic, tail);
            crate::mqtt::common::lemma_mqtt_bytes_roundtrip(wv.message, rest);
        },
    }
}

} // verus!
