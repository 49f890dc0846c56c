//! The topic filters of a SUBSCRIBE in MQTT 3.1.1: a length-prefixed path,
//! then one byte of options of which only the QoS counts.
use crate::buffer::{bytes_len, bytes_mut_put_u8, bytes_mut_seq, bytes_seq};
use crate::mqtt::common::{
    lemma_mqtt_string_roundtrip, mqtt_string_encoding, qos, qos_number, qos_to_u8, read_mqtt_bytes,
    read_u8, spec_qos, spec_read_mqtt_bytes, spec_read_u8, write_mqtt_string, Error, Filter, FilterView,
    QoS, RetainForwardRule,
};
use crate::mqtt::mqtt_protocol_error::{spec_from_error, MQTTProtocolError};
use crate::buffer::{bytes_as_slice, string_from_utf8};
use vstd::slice::slice_to_vec;
use bytes::{Bytes, BytesMut};
use vstd::prelude::*;
use vstd::utf8::*;

verus! {

/// The bytes of one filter: the path, then the QoS as the options byte.
pub open spec fn filter_encoding(f: FilterView) -> Seq<u8> {
    mqtt_string_encoding(f.path) + seq![qos_number(f.qos)]
}

/// The number of bytes a filter takes.
pub open spec fn filter_len(f: FilterView) -> nat {
    2 + encode_utf8(f.path).len() + 1
}

/// A filter as MQTT 3.1.1 reads it back: the options of MQTT 5 take their
/// defaults.
pub open spec fn v4_filter(path: Seq<char>, q: QoS) -> FilterView {
    FilterView {
        path,
        qos: q,
        no_local: false,
        preserve_retain: false,
        retain_handling: RetainForwardRule::OnEverySubscribe,
    }
}

/// What reading filters up to the end of `s` gives.
pub open spec fn spec_read_filters(s: Seq<u8>) -> Result<Seq<FilterView>, MQTTProtocolError>
    decreases s.len(),
{
    if s.len() == 0 {
        Ok(Seq::empty())
    } else {
        match spec_read_mqtt_bytes(s) {
            (Err(e), _) => Err(spec_from_error(e)),
            (Ok(path), r1) => if !valid_utf8(path) {
                Err(MQTTProtocolError::PayloadNotUtf8)
            } else {
                match spec_read_u8(r1) {
                    (Err(e), _) => Err(spec_from_error(e)),
                    (Ok(options), r2) => {
                        let requested_qos = options % 4;
                        match spec_qos(requested_qos) {
                            None => Err(MQTTProtocolError::InvalidQoS(requested_qos)),
                            Some(q) => match spec_read_filters(r2) {
                                Ok(rest) => Ok(seq![v4_filter(decode_utf8(path), q)] + rest),
                                Err(e) => Err(e),
                            },
                        }
                    },
                }
            },
        }
    }
}

/// The filters read so far in front of what reading the rest gives.
pub open spec fn prepend_filters(
    done: Seq<FilterView>,
    rest: Result<Seq<FilterView>, MQTTProtocolError>,
) -> Result<Seq<FilterView>, MQTTProtocolError> {
    match rest {
        Ok(r) => Ok(done + r),
        Err(e) => Err(e),
    }
}

pub fn len(filter: &Filter) -> (r: usize)
    requires
        filter_len(filter@) <= usize::MAX,
    ensures
        r == filter_len(filter@),
{
    // filter length (2 bytes MSB + LSB)+ filter(subscribed topic name) +
    // options (QoS for 1 byte)
    2 + filter.path.as_str().len() + 1
}

proof fn lemma_low_bits(b: u8)
    ensures
        b & 0b0000_0011 == b % 4,
{
    assert(b & 0b0000_0011 == b % 4) by (bit_vector);
}

pub fn read(bytes: &mut Bytes) -> (r: Result<Vec<Filter>, MQTTProtocolError>)
    ensures
        match (r, spec_read_filters(bytes_seq(*old(bytes)))) {
            (Ok(v), Ok(sv)) => v@.map_values(|f: Filter| f@) == sv,
            (Err(e), Err(se)) => e == se,
            _ => false,
        },
{
    // variable header size 2 bytes (packet identifier)
    let mut filters: Vec<Filter> = Vec::new();
    let ghost orig = bytes_seq(*bytes);
    while bytes_len(bytes) > 0
        invariant
            orig == bytes_seq(*old(bytes)),
            spec_read_filters(orig) == prepend_filters(
                filters@.map_values(|f: Filter| f@),
                spec_read_filters(bytes_seq(*bytes)),
            ),
        decreases bytes_seq(*bytes).len(),
    {
        let ghost cur = bytes_seq(*bytes);
        let path = match read_mqtt_bytes(bytes) {
            Ok(p) => p,
            Err(e) => return Err(MQTTProtocolError::from_error(e)),
        };
        let path = match string_from_utf8(slice_to_vec(bytes_as_slice(&path))) {
            Some(p) => p,
            None => return Err(MQTTProtocolError::PayloadNotUtf8),
        };
        let options = match read_u8(bytes) {
            Ok(o) => o,
            Err(e) => return Err(MQTTProtocolError::from_error(e)),
        };
        proof {
            lemma_low_bits(options);
        }
        let requested_qos = options & 0b0000_0011;
        let q = match qos(requested_qos) {
            Some(q) => q,
            None => return Err(MQTTProtocolError::InvalidQoS(requested_qos)),
        };
        let ghost before = filters@.map_values(|f: Filter| f@);
        filters.push(
            Filter {
                path,
                qos: q,
                // the following options only valid in mqtt v5 and will be ignored in mqtt v4
                no_local: false,
                preserve_retain: false,
                retain_handling: RetainForwardRule::OnEverySubscribe,
            },
        );
        proof {
            let f = filters@[filters@.len() - 1];
            assert(filters@.map_values(|f: Filter| f@) =~= before + seq![f@]);
            assert(before + seq![f@] + spec_read_filters(bytes_seq(*bytes))->Ok_0 =~= before + (
            seq![f@] + spec_read_filters(bytes_seq(*bytes))->Ok_0));
        }
    }
    assert(filters@.map_values(|f: Filter| f@) + Seq::<FilterView>::empty() =~= filters@.map_values(
        |f: Filter| f@,
    ));
    Ok(filters)
}

pub fn write(filter: &Filter, buffer: &mut BytesMut)
    requires
        bytes_mut_seq(*old(buffer)).len() + filter_len(filter@) <= usize::MAX,
    ensures
        bytes_mut_seq(*final(buffer)) == bytes_mut_seq(*old(buffer)) + filter_encoding(filter@),
{
    let options: u8 = qos_to_u8(filter.qos);
    write_mqtt_string(buffer, filter.path.as_str());
    bytes_mut_put_u8(buffer, options);
    assert(bytes_mut_seq(*buffer) =~= bytes_mut_seq(*old(buffer)) + filter_encoding(filter@));
}

/// A filter whose path fits a length prefix reads back with its path and
/// QoS, the options of MQTT 5 at their defaults, before whatever follows.
pub proof fn lemma_filter_roundtrip(f: FilterView, rest: Seq<u8>)
    requires
        encode_utf8(f.path).len() <= 65535,
    ensures
        spec_read_filters(filter_encoding(f) + rest) == prepend_filters(
            seq![v4_filter(f.path, f.qos)],
            spec_read_filters(rest),
        ),
{
    let s = filter_encoding(f) + rest;
    let tail = seq![qos_number(f.qos)] + rest;
    assert(s =~= mqtt_string_encoding(f.path) + tail);
    crate::mqtt::common::lemma_mqtt_bytes_roundtrip(encode_utf8(f.path), tail);
    encode_utf8_valid_utf8(f.path);
    encode_utf8_decode_utf8(f.path);
    assert(tail.skip(1) =~= rest);
    assert(qos_number(f.qos) % 4 == qos_number(f.qos));
}

} // verus!
