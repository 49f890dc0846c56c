//! SUBSCRIBE in MQTT 3.1.1: a packet identifier and at least one topic
//! filter.
pub mod filter;

use crate::buffer::{bytes_advance, bytes_mut_put_u16, bytes_mut_put_u8, bytes_mut_seq, bytes_seq, be_u16_bytes};
use crate::mqtt::common::{
    concat_map, fixed_header_encoding, lemma_concat_map_len, lemma_concat_map_push, lemma_sum_map_push,
    read_u16, spec_read_u16, sum_map, write_remaining_length, spec_parse_fixed_header,
    lemma_fixed_header_roundtrip, FixedHeader, Filter, FilterView, Subscribe, SubscribeView,
    MAX_REMAINING_LENGTH, Error,
};
use crate::mqtt::mqtt_protocol_error::{spec_from_error, MQTTProtocolError};
use self::filter::{filter_encoding, filter_len, lemma_filter_roundtrip, prepend_filters, spec_read_filters, v4_filter};
use bytes::{Bytes, BytesMut};
use vstd::prelude::*;
use vstd::utf8::*;

verus! {

/// The remaining length of a SUBSCRIBE: the packet identifier and the
/// filters.
pub open spec fn subscribe_body_len(s: SubscribeView) -> nat {
    2 + sum_map(s.filters, |f: FilterView| filter_len(f))
}

/// The bytes of a SUBSCRIBE packet.
pub open spec fn subscribe_encoding(s: SubscribeView) -> Seq<u8> {
    fixed_header_encoding(0x82, subscribe_body_len(s)) + be_u16_bytes(s.packet_identifier) + concat_map(
        s.filters,
        |f: FilterView| filter_encoding(f),
    )
}

/// What reading a SUBSCRIBE packet from `s` gives.
pub open spec fn spec_subscribe_read(h: FixedHeader, s: Seq<u8>) -> Result<SubscribeView, MQTTProtocolError> {
    match spec_read_u16(s.skip(h.fixed_header_len as int)) {
        (Err(e), _) => Err(spec_from_error(e)),
        (Ok(pkid), rest) => match spec_read_filters(rest) {
            Err(e) => Err(e),
            Ok(filters) => if filters.len() == 0 {
                Err(MQTTProtocolError::EmptySubscription)
            } else {
                Ok(SubscribeView { packet_identifier: pkid, filters })
            },
        },
    }
}

pub fn len(subscribe: &Subscribe) -> (r: usize)
    requires
        subscribe_body_len(subscribe@) <= usize::MAX,
    ensures
        r == subscribe_body_len(subscribe@),
{
    let ghost fs = subscribe@.filters;
    let ghost g = |f: FilterView| filter_len(f);
    // length of pkid (variable header 2 bytes) + vec! [subscribed topic filter length]
    let mut total: usize = 0;
    let mut i: usize = 0;
    while i < subscribe.filters.len()
        invariant
            i <= subscribe.filters@.len(),
            fs == subscribe@.filters,
            g == (|f: FilterView| filter_len(f)),
            fs.len() == subscribe.filters@.len(),
            2 + sum_map(fs, g) <= usize::MAX,
            total == sum_map(fs.take(i as int), g),
        decreases subscribe.filters@.len() - i,
    {
        proof {
            assert(fs.take(i + 1) =~= fs.take(i as int).push(fs[i as int]));
            lemma_sum_map_push(fs.take(i as int), fs[i as int], g);
            lemma_sum_map_prefix(fs, (i + 1) as nat, g);
            assert(fs[i as int] == subscribe.filters@[i as int]@);
        }
        total = total + filter::len(&subscribe.filters[i]);
        i = i + 1;
    }
    assert(fs.take(i as int) =~= fs);
    2 + total
}

/// A sum over a prefix is at most the sum over the whole.
proof fn lemma_sum_map_prefix<A>(s: Seq<A>, n: nat, g: spec_fn(A) -> nat)
    requires
        n <= s.len(),
    ensures
        sum_map(s.take(n as int), g) <= sum_map(s, g),
    decreases s.len() - n,
{
    if n < s.len() {
        lemma_sum_map_prefix(s, (n + 1) as nat, g);
        assert(s.take(n + 1 as int) =~= s.take(n as int).push(s[n as int]));
        lemma_sum_map_push(s.take(n as int), s[n as int], g);
    } else {
        assert(s.take(n as int) =~= s);
    }
}

pub fn write(subscribe: &Subscribe, buffer: &mut BytesMut) -> (r: Result<usize, MQTTProtocolError>)
    requires
        bytes_mut_seq(*old(buffer)).len() + 7 + subscribe_body_len(subscribe@) <= usize::MAX,
    ensures
        subscribe_body_len(subscribe@) > MAX_REMAINING_LENGTH ==> r == Err::<usize, MQTTProtocolError>(
            MQTTProtocolError::PayloadTooLong,
        ) && bytes_mut_seq(*final(buffer)) == bytes_mut_seq(*old(buffer)).push(0x82),
        subscribe_body_len(subscribe@) <= MAX_REMAINING_LENGTH ==> r == Ok::<usize, MQTTProtocolError>(
            subscribe_encoding(subscribe@).len() as usize,
        ) && bytes_mut_seq(*final(buffer)) == bytes_mut_seq(*old(buffer)) + subscribe_encoding(subscribe@),
{
    let ghost sv = subscribe@;
    let ghost fe = |f: FilterView| filter_encoding(f);
    let ghost fl = |f: FilterView| filter_len(f);
    // write packet type of subscribe
    bytes_mut_put_u8(buffer, 0x82);
    // write remaining length
    let remaining_length = len(subscribe);
    let remaining_length_bytes = match write_remaining_length(buffer, remaining_length) {
        Ok(c) => c,
        Err(e) => return Err(MQTTProtocolError::from_error(e)),
    };
    // write packet id
    bytes_mut_put_u16(buffer, subscribe.packet_identifier);
    let ghost head = bytes_mut_seq(*buffer);
    assert(head =~= bytes_mut_seq(*old(buffer)) + fixed_header_encoding(0x82, remaining_length as nat)
        + be_u16_bytes(sv.packet_identifier));
    // write filters
    let mut i: usize = 0;
    while i < subscribe.filters.len()
        invariant
            i <= subscribe.filters@.len(),
            sv == subscribe@,
            fe == (|f: FilterView| filter_encoding(f)),
            fl == (|f: FilterView| filter_len(f)),
            sv.filters.len() == subscribe.filters@.len(),
            bytes_mut_seq(*buffer) == head + concat_map(sv.filters.take(i as int), fe),
            head.len() + sum_map(sv.filters, fl) <= usize::MAX,
            forall|f: FilterView| #[trigger] fe(f).len() == fl(f),
        decreases subscribe.filters@.len() - i,
    {
        proof {
            let t = sv.filters.take(i as int);
            assert(sv.filters.take(i + 1) =~= t.push(sv.filters[i as int]));
            lemma_concat_map_push(t, sv.filters[i as int], fe);
            lemma_sum_map_push(t, sv.filters[i as int], fl);
            lemma_concat_map_len(sv.filters.take(i + 1), fe, fl);
            lemma_concat_map_len(t, fe, fl);
            lemma_sum_map_prefix(sv.filters, (i + 1) as nat, fl);
            assert(subscribe.filters@[i as int]@ == sv.filters[i as int]);
        }
        filter::write(&subscribe.filters[i], buffer);
        proof {
            let t = sv.filters.take(i as int);
            assert(head + concat_map(t, fe) + fe(sv.filters[i as int]) =~= head + (concat_map(t, fe) + fe(
                sv.filters[i as int],
            )));
        }
        i = i + 1;
    }
    proof {
        assert(sv.filters.take(i as int) =~= sv.filters);
        lemma_concat_map_len(sv.filters, fe, fl);
    }
    assert(bytes_mut_seq(*buffer) =~= bytes_mut_seq(*old(buffer)) + subscribe_encoding(sv));
    Ok(1 + remaining_length_bytes + remaining_length)
}

pub fn read(fixed_header: FixedHeader, bytes: Bytes) -> (r: Result<Subscribe, MQTTProtocolError>)
    requires
        fixed_header.fixed_header_len <= bytes_seq(bytes).len(),
    ensures
        match (r, spec_subscribe_read(fixed_header, bytes_seq(bytes))) {
            (Ok(v), Ok(sv)) => v@ == sv,
            (Err(e), Err(se)) => e == se,
            _ => false,
        },
{
    let mut bytes = bytes;
    let variable_header_index = fixed_header.fixed_header_len;
    bytes_advance(&mut bytes, variable_header_index);
    let pkid = match read_u16(&mut bytes) {
        Ok(v) => v,
        Err(e) => return Err(MQTTProtocolError::from_error(e)),
    };
    let filters = match filter::read(&mut bytes) {
        Ok(f) => f,
        Err(e) => return Err(e),
    };
    if filters.len() == 0 {
        return Err(MQTTProtocolError::EmptySubscription);
    }
    Ok(Subscribe { packet_identifier: pkid, filters })
}

/// The filters of a SUBSCRIBE read back one by one from their encodings.
proof fn lemma_filters_roundtrip(fs: Seq<FilterView>)
    requires
        forall|i: int| 0 <= i < fs.len() ==> encode_utf8(#[trigger] fs[i].path).len() <= 65535,
    ensures
        spec_read_filters(concat_map(fs, |f: FilterView| filter_encoding(f))) == Ok::<
            Seq<FilterView>,
            MQTTProtocolError,
        >(fs.map_values(|f: FilterView| v4_filter(f.path, f.qos))),
    decreases fs.len(),
{
    let fe = |f: FilterView| filter_encoding(f);
    if fs.len() == 0 {
        assert(concat_map(fs, fe) =~= Seq::<u8>::empty());
        assert(fs.map_values(|f: FilterView| v4_filter(f.path, f.qos)) =~= Seq::<FilterView>::empty());
    } else {
        let rest = fs.drop_first();
        assert forall|i: int| 0 <= i < rest.len() implies encode_utf8(#[trigger] rest[i].path).len()
            <= 65535 by {
            assert(rest[i] == fs[i + 1]);
        }
        lemma_filters_roundtrip(rest);
        assert(encode_utf8(fs[0].path).len() <= 65535);
        lemma_filter_roundtrip(fs[0], concat_map(rest, fe));
        assert(fs.map_values(|f: FilterView| v4_filter(f.path, f.qos)) =~= seq![v4_filter(fs[0].path, fs[0].qos)]
            + rest.map_values(|f: FilterView| v4_filter(f.path, f.qos)));
    }
}

/// A SUBSCRIBE with at least one filter, whose paths fit a length prefix
/// and whose remaining length fits four bytes, reads back with its packet
/// identifier and the paths and QoS of its filters; the options of MQTT 5
/// read back at their defaults.
pub proof fn lemma_subscribe_roundtrip(s: SubscribeView)
    requires
        s.filters.len() > 0,
        forall|i: int| 0 <= i < s.filters.len() ==> encode_utf8(#[trigger] s.filters[i].path).len() <= 65535,
        subscribe_body_len(s) <= MAX_REMAINING_LENGTH,
    ensures
        spec_parse_fixed_header(subscribe_encoding(s)) matches Ok(h) && h.byte1 == 0x82
            && spec_subscribe_read(h, subscribe_encoding(s)) == Ok::<SubscribeView, MQTTProtocolError>(
            SubscribeView {
                packet_identifier: s.packet_identifier,
                filters: s.filters.map_values(|f: FilterView| v4_filter(f.path, f.qos)),
            },
        ),
{
    let fe = |f: FilterView| filter_encoding(f);
    let fs = concat_map(s.filters, fe);
    let body = be_u16_bytes(s.packet_identifier) + fs;
    let e = subscribe_encoding(s);
    assert(e =~= fixed_header_encoding(0x82, subscribe_body_len(s)) + body);
    lemma_fixed_header_roundtrip(0x82, subscribe_body_len(s), body);
    let h = spec_parse_fixed_header(e)->Ok_0;
    assert(e.skip(h.fixed_header_len as int) =~= body);
    crate::buffer::lemma_be_u16_roundtrip(s.packet_identifier);
    assert(body.skip(2) =~= fs);
    assert(body[0] == be_u16_bytes(s.packet_identifier)[0] && body[1] == be_u16_bytes(s.packet_identifier)[1]);
    lemma_filters_roundtrip(s.filters);
}

} // verus!
