//! SUBSCRIBE in MQTT 5.0: a packet identifier, properties, then at least
//! one topic filter with its options.
pub mod filter;
pub mod properties;
pub mod roundtrip;

use crate::buffer::{be_u16_bytes, bytes_advance, bytes_len, bytes_mut_put_u16, bytes_mut_put_u8, bytes_mut_seq, bytes_seq};
use crate::mqtt::common::{
    concat_map, fixed_header_encoding, len_len, lemma_concat_map_len, lemma_concat_map_push, lemma_sum_map_push,
    qos, read_mqtt_string, read_u16, read_u8, retain_forward_rule, spec_len_len, spec_qos, spec_read_mqtt_string,
    spec_read_u16, spec_read_u8, spec_retain_forward_rule, sum_map, vbi_encode, write_remaining_length, Filter,
    FilterView, FixedHeader, Subscribe, SubscribeProperties, SubscribePropertiesView, SubscribeView,
    MAX_REMAINING_LENGTH,
};
use crate::mqtt::mqtt_protocol_error::{spec_from_error, MQTTProtocolError};
use crate::mqtt::mqttv5::lemma_sum_map_prefix;
use self::filter::{filter5_encoding, filter5_len};
use self::properties::{
    lemma_sub_props_body_len, opt_sub_props_view, spec_sub_props_read, sub_props_body, sub_props_id_fits,
    sub_props_len,
};
use bytes::{Bytes, BytesMut};
use vstd::prelude::*;
use vstd::utf8::*;

verus! {

/// The remaining length of a SUBSCRIBE.
pub open spec fn subscribe5_body_len(s: SubscribeView, props: Option<SubscribePropertiesView>) -> nat {
    2 + sum_map(s.filters, |f: FilterView| filter5_len(f)) + match props {
        Some(p) => spec_len_len(sub_props_len(p)) + sub_props_len(p),
        None => 1,
    }
}

/// The bytes of the properties part: their length and body, or a zero
/// length.
pub open spec fn sub_props_part(props: Option<SubscribePropertiesView>) -> Seq<u8> {
    match props {
        Some(p) => vbi_encode(sub_props_len(p)) + sub_props_body(p),
        None => seq![0u8],
    }
}

/// The bytes of a SUBSCRIBE packet.
pub open spec fn subscribe5_encoding(s: SubscribeView, props: Option<SubscribePropertiesView>) -> Seq<u8> {
    fixed_header_encoding(0x82, subscribe5_body_len(s, props)) + be_u16_bytes(s.packet_identifier)
        + sub_props_part(props) + concat_map(s.filters, |f: FilterView| filter5_encoding(f))
}

/// What reading filters up to the end of `s` gives.
pub open spec fn spec_read_filters5(s: Seq<u8>) -> Result<Seq<FilterView>, MQTTProtocolError>
    decreases s.len(),
{
    if s.len() == 0 {
        Ok(Seq::empty())
    } else {
        match spec_read_mqtt_string(s) {
            (Err(e), _) => Err(spec_from_error(e)),
            (Ok(path), r1) => match spec_read_u8(r1) {
                (Err(e), _) => Err(spec_from_error(e)),
                (Ok(options), r2) => {
                    let requested_qos = options & 0b0000_0011;
                    let nolocal = (options >> 2u8) & 0b0000_0001 != 0;
                    let preserve_retain = (options >> 3u8) & 0b0000_0001 != 0;
                    let rule = (options >> 4u8) & 0b0000_0011;
                    match spec_retain_forward_rule(rule) {
                        None => Err(MQTTProtocolError::InvalidRetainForwardRule(rule)),
                        Some(rh) => match spec_qos(requested_qos) {
                            None => Err(MQTTProtocolError::InvalidQoS(requested_qos)),
                            Some(q) => match spec_read_filters5(r2) {
                                Ok(rest) => Ok(
                                    seq![
                                        FilterView {
                                            path,
                                            qos: q,
                                            no_local: nolocal,
                                            preserve_retain,
                                            retain_handling: rh,
                                        },
                                    ] + rest,
                                ),
                                Err(e) => Err(e),
                            },
                        },
                    }
                },
            },
        }
    }
}

/// What reading a SUBSCRIBE packet from `s` gives.
pub open spec fn spec_subscribe5_read(h: FixedHeader, s: Seq<u8>) -> Result<
    (SubscribeView, Option<SubscribePropertiesView>),
    MQTTProtocolError,
> {
    match spec_read_u16(s.skip(h.fixed_header_len as int)) {
        (Err(e), _) => Err(spec_from_error(e)),
        (Ok(pkid), r1) => match spec_sub_props_read(r1) {
            (Err(e), _) => Err(e),
            (Ok(props), r2) => match spec_read_filters5(r2) {
                Err(e) => Err(e),
                Ok(filters) => if filters.len() == 0 {
                    Err(MQTTProtocolError::EmptySubscription)
                } else {
                    Ok((SubscribeView { packet_identifier: pkid, filters }, props))
                },
            },
        },
    }
}

pub fn len(subscribe: &Subscribe, properties: &Option<SubscribeProperties>) -> (r: usize)
    requires
        subscribe5_body_len(subscribe@, opt_sub_props_view(*properties)) <= usize::MAX,
        match properties {
            Some(p) => sub_props_len(p@) <= usize::MAX,
            None => true,
        },
    ensures
        r == subscribe5_body_len(subscribe@, opt_sub_props_view(*properties)),
{
    let ghost fs = subscribe@.filters;
    let ghost g = |f: FilterView| filter5_len(f);
    let mut total: usize = 0;
    let mut i: usize = 0;
    while i < subscribe.filters.len()
        invariant
            i <= subscribe.filters@.len(),
            fs == subscribe@.filters,
            fs.len() == subscribe.filters@.len(),
            g == (|f: FilterView| filter5_len(f)),
            2 + sum_map(fs, g) <= usize::MAX,
            total == sum_map(fs.take(i as int), g),
        decreases subscribe.filters@.len() - i,
    {
        proof {
            assert(fs.take(i + 1) =~= fs.take(i as int).push(fs[i as int]));
            lemma_sum_map_push(fs.take(i as int), fs[i as int], g);
            lemma_sum_map_prefix(fs, (i + 1) as nat, g);
            assert(fs[i as int] == subscribe.filters@[i as int]@);
        }
        total = total + filter::len(&subscribe.filters[i]);
        i = i + 1;
    }
    assert(fs.take(i as int) =~= fs);
    let mut len: usize = 2 + total;
    if let Some(p) = properties {
        let properties_len = properties::len(p);
        let properties_len_len = len_len(properties_len);
        len = len + properties_len_len + properties_len;
    } else {
        // just 1 byte representing 0 len
        len = len + 1;
    }
    len
}

pub fn read(fixed_header: FixedHeader, bytes: Bytes) -> (r: Result<
    (Subscribe, Option<SubscribeProperties>),
    MQTTProtocolError,
>)
    requires
        fixed_header.fixed_header_len <= bytes_seq(bytes).len(),
    ensures
        match (r, spec_subscribe5_read(fixed_header, bytes_seq(bytes))) {
            (Ok((s, p)), Ok((ss, sp))) => s@ == ss && opt_sub_props_view(p) == sp,
            (Err(e), Err(se)) => e == se,
            _ => false,
        },
{
    let mut buf = bytes;
    let variable_header_index = fixed_header.fixed_header_len;
    bytes_advance(&mut buf, variable_header_index);
    let pkid = match read_u16(&mut buf) {
        Ok(v) => v,
        Err(e) => return Err(MQTTProtocolError::from_error(e)),
    };
    let properties = match properties::read(&mut buf) {
        Ok(p) => p,
        Err(e) => return Err(e),
    };
    // variable header size = 2 (packet identifier)
    let mut filters: Vec<Filter> = Vec::new();
    let ghost orig = bytes_seq(buf);
    assert(filters@.map_values(|f: Filter| f@) =~= Seq::<FilterView>::empty());
    while bytes_len(&buf) > 0
        invariant
            spec_read_filters5(orig) == match spec_read_filters5(bytes_seq(buf)) {
                Ok(rest) => Ok(filters@.map_values(|f: Filter| f@) + rest),
                Err(e) => Err::<Seq<FilterView>, MQTTProtocolError>(e),
            },
            spec_subscribe5_read(fixed_header, bytes_seq(bytes)) == match spec_read_filters5(orig) {
                Err(e) => Err(e),
                Ok(fs) => if fs.len() == 0 {
                    Err(MQTTProtocolError::EmptySubscription)
                } else {
                    Ok((SubscribeView { packet_identifier: pkid, filters: fs }, opt_sub_props_view(properties)))
                },
            },
        decreases bytes_seq(buf).len(),
    {
        let path = match read_mqtt_string(&mut buf) {
            Ok(p) => p,
            Err(e) => return Err(MQTTProtocolError::from_error(e)),
        };
        let options = match read_u8(&mut buf) {
            Ok(o) => o,
            Err(e) => return Err(MQTTProtocolError::from_error(e)),
        };
        let requested_qos = options & 0b0000_0011;
        let nolocal = (options >> 2) & 0b0000_0001;
        let nolocal = nolocal != 0;
        let preserve_retain = (options >> 3) & 0b0000_0001;
        let preserve_retain = preserve_retain != 0;
        let rule = (options >> 4) & 0b0000_0011;
        let retain_handling = match retain_forward_rule(rule) {
            Some(r) => r,
            None => return Err(MQTTProtocolError::InvalidRetainForwardRule(rule)),
        };
        let q = match qos(requested_qos) {
            Some(q) => q,
            None => return Err(MQTTProtocolError::InvalidQoS(requested_qos)),
        };
        let ghost before = filters@.map_values(|f: Filter| f@);
        filters.push(Filter { path, qos: q, no_local: nolocal, preserve_retain, retain_handling });
        proof {
            let f = filters@[filters@.len() - 1];
            assert(filters@.map_values(|f: Filter| f@) =~= before + seq![f@]);
            match spec_read_filters5(bytes_seq(buf)) {
                Ok(rest) => {
                    assert(before + seq![f@] + rest =~= before + (seq![f@] + rest));
                },
                Err(_) => {},
            }
        }
    }
    assert(filters@.map_values(|f: Filter| f@) + Seq::<FilterView>::empty() =~= filters@.map_values(
        |f: Filter| f@,
    ));
    if filters.len() == 0 {
        return Err(MQTTProtocolError::EmptySubscription);
    }
    Ok((Subscribe { packet_identifier: pkid, filters }, properties))
}

pub fn write(subscribe: &Subscribe, properties: &Option<SubscribeProperties>, buffer: &mut BytesMut) -> (r: Result<
    usize,
    MQTTProtocolError,
>)
    requires
        bytes_mut_seq(*old(buffer)).len() + 20 + subscribe5_body_len(subscribe@, opt_sub_props_view(*properties))
            <= usize::MAX,
    ensures
        ({
            let sv = subscribe@;
            let props = opt_sub_props_view(*properties);
            let n = subscribe5_body_len(sv, props);
            let old_b = bytes_mut_seq(*old(buffer));
            let new_b = bytes_mut_seq(*final(buffer));
            let id_fits = match props {
                Some(p) => sub_props_id_fits(p),
                None => true,
            };
            &&& n > MAX_REMAINING_LENGTH ==> r == Err::<usize, MQTTProtocolError>(
                MQTTProtocolError::PayloadTooLong,
            ) && new_b == old_b.push(0x82)
            &&& n <= MAX_REMAINING_LENGTH && !id_fits ==> r == Err::<usize, MQTTProtocolError>(
                MQTTProtocolError::PayloadTooLong,
            ) && new_b == old_b + fixed_header_encoding(0x82, n) + be_u16_bytes(sv.packet_identifier)
                + vbi_encode(sub_props_len(props->Some_0)) + seq![11u8]
            &&& n <= MAX_REMAINING_LENGTH && id_fits ==> r == Ok::<usize, MQTTProtocolError>(
                (1 + spec_len_len(n) + n) as usize,
            ) && new_b == old_b + subscribe5_encoding(sv, props)
        }),
{
    let ghost sv = subscribe@;
    let ghost props = opt_sub_props_view(*properties);
    let ghost fe = |f: FilterView| filter5_encoding(f);
    let ghost fl = |f: FilterView| filter5_len(f);
    proof {
        if properties.is_some() {
            assert(sub_props_len(props->Some_0) <= subscribe5_body_len(sv, props));
        }
    }
    // write packet type
    bytes_mut_put_u8(buffer, 0x82);
    // write remaining length
    let remaining_len = len(subscribe, properties);
    let remaining_len_bytes = match write_remaining_length(buffer, remaining_len) {
        Ok(c) => c,
        Err(e) => return Err(MQTTProtocolError::from_error(e)),
    };
    proof {
        crate::mqtt::common::lemma_vbi_encode_len(remaining_len as nat);
    }
    // write packet id
    bytes_mut_put_u16(buffer, subscribe.packet_identifier);
    let ghost before_props = bytes_mut_seq(*buffer);
    if let Some(p) = properties {
        match properties::write(p, buffer) {
            Ok(()) => {},
            Err(e) => return Err(e),
        }
    } else {
        match write_remaining_length(buffer, 0) {
            Ok(_) => {},
            Err(e) => return Err(MQTTProtocolError::from_error(e)),
        }
        proof {
            reveal_with_fuel(vbi_encode, 1);
        }
    }
    let ghost head = bytes_mut_seq(*buffer);
    proof {
        if let Some(pv) = props {
            lemma_sub_props_body_len(pv);
            crate::mqtt::common::lemma_vbi_encode_len(sub_props_len(pv));
        }
    }
    assert(head =~= bytes_mut_seq(*old(buffer)) + fixed_header_encoding(0x82, remaining_len as nat)
        + be_u16_bytes(sv.packet_identifier) + sub_props_part(props));
    // write filters
    let mut i: usize = 0;
    while i < subscribe.filters.len()
        invariant
            i <= subscribe.filters@.len(),
            sv == subscribe@,
            sv.filters.len() == subscribe.filters@.len(),
            fe == (|f: FilterView| filter5_encoding(f)),
            fl == (|f: FilterView| filter5_len(f)),
            bytes_mut_seq(*buffer) == head + concat_map(sv.filters.take(i as int), fe),
            head.len() + sum_map(sv.filters, fl) <= usize::MAX,
        decreases subscribe.filters@.len() - i,
    {
        proof {
            let t = sv.filters.take(i as int);
            assert forall|f: FilterView| #[trigger] fe(f).len() == fl(f) by {}
            assert(sv.filters.take(i + 1) =~= t.push(sv.filters[i as int]));
            lemma_concat_map_push(t, sv.filters[i as int], fe);
            lemma_sum_map_push(t, sv.filters[i as int], fl);
            lemma_concat_map_len(t, fe, fl);
            lemma_sum_map_prefix(sv.filters, (i + 1) as nat, fl);
            assert(subscribe.filters@[i as int]@ == sv.filters[i as int]);
        }
        filter::write(&subscribe.filters[i], buffer);
        proof {
            let t = sv.filters.take(i as int);
            assert(head + concat_map(t, fe) + fe(sv.filters[i as int]) =~= head + (concat_map(t, fe) + fe(
                sv.filters[i as int],
            )));
        }
        i = i + 1;
    }
    proof {
        assert(sv.filters.take(i as int) =~= sv.filters);
        assert forall|f: FilterView| #[trigger] fe(f).len() == fl(f) by {}
        lemma_concat_map_len(sv.filters, fe, fl);
    }
    assert(bytes_mut_seq(*buffer) =~= bytes_mut_seq(*old(buffer)) + subscribe5_encoding(sv, props));
    Ok(1 + remaining_len_bytes + remaining_len)
}

} // verus!
