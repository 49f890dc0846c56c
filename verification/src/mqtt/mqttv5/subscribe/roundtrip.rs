//! What the reader of SUBSCRIBE in MQTT 5.0 gives back of what the writer
//! wrote.
use crate::buffer::be_u16_bytes;
use crate::mqtt::common::{
    concat_map, fixed_header_encoding, lemma_fixed_header_roundtrip, lemma_mqtt_string_roundtrip,
    lemma_vbi_encode_len, lemma_vbi_roundtrip, mqtt_string_encoding, qos_number, retain_forward_rule_number,
    spec_parse_fixed_header, spec_qos, spec_read_mqtt_string, spec_read_u16, spec_read_u8,
    spec_retain_forward_rule, spec_len_len, sum_map, vbi_decode, vbi_encode, Error, FilterView,
    SubscribePropertiesView, SubscribeView, MAX_REMAINING_LENGTH,
};
use crate::mqtt::mqtt_protocol_error::MQTTProtocolError;
use crate::mqtt::mqttv5::subscribe::filter::{filter5_encoding, filter_options};
use crate::mqtt::mqttv5::subscribe::properties::{
    spec_sub_props_loop, spec_sub_props_read, sub_props_body, sub_props_id_fits, sub_props_len, SubPropsOutcome,
};
use crate::mqtt::mqttv5::subscribe::{
    spec_read_filters5, spec_subscribe5_read, sub_props_part, subscribe5_body_len, subscribe5_encoding,
};
use crate::mqtt::mqttv5::{spec_property, user_property_encoding, user_property_len, PropertyType};
use vstd::prelude::*;
use vstd::utf8::*;

verus! {

proof fn lemma_read_tag(tag: u8, body: Seq<u8>)
    ensures
        spec_read_u8(seq![tag] + body) == (Ok::<u8, Error>(tag), body),
{
    assert((seq![tag] + body).skip(1) =~= body);
}

proof fn lemma_turn_id(
    s: Seq<u8>,
    r1: Seq<u8>,
    cc: nat,
    v: nat,
    c: nat,
    len: nat,
    id: Option<usize>,
    users: Seq<(Seq<char>, Seq<char>)>,
)
    requires
        c < len,
        spec_read_u8(s) == (Ok::<u8, Error>(11u8), r1),
        vbi_decode(r1) == Ok::<(nat, nat), Error>((cc, v)),
    ensures
        spec_sub_props_loop(s, c, len, id, users) == spec_sub_props_loop(
            r1.skip(cc as int),
            c + 1 + 1 + cc,
            len,
            Some(v as usize),
            users,
        ),
{
    assert(spec_property(11) == Some(PropertyType::SubscriptionIdentifier));
    reveal(spec_sub_props_loop);
}

proof fn lemma_turn_user(
    s: Seq<u8>,
    r1: Seq<u8>,
    r2: Seq<u8>,
    r3: Seq<u8>,
    k: Seq<char>,
    v: Seq<char>,
    c: nat,
    len: nat,
    id: Option<usize>,
    users: Seq<(Seq<char>, Seq<char>)>,
)
    requires
        c < len,
        spec_read_u8(s) == (Ok::<u8, Error>(38u8), r1),
        spec_read_mqtt_string(r1) == (Ok::<Seq<char>, Error>(k), r2),
        spec_read_mqtt_string(r2) == (Ok::<Seq<char>, Error>(v), r3),
    ensures
        spec_sub_props_loop(s, c, len, id, users) == spec_sub_props_loop(
            r3,
            c + 1 + 2 + encode_utf8(k).len() + 2 + encode_utf8(v).len(),
            len,
            id,
            users.push((k, v)),
        ),
{
    assert(spec_property(38) == Some(PropertyType::UserProperty));
    reveal(spec_sub_props_loop);
}

/// The bytes of the subscription identifier, if any.
pub open spec fn id_part(id: Option<usize>) -> Seq<u8> {
    match id {
        Some(id) => seq![11u8] + vbi_encode(id as nat),
        None => Seq::empty(),
    }
}

/// A subscription identifier is read back; the reader counts it one byte
/// more than the writer.
proof fn lemma_step_id(
    id: Option<usize>,
    after: Seq<u8>,
    c: nat,
    len: nat,
    users: Seq<(Seq<char>, Seq<char>)>,
)
    requires
        id matches Some(x) ==> x <= MAX_REMAINING_LENGTH && c + 1 + spec_len_len(x as nat) <= len,
    ensures
        spec_sub_props_loop(id_part(id) + after, c, len, None, users) == spec_sub_props_loop(
            after,
            c + match id {
                Some(x) => 2 + spec_len_len(x as nat),
                None => 0,
            },
            len,
            id,
            users,
        ),
{
    if let Some(x) = id {
        let r1 = vbi_encode(x as nat) + after;
        assert(id_part(id) + after =~= seq![11u8] + r1);
        lemma_read_tag(11, r1);
        lemma_vbi_roundtrip(x as nat, after);
        lemma_vbi_encode_len(x as nat);
        assert(r1.skip(vbi_encode(x as nat).len() as int) =~= after);
        lemma_turn_id(id_part(id) + after, r1, vbi_encode(x as nat).len(), x as nat, c, len, None, users);
    } else {
        assert(id_part(id) + after =~= after);
    }
}

/// User properties are read back one by one.
proof fn lemma_step_users(
    us: Seq<(Seq<char>, Seq<char>)>,
    after: Seq<u8>,
    c: nat,
    len: nat,
    id: Option<usize>,
    acc: Seq<(Seq<char>, Seq<char>)>,
)
    requires
        c + sum_map(us, |kv: (Seq<char>, Seq<char>)| user_property_len(kv)) <= len + 1,
        forall|i: int|
            0 <= i < us.len() ==> encode_utf8(#[trigger] us[i].0).len() <= 65535 && encode_utf8(us[i].1).len()
                <= 65535,
    ensures
        spec_sub_props_loop(
            concat_map(us, |kv: (Seq<char>, Seq<char>)| user_property_encoding(kv)) + after,
            c,
            len,
            id,
            acc,
        ) == spec_sub_props_loop(
            after,
            c + sum_map(us, |kv: (Seq<char>, Seq<char>)| user_property_len(kv)),
            len,
            id,
            acc + us,
        ),
    decreases us.len(),
{
    let fe = |kv: (Seq<char>, Seq<char>)| user_property_encoding(kv);
    let fl = |kv: (Seq<char>, Seq<char>)| user_property_len(kv);
    if us.len() == 0 {
        assert(concat_map(us, fe) + after =~= after);
        assert(acc + us =~= acc);
    } else {
        let u0 = us[0];
        let tail = us.drop_first();
        assert forall|i: int| 0 <= i < tail.len() implies encode_utf8(#[trigger] tail[i].0).len() <= 65535
            && encode_utf8(tail[i].1).len() <= 65535 by {
            assert(tail[i] == us[i + 1]);
        }
        assert(concat_map(us, fe) == fe(u0) + concat_map(tail, fe));
        assert(sum_map(us, fl) == fl(u0) + sum_map(tail, fl));
        let rest = concat_map(tail, fe) + after;
        let r2 = mqtt_string_encoding(u0.1) + rest;
        let r1 = mqtt_string_encoding(u0.0) + r2;
        let s = concat_map(us, fe) + after;
        assert(s =~= seq![38u8] + r1);
        lemma_read_tag(38, r1);
        assert(encode_utf8(us[0].0).len() <= 65535);
        lemma_mqtt_string_roundtrip(u0.0, r2);
        lemma_mqtt_string_roundtrip(u0.1, rest);
        lemma_turn_user(s, r1, r2, rest, u0.0, u0.1, c, len, id, acc);
        lemma_step_users(tail, after, c + fl(u0), len, id, acc.push(u0));
        assert(acc.push(u0) + tail =~= acc + us);
    }
}

proof fn lemma_loop_done(
    s: Seq<u8>,
    c: nat,
    len: nat,
    id: Option<usize>,
    users: Seq<(Seq<char>, Seq<char>)>,
)
    requires
        c >= len,
    ensures
        spec_sub_props_loop(s, c, len, id, users) == SubPropsOutcome::Read(id, users, s),
{
    reveal(spec_sub_props_loop);
}

/// Every user property's key and value fit a two-byte length prefix.
pub open spec fn sub_props_fit(p: SubscribePropertiesView) -> bool {
    forall|i: int|
        0 <= i < p.user_properties.len() ==> encode_utf8(#[trigger] p.user_properties[i].0).len() <= 65535
            && encode_utf8(p.user_properties[i].1).len() <= 65535
}

/// Properties whose subscription identifier fits four bytes and whose
/// strings fit their length prefixes read back as written, and the bytes
/// after them are left; none read back where their length is 0.
pub proof fn lemma_sub_props_roundtrip(p: SubscribePropertiesView, rest: Seq<u8>)
    requires
        sub_props_id_fits(p),
        sub_props_fit(p),
        sub_props_len(p) <= MAX_REMAINING_LENGTH,
    ensures
        spec_sub_props_read(vbi_encode(sub_props_len(p)) + sub_props_body(p) + rest) == (
            if sub_props_len(p) == 0 {
                Ok::<Option<SubscribePropertiesView>, MQTTProtocolError>(None)
            } else {
                Ok(Some(p))
            },
            rest,
        ),
{
    let fe = |kv: (Seq<char>, Seq<char>)| user_property_encoding(kv);
    let fl = |kv: (Seq<char>, Seq<char>)| user_property_len(kv);
    let len = sub_props_len(p);
    let body = sub_props_body(p);
    let s = vbi_encode(len) + body + rest;
    assert(s =~= vbi_encode(len) + (body + rest));
    lemma_vbi_roundtrip(len, body + rest);
    assert(s.skip(vbi_encode(len).len() as int) =~= body + rest);
    let u = concat_map(p.user_properties, fe);
    assert(body + rest =~= id_part(p.subscription_identifier) + (u + rest));
    if len == 0 {
        assert(p.user_properties.len() == 0) by {
            if p.user_properties.len() > 0 {
                assert(sum_map(p.user_properties, fl) == fl(p.user_properties[0]) + sum_map(
                    p.user_properties.drop_first(),
                    fl,
                ));
            }
        }
        assert(u =~= Seq::<u8>::empty());
        assert(body + rest =~= rest);
    } else {
        let n_id: nat = match p.subscription_identifier {
            Some(x) => 1 + spec_len_len(x as nat),
            None => 0,
        };
        let r_id: nat = match p.subscription_identifier {
            Some(x) => 2 + spec_len_len(x as nat),
            None => 0,
        };
        assert(len == n_id + sum_map(p.user_properties, fl));
        lemma_step_id(p.subscription_identifier, u + rest, 0, len, Seq::empty());
        lemma_step_users(p.user_properties, rest, r_id, len, p.subscription_identifier, Seq::empty());
        lemma_loop_done(
            rest,
            r_id + sum_map(p.user_properties, fl),
            len,
            p.subscription_identifier,
            p.user_properties,
        );
        assert(Seq::<(Seq<char>, Seq<char>)>::empty() + p.user_properties =~= p.user_properties);
    }
}

/// The options byte gives back the options it was made from.
proof fn lemma_options_decode(q: u8, nl: u8, pr: u8, rh: u8)
    by (bit_vector)
    requires
        q <= 2,
        nl <= 1,
        pr <= 1,
        rh <= 2,
    ensures
        ({
            let o = (q + 4 * nl + 8 * pr + 16 * rh) as u8;
            &&& o & 0b0000_0011 == q
            &&& ((o >> 2u8) & 0b0000_0001 != 0) == (nl == 1)
            &&& ((o >> 3u8) & 0b0000_0001 != 0) == (pr == 1)
            &&& (o >> 4u8) & 0b0000_0011 == rh
        }),
{
}

/// The bytes of a filter: two bytes of length, the UTF-8 bytes of its path,
/// then its options byte, whose bits 0-1 are the QoS (0 at most once, 1 at
/// least once, 2 exactly once), bit 2 no local, bit 3 retain as published,
/// and bits 4-5 the retain handling (0 send retained messages on every
/// subscription, 1 only on a new one, 2 never).
pub proof fn lemma_filter5_options_bits(f: FilterView)
    requires
        encode_utf8(f.path).len() <= 65535,
    ensures
        ({
            let o = filter_options(f);
            let pb = encode_utf8(f.path);
            &&& filter5_encoding(f) == seq![(pb.len() / 256) as u8, (pb.len() % 256) as u8] + pb + seq![o]
            &&& o & 0b0000_0011 == match f.qos {
                crate::mqtt::common::QoS::AtMostOnce => 0u8,
                crate::mqtt::common::QoS::AtLeastOnce => 1u8,
                crate::mqtt::common::QoS::ExactlyOnce => 2u8,
            }
            &&& ((o >> 2u8) & 0b0000_0001 != 0) == f.no_local
            &&& ((o >> 3u8) & 0b0000_0001 != 0) == f.preserve_retain
            &&& (o >> 4u8) & 0b0000_0011 == match f.retain_handling {
                crate::mqtt::common::RetainForwardRule::OnEverySubscribe => 0u8,
                crate::mqtt::common::RetainForwardRule::OnNewSubscribe => 1u8,
                crate::mqtt::common::RetainForwardRule::Never => 2u8,
            }
        }),
{
    lemma_filter5_roundtrip(f, Seq::empty());
    let pb = encode_utf8(f.path);
    assert(filter5_encoding(f) =~= seq![(pb.len() / 256) as u8, (pb.len() % 256) as u8] + pb + seq![filter_options(f)]);
}

/// Reading one filter takes the options byte after its path bit by bit:
/// bits 0-1 the QoS (0 at most once, 1 at least once, 2 exactly once), bit
/// 2 no local, bit 3 retain as published, bits 4-5 the retain handling (0
/// on every subscription, 1 on a new one, 2 never). Retain handling 3 is
/// refused, and then QoS 3.
pub proof fn lemma_filter5_options_read(path: Seq<char>, o: u8)
    requires
        encode_utf8(path).len() <= 65535,
    ensures
        ({
            let pb = encode_utf8(path);
            let s = seq![(pb.len() / 256) as u8, (pb.len() % 256) as u8] + pb + seq![o];
            &&& (o >> 4u8) & 0b0000_0011 == 3 ==> spec_read_filters5(s) == Err::<Seq<FilterView>, MQTTProtocolError>(
                MQTTProtocolError::InvalidRetainForwardRule(3),
            )
            &&& (o >> 4u8) & 0b0000_0011 != 3 && o & 0b0000_0011 == 3 ==> spec_read_filters5(s) == Err::<
                Seq<FilterView>,
                MQTTProtocolError,
            >(MQTTProtocolError::InvalidQoS(3))
            &&& (o >> 4u8) & 0b0000_0011 != 3 && o & 0b0000_0011 != 3 ==> spec_read_filters5(s) == Ok::<
                Seq<FilterView>,
                MQTTProtocolError,
            >(
                seq![
                    FilterView {
                        path,
                        qos: if o & 0b0000_0011 == 0 {
                            crate::mqtt::common::QoS::AtMostOnce
                        } else if o & 0b0000_0011 == 1 {
                            crate::mqtt::common::QoS::AtLeastOnce
                        } else {
                            crate::mqtt::common::QoS::ExactlyOnce
                        },
                        no_local: (o >> 2u8) & 0b0000_0001 != 0,
                        preserve_retain: (o >> 3u8) & 0b0000_0001 != 0,
                        retain_handling: if (o >> 4u8) & 0b0000_0011 == 0 {
                            crate::mqtt::common::RetainForwardRule::OnEverySubscribe
                        } else if (o >> 4u8) & 0b0000_0011 == 1 {
                            crate::mqtt::common::RetainForwardRule::OnNewSubscribe
                        } else {
                            crate::mqtt::common::RetainForwardRule::Never
                        },
                    },
                ],
            )
        }),
{
    let pb = encode_utf8(path);
    let s = seq![(pb.len() / 256) as u8, (pb.len() % 256) as u8] + pb + seq![o];
    assert(s =~= mqtt_string_encoding(path) + seq![o]);
    lemma_mqtt_string_roundtrip(path, seq![o]);
    lemma_read_tag(o, Seq::empty());
    assert(seq![o] + Seq::<u8>::empty() =~= seq![o]);
    assert((o >> 4u8) & 0b0000_0011 <= 3) by (bit_vector);
    assert(o & 0b0000_0011 <= 3) by (bit_vector);
    assert(spec_read_filters5(Seq::<u8>::empty()) == Ok::<Seq<FilterView>, MQTTProtocolError>(Seq::empty()));
    assert(s.len() > 0);
}

/// One filter read back from its encoding.
proof fn lemma_filter5_roundtrip(f: FilterView, rest: Seq<u8>)
    requires
        encode_utf8(f.path).len() <= 65535,
    ensures
        ({
            let s = filter5_encoding(f) + rest;
            &&& spec_read_mqtt_string(s) == (Ok::<Seq<char>, Error>(f.path), seq![filter_options(f)] + rest)
            &&& spec_read_u8(seq![filter_options(f)] + rest) == (Ok::<u8, Error>(filter_options(f)), rest)
            &&& filter_options(f) & 0b0000_0011 == qos_number(f.qos)
            &&& ((filter_options(f) >> 2u8) & 0b0000_0001 != 0) == f.no_local
            &&& ((filter_options(f) >> 3u8) & 0b0000_0001 != 0) == f.preserve_retain
            &&& (filter_options(f) >> 4u8) & 0b0000_0011 == retain_forward_rule_number(f.retain_handling)
        }),
{
    let s = filter5_encoding(f) + rest;
    assert(s =~= mqtt_string_encoding(f.path) + (seq![filter_options(f)] + rest));
    lemma_mqtt_string_roundtrip(f.path, seq![filter_options(f)] + rest);
    lemma_read_tag(filter_options(f), rest);
    let nl: u8 = if f.no_local { 1 } else { 0 };
    let pr: u8 = if f.preserve_retain { 1 } else { 0 };
    lemma_options_decode(qos_number(f.qos), nl, pr, retain_forward_rule_number(f.retain_handling));
    assert(filter_options(f) == (qos_number(f.qos) + 4 * nl + 8 * pr + 16 * retain_forward_rule_number(
        f.retain_handling,
    )) as u8);
}

/// Filters read back one by one from their encodings.
proof fn lemma_filters5_roundtrip(fs: Seq<FilterView>)
    requires
        forall|i: int| 0 <= i < fs.len() ==> encode_utf8(#[trigger] fs[i].path).len() <= 65535,
    ensures
        spec_read_filters5(concat_map(fs, |f: FilterView| filter5_encoding(f))) == Ok::<
            Seq<FilterView>,
            MQTTProtocolError,
        >(fs),
    decreases fs.len(),
{
    let fe = |f: FilterView| filter5_encoding(f);
    if fs.len() == 0 {
        assert(concat_map(fs, fe) =~= Seq::<u8>::empty());
        assert(fs =~= Seq::<FilterView>::empty());
    } else {
        let tail = fs.drop_first();
        assert forall|i: int| 0 <= i < tail.len() implies encode_utf8(#[trigger] tail[i].path).len() <= 65535 by {
            assert(tail[i] == fs[i + 1]);
        }
        lemma_filters5_roundtrip(tail);
        assert(encode_utf8(fs[0].path).len() <= 65535);
        let after = concat_map(tail, fe);
        lemma_filter5_roundtrip(fs[0], after);
        assert(concat_map(fs, fe) == fe(fs[0]) + after);
        let f = fs[0];
        assert(spec_qos(qos_number(f.qos)) == Some(f.qos));
        assert(spec_retain_forward_rule(retain_forward_rule_number(f.retain_handling)) == Some(f.retain_handling));
        assert(concat_map(fs, fe).len() > 0);
        assert(seq![f] + tail =~= fs);
    }
}

/// What the reader gives back of properties that were written: none where
/// there were none or their length is 0.
pub open spec fn sub_props_read_back(props: Option<SubscribePropertiesView>) -> Option<SubscribePropertiesView> {
    match props {
        Some(p) => if sub_props_len(p) == 0 {
            None
        } else {
            Some(p)
        },
        None => None,
    }
}

/// A SUBSCRIBE with at least one filter, whose strings fit their length
/// prefixes and whose subscription identifier fits four bytes, reads back
/// as written: its packet identifier, its properties, and every option of
/// its filters.
pub proof fn lemma_subscribe5_roundtrip(s: SubscribeView, props: Option<SubscribePropertiesView>)
    requires
        s.filters.len() > 0,
        forall|i: int| 0 <= i < s.filters.len() ==> encode_utf8(#[trigger] s.filters[i].path).len() <= 65535,
        subscribe5_body_len(s, props) <= MAX_REMAINING_LENGTH,
        props matches Some(p) ==> sub_props_id_fits(p) && sub_props_fit(p),
    ensures
        spec_parse_fixed_header(subscribe5_encoding(s, props)) matches Ok(h) && h.byte1 == 0x82
            && spec_subscribe5_read(h, subscribe5_encoding(s, props)) == Ok::<
            (SubscribeView, Option<SubscribePropertiesView>),
            MQTTProtocolError,
        >((s, sub_props_read_back(props))),
{
    let fe = |f: FilterView| filter5_encoding(f);
    let fs = concat_map(s.filters, fe);
    let part = sub_props_part(props);
    let after_pk = part + fs;
    let body = be_u16_bytes(s.packet_identifier) + after_pk;
    let e = subscribe5_encoding(s, props);
    assert(e =~= fixed_header_encoding(0x82, subscribe5_body_len(s, props)) + body);
    lemma_fixed_header_roundtrip(0x82, subscribe5_body_len(s, props), body);
    let h = spec_parse_fixed_header(e)->Ok_0;
    assert(e.skip(h.fixed_header_len as int) =~= body);
    crate::buffer::lemma_be_u16_roundtrip(s.packet_identifier);
    assert(body.skip(2) =~= after_pk);
    assert(body[0] == be_u16_bytes(s.packet_identifier)[0] && body[1] == be_u16_bytes(s.packet_identifier)[1]);
    match props {
        Some(p) => {
            assert(sub_props_len(p) <= subscribe5_body_len(s, props));
            lemma_sub_props_roundtrip(p, fs);
            assert(after_pk =~= vbi_encode(sub_props_len(p)) + sub_props_body(p) + fs);
        },
        None => {
            assert(vbi_encode(0) =~= seq![0u8]) by {
                reveal_with_fuel(vbi_encode, 1);
            }
            lemma_vbi_roundtrip(0, fs);
            lemma_vbi_encode_len(0);
            assert(after_pk.skip(1) =~= fs);
        },
    }
    lemma_filters5_roundtrip(s.filters);
}

} // verus!
