//! What the reader of PUBLISH properties gives back of what the writer
//! wrote.
use crate::buffer::{be_u16_bytes, be_u32_bytes, lemma_be_u16_roundtrip, lemma_be_u32_roundtrip};
use crate::mqtt::common::{
    concat_map, lemma_mqtt_bytes_roundtrip, lemma_mqtt_string_roundtrip, lemma_vbi_roundtrip,
    mqtt_bytes_encoding, mqtt_string_encoding, spec_read_u8, sum_map, vbi_decode, vbi_encode, Error,
    MAX_REMAINING_LENGTH,
};
use crate::mqtt::mqttv5::publish::properties::{
    empty_pub_props, ids_written, pub_props_body, pub_props_fixed, pub_props_head, pub_props_len,
    spec_pub_prop_step, spec_pub_props_loop, spec_read_pub_props, tagged_bytes, tagged_string, tagged_u16,
    tagged_u32, tagged_u8, PropStep, PubPropsOutcome, PubPropsRead, PublishPropertiesView,
};
use crate::mqtt::mqttv5::{spec_property, user_property_encoding, user_property_len, PropertyType};
use vstd::prelude::*;
use vstd::utf8::*;

verus! {

/// Every string and binary value of the properties fits a two-byte length
/// prefix.
pub open spec fn pub_props_fit(p: PublishPropertiesView) -> bool {
    &&& p.response_topic matches Some(t) ==> encode_utf8(t).len() <= 65535
    &&& p.correlation_data matches Some(d) ==> d.len() <= 65535
    &&& p.content_type matches Some(t) ==> encode_utf8(t).len() <= 65535
    &&& forall|i: int|
        0 <= i < p.user_properties.len() ==> encode_utf8(#[trigger] p.user_properties[i].0).len() <= 65535
            && encode_utf8(p.user_properties[i].1).len() <= 65535
}

/// One turn of the reader: the identifier, then the property's value.
proof fn lemma_loop_turn(s: Seq<u8>, r1: Seq<u8>, prop: u8, c: nat, len: nat, acc: PublishPropertiesView)
    requires
        c < len,
        spec_read_u8(s) == (Ok::<u8, Error>(prop), r1),
    ensures
        spec_pub_props_loop(s, c, len, acc) == match spec_pub_prop_step(prop, r1, acc) {
            PropStep::Failed(e) => PubPropsOutcome::Failed(e),
            PropStep::Next(a2, n, r2) => spec_pub_props_loop(r2, c + 1 + n, len, a2),
        },
{
    reveal(spec_pub_props_loop);
}

/// The identifier in front of a value is read first.
proof fn lemma_read_tag(tag: u8, body: Seq<u8>)
    ensures
        spec_read_u8(seq![tag] + body) == (Ok::<u8, Error>(tag), body),
{
    assert((seq![tag] + body).skip(1) =~= body);
}

/// A one-byte property is read back.
proof fn lemma_loop_pfi(v: Option<u8>, after: Seq<u8>, c: nat, len: nat, acc: PublishPropertiesView)
    requires
        acc.payload_format_indicator is None,
        v is Some ==> c + 2 <= len + 1,
    ensures
        spec_pub_props_loop(tagged_u8(1, v) + after, c, len, acc) == spec_pub_props_loop(
            after,
            c + if v is Some {
                2nat
            } else {
                0nat
            },
            len,
            PublishPropertiesView { payload_format_indicator: v, ..acc },
        ),
{
    if let Some(x) = v {
        let body = seq![x] + after;
        assert(tagged_u8(1, v) + after =~= seq![1u8] + body);
        lemma_read_tag(1, body);
        lemma_read_tag(x, after);
        assert(spec_property(1) == Some(PropertyType::PayloadFormatIndicator));
        reveal(spec_pub_prop_step);
        lemma_loop_turn(tagged_u8(1, v) + after, body, 1, c, len, acc);
    } else {
        assert(tagged_u8(1, v) + after =~= after);
        assert(PublishPropertiesView { payload_format_indicator: v, ..acc } == acc);
    }
}

/// A four-byte property is read back.
proof fn lemma_loop_mei(v: Option<u32>, after: Seq<u8>, c: nat, len: nat, acc: PublishPropertiesView)
    requires
        acc.message_expiry_interval is None,
        v is Some ==> c + 5 <= len + 1,
    ensures
        spec_pub_props_loop(tagged_u32(2, v) + after, c, len, acc) == spec_pub_props_loop(
            after,
            c + if v is Some {
                5nat
            } else {
                0nat
            },
            len,
            PublishPropertiesView { message_expiry_interval: v, ..acc },
        ),
{
    if let Some(x) = v {
        let body = be_u32_bytes(x) + after;
        assert(tagged_u32(2, v) + after =~= seq![2u8] + body);
        lemma_read_tag(2, body);
        lemma_be_u32_roundtrip(x);
        assert(body.skip(4) =~= after);
        assert(body.subrange(0, 4) =~= be_u32_bytes(x));
        assert(body[0] == be_u32_bytes(x)[0] && body[1] == be_u32_bytes(x)[1] && body[2] == be_u32_bytes(x)[2]
            && body[3] == be_u32_bytes(x)[3]);
        assert(spec_property(2) == Some(PropertyType::MessageExpiryInterval));
        reveal(spec_pub_prop_step);
        lemma_loop_turn(tagged_u32(2, v) + after, body, 2, c, len, acc);
    } else {
        assert(tagged_u32(2, v) + after =~= after);
        assert(PublishPropertiesView { message_expiry_interval: v, ..acc } == acc);
    }
}

/// A topic alias is read back; the reader counts it one byte more than the
/// writer.
proof fn lemma_loop_ta(v: Option<u16>, after: Seq<u8>, c: nat, len: nat, acc: PublishPropertiesView)
    requires
        acc.topic_alias is None,
        v is Some ==> c + 2 <= len + 1,
    ensures
        spec_pub_props_loop(tagged_u16(35, v) + after, c, len, acc) == spec_pub_props_loop(
            after,
            c + if v is Some {
                3nat
            } else {
                0nat
            },
            len,
            PublishPropertiesView { topic_alias: v, ..acc },
        ),
{
    if let Some(x) = v {
        let body = be_u16_bytes(x) + after;
        assert(tagged_u16(35, v) + after =~= seq![35u8] + body);
        lemma_read_tag(35, body);
        lemma_be_u16_roundtrip(x);
        assert(body.skip(2) =~= after);
        assert(body[0] == be_u16_bytes(x)[0] && body[1] == be_u16_bytes(x)[1]);
        assert(spec_property(35) == Some(PropertyType::TopicAlias));
        reveal(spec_pub_prop_step);
        lemma_loop_turn(tagged_u16(35, v) + after, body, 35, c, len, acc);
    } else {
        assert(tagged_u16(35, v) + after =~= after);
        assert(PublishPropertiesView { topic_alias: v, ..acc } == acc);
    }
}

/// The size of a string property with its identifier, if present.
pub open spec fn tagged_string_len(t: Option<Seq<char>>) -> nat {
    match t {
        Some(t) => 3 + encode_utf8(t).len(),
        None => 0,
    }
}

/// A response topic is read back.
proof fn lemma_loop_rt(t: Option<Seq<char>>, after: Seq<u8>, c: nat, len: nat, acc: PublishPropertiesView)
    requires
        acc.response_topic is None,
        t matches Some(x) ==> encode_utf8(x).len() <= 65535 && c + 3 + encode_utf8(x).len() <= len + 1,
    ensures
        spec_pub_props_loop(tagged_string(8, t) + after, c, len, acc) == spec_pub_props_loop(
            after,
            c + tagged_string_len(t),
            len,
            PublishPropertiesView { response_topic: t, ..acc },
        ),
{
    if let Some(x) = t {
        let body = mqtt_string_encoding(x) + after;
        assert(tagged_string(8, t) + after =~= seq![8u8] + body);
        lemma_read_tag(8, body);
        lemma_mqtt_string_roundtrip(x, after);
        assert(spec_property(8) == Some(PropertyType::ResponseTopic));
        reveal(spec_pub_prop_step);
        lemma_loop_turn(tagged_string(8, t) + after, body, 8, c, len, acc);
    } else {
        assert(tagged_string(8, t) + after =~= after);
        assert(PublishPropertiesView { response_topic: t, ..acc } == acc);
    }
}

/// Correlation data is read back.
proof fn lemma_loop_cd(d: Option<Seq<u8>>, after: Seq<u8>, c: nat, len: nat, acc: PublishPropertiesView)
    requires
        acc.correlation_data is None,
        d matches Some(x) ==> x.len() <= 65535 && c + 3 + x.len() <= len + 1,
    ensures
        spec_pub_props_loop(tagged_bytes(9, d) + after, c, len, acc) == spec_pub_props_loop(
            after,
            c + match d {
                Some(x) => 3 + x.len(),
                None => 0,
            },
            len,
            PublishPropertiesView { correlation_data: d, ..acc },
        ),
{
    if let Some(x) = d {
        let body = mqtt_bytes_encoding(x) + after;
        assert(tagged_bytes(9, d) + after =~= seq![9u8] + body);
        lemma_read_tag(9, body);
        lemma_mqtt_bytes_roundtrip(x, after);
        assert(spec_property(9) == Some(PropertyType::CorrelationData));
        reveal(spec_pub_prop_step);
        lemma_loop_turn(tagged_bytes(9, d) + after, body, 9, c, len, acc);
    } else {
        assert(tagged_bytes(9, d) + after =~= after);
        assert(PublishPropertiesView { correlation_data: d, ..acc } == acc);
    }
}

/// A content type is read back.
proof fn lemma_loop_ct(t: Option<Seq<char>>, after: Seq<u8>, c: nat, len: nat, acc: PublishPropertiesView)
    requires
        acc.content_type is None,
        t matches Some(x) ==> encode_utf8(x).len() <= 65535 && c + 3 + encode_utf8(x).len() <= len + 1,
    ensures
        spec_pub_props_loop(tagged_string(3, t) + after, c, len, acc) == spec_pub_props_loop(
            after,
            c + tagged_string_len(t),
            len,
            PublishPropertiesView { content_type: t, ..acc },
        ),
{
    if let Some(x) = t {
        let body = mqtt_string_encoding(x) + after;
        assert(tagged_string(3, t) + after =~= seq![3u8] + body);
        lemma_read_tag(3, body);
        lemma_mqtt_string_roundtrip(x, after);
        assert(spec_property(3) == Some(PropertyType::ContentType));
        reveal(spec_pub_prop_step);
        lemma_loop_turn(tagged_string(3, t) + after, body, 3, c, len, acc);
    } else {
        assert(tagged_string(3, t) + after =~= after);
        assert(PublishPropertiesView { content_type: t, ..acc } == acc);
    }
}

/// The value of a user property is read back.
proof fn lemma_step_user(k: Seq<char>, v: Seq<char>, after: Seq<u8>, acc: PublishPropertiesView)
    requires
        encode_utf8(k).len() <= 65535,
        encode_utf8(v).len() <= 65535,
    ensures
        spec_pub_prop_step(38, mqtt_string_encoding(k) + (mqtt_string_encoding(v) + after), acc)
            == PropStep::Next(
            PublishPropertiesView { user_properties: acc.user_properties.push((k, v)), ..acc },
            2 + encode_utf8(k).len() + 2 + encode_utf8(v).len(),
            after,
        ),
{
    lemma_mqtt_string_roundtrip(k, mqtt_string_encoding(v) + after);
    lemma_mqtt_string_roundtrip(v, after);
    assert(spec_property(38) == Some(PropertyType::UserProperty));
        reveal(spec_pub_prop_step);
}

/// User properties are read back one by one.
proof fn lemma_loop_users(
    users: Seq<(Seq<char>, Seq<char>)>,
    after: Seq<u8>,
    c: nat,
    len: nat,
    acc: PublishPropertiesView,
)
    requires
        c + sum_map(users, |kv: (Seq<char>, Seq<char>)| user_property_len(kv)) <= len + 1,
        forall|i: int|
            0 <= i < users.len() ==> encode_utf8(#[trigger] users[i].0).len() <= 65535 && encode_utf8(
                users[i].1,
            ).len() <= 65535,
    ensures
        spec_pub_props_loop(
            concat_map(users, |kv: (Seq<char>, Seq<char>)| user_property_encoding(kv)) + after,
            c,
            len,
            acc,
        ) == spec_pub_props_loop(
            after,
            c + sum_map(users, |kv: (Seq<char>, Seq<char>)| user_property_len(kv)),
            len,
            PublishPropertiesView { user_properties: acc.user_properties + users, ..acc },
        ),
    decreases users.len(),
{
    let fe = |kv: (Seq<char>, Seq<char>)| user_property_encoding(kv);
    let fl = |kv: (Seq<char>, Seq<char>)| user_property_len(kv);
    if users.len() == 0 {
        assert(concat_map(users, fe) + after =~= after);
        assert(acc.user_properties + users =~= acc.user_properties);
        assert(PublishPropertiesView { user_properties: acc.user_properties + users, ..acc } == acc);
    } else {
        let u0 = users[0];
        let tail = users.drop_first();
        assert forall|i: int| 0 <= i < tail.len() implies encode_utf8(#[trigger] tail[i].0).len() <= 65535
            && encode_utf8(tail[i].1).len() <= 65535 by {
            assert(tail[i] == users[i + 1]);
        }
        assert(concat_map(users, fe) == fe(u0) + concat_map(tail, fe));
        assert(sum_map(users, fl) == fl(u0) + sum_map(tail, fl));
        let rest = concat_map(tail, fe) + after;
        let r2 = mqtt_string_encoding(u0.1) + rest;
        let r1 = mqtt_string_encoding(u0.0) + r2;
        let s = concat_map(users, fe) + after;
        assert(s =~= seq![38u8] + r1);
        lemma_read_tag(38, r1);
        assert(encode_utf8(users[0].0).len() <= 65535);
        lemma_step_user(u0.0, u0.1, rest, acc);
        let acc2 = PublishPropertiesView { user_properties: acc.user_properties.push(u0), ..acc };
        lemma_loop_turn(s, r1, 38, c, len, acc);
        lemma_loop_users(tail, after, c + fl(u0), len, acc2);
        assert(acc.user_properties.push(u0) + tail =~= acc.user_properties + users);
    }
}

/// Where the count has reached the length, the reader stops.
proof fn lemma_loop_done(s: Seq<u8>, c: nat, len: nat, acc: PublishPropertiesView)
    requires
        c >= len,
    ensures
        spec_pub_props_loop(s, c, len, acc) == PubPropsOutcome::Read(acc, s),
{
    reveal(spec_pub_props_loop);
}

/// The properties' bytes, field by field, when there are no subscription
/// identifiers.
proof fn lemma_body_split(p: PublishPropertiesView, rest: Seq<u8>)
    requires
        p.subscription_identifiers.len() == 0,
    ensures
        pub_props_body(p) + rest == tagged_u8(1, p.payload_format_indicator) + (tagged_u32(
            2,
            p.message_expiry_interval,
        ) + (tagged_u16(35, p.topic_alias) + (tagged_string(8, p.response_topic) + (tagged_bytes(
            9,
            p.correlation_data,
        ) + (concat_map(p.user_properties, |kv: (Seq<char>, Seq<char>)| user_property_encoding(kv)) + (
        tagged_string(3, p.content_type) + rest)))))),
{
    assert(p.subscription_identifiers =~= Seq::<usize>::empty());
    assert(ids_written(p.subscription_identifiers) =~= Seq::<u8>::empty());
    let a = tagged_u8(1, p.payload_format_indicator);
    let b = tagged_u32(2, p.message_expiry_interval);
    let c = tagged_u16(35, p.topic_alias);
    let d = tagged_string(8, p.response_topic);
    let e = tagged_bytes(9, p.correlation_data);
    let u = concat_map(p.user_properties, |kv: (Seq<char>, Seq<char>)| user_property_encoding(kv));
    let f = tagged_string(3, p.content_type);
    assert(pub_props_body(p) == a + b + c + d + e + u + Seq::<u8>::empty() + f);
    lemma_regroup(a, b, c, d, e, u, f, rest);
}

/// Concatenation regrouped to the right.
proof fn lemma_regroup(a: Seq<u8>, b: Seq<u8>, c: Seq<u8>, d: Seq<u8>, e: Seq<u8>, u: Seq<u8>, f: Seq<u8>, rest: Seq<u8>)
    ensures
        a + b + c + d + e + u + Seq::<u8>::empty() + f + rest == a + (b + (c + (d + (e + (u + (f + rest)))))),
{
    assert(a + b + c + d + e + u + Seq::<u8>::empty() + f + rest =~= a + (b + (c + (d + (e + (u + (f
        + rest)))))));
}

/// The reader goes through the properties as written, one by one.
proof fn lemma_props_chain(p: PublishPropertiesView, rest: Seq<u8>)
    requires
        pub_props_fit(p),
        p.subscription_identifiers.len() == 0,
        pub_props_len(p) > 0,
    ensures
        spec_pub_props_loop(pub_props_body(p) + rest, 0, pub_props_len(p), empty_pub_props())
            == PubPropsOutcome::Read(p, rest),
{
    let fe = |kv: (Seq<char>, Seq<char>)| user_property_encoding(kv);
    let fl = |kv: (Seq<char>, Seq<char>)| user_property_len(kv);
    let len = pub_props_len(p);
    let body = pub_props_body(p);
    assert(p.subscription_identifiers =~= Seq::<usize>::empty());
    assert(sum_map(p.subscription_identifiers, |id: usize| crate::mqtt::mqttv5::publish::properties::id_len(id))
        == 0);
    lemma_body_split(p, rest);
    let a = tagged_u8(1, p.payload_format_indicator);
    let b = tagged_u32(2, p.message_expiry_interval);
    let c = tagged_u16(35, p.topic_alias);
    let d = tagged_string(8, p.response_topic);
    let e = tagged_bytes(9, p.correlation_data);
    let u = concat_map(p.user_properties, fe);
    let f = tagged_string(3, p.content_type);
    let tail_f = f + rest;
    let tail_u = u + tail_f;
    let tail_e = e + tail_u;
    let tail_d = d + tail_e;
    let tail_c = c + tail_d;
    let tail_b = b + tail_c;
    let n_a: nat = if p.payload_format_indicator is Some { 2 } else { 0 };
    let n_b: nat = if p.message_expiry_interval is Some { 5 } else { 0 };
    let w_c: nat = if p.topic_alias is Some { 2 } else { 0 };
    let r_c: nat = if p.topic_alias is Some { 3 } else { 0 };
    let n_d = tagged_string_len(p.response_topic);
    let n_e: nat = match p.correlation_data {
        Some(x) => 3 + x.len(),
        None => 0,
    };
    let n_u = sum_map(p.user_properties, fl);
    let n_f = tagged_string_len(p.content_type);
    assert(len == n_a + n_b + w_c + n_d + n_e + n_u + n_f);
    let acc0 = empty_pub_props();
    let acc1 = PublishPropertiesView { payload_format_indicator: p.payload_format_indicator, ..acc0 };
    let acc2 = PublishPropertiesView { message_expiry_interval: p.message_expiry_interval, ..acc1 };
    let acc3 = PublishPropertiesView { topic_alias: p.topic_alias, ..acc2 };
    let acc4 = PublishPropertiesView { response_topic: p.response_topic, ..acc3 };
    let acc5 = PublishPropertiesView { correlation_data: p.correlation_data, ..acc4 };
    let acc6 = PublishPropertiesView { user_properties: acc5.user_properties + p.user_properties, ..acc5 };
    let acc7 = PublishPropertiesView { content_type: p.content_type, ..acc6 };
    lemma_loop_pfi(p.payload_format_indicator, tail_b, 0, len, acc0);
    lemma_loop_mei(p.message_expiry_interval, tail_c, n_a, len, acc1);
    lemma_loop_ta(p.topic_alias, tail_d, n_a + n_b, len, acc2);
    lemma_loop_rt(p.response_topic, tail_e, n_a + n_b + r_c, len, acc3);
    lemma_loop_cd(p.correlation_data, tail_u, n_a + n_b + r_c + n_d, len, acc4);
    lemma_loop_users(p.user_properties, tail_f, n_a + n_b + r_c + n_d + n_e, len, acc5);
    lemma_loop_ct(p.content_type, rest, n_a + n_b + r_c + n_d + n_e + n_u, len, acc6);
    lemma_loop_done(rest, n_a + n_b + r_c + n_d + n_e + n_u + n_f, len, acc7);
    assert(Seq::<(Seq<char>, Seq<char>)>::empty() + p.user_properties =~= p.user_properties);
    assert(acc7 == p);
}

/// Properties without subscription identifiers, whose values fit their
/// length prefixes, read back as written, whatever follows them; none
/// read back where their length is 0.
pub proof fn lemma_pub_props_roundtrip(p: PublishPropertiesView, rest: Seq<u8>)
    requires
        pub_props_fit(p),
        p.subscription_identifiers.len() == 0,
        pub_props_len(p) <= MAX_REMAINING_LENGTH,
    ensures
        spec_read_pub_props(vbi_encode(pub_props_len(p)) + pub_props_body(p) + rest) == if pub_props_len(p)
            == 0 {
            PubPropsRead::NoProps(rest)
        } else {
            PubPropsRead::Props(p, rest)
        },
{
    let fl = |kv: (Seq<char>, Seq<char>)| user_property_len(kv);
    let len = pub_props_len(p);
    let body = pub_props_body(p);
    let s = vbi_encode(len) + body + rest;
    assert(s =~= vbi_encode(len) + (body + rest));
    lemma_vbi_roundtrip(len, body + rest);
    assert(s.skip(vbi_encode(len).len() as int) =~= body + rest);
    if len == 0 {
        assert(p.user_properties.len() == 0) by {
            if p.user_properties.len() > 0 {
                assert(sum_map(p.user_properties, fl) == fl(p.user_properties[0]) + sum_map(
                    p.user_properties.drop_first(),
                    fl,
                ));
            }
        }
        assert(p.subscription_identifiers =~= Seq::<usize>::empty());
        assert(ids_written(p.subscription_identifiers) =~= Seq::<u8>::empty());
        assert(p.user_properties =~= Seq::<(Seq<char>, Seq<char>)>::empty());
        assert(concat_map(p.user_properties, |kv: (Seq<char>, Seq<char>)| user_property_encoding(kv))
            =~= Seq::<u8>::empty());
        assert(body =~= Seq::<u8>::empty());
        assert(body + rest =~= rest);
    } else {
        lemma_props_chain(p, rest);
    }
}

} // verus!
