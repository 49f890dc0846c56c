//! What the reader of AUTH gives back of what the writer wrote.
use crate::mqtt::common::{
    concat_map, fixed_header_encoding, lemma_fixed_header_roundtrip, lemma_mqtt_bytes_roundtrip,
    lemma_mqtt_string_roundtrip, lemma_vbi_roundtrip, mqtt_bytes_encoding, mqtt_string_encoding,
    spec_parse_fixed_header, spec_read_mqtt_bytes, spec_read_mqtt_string, spec_read_u8, sum_map, vbi_encode,
    AuthPropertiesView, AuthReason, Error, MAX_REMAINING_LENGTH,
};
use crate::mqtt::mqtt_protocol_error::MQTTProtocolError;
use crate::mqtt::mqttv5::auth::properties::{
    auth_data_part, auth_method_part, auth_props_body, auth_props_len, auth_reason_part, no_auth_props,
    spec_auth_props_loop, spec_auth_props_read,
};
use crate::mqtt::mqttv5::auth::{auth_code, auth_encoding, auth_len, spec_auth_read, spec_auth_reason};
use crate::mqtt::mqttv5::{spec_property, user_property_encoding, user_property_len, PropertyType};
use vstd::prelude::*;
use vstd::utf8::*;

verus! {

/// Every string and binary value of the properties fits a two-byte length
/// prefix.
pub open spec fn auth_props_fit(p: AuthPropertiesView) -> bool {
    &&& p.authentication_method matches Some(m) ==> encode_utf8(m).len() <= 65535
    &&& p.authentication_data matches Some(d) ==> d.len() <= 65535
    &&& p.reason_string matches Some(r) ==> encode_utf8(r).len() <= 65535
    &&& forall|i: int|
        0 <= i < p.user_properties.len() ==> encode_utf8(#[trigger] p.user_properties[i].0).len() <= 65535
            && encode_utf8(p.user_properties[i].1).len() <= 65535
}

proof fn lemma_read_tag(tag: u8, body: Seq<u8>)
    ensures
        spec_read_u8(seq![tag] + body) == (Ok::<u8, Error>(tag), body),
{
    assert((seq![tag] + body).skip(1) =~= body);
}

proof fn lemma_turn_method(s: Seq<u8>, r1: Seq<u8>, r2: Seq<u8>, m: Seq<char>, c: nat, len: nat, acc: AuthPropertiesView)
    requires
        c < len,
        spec_read_u8(s) == (Ok::<u8, Error>(21u8), r1),
        spec_read_mqtt_string(r1) == (Ok::<Seq<char>, Error>(m), r2),
    ensures
        spec_auth_props_loop(s, c, len, acc) == spec_auth_props_loop(
            r2,
            c + 1 + 2 + encode_utf8(m).len(),
            len,
            AuthPropertiesView { authentication_method: Some(m), ..acc },
        ),
{
    assert(spec_property(21) == Some(PropertyType::AuthenticationMethod));
    reveal(spec_auth_props_loop);
}

proof fn lemma_turn_data(s: Seq<u8>, r1: Seq<u8>, r2: Seq<u8>, d: Seq<u8>, c: nat, len: nat, acc: AuthPropertiesView)
    requires
        c < len,
        spec_read_u8(s) == (Ok::<u8, Error>(22u8), r1),
        spec_read_mqtt_bytes(r1) == (Ok::<Seq<u8>, Error>(d), r2),
    ensures
        spec_auth_props_loop(s, c, len, acc) == spec_auth_props_loop(
            r2,
            c + 1 + 2 + d.len(),
            len,
            AuthPropertiesView { authentication_data: Some(d), ..acc },
        ),
{
    assert(spec_property(22) == Some(PropertyType::AuthenticationData));
    reveal(spec_auth_props_loop);
}

proof fn lemma_turn_reason(s: Seq<u8>, r1: Seq<u8>, r2: Seq<u8>, t: Seq<char>, c: nat, len: nat, acc: AuthPropertiesView)
    requires
        c < len,
        spec_read_u8(s) == (Ok::<u8, Error>(31u8), r1),
        spec_read_mqtt_string(r1) == (Ok::<Seq<char>, Error>(t), r2),
    ensures
        spec_auth_props_loop(s, c, len, acc) == spec_auth_props_loop(
            r2,
            c + 1 + 2 + encode_utf8(t).len(),
            len,
            AuthPropertiesView { reason_string: Some(t), ..acc },
        ),
{
    assert(spec_property(31) == Some(PropertyType::ReasonString));
    reveal(spec_auth_props_loop);
}

proof fn lemma_turn_user(
    s: Seq<u8>,
    r1: Seq<u8>,
    r2: Seq<u8>,
    r3: Seq<u8>,
    k: Seq<char>,
    v: Seq<char>,
    c: nat,
    len: nat,
    acc: AuthPropertiesView,
)
    requires
        c < len,
        spec_read_u8(s) == (Ok::<u8, Error>(38u8), r1),
        spec_read_mqtt_string(r1) == (Ok::<Seq<char>, Error>(k), r2),
        spec_read_mqtt_string(r2) == (Ok::<Seq<char>, Error>(v), r3),
    ensures
        spec_auth_props_loop(s, c, len, acc) == spec_auth_props_loop(
            r3,
            c + 1 + 2 + encode_utf8(k).len() + 2 + encode_utf8(v).len(),
            len,
            AuthPropertiesView { user_properties: acc.user_properties.push((k, v)), ..acc },
        ),
{
    assert(spec_property(38) == Some(PropertyType::UserProperty));
    reveal(spec_auth_props_loop);
}

/// The sizes of the properties, as written and as the reader counts them.
pub open spec fn method_len(p: AuthPropertiesView) -> nat {
    match p.authentication_method {
        Some(m) => 3 + encode_utf8(m).len(),
        None => 0,
    }
}

pub open spec fn data_len(p: AuthPropertiesView) -> nat {
    match p.authentication_data {
        Some(d) => 3 + d.len(),
        None => 0,
    }
}

pub open spec fn reason_len(p: AuthPropertiesView) -> nat {
    match p.reason_string {
        Some(r) => 3 + encode_utf8(r).len(),
        None => 0,
    }
}

proof fn lemma_step_method(p: AuthPropertiesView, after: Seq<u8>, c: nat, len: nat, acc: AuthPropertiesView)
    requires
        acc.authentication_method is None,
        auth_props_fit(p),
        p.authentication_method is Some ==> c + method_len(p) <= len,
    ensures
        spec_auth_props_loop(auth_method_part(p) + after, c, len, acc) == spec_auth_props_loop(
            after,
            c + method_len(p),
            len,
            AuthPropertiesView { authentication_method: p.authentication_method, ..acc },
        ),
{
    if let Some(m) = p.authentication_method {
        let r1 = mqtt_string_encoding(m) + after;
        assert(auth_method_part(p) + after =~= seq![21u8] + r1);
        lemma_read_tag(21, r1);
        lemma_mqtt_string_roundtrip(m, after);
        lemma_turn_method(auth_method_part(p) + after, r1, after, m, c, len, acc);
    } else {
        assert(auth_method_part(p) + after =~= after);
        assert(AuthPropertiesView { authentication_method: p.authentication_method, ..acc } == acc);
    }
}

proof fn lemma_step_data(p: AuthPropertiesView, after: Seq<u8>, c: nat, len: nat, acc: AuthPropertiesView)
    requires
        acc.authentication_data is None,
        auth_props_fit(p),
        p.authentication_data is Some ==> c + data_len(p) <= len,
    ensures
        spec_auth_props_loop(auth_data_part(p) + after, c, len, acc) == spec_auth_props_loop(
            after,
            c + data_len(p),
            len,
            AuthPropertiesView { authentication_data: p.authentication_data, ..acc },
        ),
{
    if let Some(d) = p.authentication_data {
        let r1 = mqtt_bytes_encoding(d) + after;
        assert(auth_data_part(p) + after =~= seq![22u8] + r1);
        lemma_read_tag(22, r1);
        lemma_mqtt_bytes_roundtrip(d, after);
        lemma_turn_data(auth_data_part(p) + after, r1, after, d, c, len, acc);
    } else {
        assert(auth_data_part(p) + after =~= after);
        assert(AuthPropertiesView { authentication_data: p.authentication_data, ..acc } == acc);
    }
}

proof fn lemma_step_reason(p: AuthPropertiesView, after: Seq<u8>, c: nat, len: nat, acc: AuthPropertiesView)
    requires
        acc.reason_string is None,
        auth_props_fit(p),
        p.reason_string is Some ==> c + reason_len(p) <= len,
    ensures
        spec_auth_props_loop(auth_reason_part(p) + after, c, len, acc) == spec_auth_props_loop(
            after,
            c + reason_len(p),
            len,
            AuthPropertiesView { reason_string: p.reason_string, ..acc },
        ),
{
    if let Some(t) = p.reason_string {
        let r1 = mqtt_string_encoding(t) + after;
        assert(auth_reason_part(p) + after =~= seq![31u8] + r1);
        lemma_read_tag(31, r1);
        lemma_mqtt_string_roundtrip(t, after);
        lemma_turn_reason(auth_reason_part(p) + after, r1, after, t, c, len, acc);
    } else {
        assert(auth_reason_part(p) + after =~= after);
        assert(AuthPropertiesView { reason_string: p.reason_string, ..acc } == acc);
    }
}

/// User properties are read back one by one.
proof fn lemma_step_users(
    users: Seq<(Seq<char>, Seq<char>)>,
    after: Seq<u8>,
    c: nat,
    len: nat,
    acc: AuthPropertiesView,
)
    requires
        c + sum_map(users, |kv: (Seq<char>, Seq<char>)| user_property_len(kv)) <= len,
        forall|i: int|
            0 <= i < users.len() ==> encode_utf8(#[trigger] users[i].0).len() <= 65535 && encode_utf8(
                users[i].1,
            ).len() <= 65535,
    ensures
        spec_auth_props_loop(
            concat_map(users, |kv: (Seq<char>, Seq<char>)| user_property_encoding(kv)) + after,
            c,
            len,
            acc,
        ) == spec_auth_props_loop(
            after,
            c + sum_map(users, |kv: (Seq<char>, Seq<char>)| user_property_len(kv)),
            len,
            AuthPropertiesView { user_properties: acc.user_properties + users, ..acc },
        ),
    decreases users.len(),
{
    let fe = |kv: (Seq<char>, Seq<char>)| user_property_encoding(kv);
    let fl = |kv: (Seq<char>, Seq<char>)| user_property_len(kv);
    if users.len() == 0 {
        assert(concat_map(users, fe) + after =~= after);
        assert(acc.user_properties + users =~= acc.user_properties);
        assert(AuthPropertiesView { user_properties: acc.user_properties + users, ..acc } == acc);
    } else {
        let u0 = users[0];
        let tail = users.drop_first();
        assert forall|i: int| 0 <= i < tail.len() implies encode_utf8(#[trigger] tail[i].0).len() <= 65535
            && encode_utf8(tail[i].1).len() <= 65535 by {
            assert(tail[i] == users[i + 1]);
        }
        assert(concat_map(users, fe) == fe(u0) + concat_map(tail, fe));
        assert(sum_map(users, fl) == fl(u0) + sum_map(tail, fl));
        let rest = concat_map(tail, fe) + after;
        let r2 = mqtt_string_encoding(u0.1) + rest;
        let r1 = mqtt_string_encoding(u0.0) + r2;
        let s = concat_map(users, fe) + after;
        assert(s =~= seq![38u8] + r1);
        lemma_read_tag(38, r1);
        assert(encode_utf8(users[0].0).len() <= 65535);
        lemma_mqtt_string_roundtrip(u0.0, r2);
        lemma_mqtt_string_roundtrip(u0.1, rest);
        let acc2 = AuthPropertiesView { user_properties: acc.user_properties.push(u0), ..acc };
        lemma_turn_user(s, r1, r2, rest, u0.0, u0.1, c, len, acc);
        lemma_step_users(tail, after, c + fl(u0), len, acc2);
        assert(acc.user_properties.push(u0) + tail =~= acc.user_properties + users);
    }
}

proof fn lemma_loop_done(s: Seq<u8>, c: nat, len: nat, acc: AuthPropertiesView)
    requires
        c >= len,
    ensures
        spec_auth_props_loop(s, c, len, acc) == Ok::<AuthPropertiesView, MQTTProtocolError>(acc),
{
    reveal(spec_auth_props_loop);
}

proof fn lemma_regroup(a: Seq<u8>, b: Seq<u8>, c: Seq<u8>, u: Seq<u8>, rest: Seq<u8>)
    ensures
        a + b + c + u + rest == a + (b + (c + (u + rest))),
{
    assert(a + b + c + u + rest =~= a + (b + (c + (u + rest))));
}

/// The reader goes through the properties as written, one by one.
proof fn lemma_auth_props_chain(p: AuthPropertiesView, rest: Seq<u8>)
    requires
        auth_props_fit(p),
    ensures
        spec_auth_props_loop(auth_props_body(p) + rest, 0, auth_props_len(p), no_auth_props()) == Ok::<
            AuthPropertiesView,
            MQTTProtocolError,
        >(p),
{
    let fe = |kv: (Seq<char>, Seq<char>)| user_property_encoding(kv);
    let fl = |kv: (Seq<char>, Seq<char>)| user_property_len(kv);
    let len = auth_props_len(p);
    let a = auth_method_part(p);
    let b = auth_data_part(p);
    let c = auth_reason_part(p);
    let u = concat_map(p.user_properties, fe);
    lemma_regroup(a, b, c, u, rest);
    let n_u = sum_map(p.user_properties, fl);
    assert(len == method_len(p) + data_len(p) + reason_len(p) + n_u);
    let acc0 = no_auth_props();
    let acc1 = AuthPropertiesView { authentication_method: p.authentication_method, ..acc0 };
    let acc2 = AuthPropertiesView { authentication_data: p.authentication_data, ..acc1 };
    let acc3 = AuthPropertiesView { reason_string: p.reason_string, ..acc2 };
    let acc4 = AuthPropertiesView { user_properties: acc3.user_properties + p.user_properties, ..acc3 };
    lemma_step_method(p, b + (c + (u + rest)), 0, len, acc0);
    lemma_step_data(p, c + (u + rest), method_len(p), len, acc1);
    lemma_step_reason(p, u + rest, method_len(p) + data_len(p), len, acc2);
    lemma_step_users(p.user_properties, rest, method_len(p) + data_len(p) + reason_len(p), len, acc3);
    lemma_loop_done(rest, len, len, acc4);
    assert(Seq::<(Seq<char>, Seq<char>)>::empty() + p.user_properties =~= p.user_properties);
    assert(acc4 == p);
}

/// A sum over user properties is 0 or at least the size of one of them.
proof fn lemma_users_len(users: Seq<(Seq<char>, Seq<char>)>)
    ensures
        users.len() == 0 <==> sum_map(users, |kv: (Seq<char>, Seq<char>)| user_property_len(kv)) == 0,
        users.len() > 0 ==> sum_map(users, |kv: (Seq<char>, Seq<char>)| user_property_len(kv)) >= 5,
{
    if users.len() > 0 {
        let fl = |kv: (Seq<char>, Seq<char>)| user_property_len(kv);
        assert(sum_map(users, fl) == fl(users[0]) + sum_map(users.drop_first(), fl));
    }
}

/// Properties whose values fit their length prefixes read back as written;
/// none read back where their length is 0.
pub proof fn lemma_auth_props_roundtrip(p: AuthPropertiesView, rest: Seq<u8>)
    requires
        auth_props_fit(p),
        auth_props_len(p) <= MAX_REMAINING_LENGTH,
    ensures
        spec_auth_props_read(vbi_encode(auth_props_len(p)) + auth_props_body(p) + rest) == if auth_props_len(
            p,
        ) == 0 {
            Ok::<Option<AuthPropertiesView>, MQTTProtocolError>(None)
        } else {
            Ok(Some(p))
        },
{
    let len = auth_props_len(p);
    let body = auth_props_body(p);
    let s = vbi_encode(len) + body + rest;
    assert(s =~= vbi_encode(len) + (body + rest));
    lemma_vbi_roundtrip(len, body + rest);
    assert(s.skip(vbi_encode(len).len() as int) =~= body + rest);
    if len > 0 {
        lemma_auth_props_chain(p, rest);
    }
}

/// What the reader gives back of properties that were written: none where
/// there were none or their length is 0.
pub open spec fn auth_props_read_back(props: Option<AuthPropertiesView>) -> Option<AuthPropertiesView> {
    match props {
        Some(p) => if auth_props_len(p) == 0 {
            None
        } else {
            Some(p)
        },
        None => None,
    }
}

/// The remaining length is 2 only for Success without properties.
proof fn lemma_auth_len_two(reason: AuthReason, props: Option<AuthPropertiesView>)
    ensures
        auth_len(reason, props) == 2 <==> reason == AuthReason::Success && props is None,
{
    if let Some(p) = props {
        lemma_users_len(p.user_properties);
        crate::mqtt::common::lemma_vbi_encode_len(0);
    }
}

/// An AUTH whose properties fit reads back with its reason and its
/// properties; none read back where there were none or their length is 0.
pub proof fn lemma_auth_roundtrip(reason: AuthReason, props: Option<AuthPropertiesView>)
    requires
        auth_len(reason, props) <= MAX_REMAINING_LENGTH,
        props matches Some(p) ==> auth_props_fit(p),
    ensures
        spec_parse_fixed_header(auth_encoding(reason, props)) matches Ok(h) && spec_auth_read(
            h,
            auth_encoding(reason, props),
        ) == Ok::<(AuthReason, Option<AuthPropertiesView>), MQTTProtocolError>(
            (reason, auth_props_read_back(props)),
        ),
{
    let n = auth_len(reason, props);
    let e = auth_encoding(reason, props);
    lemma_auth_len_two(reason, props);
    if n == 2 {
        crate::mqtt::common::lemma_vbi_encode_len(0);
        assert(vbi_encode(0) =~= seq![0u8]) by {
            reveal_with_fuel(vbi_encode, 1);
        }
        assert(e =~= fixed_header_encoding(0xF0, 0) + Seq::<u8>::empty());
        lemma_fixed_header_roundtrip(0xF0, 0, Seq::<u8>::empty());
    } else {
        let block = match props {
            Some(p) => vbi_encode(auth_props_len(p)) + auth_props_body(p),
            None => seq![0u8],
        };
        let body = seq![auth_code(reason)] + block;
        assert(e =~= fixed_header_encoding(0xF0, n) + body);
        lemma_fixed_header_roundtrip(0xF0, n, body);
        let h = spec_parse_fixed_header(e)->Ok_0;
        assert(e.skip(h.fixed_header_len as int) =~= body);
        lemma_read_tag(auth_code(reason), block);
        assert(spec_auth_reason(auth_code(reason)) == Some(reason));
        match props {
            Some(p) => {
                crate::mqtt::common::lemma_vbi_encode_len(0);
                assert(auth_props_len(p) <= n);
                lemma_auth_props_roundtrip(p, Seq::<u8>::empty());
                assert(block =~= vbi_encode(auth_props_len(p)) + auth_props_body(p) + Seq::<u8>::empty());
            },
            None => {
                assert(vbi_encode(0) =~= seq![0u8]) by {
                    reveal_with_fuel(vbi_encode, 1);
                }
                lemma_vbi_roundtrip(0, Seq::<u8>::empty());
                assert(block =~= vbi_encode(0) + Seq::<u8>::empty());
            },
        }
    }
}

} // verus!
