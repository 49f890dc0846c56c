//! The subscription identifier and user properties of a SUBSCRIBE.
use crate::buffer::{bytes_advance, bytes_as_slice, bytes_mut_put_u8, bytes_mut_seq, bytes_seq};
use crate::mqtt::common::{
    concat_map, len_len, length, lemma_concat_map_len, lemma_concat_map_push, lemma_sum_map_push,
    lemma_vbi_encode_len, read_mqtt_string, read_u8, spec_len_len, spec_read_mqtt_string, spec_read_u8, sum_map,
    vbi_decode, vbi_encode, write_mqtt_string, write_remaining_length, Error, SubscribeProperties,
    SubscribePropertiesView, MAX_REMAINING_LENGTH,
};
use crate::mqtt::mqtt_protocol_error::{spec_from_error, MQTTProtocolError};
use crate::mqtt::common::pairs_view;
use crate::mqtt::mqttv5::{
    lemma_mqtt_string_bound, lemma_sum_map_prefix, property, spec_property, user_property_encoding,
    user_property_len, PropertyType,
};
use bytes::{Bytes, BytesMut};
use vstd::prelude::*;
use vstd::utf8::*;

verus! {

/// The length of the properties.
pub open spec fn sub_props_len(p: SubscribePropertiesView) -> nat {
    (match p.subscription_identifier {
        Some(id) => 1 + spec_len_len(id as nat),
        None => 0,
    }) + sum_map(p.user_properties, |kv: (Seq<char>, Seq<char>)| user_property_len(kv))
}

/// The bytes of the properties after their length.
pub open spec fn sub_props_body(p: SubscribePropertiesView) -> Seq<u8> {
    (match p.subscription_identifier {
        Some(id) => seq![11u8] + vbi_encode(id as nat),
        None => Seq::empty(),
    }) + concat_map(p.user_properties, |kv: (Seq<char>, Seq<char>)| user_property_encoding(kv))
}

/// How reading the properties ends.
pub enum SubPropsOutcome {
    Read(Option<usize>, Seq<(Seq<char>, Seq<char>)>, Seq<u8>),
    Failed(MQTTProtocolError),
}

/// Reading properties from `s`, `cursor` bytes of `len` counted so far.
#[verifier::opaque]
pub open spec fn spec_sub_props_loop(
    s: Seq<u8>,
    cursor: nat,
    len: nat,
    id: Option<usize>,
    users: Seq<(Seq<char>, Seq<char>)>,
) -> SubPropsOutcome
    decreases (if cursor < len {
        len - cursor
    } else {
        0
    }),
{
    if cursor >= len {
        SubPropsOutcome::Read(id, users, s)
    } else {
        match spec_read_u8(s) {
            (Err(e), _) => SubPropsOutcome::Failed(spec_from_error(e)),
            (Ok(prop), r1) => match spec_property(prop) {
                None => SubPropsOutcome::Failed(spec_from_error(Error::InvalidPropertyType(prop))),
                Some(PropertyType::SubscriptionIdentifier) => match vbi_decode(r1) {
                    Err(e) => SubPropsOutcome::Failed(spec_from_error(e)),
                    // the identifier is counted with one byte more than it takes
                    Ok((c, v)) => spec_sub_props_loop(
                        r1.skip(c as int),
                        cursor + 1 + 1 + c,
                        len,
                        Some(v as usize),
                        users,
                    ),
                },
                Some(PropertyType::UserProperty) => match spec_read_mqtt_string(r1) {
                    (Err(e), _) => SubPropsOutcome::Failed(spec_from_error(e)),
                    (Ok(k), r2) => match spec_read_mqtt_string(r2) {
                        (Err(e), _) => SubPropsOutcome::Failed(spec_from_error(e)),
                        (Ok(v), r3) => spec_sub_props_loop(
                            r3,
                            cursor + 1 + 2 + encode_utf8(k).len() + 2 + encode_utf8(v).len(),
                            len,
                            id,
                            users.push((k, v)),
                        ),
                    },
                },
                Some(_) => SubPropsOutcome::Failed(MQTTProtocolError::InvalidPropertyType(prop)),
            },
        }
    }
}

/// What reading the properties gives, and the bytes left.
pub open spec fn spec_sub_props_read(s: Seq<u8>) -> (Result<Option<SubscribePropertiesView>, MQTTProtocolError>, Seq<u8>) {
    match vbi_decode(s) {
        Err(e) => (Err(spec_from_error(e)), s),
        Ok((c, len)) => if len == 0 {
            (Ok(None), s.skip(c as int))
        } else {
            match spec_sub_props_loop(s.skip(c as int), 0, len, None, Seq::empty()) {
                SubPropsOutcome::Read(id, u, rest) => (
                    Ok(Some(SubscribePropertiesView { subscription_identifier: id, user_properties: u })),
                    rest,
                ),
                SubPropsOutcome::Failed(e) => (Err(e), s),
            }
        },
    }
}

/// The view of optional properties.
pub open spec fn opt_sub_props_view(p: Option<SubscribeProperties>) -> Option<SubscribePropertiesView> {
    match p {
        Some(p) => Some(p@),
        None => None,
    }
}

pub fn len(properties: &SubscribeProperties) -> (r: usize)
    requires
        sub_props_len(properties@) <= usize::MAX,
    ensures
        r == sub_props_len(properties@),
{
    let ghost us = pairs_view(properties.user_properties@);
    let ghost g = |kv: (Seq<char>, Seq<char>)| user_property_len(kv);
    let mut len: usize = 0;
    if let Some(id) = &properties.subscription_identifier {
        len = len + 1 + len_len(*id);
    }
    let ghost base = len;
    let users = &properties.user_properties;
    let mut i: usize = 0;
    while i < users.len()
        invariant
            i <= users@.len(),
            us == pairs_view(users@),
            us.len() == users@.len(),
            g == (|kv: (Seq<char>, Seq<char>)| user_property_len(kv)),
            base + sum_map(us, g) <= usize::MAX,
            len == base + sum_map(us.take(i as int), g),
        decreases users@.len() - i,
    {
        proof {
            assert(us.take(i + 1) =~= us.take(i as int).push(us[i as int]));
            lemma_sum_map_push(us.take(i as int), us[i as int], g);
            lemma_sum_map_prefix(us, (i + 1) as nat, g);
        }
        let kv = &users[i];
        len = len + 1 + 2 + kv.0.as_str().len() + 2 + kv.1.as_str().len();
        i = i + 1;
    }
    assert(us.take(i as int) =~= us);
    len
}

pub fn read(bytes: &mut Bytes) -> (r: Result<Option<SubscribeProperties>, MQTTProtocolError>)
    ensures
        ({
            let (sr, rest) = spec_sub_props_read(bytes_seq(*old(bytes)));
            match (r, sr) {
                (Ok(p), Ok(sp)) => opt_sub_props_view(p) == sp && bytes_seq(*final(bytes)) == rest,
                (Err(e), Err(se)) => e == se,
                _ => false,
            }
        }),
{
    let ghost orig = bytes_seq(*bytes);
    let mut id: Option<usize> = None;
    let mut user_properties: Vec<(String, String)> = Vec::new();
    let (properties_len_len, properties_len) = match length(bytes_as_slice(bytes)) {
        Ok(v) => v,
        Err(e) => return Err(MQTTProtocolError::from_error(e)),
    };
    bytes_advance(bytes, properties_len_len);
    if properties_len == 0 {
        return Ok(None);
    }
    let mut cursor: usize = 0;
    assert(pairs_view(user_properties@) =~= Seq::<(Seq<char>, Seq<char>)>::empty());
    // read until cursor reaches property length
    while cursor < properties_len
        invariant
            orig == bytes_seq(*old(bytes)),
            properties_len <= MAX_REMAINING_LENGTH,
            1 <= properties_len_len <= 4,
            cursor <= properties_len + 3 * 65537,
            vbi_decode(orig) == Ok::<(nat, nat), Error>((properties_len_len as nat, properties_len as nat)),
            properties_len > 0,
            spec_sub_props_loop(orig.skip(properties_len_len as int), 0, properties_len as nat, None, Seq::empty())
                == spec_sub_props_loop(
                bytes_seq(*bytes),
                cursor as nat,
                properties_len as nat,
                id,
                pairs_view(user_properties@),
            ),
        decreases (if cursor < properties_len {
            properties_len - cursor
        } else {
            0
        }),
    {
        proof {
            reveal(spec_sub_props_loop);
        }
        let prop = match read_u8(bytes) {
            Ok(p) => p,
            Err(e) => return Err(MQTTProtocolError::from_error(e)),
        };
        cursor = cursor + 1;
        match property(prop) {
            Err(e) => return Err(MQTTProtocolError::from_error(e)),
            Ok(PropertyType::SubscriptionIdentifier) => {
                let (id_len, sub_id) = match length(bytes_as_slice(bytes)) {
                    Ok(v) => v,
                    Err(e) => return Err(MQTTProtocolError::from_error(e)),
                };
                // one more than the identifier's own bytes is counted
                cursor = cursor + 1 + id_len;
                bytes_advance(bytes, id_len);
                id = Some(sub_id);
            },
            Ok(PropertyType::UserProperty) => {
                let ghost before = bytes_seq(*bytes);
                let key = match read_mqtt_string(bytes) {
                    Ok(t) => t,
                    Err(e) => return Err(MQTTProtocolError::from_error(e)),
                };
                let ghost mid = bytes_seq(*bytes);
                let value = match read_mqtt_string(bytes) {
                    Ok(t) => t,
                    Err(e) => return Err(MQTTProtocolError::from_error(e)),
                };
                proof {
                    lemma_mqtt_string_bound(before);
                    lemma_mqtt_string_bound(mid);
                }
                cursor = cursor + 2 + key.as_str().len() + 2 + value.as_str().len();
                let ghost users_before = pairs_view(user_properties@);
                let ghost kv = (key@, value@);
                user_properties.push((key, value));
                assert(pairs_view(user_properties@) =~= users_before.push(kv));
            },
            Ok(_) => return Err(MQTTProtocolError::InvalidPropertyType(prop)),
        }
    }
    proof {
        reveal(spec_sub_props_loop);
    }
    Ok(Some(SubscribeProperties { subscription_identifier: id, user_properties }))
}

/// Whether the subscription identifier, if any, fits four bytes.
pub open spec fn sub_props_id_fits(p: SubscribePropertiesView) -> bool {
    p.subscription_identifier matches Some(id) ==> id <= MAX_REMAINING_LENGTH
}

pub fn write(properties: &SubscribeProperties, buffer: &mut BytesMut) -> (r: Result<(), MQTTProtocolError>)
    requires
        bytes_mut_seq(*old(buffer)).len() + 9 + sub_props_len(properties@) <= usize::MAX,
    ensures
        ({
            let p = properties@;
            let old_b = bytes_mut_seq(*old(buffer));
            let new_b = bytes_mut_seq(*final(buffer));
            &&& sub_props_len(p) > MAX_REMAINING_LENGTH ==> r == Err::<(), MQTTProtocolError>(
                MQTTProtocolError::PayloadTooLong,
            ) && new_b == old_b
            &&& sub_props_len(p) <= MAX_REMAINING_LENGTH && !sub_props_id_fits(p) ==> r == Err::<
                (),
                MQTTProtocolError,
            >(MQTTProtocolError::PayloadTooLong) && new_b == old_b + vbi_encode(sub_props_len(p)) + seq![11u8]
            &&& sub_props_len(p) <= MAX_REMAINING_LENGTH && sub_props_id_fits(p) ==> r == Ok::<
                (),
                MQTTProtocolError,
            >(()) && new_b == old_b + vbi_encode(sub_props_len(p)) + sub_props_body(p)
        }),
{
    let ghost p = properties@;
    let ghost us = p.user_properties;
    let ghost fe = |kv: (Seq<char>, Seq<char>)| user_property_encoding(kv);
    let ghost fl = |kv: (Seq<char>, Seq<char>)| user_property_len(kv);
    let len = len(properties);
    match write_remaining_length(buffer, len) {
        Ok(_) => {},
        Err(e) => return Err(MQTTProtocolError::from_error(e)),
    }
    let ghost start = bytes_mut_seq(*buffer);
    if let Some(id) = &properties.subscription_identifier {
        bytes_mut_put_u8(buffer, 11);
        match write_remaining_length(buffer, *id) {
            Ok(_) => {},
            Err(e) => return Err(MQTTProtocolError::from_error(e)),
        }
    }
    let ghost head = bytes_mut_seq(*buffer);
    assert(head =~= start + match p.subscription_identifier {
        Some(id) => seq![11u8] + vbi_encode(id as nat),
        None => Seq::<u8>::empty(),
    });
    let users = &properties.user_properties;
    let mut i: usize = 0;
    while i < users.len()
        invariant
            i <= users@.len(),
            us == pairs_view(users@),
            us.len() == users@.len(),
            fe == (|kv: (Seq<char>, Seq<char>)| user_property_encoding(kv)),
            fl == (|kv: (Seq<char>, Seq<char>)| user_property_len(kv)),
            bytes_mut_seq(*buffer) == head + concat_map(us.take(i as int), fe),
            head.len() + sum_map(us, fl) <= usize::MAX,
        decreases users@.len() - i,
    {
        proof {
            let t = us.take(i as int);
            assert forall|x: (Seq<char>, Seq<char>)| #[trigger] fe(x).len() == fl(x) by {}
            assert(us.take(i + 1) =~= t.push(us[i as int]));
            lemma_concat_map_push(t, us[i as int], fe);
            lemma_sum_map_push(t, us[i as int], fl);
            lemma_concat_map_len(t, fe, fl);
            lemma_sum_map_prefix(us, (i + 1) as nat, fl);
        }
        let kv = &users[i];
        let ghost before = bytes_mut_seq(*buffer);
        bytes_mut_put_u8(buffer, 38);
        write_mqtt_string(buffer, kv.0.as_str());
        write_mqtt_string(buffer, kv.1.as_str());
        proof {
            let t = us.take(i as int);
            assert(bytes_mut_seq(*buffer) =~= before + fe(us[i as int]));
            assert(head + concat_map(t, fe) + fe(us[i as int]) =~= head + (concat_map(t, fe) + fe(
                us[i as int],
            )));
        }
        i = i + 1;
    }
    proof {
        assert(us.take(i as int) =~= us);
    }
    assert(bytes_mut_seq(*buffer) =~= bytes_mut_seq(*old(buffer)) + vbi_encode(sub_props_len(p)) + sub_props_body(p));
    Ok(())
}

/// The body of the properties is as long as their length says, when the
/// subscription identifier fits four bytes.
pub proof fn lemma_sub_props_body_len(p: SubscribePropertiesView)
    requires
        sub_props_id_fits(p),
    ensures
        sub_props_body(p).len() == sub_props_len(p),
{
    let fe = |kv: (Seq<char>, Seq<char>)| user_property_encoding(kv);
    let fl = |kv: (Seq<char>, Seq<char>)| user_property_len(kv);
    assert forall|x: (Seq<char>, Seq<char>)| #[trigger] fe(x).len() == fl(x) by {}
    lemma_concat_map_len(p.user_properties, fe, fl);
    if let Some(id) = p.subscription_identifier {
        lemma_vbi_encode_len(id as nat);
    }
}

} // verus!
