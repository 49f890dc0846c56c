//! The authentication method and data, reason string and user properties
//! of an AUTH.
use crate::buffer::{bytes_advance, bytes_as_slice, bytes_len, bytes_mut_put_u8, bytes_mut_seq, bytes_seq};
use crate::mqtt::common::{
    concat_map, length, lemma_concat_map_len, lemma_concat_map_push, lemma_sum_map_push, mqtt_bytes_encoding,
    mqtt_string_encoding, opt_bytes_view, opt_string_view, read_mqtt_bytes, read_mqtt_string, read_u8,
    spec_read_mqtt_bytes, spec_read_mqtt_string, spec_read_u8, sum_map, vbi_decode, vbi_encode, write_mqtt_bytes,
    write_mqtt_string, write_remaining_length, AuthProperties, AuthPropertiesView, Error, MAX_REMAINING_LENGTH,
};
use crate::mqtt::mqtt_protocol_error::{spec_from_error, MQTTProtocolError};
use crate::mqtt::common::pairs_view;
use crate::mqtt::mqttv5::{
    lemma_mqtt_string_bound, lemma_sum_map_prefix, property, spec_property, user_property_encoding,
    user_property_len, PropertyType,
};
use bytes::{Bytes, BytesMut};
use vstd::prelude::*;
use vstd::utf8::*;

verus! {

/// The length of the properties.
pub open spec fn auth_props_len(p: AuthPropertiesView) -> nat {
    (match p.authentication_method {
        Some(m) => 1 + 2 + encode_utf8(m).len(),
        None => 0,
    }) + (match p.authentication_data {
        Some(d) => 1 + 2 + d.len(),
        None => 0,
    }) + (match p.reason_string {
        Some(r) => 1 + 2 + encode_utf8(r).len(),
        None => 0,
    }) + sum_map(p.user_properties, |kv: (Seq<char>, Seq<char>)| user_property_len(kv))
}

/// The bytes of the authentication method, if any.
pub open spec fn auth_method_part(p: AuthPropertiesView) -> Seq<u8> {
    match p.authentication_method {
        Some(m) => seq![21u8] + mqtt_string_encoding(m),
        None => Seq::empty(),
    }
}

/// The bytes of the authentication data, if any.
pub open spec fn auth_data_part(p: AuthPropertiesView) -> Seq<u8> {
    match p.authentication_data {
        Some(d) => seq![22u8] + mqtt_bytes_encoding(d),
        None => Seq::empty(),
    }
}

/// The bytes of the reason string, if any.
pub open spec fn auth_reason_part(p: AuthPropertiesView) -> Seq<u8> {
    match p.reason_string {
        Some(r) => seq![31u8] + mqtt_string_encoding(r),
        None => Seq::empty(),
    }
}

/// The bytes of the properties after their length.
pub open spec fn auth_props_body(p: AuthPropertiesView) -> Seq<u8> {
    auth_method_part(p) + auth_data_part(p) + auth_reason_part(p) + concat_map(
        p.user_properties,
        |kv: (Seq<char>, Seq<char>)| user_property_encoding(kv),
    )
}

/// Reading properties from `s`, `cursor` bytes of `len` read so far.
#[verifier::opaque]
pub open spec fn spec_auth_props_loop(s: Seq<u8>, cursor: nat, len: nat, acc: AuthPropertiesView) -> Result<
    AuthPropertiesView,
    MQTTProtocolError,
>
    decreases (if cursor < len {
        len - cursor
    } else {
        0
    }),
{
    if cursor >= len {
        Ok(acc)
    } else {
        match spec_read_u8(s) {
            (Err(e), _) => Err(spec_from_error(e)),
            (Ok(prop), r1) => match spec_property(prop) {
                None => Err(spec_from_error(Error::InvalidPropertyType(prop))),
                Some(PropertyType::AuthenticationMethod) => match spec_read_mqtt_string(r1) {
                    (Err(e), _) => Err(spec_from_error(e)),
                    (Ok(m), r2) => spec_auth_props_loop(
                        r2,
                        cursor + 1 + 2 + encode_utf8(m).len(),
                        len,
                        AuthPropertiesView { authentication_method: Some(m), ..acc },
                    ),
                },
                Some(PropertyType::AuthenticationData) => match spec_read_mqtt_bytes(r1) {
                    (Err(e), _) => Err(spec_from_error(e)),
                    (Ok(d), r2) => spec_auth_props_loop(
                        r2,
                        cursor + 1 + 2 + d.len(),
                        len,
                        AuthPropertiesView { authentication_data: Some(d), ..acc },
                    ),
                },
                Some(PropertyType::ReasonString) => match spec_read_mqtt_string(r1) {
                    (Err(e), _) => Err(spec_from_error(e)),
                    (Ok(t), r2) => spec_auth_props_loop(
                        r2,
                        cursor + 1 + 2 + encode_utf8(t).len(),
                        len,
                        AuthPropertiesView { reason_string: Some(t), ..acc },
                    ),
                },
                Some(PropertyType::UserProperty) => match spec_read_mqtt_string(r1) {
                    (Err(e), _) => Err(spec_from_error(e)),
                    (Ok(k), r2) => match spec_read_mqtt_string(r2) {
                        (Err(e), _) => Err(spec_from_error(e)),
                        (Ok(v), r3) => spec_auth_props_loop(
                            r3,
                            cursor + 1 + 2 + encode_utf8(k).len() + 2 + encode_utf8(v).len(),
                            len,
                            AuthPropertiesView { user_properties: acc.user_properties.push((k, v)), ..acc },
                        ),
                    },
                },
                Some(_) => Err(MQTTProtocolError::InvalidPropertyType(prop)),
            },
        }
    }
}

/// No properties read yet.
pub open spec fn no_auth_props() -> AuthPropertiesView {
    AuthPropertiesView {
        authentication_method: None,
        authentication_data: None,
        reason_string: None,
        user_properties: Seq::empty(),
    }
}

/// What reading the properties gives: none where their length is 0.
pub open spec fn spec_auth_props_read(s: Seq<u8>) -> Result<Option<AuthPropertiesView>, MQTTProtocolError> {
    match vbi_decode(s) {
        Err(e) => Err(spec_from_error(e)),
        Ok((c, len)) => if len == 0 {
            Ok(None)
        } else {
            match spec_auth_props_loop(s.skip(c as int), 0, len, no_auth_props()) {
                Ok(p) => Ok(Some(p)),
                Err(e) => Err(e),
            }
        },
    }
}

/// The view of optional properties.
pub open spec fn opt_auth_props_view(p: Option<AuthProperties>) -> Option<AuthPropertiesView> {
    match p {
        Some(p) => Some(p@),
        None => None,
    }
}

pub fn len(properties: &AuthProperties) -> (r: usize)
    requires
        auth_props_len(properties@) <= usize::MAX,
    ensures
        r == auth_props_len(properties@),
{
    let ghost us = pairs_view(properties.user_properties@);
    let ghost g = |kv: (Seq<char>, Seq<char>)| user_property_len(kv);
    let mut len: usize = 0;
    if let Some(authentication_method) = &properties.authentication_method {
        len = len + 1 + 2 + authentication_method.as_str().len();
    }
    if let Some(authentication_data) = &properties.authentication_data {
        len = len + 1 + 2 + bytes_len(authentication_data);
    }
    if let Some(reason) = &properties.reason_string {
        len = len + 1 + 2 + reason.as_str().len();
    }
    let ghost base = len;
    let users = &properties.user_properties;
    let mut i: usize = 0;
    while i < users.len()
        invariant
            i <= users@.len(),
            us == pairs_view(users@),
            us.len() == users@.len(),
            g == (|kv: (Seq<char>, Seq<char>)| user_property_len(kv)),
            base + sum_map(us, g) <= usize::MAX,
            len == base + sum_map(us.take(i as int), g),
        decreases users@.len() - i,
    {
        proof {
            assert(us.take(i + 1) =~= us.take(i as int).push(us[i as int]));
            lemma_sum_map_push(us.take(i as int), us[i as int], g);
            lemma_sum_map_prefix(us, (i + 1) as nat, g);
        }
        let kv = &users[i];
        len = len + 1 + 2 + kv.0.as_str().len() + 2 + kv.1.as_str().len();
        i = i + 1;
    }
    assert(us.take(i as int) =~= us);
    len
}

#[verifier::rlimit(60)]
pub fn write(properties: &AuthProperties, buffer: &mut BytesMut) -> (r: Result<(), MQTTProtocolError>)
    requires
        bytes_mut_seq(*old(buffer)).len() + 4 + auth_props_len(properties@) <= usize::MAX,
    ensures
        auth_props_len(properties@) > MAX_REMAINING_LENGTH ==> r == Err::<(), MQTTProtocolError>(
            MQTTProtocolError::PayloadTooLong,
        ) && bytes_mut_seq(*final(buffer)) == bytes_mut_seq(*old(buffer)),
        auth_props_len(properties@) <= MAX_REMAINING_LENGTH ==> r == Ok::<(), MQTTProtocolError>(())
            && bytes_mut_seq(*final(buffer)) == bytes_mut_seq(*old(buffer)) + vbi_encode(
            auth_props_len(properties@),
        ) + auth_props_body(properties@),
{
    let ghost p = properties@;
    let ghost us = p.user_properties;
    let ghost fe = |kv: (Seq<char>, Seq<char>)| user_property_encoding(kv);
    let ghost fl = |kv: (Seq<char>, Seq<char>)| user_property_len(kv);
    let len = len(properties);
    match write_remaining_length(buffer, len) {
        Ok(_) => {},
        Err(e) => return Err(MQTTProtocolError::from_error(e)),
    }
    let ghost start = bytes_mut_seq(*buffer);
    // the authentication method, identifier 21
    if let Some(authentication_method) = &properties.authentication_method {
        bytes_mut_put_u8(buffer, 21);
        write_mqtt_string(buffer, authentication_method.as_str());
    }
    let ghost s1 = bytes_mut_seq(*buffer);
    assert(s1 =~= start + auth_method_part(p));
    // the authentication data, identifier 22
    if let Some(authentication_data) = &properties.authentication_data {
        bytes_mut_put_u8(buffer, 22);
        write_mqtt_bytes(buffer, bytes_as_slice(authentication_data));
    }
    let ghost s2 = bytes_mut_seq(*buffer);
    assert(s2 =~= s1 + auth_data_part(p));
    // the reason string, identifier 31
    if let Some(reason) = &properties.reason_string {
        bytes_mut_put_u8(buffer, 31);
        write_mqtt_string(buffer, reason.as_str());
    }
    let ghost head = bytes_mut_seq(*buffer);
    assert(head =~= s2 + auth_reason_part(p));
    assert(head =~= start + auth_method_part(p) + auth_data_part(p) + auth_reason_part(p));
    let users = &properties.user_properties;
    let mut i: usize = 0;
    while i < users.len()
        invariant
            i <= users@.len(),
            us == pairs_view(users@),
            us.len() == users@.len(),
            fe == (|kv: (Seq<char>, Seq<char>)| user_property_encoding(kv)),
            fl == (|kv: (Seq<char>, Seq<char>)| user_property_len(kv)),
            bytes_mut_seq(*buffer) == head + concat_map(us.take(i as int), fe),
            head.len() + sum_map(us, fl) <= usize::MAX,
        decreases users@.len() - i,
    {
        proof {
            let t = us.take(i as int);
            assert forall|x: (Seq<char>, Seq<char>)| #[trigger] fe(x).len() == fl(x) by {}
            assert(us.take(i + 1) =~= t.push(us[i as int]));
            lemma_concat_map_push(t, us[i as int], fe);
            lemma_sum_map_push(t, us[i as int], fl);
            lemma_concat_map_len(t, fe, fl);
            lemma_sum_map_prefix(us, (i + 1) as nat, fl);
        }
        let kv = &users[i];
        let ghost before = bytes_mut_seq(*buffer);
        bytes_mut_put_u8(buffer, 38);
        write_mqtt_string(buffer, kv.0.as_str());
        write_mqtt_string(buffer, kv.1.as_str());
        proof {
            let t = us.take(i as int);
            assert(bytes_mut_seq(*buffer) =~= before + fe(us[i as int]));
            assert(head + concat_map(t, fe) + fe(us[i as int]) =~= head + (concat_map(t, fe) + fe(
                us[i as int],
            )));
        }
        i = i + 1;
    }
    proof {
        assert(us.take(i as int) =~= us);
    }
    assert(bytes_mut_seq(*buffer) =~= bytes_mut_seq(*old(buffer)) + vbi_encode(auth_props_len(p))
        + auth_props_body(p));
    Ok(())
}

pub fn read(bytes: &mut Bytes) -> (r: Result<Option<AuthProperties>, MQTTProtocolError>)
    ensures
        match (r, spec_auth_props_read(bytes_seq(*old(bytes)))) {
            (Ok(p), Ok(sp)) => opt_auth_props_view(p) == sp,
            (Err(e), Err(se)) => e == se,
            _ => false,
        },
{
    let ghost orig = bytes_seq(*bytes);
    let mut authentication_method: Option<String> = None;
    let mut authentication_data: Option<Bytes> = None;
    let mut reason_string: Option<String> = None;
    let mut user_properties: Vec<(String, String)> = Vec::new();
    let (properties_len_len, properties_len) = match length(bytes_as_slice(bytes)) {
        Ok(v) => v,
        Err(e) => return Err(MQTTProtocolError::from_error(e)),
    };
    bytes_advance(bytes, properties_len_len);
    if properties_len == 0 {
        return Ok(None);
    }
    let mut cursor: usize = 0;
    assert(pairs_view(user_properties@) =~= Seq::<(Seq<char>, Seq<char>)>::empty());
    // read until cursor reaches property length
    while cursor < properties_len
        invariant
            orig == bytes_seq(*old(bytes)),
            properties_len <= MAX_REMAINING_LENGTH,
            cursor <= properties_len + 3 * 65537,
            vbi_decode(orig) == Ok::<(nat, nat), Error>((properties_len_len as nat, properties_len as nat)),
            properties_len > 0,
            spec_auth_props_loop(orig.skip(properties_len_len as int), 0, properties_len as nat, no_auth_props())
                == spec_auth_props_loop(
                bytes_seq(*bytes),
                cursor as nat,
                properties_len as nat,
                AuthPropertiesView {
                    authentication_method: opt_string_view(authentication_method),
                    authentication_data: opt_bytes_view(authentication_data),
                    reason_string: opt_string_view(reason_string),
                    user_properties: pairs_view(user_properties@),
                },
            ),
        decreases (if cursor < properties_len {
            properties_len - cursor
        } else {
            0
        }),
    {
        proof {
            reveal(spec_auth_props_loop);
        }
        let prop = match read_u8(bytes) {
            Ok(p) => p,
            Err(e) => return Err(MQTTProtocolError::from_error(e)),
        };
        cursor = cursor + 1;
        match property(prop) {
            Err(e) => return Err(MQTTProtocolError::from_error(e)),
            Ok(PropertyType::AuthenticationMethod) => {
                let ghost before = bytes_seq(*bytes);
                let method = match read_mqtt_string(bytes) {
                    Ok(t) => t,
                    Err(e) => return Err(MQTTProtocolError::from_error(e)),
                };
                proof {
                    lemma_mqtt_string_bound(before);
                }
                cursor = cursor + 2 + method.as_str().len();
                authentication_method = Some(method);
            },
            Ok(PropertyType::AuthenticationData) => {
                let data = match read_mqtt_bytes(bytes) {
                    Ok(d) => d,
                    Err(e) => return Err(MQTTProtocolError::from_error(e)),
                };
                cursor = cursor + 2 + bytes_len(&data);
                authentication_data = Some(data);
            },
            Ok(PropertyType::ReasonString) => {
                let ghost before = bytes_seq(*bytes);
                let reason = match read_mqtt_string(bytes) {
                    Ok(t) => t,
                    Err(e) => return Err(MQTTProtocolError::from_error(e)),
                };
                proof {
                    lemma_mqtt_string_bound(before);
                }
                cursor = cursor + 2 + reason.as_str().len();
                reason_string = Some(reason);
            },
            Ok(PropertyType::UserProperty) => {
                let ghost before = bytes_seq(*bytes);
                let key = match read_mqtt_string(bytes) {
                    Ok(t) => t,
                    Err(e) => return Err(MQTTProtocolError::from_error(e)),
                };
                let ghost mid = bytes_seq(*bytes);
                let value = match read_mqtt_string(bytes) {
                    Ok(t) => t,
                    Err(e) => return Err(MQTTProtocolError::from_error(e)),
                };
                proof {
                    lemma_mqtt_string_bound(before);
                    lemma_mqtt_string_bound(mid);
                }
                cursor = cursor + 2 + key.as_str().len() + 2 + value.as_str().len();
                let ghost users_before = pairs_view(user_properties@);
                let ghost kv = (key@, value@);
                user_properties.push((key, value));
                assert(pairs_view(user_properties@) =~= users_before.push(kv));
            },
            Ok(_) => return Err(MQTTProtocolError::InvalidPropertyType(prop)),
        }
    }
    proof {
        reveal(spec_auth_props_loop);
    }
    Ok(Some(AuthProperties { authentication_method, authentication_data, reason_string, user_properties }))
}

} // verus!
