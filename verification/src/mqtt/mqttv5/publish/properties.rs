//! The properties of a PUBLISH in MQTT 5.0.
use crate::buffer::{
    be_u16_bytes, be_u32_bytes, bytes_advance, bytes_as_slice, bytes_mut_put_u16, bytes_mut_put_u32,
    bytes_mut_put_u8, bytes_mut_seq, bytes_seq,
};
use crate::mqtt::common::{
    concat_map, len_len, length, lemma_concat_map_len, lemma_concat_map_push, lemma_sum_map_push,
    mqtt_bytes_encoding, mqtt_string_encoding, pairs_view, read_mqtt_bytes, read_mqtt_string,
    read_u16, read_u32, read_u8, spec_len_len, spec_read_mqtt_bytes, spec_read_mqtt_string,
    spec_read_u16, spec_read_u32, spec_read_u8, sum_map, vbi_decode, vbi_encode, write_mqtt_bytes,
    write_mqtt_string, write_remaining_length, Error, PublishProperties, MAX_REMAINING_LENGTH,
};
use crate::mqtt::mqttv5::{
    lemma_mqtt_string_bound, lemma_sum_map_prefix, property, spec_property, user_property_encoding,
    user_property_len, PropertyType,
};
use bytes::{Bytes, BytesMut};
use vstd::prelude::*;
use vstd::utf8::*;

verus! {

pub struct PublishPropertiesView {
    pub payload_format_indicator: Option<u8>,
    pub message_expiry_interval: Option<u32>,
    pub topic_alias: Option<u16>,
    pub response_topic: Option<Seq<char>>,
    pub correlation_data: Option<Seq<u8>>,
    pub user_properties: Seq<(Seq<char>, Seq<char>)>,
    pub subscription_identifiers: Seq<usize>,
    pub content_type: Option<Seq<char>>,
}

impl View for PublishProperties {
    type V = PublishPropertiesView;

    open spec fn view(&self) -> PublishPropertiesView {
        PublishPropertiesView {
            payload_format_indicator: self.payload_format_indicator,
            message_expiry_interval: self.message_expiry_interval,
            topic_alias: self.topic_alias,
            response_topic: match self.response_topic {
                Some(t) => Some(t@),
                None => None,
            },
            correlation_data: match self.correlation_data {
                Some(d) => Some(bytes_seq(d)),
                None => None,
            },
            user_properties: pairs_view(self.user_properties@),
            subscription_identifiers: self.subscription_identifiers@,
            content_type: match self.content_type {
                Some(t) => Some(t@),
                None => None,
            },
        }
    }
}

/// The view of optional properties.
pub open spec fn opt_pub_props_view(p: Option<PublishProperties>) -> Option<PublishPropertiesView> {
    match p {
        Some(p) => Some(p@),
        None => None,
    }
}

/// No properties yet.
pub open spec fn empty_pub_props() -> PublishPropertiesView {
    PublishPropertiesView {
        payload_format_indicator: None,
        message_expiry_interval: None,
        topic_alias: None,
        response_topic: None,
        correlation_data: None,
        user_properties: Seq::empty(),
        subscription_identifiers: Seq::empty(),
        content_type: None,
    }
}

/// The bytes that a subscription identifier takes, as the length counts it.
pub open spec fn id_len(id: usize) -> nat {
    1 + spec_len_len(id as nat)
}

/// The length of the properties, as the writer counts it: the topic alias
/// is counted with one byte for its value, though two are written.
pub open spec fn pub_props_len(p: PublishPropertiesView) -> nat {
    (if p.payload_format_indicator is Some {
        2nat
    } else {
        0nat
    }) + (if p.message_expiry_interval is Some {
        5nat
    } else {
        0nat
    }) + (if p.topic_alias is Some {
        2nat
    } else {
        0nat
    }) + (match p.response_topic {
        Some(t) => 3 + encode_utf8(t).len(),
        None => 0,
    }) + (match p.correlation_data {
        Some(d) => 3 + d.len(),
        None => 0,
    }) + sum_map(p.user_properties, |kv: (Seq<char>, Seq<char>)| user_property_len(kv)) + sum_map(
        p.subscription_identifiers,
        |id: usize| id_len(id),
    ) + (match p.content_type {
        Some(t) => 3 + encode_utf8(t).len(),
        None => 0,
    })
}

/// The bytes of the properties before the subscription identifiers.
pub open spec fn pub_props_head(p: PublishPropertiesView) -> Seq<u8> {
    pub_props_fixed(p) + concat_map(p.user_properties, |kv: (Seq<char>, Seq<char>)| user_property_encoding(kv))
}

/// The bytes written for the subscription identifiers: each one's tag and
/// value, up to the first that does not fit four bytes, of which only the
/// tag is written.
pub open spec fn ids_written(ids: Seq<usize>) -> Seq<u8>
    decreases ids.len(),
{
    if ids.len() == 0 {
        Seq::empty()
    } else if ids[0] > MAX_REMAINING_LENGTH {
        seq![11u8]
    } else {
        seq![11u8] + vbi_encode(ids[0] as nat) + ids_written(ids.drop_first())
    }
}

/// Every subscription identifier fits four bytes.
pub open spec fn ids_fit(ids: Seq<usize>) -> bool {
    forall|i: int| 0 <= i < ids.len() ==> #[trigger] ids[i] <= MAX_REMAINING_LENGTH
}

/// The bytes of the properties after their length.
pub open spec fn pub_props_body(p: PublishPropertiesView) -> Seq<u8> {
    pub_props_head(p) + ids_written(p.subscription_identifiers) + (match p.content_type {
        Some(t) => seq![3u8] + mqtt_string_encoding(t),
        None => Seq::empty(),
    })
}

proof fn lemma_ids_written_push(t: Seq<usize>, x: usize)
    requires
        ids_fit(t),
    ensures
        x <= MAX_REMAINING_LENGTH ==> ids_written(t.push(x)) == ids_written(t) + seq![11u8] + vbi_encode(
            x as nat,
        ),
        x > MAX_REMAINING_LENGTH ==> ids_written(t.push(x)) == ids_written(t) + seq![11u8],
    decreases t.len(),
{
    if t.len() == 0 {
        assert(t.push(x).drop_first() =~= Seq::<usize>::empty());
        assert(ids_written(Seq::<usize>::empty()) =~= Seq::<u8>::empty());
        assert(t.push(x)[0] == x);
        if x <= MAX_REMAINING_LENGTH {
            assert(ids_written(t.push(x)) =~= seq![11u8] + vbi_encode(x as nat) + Seq::<u8>::empty());
        }
        assert(ids_written(t) =~= Seq::<u8>::empty());
    } else {
        assert(t.push(x).drop_first() =~= t.drop_first().push(x));
        assert(ids_fit(t.drop_first())) by {
            assert forall|i: int| 0 <= i < t.drop_first().len() implies #[trigger] t.drop_first()[i]
                <= MAX_REMAINING_LENGTH by {
                assert(t.drop_first()[i] == t[i + 1]);
            }
        }
        lemma_ids_written_push(t.drop_first(), x);
        assert(t[0] <= MAX_REMAINING_LENGTH);
        assert(t.push(x)[0] == t[0]);
    }
}

/// The identifiers' bytes are as many as the length counts, when each fits.
proof fn lemma_ids_written_len(ids: Seq<usize>)
    requires
        ids_fit(ids),
    ensures
        ids_written(ids).len() == sum_map(ids, |id: usize| id_len(id)),
    decreases ids.len(),
{
    if ids.len() > 0 {
        assert(ids_fit(ids.drop_first())) by {
            assert forall|i: int| 0 <= i < ids.drop_first().len() implies #[trigger] ids.drop_first()[i]
                <= MAX_REMAINING_LENGTH by {
                assert(ids.drop_first()[i] == ids[i + 1]);
            }
        }
        lemma_ids_written_len(ids.drop_first());
        assert(ids[0] <= MAX_REMAINING_LENGTH);
        crate::mqtt::common::lemma_vbi_encode_len(ids[0] as nat);
    }
}

pub fn len(properties: &PublishProperties) -> (r: usize)
    requires
        pub_props_len(properties@) <= usize::MAX,
    ensures
        r == pub_props_len(properties@),
{
    let ghost p = properties@;
    let ghost us = p.user_properties;
    let ghost ids = p.subscription_identifiers;
    let ghost g = |kv: (Seq<char>, Seq<char>)| user_property_len(kv);
    let ghost gi = |id: usize| id_len(id);
    let mut len: usize = 0;
    if properties.payload_format_indicator.is_some() {
        len = len + 1 + 1;
    }
    if properties.message_expiry_interval.is_some() {
        len = len + 1 + 4;
    }
    if properties.topic_alias.is_some() {
        len = len + 1 + 1;
    }
    if let Some(topic) = &properties.response_topic {
        len = len + 1 + 2 + topic.as_str().len();
    }
    if let Some(data) = &properties.correlation_data {
        len = len + 1 + 2 + crate::buffer::bytes_len(data);
    }
    let ghost base = len;
    let users = &properties.user_properties;
    let mut i: usize = 0;
    while i < users.len()
        invariant
            i <= users@.len(),
            us == pairs_view(users@),
            us.len() == users@.len(),
            p == properties@,
            g == (|kv: (Seq<char>, Seq<char>)| user_property_len(kv)),
            gi == (|id: usize| id_len(id)),
            pub_props_len(p) <= usize::MAX,
            base + sum_map(us, g) + sum_map(ids, gi) <= pub_props_len(p),
            len == base + sum_map(us.take(i as int), g),
        decreases users@.len() - i,
    {
        proof {
            assert(us.take(i + 1) =~= us.take(i as int).push(us[i as int]));
            lemma_sum_map_push(us.take(i as int), us[i as int], g);
            lemma_sum_map_prefix(us, (i + 1) as nat, g);
        }
        let kv = &users[i];
        len = len + 1 + 2 + kv.0.as_str().len() + 2 + kv.1.as_str().len();
        i = i + 1;
    }
    assert(us.take(i as int) =~= us);
    let ghost base2 = len;
    let ids_v = &properties.subscription_identifiers;
    let mut j: usize = 0;
    while j < ids_v.len()
        invariant
            j <= ids_v@.len(),
            ids == ids_v@,
            p == properties@,
            gi == (|id: usize| id_len(id)),
            pub_props_len(p) <= usize::MAX,
            base2 + sum_map(ids, gi) <= pub_props_len(p),
            len == base2 + sum_map(ids.take(j as int), gi),
        decreases ids_v@.len() - j,
    {
        proof {
            assert(ids.take(j + 1 as int) =~= ids.take(j as int).push(ids[j as int]));
            lemma_sum_map_push(ids.take(j as int), ids[j as int], gi);
            lemma_sum_map_prefix(ids, (j + 1) as nat, gi);
        }
        len = len + 1 + len_len(ids_v[j]);
        j = j + 1;
    }
    assert(ids.take(j as int) =~= ids);
    if let Some(content_type) = &properties.content_type {
        len = len + 1 + 2 + content_type.as_str().len();
    }
    len
}

/// The content type's bytes, as written.
pub open spec fn content_type_len(p: PublishPropertiesView) -> nat {
    match p.content_type {
        Some(t) => 3 + encode_utf8(t).len(),
        None => 0,
    }
}

/// What is written before the identifiers, the identifiers as counted, and
/// the content type take at most one byte more than the length counts (the
/// topic alias's second byte).
proof fn lemma_head_len(p: PublishPropertiesView)
    ensures
        pub_props_head(p).len() + sum_map(p.subscription_identifiers, |id: usize| id_len(id))
            + content_type_len(p) <= pub_props_len(p) + 1,
{
    let fe = |kv: (Seq<char>, Seq<char>)| user_property_encoding(kv);
    let fl = |kv: (Seq<char>, Seq<char>)| user_property_len(kv);
    assert forall|x: (Seq<char>, Seq<char>)| #[trigger] fe(x).len() == fl(x) by {}
    lemma_concat_map_len(p.user_properties, fe, fl);
}

/// Where every subscription identifier fits, the properties take as many
/// bytes as their length counts, and one more where there is a topic
/// alias (its second byte).
pub proof fn lemma_pub_props_body_exact_len(p: PublishPropertiesView)
    requires
        ids_fit(p.subscription_identifiers),
    ensures
        pub_props_body(p).len() == pub_props_len(p) + if p.topic_alias is Some {
            1nat
        } else {
            0nat
        },
{
    let fe = |kv: (Seq<char>, Seq<char>)| user_property_encoding(kv);
    let fl = |kv: (Seq<char>, Seq<char>)| user_property_len(kv);
    assert forall|x: (Seq<char>, Seq<char>)| #[trigger] fe(x).len() == fl(x) by {}
    lemma_concat_map_len(p.user_properties, fe, fl);
    lemma_ids_written_len(p.subscription_identifiers);
}

/// The bytes of the properties that hold one value each, in the order in
/// which they are written.
pub open spec fn pub_props_fixed(p: PublishPropertiesView) -> Seq<u8> {
    tagged_u8(1, p.payload_format_indicator) + tagged_u32(2, p.message_expiry_interval) + tagged_u16(
        35,
        p.topic_alias,
    ) + tagged_string(8, p.response_topic) + tagged_bytes(9, p.correlation_data)
}

/// The bytes of a string property with its identifier, if present.
pub open spec fn tagged_string(tag: u8, t: Option<Seq<char>>) -> Seq<u8> {
    match t {
        Some(t) => seq![tag] + mqtt_string_encoding(t),
        None => Seq::empty(),
    }
}

/// Writes a string property with its identifier, if present.
fn write_tagged_string(buffer: &mut BytesMut, tag: u8, t: &Option<String>)
    requires
        bytes_mut_seq(*old(buffer)).len() + 3 + (match *t {
            Some(t) => encode_utf8(t@).len(),
            None => 0,
        }) <= usize::MAX,
    ensures
        bytes_mut_seq(*final(buffer)) == bytes_mut_seq(*old(buffer)) + tagged_string(
            tag,
            match *t {
                Some(t) => Some(t@),
                None => None,
            },
        ),
{
    if let Some(t) = t {
        bytes_mut_put_u8(buffer, tag);
        write_mqtt_string(buffer, t.as_str());
        assert(bytes_mut_seq(*buffer) =~= bytes_mut_seq(*old(buffer)) + (seq![tag] + mqtt_string_encoding(t@)));
    } else {
        assert(bytes_mut_seq(*buffer) =~= bytes_mut_seq(*old(buffer)) + Seq::<u8>::empty());
    }
}

/// The bytes of a one-byte property with its identifier, if present.
pub open spec fn tagged_u8(tag: u8, v: Option<u8>) -> Seq<u8> {
    match v {
        Some(v) => seq![tag, v],
        None => Seq::empty(),
    }
}

/// The bytes of a two-byte property with its identifier, if present.
pub open spec fn tagged_u16(tag: u8, v: Option<u16>) -> Seq<u8> {
    match v {
        Some(v) => seq![tag] + be_u16_bytes(v),
        None => Seq::empty(),
    }
}

/// The bytes of a four-byte property with its identifier, if present.
pub open spec fn tagged_u32(tag: u8, v: Option<u32>) -> Seq<u8> {
    match v {
        Some(v) => seq![tag] + be_u32_bytes(v),
        None => Seq::empty(),
    }
}

/// The bytes of a binary property with its identifier, if present.
pub open spec fn tagged_bytes(tag: u8, d: Option<Seq<u8>>) -> Seq<u8> {
    match d {
        Some(d) => seq![tag] + mqtt_bytes_encoding(d),
        None => Seq::empty(),
    }
}

fn write_tagged_u8(buffer: &mut BytesMut, tag: u8, v: Option<u8>)
    requires
        bytes_mut_seq(*old(buffer)).len() + 2 <= usize::MAX,
    ensures
        bytes_mut_seq(*final(buffer)) == bytes_mut_seq(*old(buffer)) + tagged_u8(tag, v),
{
    if let Some(v) = v {
        bytes_mut_put_u8(buffer, tag);
        bytes_mut_put_u8(buffer, v);
    }
    assert(bytes_mut_seq(*buffer) =~= bytes_mut_seq(*old(buffer)) + tagged_u8(tag, v));
}

fn write_tagged_u16(buffer: &mut BytesMut, tag: u8, v: Option<u16>)
    requires
        bytes_mut_seq(*old(buffer)).len() + 3 <= usize::MAX,
    ensures
        bytes_mut_seq(*final(buffer)) == bytes_mut_seq(*old(buffer)) + tagged_u16(tag, v),
{
    if let Some(v) = v {
        bytes_mut_put_u8(buffer, tag);
        bytes_mut_put_u16(buffer, v);
    }
    assert(bytes_mut_seq(*buffer) =~= bytes_mut_seq(*old(buffer)) + tagged_u16(tag, v));
}

fn write_tagged_u32(buffer: &mut BytesMut, tag: u8, v: Option<u32>)
    requires
        bytes_mut_seq(*old(buffer)).len() + 5 <= usize::MAX,
    ensures
        bytes_mut_seq(*final(buffer)) == bytes_mut_seq(*old(buffer)) + tagged_u32(tag, v),
{
    if let Some(v) = v {
        bytes_mut_put_u8(buffer, tag);
        bytes_mut_put_u32(buffer, v);
    }
    assert(bytes_mut_seq(*buffer) =~= bytes_mut_seq(*old(buffer)) + tagged_u32(tag, v));
}

fn write_tagged_bytes(buffer: &mut BytesMut, tag: u8, d: &Option<Bytes>)
    requires
        bytes_mut_seq(*old(buffer)).len() + 3 + (match *d {
            Some(d) => bytes_seq(d).len(),
            None => 0,
        }) <= usize::MAX,
    ensures
        bytes_mut_seq(*final(buffer)) == bytes_mut_seq(*old(buffer)) + tagged_bytes(
            tag,
            match *d {
                Some(d) => Some(bytes_seq(d)),
                None => None,
            },
        ),
{
    if let Some(d) = d {
        bytes_mut_put_u8(buffer, tag);
        write_mqtt_bytes(buffer, bytes_as_slice(d));
        assert(bytes_mut_seq(*buffer) =~= bytes_mut_seq(*old(buffer)) + (seq![tag] + mqtt_bytes_encoding(
            bytes_seq(*d),
        )));
    } else {
        assert(bytes_mut_seq(*buffer) =~= bytes_mut_seq(*old(buffer)) + Seq::<u8>::empty());
    }
}

/// Writes the properties that hold one value each.
fn write_fixed(properties: &PublishProperties, buffer: &mut BytesMut)
    requires
        bytes_mut_seq(*old(buffer)).len() + pub_props_len(properties@) + 16 <= usize::MAX,
    ensures
        bytes_mut_seq(*final(buffer)) == bytes_mut_seq(*old(buffer)) + pub_props_fixed(properties@),
{
    let ghost p = properties@;
    let ghost s0 = bytes_mut_seq(*buffer);
    let ghost a = tagged_u8(1, p.payload_format_indicator);
    let ghost b = tagged_u32(2, p.message_expiry_interval);
    let ghost c = tagged_u16(35, p.topic_alias);
    let ghost d = tagged_string(8, p.response_topic);
    let ghost e = tagged_bytes(9, p.correlation_data);
    write_tagged_u8(buffer, 1, properties.payload_format_indicator);
    write_tagged_u32(buffer, 2, properties.message_expiry_interval);
    write_tagged_u16(buffer, 35, properties.topic_alias);
    write_tagged_string(buffer, 8, &properties.response_topic);
    write_tagged_bytes(buffer, 9, &properties.correlation_data);
    assert(bytes_mut_seq(*buffer) =~= s0 + pub_props_fixed(p));
}

/// Writes user properties, each with its identifier.
fn write_users(users: &Vec<(String, String)>, buffer: &mut BytesMut)
    requires
        bytes_mut_seq(*old(buffer)).len() + sum_map(
            pairs_view(users@),
            |kv: (Seq<char>, Seq<char>)| user_property_len(kv),
        ) <= usize::MAX,
    ensures
        bytes_mut_seq(*final(buffer)) == bytes_mut_seq(*old(buffer)) + concat_map(
            pairs_view(users@),
            |kv: (Seq<char>, Seq<char>)| user_property_encoding(kv),
        ),
{
    let ghost us = pairs_view(users@);
    let ghost fe = |kv: (Seq<char>, Seq<char>)| user_property_encoding(kv);
    let ghost fl = |kv: (Seq<char>, Seq<char>)| user_property_len(kv);
    let ghost head = bytes_mut_seq(*buffer);
    let mut i: usize = 0;
    assert(us.take(0) =~= Seq::<(Seq<char>, Seq<char>)>::empty());
    assert(head + concat_map(us.take(0), fe) =~= head);
    while i < users.len()
        invariant
            i <= users@.len(),
            us == pairs_view(users@),
            us.len() == users@.len(),
            head == bytes_mut_seq(*old(buffer)),
            fe == (|kv: (Seq<char>, Seq<char>)| user_property_encoding(kv)),
            fl == (|kv: (Seq<char>, Seq<char>)| user_property_len(kv)),
            bytes_mut_seq(*buffer) == head + concat_map(us.take(i as int), fe),
            head.len() + sum_map(us, fl) <= usize::MAX,
        decreases users@.len() - i,
    {
        proof {
            let t = us.take(i as int);
            assert forall|x: (Seq<char>, Seq<char>)| #[trigger] fe(x).len() == fl(x) by {}
            assert(us.take(i + 1) =~= t.push(us[i as int]));
            lemma_concat_map_push(t, us[i as int], fe);
            lemma_sum_map_push(t, us[i as int], fl);
            lemma_concat_map_len(t, fe, fl);
            lemma_sum_map_prefix(us, (i + 1) as nat, fl);
        }
        let kv = &users[i];
        let ghost before = bytes_mut_seq(*buffer);
        bytes_mut_put_u8(buffer, 38);
        write_mqtt_string(buffer, kv.0.as_str());
        write_mqtt_string(buffer, kv.1.as_str());
        proof {
            let t = us.take(i as int);
            assert(bytes_mut_seq(*buffer) =~= before + fe(us[i as int]));
            assert(head + concat_map(t, fe) + fe(us[i as int]) =~= head + (concat_map(t, fe) + fe(
                us[i as int],
            )));
        }
        i = i + 1;
    }
    assert(us.take(i as int) =~= us);
}

/// Writes the properties that come before the subscription identifiers.
fn write_head(properties: &PublishProperties, buffer: &mut BytesMut)
    requires
        bytes_mut_seq(*old(buffer)).len() + pub_props_len(properties@) + 16 <= usize::MAX,
    ensures
        bytes_mut_seq(*final(buffer)) == bytes_mut_seq(*old(buffer)) + pub_props_head(properties@),
{
    let ghost p = properties@;
    proof {
        lemma_head_len(p);
        let fe = |kv: (Seq<char>, Seq<char>)| user_property_encoding(kv);
        let fl = |kv: (Seq<char>, Seq<char>)| user_property_len(kv);
        assert forall|x: (Seq<char>, Seq<char>)| #[trigger] fe(x).len() == fl(x) by {}
        lemma_concat_map_len(p.user_properties, fe, fl);
    }
    write_fixed(properties, buffer);
    write_users(&properties.user_properties, buffer);
    assert(bytes_mut_seq(*buffer) =~= bytes_mut_seq(*old(buffer)) + pub_props_head(p));
}

/// Writes each subscription identifier with its tag, up to the first that
/// does not fit four bytes, whose tag alone is written.
fn write_ids(ids_v: &Vec<usize>, buffer: &mut BytesMut) -> (r: Result<(), Error>)
    requires
        bytes_mut_seq(*old(buffer)).len() + sum_map(ids_v@, |id: usize| id_len(id)) + 8 <= usize::MAX,
    ensures
        bytes_mut_seq(*final(buffer)) == bytes_mut_seq(*old(buffer)) + ids_written(ids_v@),
        ids_fit(ids_v@) ==> r == Ok::<(), Error>(()),
        !ids_fit(ids_v@) ==> r == Err::<(), Error>(Error::PayloadTooLong),
{
    let ghost ids = ids_v@;
    let ghost gi = |id: usize| id_len(id);
    let ghost mid = bytes_mut_seq(*buffer);
    let mut j: usize = 0;
    assert(ids.take(0) =~= Seq::<usize>::empty());
    assert(ids_written(ids.take(0)) =~= Seq::<u8>::empty());
    while j < ids_v.len()
        invariant
            j <= ids_v@.len(),
            ids == ids_v@,
            mid == bytes_mut_seq(*old(buffer)),
            gi == (|id: usize| id_len(id)),
            ids_fit(ids.take(j as int)),
            bytes_mut_seq(*buffer) == mid + ids_written(ids.take(j as int)),
            ids_written(ids.take(j as int)).len() == sum_map(ids.take(j as int), gi),
            mid.len() + sum_map(ids, gi) + 8 <= usize::MAX,
        decreases ids_v@.len() - j,
    {
        proof {
            lemma_sum_map_prefix(ids, j as nat, gi);
        }
        let id = ids_v[j];
        let ghost t = ids.take(j as int);
        assert(ids.take(j + 1 as int) =~= t.push(id));
        proof {
            lemma_ids_written_push(t, id);
        }
        bytes_mut_put_u8(buffer, 11);
        match write_remaining_length(buffer, id) {
            Ok(_) => {},
            Err(e) => {
                assert(!ids_fit(ids)) by {
                    assert(ids[j as int] == id);
                }
                proof {
                    lemma_ids_written_prefix_stop(ids, j as nat);
                }
                assert(bytes_mut_seq(*buffer) =~= mid + ids_written(ids));
                return Err(e);
            },
        }
        proof {
            crate::mqtt::common::lemma_vbi_encode_len(id as nat);
            assert(bytes_mut_seq(*buffer) =~= mid + ids_written(t.push(id)));
            assert forall|k: int| 0 <= k < ids.take(j + 1 as int).len() implies #[trigger] ids.take(
                j + 1 as int,
            )[k] <= MAX_REMAINING_LENGTH by {
                if k < j {
                    assert(ids.take(j + 1 as int)[k] == t[k]);
                }
            }
            lemma_sum_map_push(t, id, gi);
        }
        j = j + 1;
    }
    assert(ids.take(j as int) =~= ids);
    Ok(())
}

pub fn write(properties: &PublishProperties, buffer: &mut BytesMut) -> (r: Result<(), Error>)
    requires
        bytes_mut_seq(*old(buffer)).len() + 32 + 2 * pub_props_len(properties@) <= usize::MAX,
    ensures
        ({
            let p = properties@;
            let old_b = bytes_mut_seq(*old(buffer));
            let new_b = bytes_mut_seq(*final(buffer));
            &&& pub_props_len(p) > MAX_REMAINING_LENGTH ==> r == Err::<(), Error>(Error::PayloadTooLong)
                && new_b == old_b
            &&& pub_props_len(p) <= MAX_REMAINING_LENGTH && !ids_fit(p.subscription_identifiers) ==> r
                == Err::<(), Error>(Error::PayloadTooLong) && new_b == old_b + vbi_encode(
                pub_props_len(p),
            ) + pub_props_head(p) + ids_written(p.subscription_identifiers)
            &&& pub_props_len(p) <= MAX_REMAINING_LENGTH && ids_fit(p.subscription_identifiers) ==> r
                == Ok::<(), Error>(()) && new_b == old_b + vbi_encode(pub_props_len(p))
                + pub_props_body(p)
        }),
{
    let ghost p = properties@;
    let len = len(properties);
    match write_remaining_length(buffer, len) {
        Ok(_) => {},
        Err(e) => return Err(e),
    }
    proof {
        lemma_head_len(p);
        crate::mqtt::common::lemma_vbi_encode_len(pub_props_len(p));
    }
    write_head(properties, buffer);
    let ghost mid = bytes_mut_seq(*buffer);
    match write_ids(&properties.subscription_identifiers, buffer) {
        Ok(_) => {},
        Err(e) => {
            assert(bytes_mut_seq(*buffer) =~= bytes_mut_seq(*old(buffer)) + vbi_encode(pub_props_len(p))
                + pub_props_head(p) + ids_written(p.subscription_identifiers));
            return Err(e);
        },
    }
    proof {
        lemma_ids_written_len(p.subscription_identifiers);
    }
    if let Some(content_type) = &properties.content_type {
        bytes_mut_put_u8(buffer, 3);
        write_mqtt_string(buffer, content_type.as_str());
    }
    assert(bytes_mut_seq(*buffer) =~= bytes_mut_seq(*old(buffer)) + vbi_encode(pub_props_len(p))
        + pub_props_body(p));
    Ok(())
}

/// When the identifier at `j` is the first that does not fit, what is
/// written for all of them is what is written for the first `j + 1`.
proof fn lemma_ids_written_prefix_stop(ids: Seq<usize>, j: nat)
    requires
        j < ids.len(),
        ids_fit(ids.take(j as int)),
        ids[j as int] > MAX_REMAINING_LENGTH,
    ensures
        ids_written(ids) == ids_written(ids.take(j + 1 as int)),
    decreases j,
{
    if j == 0 {
        assert(ids.take(1)[0] == ids[0]);
    } else {
        let d = ids.drop_first();
        assert(ids_fit(d.take(j - 1))) by {
            assert forall|i: int| 0 <= i < d.take(j - 1).len() implies #[trigger] d.take(j - 1)[i]
                <= MAX_REMAINING_LENGTH by {
                assert(d.take(j - 1)[i] == ids.take(j as int)[i + 1]);
            }
        }
        assert(d[j - 1] == ids[j as int]);
        lemma_ids_written_prefix_stop(d, (j - 1) as nat);
        assert(ids.take(j as int)[0] == ids[0]);
        assert(ids.take(j + 1 as int).drop_first() =~= d.take(j as int));
        assert(ids.take(j + 1 as int)[0] == ids[0]);
    }
}

/// Where every subscription identifier fits, the properties take at most
/// one byte more than their length counts.
pub proof fn lemma_pub_props_body_len(p: PublishPropertiesView)
    requires
        ids_fit(p.subscription_identifiers),
    ensures
        pub_props_body(p).len() <= pub_props_len(p) + 1,
{
    lemma_head_len(p);
    lemma_ids_written_len(p.subscription_identifiers);
}

/// What reading one property's value gives: the properties with it set or
/// added, the bytes the reader counts for it after its identifier, and the
/// bytes left; or an error.
pub enum PropStep {
    Next(PublishPropertiesView, nat, Seq<u8>),
    Failed(Error),
}

/// Reading the value of the property with identifier `prop` from `s`. A
/// subscription identifier is counted one byte more than it takes.
#[verifier::opaque]
pub open spec fn spec_pub_prop_step(prop: u8, s: Seq<u8>, acc: PublishPropertiesView) -> PropStep {
    match spec_property(prop) {
        None => PropStep::Failed(Error::InvalidPropertyType(prop)),
        Some(PropertyType::PayloadFormatIndicator) => match spec_read_u8(s) {
            (Err(e), _) => PropStep::Failed(e),
            (Ok(v), r) => PropStep::Next(PublishPropertiesView { payload_format_indicator: Some(v), ..acc }, 1, r),
        },
        Some(PropertyType::MessageExpiryInterval) => match spec_read_u32(s) {
            (Err(e), _) => PropStep::Failed(e),
            (Ok(v), r) => PropStep::Next(PublishPropertiesView { message_expiry_interval: Some(v), ..acc }, 4, r),
        },
        Some(PropertyType::TopicAlias) => match spec_read_u16(s) {
            (Err(e), _) => PropStep::Failed(e),
            (Ok(v), r) => PropStep::Next(PublishPropertiesView { topic_alias: Some(v), ..acc }, 2, r),
        },
        Some(PropertyType::ResponseTopic) => match spec_read_mqtt_string(s) {
            (Err(e), _) => PropStep::Failed(e),
            (Ok(t), r) => PropStep::Next(
                PublishPropertiesView { response_topic: Some(t), ..acc },
                2 + encode_utf8(t).len(),
                r,
            ),
        },
        Some(PropertyType::CorrelationData) => match spec_read_mqtt_bytes(s) {
            (Err(e), _) => PropStep::Failed(e),
            (Ok(d), r) => PropStep::Next(PublishPropertiesView { correlation_data: Some(d), ..acc }, 2 + d.len(), r),
        },
        Some(PropertyType::UserProperty) => match spec_read_mqtt_string(s) {
            (Err(e), _) => PropStep::Failed(e),
            (Ok(k), r1) => match spec_read_mqtt_string(r1) {
                (Err(e), _) => PropStep::Failed(e),
                (Ok(v), r2) => PropStep::Next(
                    PublishPropertiesView { user_properties: acc.user_properties.push((k, v)), ..acc },
                    2 + encode_utf8(k).len() + 2 + encode_utf8(v).len(),
                    r2,
                ),
            },
        },
        Some(PropertyType::SubscriptionIdentifier) => match vbi_decode(s) {
            Err(e) => PropStep::Failed(e),
            Ok((c, id)) => PropStep::Next(
                PublishPropertiesView {
                    subscription_identifiers: acc.subscription_identifiers.push(id as usize),
                    ..acc
                },
                1 + c,
                s.skip(c as int),
            ),
        },
        Some(PropertyType::ContentType) => match spec_read_mqtt_string(s) {
            (Err(e), _) => PropStep::Failed(e),
            (Ok(t), r) => PropStep::Next(
                PublishPropertiesView { content_type: Some(t), ..acc },
                2 + encode_utf8(t).len(),
                r,
            ),
        },
        Some(_) => PropStep::Failed(Error::InvalidPropertyType(prop)),
    }
}

/// How reading the properties of a PUBLISH ends.
pub enum PubPropsOutcome {
    Read(PublishPropertiesView, Seq<u8>),
    Failed(Error),
}

/// Reading properties from `s` until the count reaches `len`, `cursor`
/// bytes counted so far.
#[verifier::opaque]
pub open spec fn spec_pub_props_loop(s: Seq<u8>, cursor: nat, len: nat, acc: PublishPropertiesView) -> PubPropsOutcome
    decreases (if cursor < len {
        len - cursor
    } else {
        0
    }),
{
    if cursor >= len {
        PubPropsOutcome::Read(acc, s)
    } else {
        match spec_read_u8(s) {
            (Err(e), _) => PubPropsOutcome::Failed(e),
            (Ok(prop), r1) => match spec_pub_prop_step(prop, r1, acc) {
                PropStep::Failed(e) => PubPropsOutcome::Failed(e),
                PropStep::Next(acc2, n, r2) => spec_pub_props_loop(r2, cursor + 1 + n, len, acc2),
            },
        }
    }
}

/// What reading the properties of a PUBLISH from `s` gives.
pub enum PubPropsRead {
    /// The properties, and the bytes after them.
    Props(PublishPropertiesView, Seq<u8>),
    /// A length of 0, and the bytes after it.
    NoProps(Seq<u8>),
    Failed(Error),
}

pub open spec fn spec_read_pub_props(s: Seq<u8>) -> PubPropsRead {
    match vbi_decode(s) {
        Err(e) => PubPropsRead::Failed(e),
        Ok((c, len)) => if len == 0 {
            PubPropsRead::NoProps(s.skip(c as int))
        } else {
            match spec_pub_props_loop(s.skip(c as int), 0, len, empty_pub_props()) {
                PubPropsOutcome::Read(p, rest) => PubPropsRead::Props(p, rest),
                PubPropsOutcome::Failed(e) => PubPropsRead::Failed(e),
            }
        },
    }
}

/// Reads the value of the property with identifier `prop` into `props`,
/// and returns the bytes it counts.
fn read_property(prop: u8, bytes: &mut Bytes, props: &mut PublishProperties) -> (r: Result<usize, Error>)
    ensures
        match (r, spec_pub_prop_step(prop, bytes_seq(*old(bytes)), old(props)@)) {
            (Ok(n), PropStep::Next(p, sn, rest)) => n == sn && final(props)@ == p && bytes_seq(*final(bytes))
                == rest && n <= 2 * 65537,
            (Err(e), PropStep::Failed(se)) => e == se,
            _ => false,
        },
{
    proof {
        reveal(spec_pub_prop_step);
    }
    match property(prop) {
        Err(e) => Err(e),
        Ok(PropertyType::PayloadFormatIndicator) => {
            let v = match read_u8(bytes) {
                Ok(v) => v,
                Err(e) => return Err(e),
            };
            props.payload_format_indicator = Some(v);
            Ok(1)
        },
        Ok(PropertyType::MessageExpiryInterval) => {
            let v = match read_u32(bytes) {
                Ok(v) => v,
                Err(e) => return Err(e),
            };
            props.message_expiry_interval = Some(v);
            Ok(4)
        },
        Ok(PropertyType::TopicAlias) => {
            let v = match read_u16(bytes) {
                Ok(v) => v,
                Err(e) => return Err(e),
            };
            props.topic_alias = Some(v);
            Ok(2)
        },
        Ok(PropertyType::ResponseTopic) => {
            let ghost before = bytes_seq(*bytes);
            let topic = match read_mqtt_string(bytes) {
                Ok(t) => t,
                Err(e) => return Err(e),
            };
            proof {
                lemma_mqtt_string_bound(before);
            }
            let n = 2 + topic.as_str().len();
            props.response_topic = Some(topic);
            Ok(n)
        },
        Ok(PropertyType::CorrelationData) => {
            let ghost before = bytes_seq(*bytes);
            let data = match read_mqtt_bytes(bytes) {
                Ok(d) => d,
                Err(e) => return Err(e),
            };
            let n = 2 + crate::buffer::bytes_len(&data);
            props.correlation_data = Some(data);
            Ok(n)
        },
        Ok(PropertyType::UserProperty) => {
            let ghost before = bytes_seq(*bytes);
            let key = match read_mqtt_string(bytes) {
                Ok(t) => t,
                Err(e) => return Err(e),
            };
            let ghost mid = bytes_seq(*bytes);
            let value = match read_mqtt_string(bytes) {
                Ok(t) => t,
                Err(e) => return Err(e),
            };
            proof {
                lemma_mqtt_string_bound(before);
                lemma_mqtt_string_bound(mid);
            }
            let n = 2 + key.as_str().len() + 2 + value.as_str().len();
            let ghost users_before = pairs_view(props.user_properties@);
            let ghost kv = (key@, value@);
            props.user_properties.push((key, value));
            assert(pairs_view(props.user_properties@) =~= users_before.push(kv));
            Ok(n)
        },
        Ok(PropertyType::SubscriptionIdentifier) => {
            let (id_len, id) = match length(bytes_as_slice(bytes)) {
                Ok(v) => v,
                Err(e) => return Err(e),
            };
            bytes_advance(bytes, id_len);
            props.subscription_identifiers.push(id);
            Ok(1 + id_len)
        },
        Ok(PropertyType::ContentType) => {
            let ghost before = bytes_seq(*bytes);
            let typ = match read_mqtt_string(bytes) {
                Ok(t) => t,
                Err(e) => return Err(e),
            };
            proof {
                lemma_mqtt_string_bound(before);
            }
            let n = 2 + typ.as_str().len();
            props.content_type = Some(typ);
            Ok(n)
        },
        Ok(_) => Err(Error::InvalidPropertyType(prop)),
    }
}

/// Reads the properties of a PUBLISH, with their length in front; none
/// where the length is 0.
pub fn read(bytes: &mut Bytes) -> (r: Result<Option<PublishProperties>, Error>)
    ensures
        match (r, spec_read_pub_props(bytes_seq(*old(bytes)))) {
            (Ok(Some(p)), PubPropsRead::Props(sp, rest)) => p@ == sp && bytes_seq(*final(bytes)) == rest,
            (Ok(None), PubPropsRead::NoProps(rest)) => bytes_seq(*final(bytes)) == rest,
            (Err(e), PubPropsRead::Failed(se)) => e == se,
            _ => false,
        },
{
    let ghost orig = bytes_seq(*bytes);
    let (properties_len_len, properties_len) = match length(bytes_as_slice(bytes)) {
        Ok(v) => v,
        Err(e) => return Err(e),
    };
    bytes_advance(bytes, properties_len_len);
    if properties_len == 0 {
        return Ok(None);
    }
    let mut props = PublishProperties {
        payload_format_indicator: None,
        message_expiry_interval: None,
        topic_alias: None,
        response_topic: None,
        correlation_data: None,
        user_properties: Vec::new(),
        subscription_identifiers: Vec::new(),
        content_type: None,
    };
    assert(pairs_view(props.user_properties@) =~= Seq::<(Seq<char>, Seq<char>)>::empty());
    assert(props.subscription_identifiers@ =~= Seq::<usize>::empty());
    assert(props@ == empty_pub_props());
    let mut cursor: usize = 0;
    // read until cursor reaches property length
    while cursor < properties_len
        invariant
            orig == bytes_seq(*old(bytes)),
            properties_len <= MAX_REMAINING_LENGTH,
            cursor <= properties_len + 2 * 65537 + 1,
            spec_read_pub_props(orig) == match spec_pub_props_loop(
                bytes_seq(*bytes),
                cursor as nat,
                properties_len as nat,
                props@,
            ) {
                PubPropsOutcome::Read(p, rest) => PubPropsRead::Props(p, rest),
                PubPropsOutcome::Failed(e) => PubPropsRead::Failed(e),
            },
        decreases (if cursor < properties_len {
            properties_len - cursor
        } else {
            0
        }),
    {
        proof {
            reveal(spec_pub_props_loop);
        }
        let prop = match read_u8(bytes) {
            Ok(p) => p,
            Err(e) => return Err(e),
        };
        let n = match read_property(prop, bytes, &mut props) {
            Ok(n) => n,
            Err(e) => return Err(e),
        };
        cursor = cursor + 1 + n;
    }
    proof {
        reveal(spec_pub_props_loop);
    }
    Ok(Some(props))
}

} // verus!
