//! MQTT 5.0 packet codecs, and the properties that their packets carry.
pub mod puback;
pub mod pubrel;
pub mod publish;
pub mod subscribe;
pub mod auth;
pub mod codec;

use crate::buffer::{bytes_advance, bytes_as_slice, bytes_mut_put_u8, bytes_mut_seq, bytes_seq};
use crate::mqtt::common::{
    concat_map, length, lemma_concat_map_len, lemma_vbi_roundtrip, lemma_mqtt_string_roundtrip, lemma_concat_map_push, lemma_sum_map_push, mqtt_string_encoding,
    read_mqtt_string, read_u8, spec_read_mqtt_string, spec_read_u8, sum_map, vbi_decode, vbi_encode,
    write_mqtt_string, write_remaining_length, Error, ReasonPropertiesView, MAX_REMAINING_LENGTH,
    pairs_view, opt_string_view,
    spec_read_mqtt_bytes,
};
use bytes::{Bytes, BytesMut};
use vstd::prelude::*;
use vstd::utf8::*;

verus! {

/// The properties of MQTT 5.0, by the identifier that the standard gives
/// each.
#[derive(Debug, Clone, Copy, PartialEq, Eq, Structural)]
pub enum PropertyType {
    PayloadFormatIndicator,
    MessageExpiryInterval,
    ContentType,
    ResponseTopic,
    CorrelationData,
    SubscriptionIdentifier,
    SessionExpiryInterval,
    AssignedClientIdentifier,
    ServerKeepAlive,
    AuthenticationMethod,
    AuthenticationData,
    RequestProblemInformation,
    WillDelayInterval,
    RequestResponseInformation,
    ResponseInformation,
    ServerReference,
    ReasonString,
    ReceiveMaximum,
    TopicAliasMaximum,
    TopicAlias,
    MaximumQos,
    RetainAvailable,
    UserProperty,
    MaximumPacketSize,
    WildcardSubscriptionAvailable,
    SubscriptionIdentifierAvailable,
    SharedSubscriptionAvailable,
}

/// The identifier of a property.
pub open spec fn property_type_number(p: PropertyType) -> u8 {
    match p {
        PropertyType::PayloadFormatIndicator => 1,
        PropertyType::MessageExpiryInterval => 2,
        PropertyType::ContentType => 3,
        PropertyType::ResponseTopic => 8,
        PropertyType::CorrelationData => 9,
        PropertyType::SubscriptionIdentifier => 11,
        PropertyType::SessionExpiryInterval => 17,
        PropertyType::AssignedClientIdentifier => 18,
        PropertyType::ServerKeepAlive => 19,
        PropertyType::AuthenticationMethod => 21,
        PropertyType::AuthenticationData => 22,
        PropertyType::RequestProblemInformation => 23,
        PropertyType::WillDelayInterval => 24,
        PropertyType::RequestResponseInformation => 25,
        PropertyType::ResponseInformation => 26,
        PropertyType::ServerReference => 28,
        PropertyType::ReasonString => 31,
        PropertyType::ReceiveMaximum => 33,
        PropertyType::TopicAliasMaximum => 34,
        PropertyType::TopicAlias => 35,
        PropertyType::MaximumQos => 36,
        PropertyType::RetainAvailable => 37,
        PropertyType::UserProperty => 38,
        PropertyType::MaximumPacketSize => 39,
        PropertyType::WildcardSubscriptionAvailable => 40,
        PropertyType::SubscriptionIdentifierAvailable => 41,
        PropertyType::SharedSubscriptionAvailable => 42,
    }
}

/// The property that an identifier names.
pub open spec fn spec_property(num: u8) -> Option<PropertyType> {
    if num == 1 {
        Some(PropertyType::PayloadFormatIndicator)
    } else if num == 2 {
        Some(PropertyType::MessageExpiryInterval)
    } else if num == 3 {
        Some(PropertyType::ContentType)
    } else if num == 8 {
        Some(PropertyType::ResponseTopic)
    } else if num == 9 {
        Some(PropertyType::CorrelationData)
    } else if num == 11 {
        Some(PropertyType::SubscriptionIdentifier)
    } else if num == 17 {
        Some(PropertyType::SessionExpiryInterval)
    } else if num == 18 {
        Some(PropertyType::AssignedClientIdentifier)
    } else if num == 19 {
        Some(PropertyType::ServerKeepAlive)
    } else if num == 21 {
        Some(PropertyType::AuthenticationMethod)
    } else if num == 22 {
        Some(PropertyType::AuthenticationData)
    } else if num == 23 {
        Some(PropertyType::RequestProblemInformation)
    } else if num == 24 {
        Some(PropertyType::WillDelayInterval)
    } else if num == 25 {
        Some(PropertyType::RequestResponseInformation)
    } else if num == 26 {
        Some(PropertyType::ResponseInformation)
    } else if num == 28 {
        Some(PropertyType::ServerReference)
    } else if num == 31 {
        Some(PropertyType::ReasonString)
    } else if num == 33 {
        Some(PropertyType::ReceiveMaximum)
    } else if num == 34 {
        Some(PropertyType::TopicAliasMaximum)
    } else if num == 35 {
        Some(PropertyType::TopicAlias)
    } else if num == 36 {
        Some(PropertyType::MaximumQos)
    } else if num == 37 {
        Some(PropertyType::RetainAvailable)
    } else if num == 38 {
        Some(PropertyType::UserProperty)
    } else if num == 39 {
        Some(PropertyType::MaximumPacketSize)
    } else if num == 40 {
        Some(PropertyType::WildcardSubscriptionAvailable)
    } else if num == 41 {
        Some(PropertyType::SubscriptionIdentifierAvailable)
    } else if num == 42 {
        Some(PropertyType::SharedSubscriptionAvailable)
    } else {
        None
    }
}

/// The identifiers of MQTT 5.0 properties, as the standard numbers them:
/// 1 payload format indicator, 2 message expiry interval, 3 content type, 8
/// response topic, 9 correlation data, 11 subscription identifier, 17
/// session expiry interval, 18 assigned client identifier, 19 server keep
/// alive, 21 authentication method, 22 authentication data, 23 request
/// problem information, 24 will delay interval, 25 request response
/// information, 26 response information, 28 server reference, 31 reason
/// string, 33 receive maximum, 34 topic alias maximum, 35 topic alias, 36
/// maximum QoS, 37 retain available, 38 user property, 39 maximum packet
/// size, 40 wildcard subscription available, 41 subscription identifier
/// available, 42 shared subscription available. An identifier read names
/// the property written with it, and no other number names one.
pub proof fn lemma_property_numbers(n: u8)
    ensures
        property_type_number(PropertyType::PayloadFormatIndicator) == 1u8 && spec_property(1u8) == Some(PropertyType::PayloadFormatIndicator),
        property_type_number(PropertyType::MessageExpiryInterval) == 2u8 && spec_property(2u8) == Some(PropertyType::MessageExpiryInterval),
        property_type_number(PropertyType::ContentType) == 3u8 && spec_property(3u8) == Some(PropertyType::ContentType),
        property_type_number(PropertyType::ResponseTopic) == 8u8 && spec_property(8u8) == Some(PropertyType::ResponseTopic),
        property_type_number(PropertyType::CorrelationData) == 9u8 && spec_property(9u8) == Some(PropertyType::CorrelationData),
        property_type_number(PropertyType::SubscriptionIdentifier) == 11u8 && spec_property(11u8) == Some(PropertyType::SubscriptionIdentifier),
        property_type_number(PropertyType::SessionExpiryInterval) == 17u8 && spec_property(17u8) == Some(PropertyType::SessionExpiryInterval),
        property_type_number(PropertyType::AssignedClientIdentifier) == 18u8 && spec_property(18u8) == Some(PropertyType::AssignedClientIdentifier),
        property_type_number(PropertyType::ServerKeepAlive) == 19u8 && spec_property(19u8) == Some(PropertyType::ServerKeepAlive),
        property_type_number(PropertyType::AuthenticationMethod) == 21u8 && spec_property(21u8) == Some(PropertyType::AuthenticationMethod),
        property_type_number(PropertyType::AuthenticationData) == 22u8 && spec_property(22u8) == Some(PropertyType::AuthenticationData),
        property_type_number(PropertyType::RequestProblemInformation) == 23u8 && spec_property(23u8) == Some(PropertyType::RequestProblemInformation),
        property_type_number(PropertyType::WillDelayInterval) == 24u8 && spec_property(24u8) == Some(PropertyType::WillDelayInterval),
        property_type_number(PropertyType::RequestResponseInformation) == 25u8 && spec_property(25u8) == Some(PropertyType::RequestResponseInformation),
        property_type_number(PropertyType::ResponseInformation) == 26u8 && spec_property(26u8) == Some(PropertyType::ResponseInformation),
        property_type_number(PropertyType::ServerReference) == 28u8 && spec_property(28u8) == Some(PropertyType::ServerReference),
        property_type_number(PropertyType::ReasonString) == 31u8 && spec_property(31u8) == Some(PropertyType::ReasonString),
        property_type_number(PropertyType::ReceiveMaximum) == 33u8 && spec_property(33u8) == Some(PropertyType::ReceiveMaximum),
        property_type_number(PropertyType::TopicAliasMaximum) == 34u8 && spec_property(34u8) == Some(PropertyType::TopicAliasMaximum),
        property_type_number(PropertyType::TopicAlias) == 35u8 && spec_property(35u8) == Some(PropertyType::TopicAlias),
        property_type_number(PropertyType::MaximumQos) == 36u8 && spec_property(36u8) == Some(PropertyType::MaximumQos),
        property_type_number(PropertyType::RetainAvailable) == 37u8 && spec_property(37u8) == Some(PropertyType::RetainAvailable),
        property_type_number(PropertyType::UserProperty) == 38u8 && spec_property(38u8) == Some(PropertyType::UserProperty),
        property_type_number(PropertyType::MaximumPacketSize) == 39u8 && spec_property(39u8) == Some(PropertyType::MaximumPacketSize),
        property_type_number(PropertyType::WildcardSubscriptionAvailable) == 40u8 && spec_property(40u8) == Some(PropertyType::WildcardSubscriptionAvailable),
        property_type_number(PropertyType::SubscriptionIdentifierAvailable) == 41u8 && spec_property(41u8) == Some(PropertyType::SubscriptionIdentifierAvailable),
        property_type_number(PropertyType::SharedSubscriptionAvailable) == 42u8 && spec_property(42u8) == Some(PropertyType::SharedSubscriptionAvailable),
        spec_property(n) matches Some(p) ==> property_type_number(p) == n,
{
}

/// The property that an identifier names; an unknown identifier is an
/// error.
pub fn property(num: u8) -> (r: Result<PropertyType, Error>)
    ensures
        match spec_property(num) {
            Some(p) => r == Ok::<PropertyType, Error>(p),
            None => r == Err::<PropertyType, Error>(Error::InvalidPropertyType(num)),
        },
{
    match num {
        1 => Ok(PropertyType::PayloadFormatIndicator),
        2 => Ok(PropertyType::MessageExpiryInterval),
        3 => Ok(PropertyType::ContentType),
        8 => Ok(PropertyType::ResponseTopic),
        9 => Ok(PropertyType::CorrelationData),
        11 => Ok(PropertyType::SubscriptionIdentifier),
        17 => Ok(PropertyType::SessionExpiryInterval),
        18 => Ok(PropertyType::AssignedClientIdentifier),
        19 => Ok(PropertyType::ServerKeepAlive),
        21 => Ok(PropertyType::AuthenticationMethod),
        22 => Ok(PropertyType::AuthenticationData),
        23 => Ok(PropertyType::RequestProblemInformation),
        24 => Ok(PropertyType::WillDelayInterval),
        25 => Ok(PropertyType::RequestResponseInformation),
        26 => Ok(PropertyType::ResponseInformation),
        28 => Ok(PropertyType::ServerReference),
        31 => Ok(PropertyType::ReasonString),
        33 => Ok(PropertyType::ReceiveMaximum),
        34 => Ok(PropertyType::TopicAliasMaximum),
        35 => Ok(PropertyType::TopicAlias),
        36 => Ok(PropertyType::MaximumQos),
        37 => Ok(PropertyType::RetainAvailable),
        38 => Ok(PropertyType::UserProperty),
        39 => Ok(PropertyType::MaximumPacketSize),
        40 => Ok(PropertyType::WildcardSubscriptionAvailable),
        41 => Ok(PropertyType::SubscriptionIdentifierAvailable),
        42 => Ok(PropertyType::SharedSubscriptionAvailable),
        _ => Err(Error::InvalidPropertyType(num)),
    }
}

/// The identifier of a property, as it stands on the wire.
pub fn property_code(p: PropertyType) -> (r: u8)
    ensures
        r == property_type_number(p),
        spec_property(r) == Some(p),
{
    match p {
        PropertyType::PayloadFormatIndicator => 1,
        PropertyType::MessageExpiryInterval => 2,
        PropertyType::ContentType => 3,
        PropertyType::ResponseTopic => 8,
        PropertyType::CorrelationData => 9,
        PropertyType::SubscriptionIdentifier => 11,
        PropertyType::SessionExpiryInterval => 17,
        PropertyType::AssignedClientIdentifier => 18,
        PropertyType::ServerKeepAlive => 19,
        PropertyType::AuthenticationMethod => 21,
        PropertyType::AuthenticationData => 22,
        PropertyType::RequestProblemInformation => 23,
        PropertyType::WillDelayInterval => 24,
        PropertyType::RequestResponseInformation => 25,
        PropertyType::ResponseInformation => 26,
        PropertyType::ServerReference => 28,
        PropertyType::ReasonString => 31,
        PropertyType::ReceiveMaximum => 33,
        PropertyType::TopicAliasMaximum => 34,
        PropertyType::TopicAlias => 35,
        PropertyType::MaximumQos => 36,
        PropertyType::RetainAvailable => 37,
        PropertyType::UserProperty => 38,
        PropertyType::MaximumPacketSize => 39,
        PropertyType::WildcardSubscriptionAvailable => 40,
        PropertyType::SubscriptionIdentifierAvailable => 41,
        PropertyType::SharedSubscriptionAvailable => 42,
    }
}

// ---------------------------------------------------------------------------
// The reason string and user properties that the acknowledgements carry.
// ---------------------------------------------------------------------------

/// The bytes one user property takes: its identifier, then key and value.
pub open spec fn user_property_len(kv: (Seq<char>, Seq<char>)) -> nat {
    1 + 2 + encode_utf8(kv.0).len() + 2 + encode_utf8(kv.1).len()
}

/// The bytes of one user property.
pub open spec fn user_property_encoding(kv: (Seq<char>, Seq<char>)) -> Seq<u8> {
    seq![38u8] + mqtt_string_encoding(kv.0) + mqtt_string_encoding(kv.1)
}

/// The length of the reason string and user properties.
pub open spec fn reason_props_len(p: ReasonPropertiesView) -> nat {
    (match p.reason_string {
        Some(r) => 1 + 2 + encode_utf8(r).len(),
        None => 0,
    }) + sum_map(p.user_properties, |kv: (Seq<char>, Seq<char>)| user_property_len(kv))
}

/// The bytes of the reason string and user properties, after their length.
pub open spec fn reason_props_body(p: ReasonPropertiesView) -> Seq<u8> {
    (match p.reason_string {
        Some(r) => seq![31u8] + mqtt_string_encoding(r),
        None => Seq::empty(),
    }) + concat_map(p.user_properties, |kv: (Seq<char>, Seq<char>)| user_property_encoding(kv))
}

/// The bytes of the reason string and user properties with their length.
pub open spec fn reason_props_encoding(p: ReasonPropertiesView) -> Seq<u8> {
    vbi_encode(reason_props_len(p)) + reason_props_body(p)
}

/// How reading the reason string and user properties ends.
pub enum PropsOutcome {
    /// The properties that were read, and the bytes left.
    Read(Option<Seq<char>>, Seq<(Seq<char>, Seq<char>)>, Seq<u8>),
    /// A field of a property could not be read.
    Failed(Error),
    /// A known property that does not belong here.
    Unexpected(u8),
}

/// Reading properties from `s`, `cursor` bytes of `len` read so far, with
/// what has been read so far.
#[verifier::opaque]
pub open spec fn spec_reason_props_loop(
    s: Seq<u8>,
    cursor: nat,
    len: nat,
    reason: Option<Seq<char>>,
    users: Seq<(Seq<char>, Seq<char>)>,
) -> PropsOutcome
    decreases (if cursor < len {
        len - cursor
    } else {
        0
    }),
{
    if cursor >= len {
        PropsOutcome::Read(reason, users, s)
    } else {
        match spec_read_u8(s) {
            (Err(e), _) => PropsOutcome::Failed(e),
            (Ok(prop), r1) => match spec_property(prop) {
                None => PropsOutcome::Failed(Error::InvalidPropertyType(prop)),
                Some(PropertyType::ReasonString) => match spec_read_mqtt_string(r1) {
                    (Err(e), _) => PropsOutcome::Failed(e),
                    (Ok(t), r2) => spec_reason_props_loop(
                        r2,
                        cursor + 1 + 2 + encode_utf8(t).len(),
                        len,
                        Some(t),
                        users,
                    ),
                },
                Some(PropertyType::UserProperty) => match spec_read_mqtt_string(r1) {
                    (Err(e), _) => PropsOutcome::Failed(e),
                    (Ok(k), r2) => match spec_read_mqtt_string(r2) {
                        (Err(e), _) => PropsOutcome::Failed(e),
                        (Ok(v), r3) => spec_reason_props_loop(
                            r3,
                            cursor + 1 + 2 + encode_utf8(k).len() + 2 + encode_utf8(v).len(),
                            len,
                            reason,
                            users.push((k, v)),
                        ),
                    },
                },
                Some(_) => PropsOutcome::Unexpected(prop),
            },
        }
    }
}

/// What reading the reason string and user properties from `s` gives:
/// none where their length is 0.
pub enum ReasonPropsRead {
    Props(Option<Seq<char>>, Seq<(Seq<char>, Seq<char>)>),
    NoProps,
    Failed(Error),
    Unexpected(u8),
}

pub open spec fn spec_read_reason_props(s: Seq<u8>) -> ReasonPropsRead {
    match vbi_decode(s) {
        Err(e) => ReasonPropsRead::Failed(e),
        Ok((c, len)) => if len == 0 {
            ReasonPropsRead::NoProps
        } else {
            match spec_reason_props_loop(s.skip(c as int), 0, len, None, Seq::empty()) {
                PropsOutcome::Read(r, u, _) => ReasonPropsRead::Props(r, u),
                PropsOutcome::Failed(e) => ReasonPropsRead::Failed(e),
                PropsOutcome::Unexpected(p) => ReasonPropsRead::Unexpected(p),
            }
        },
    }
}

/// What the shared reader returns.
pub enum ReasonPropsResult {
    Props(Option<String>, Vec<(String, String)>),
    NoProps,
    Failed(Error),
    Unexpected(u8),
}

/// Whether what was read matches the description.
pub open spec fn reason_props_result_matches(r: ReasonPropsResult, s: ReasonPropsRead) -> bool {
    match (r, s) {
        (ReasonPropsResult::Props(rs, us), ReasonPropsRead::Props(srs, sus)) => opt_string_view(rs) == srs
            && pairs_view(us@) == sus,
        (ReasonPropsResult::NoProps, ReasonPropsRead::NoProps) => true,
        (ReasonPropsResult::Failed(e), ReasonPropsRead::Failed(se)) => e == se,
        (ReasonPropsResult::Unexpected(p), ReasonPropsRead::Unexpected(sp)) => p == sp,
        _ => false,
    }
}

/// A string read with a two-byte length prefix takes at most 65535 bytes.
pub proof fn lemma_mqtt_string_bound(s: Seq<u8>)
    ensures
        spec_read_mqtt_string(s).0 matches Ok(t) ==> encode_utf8(t).len() <= 65535,
{
    match spec_read_mqtt_bytes(s) {
        (Ok(b), _) => {
            if valid_utf8(b) {
                decode_utf8_encode_utf8(b);
            }
        },
        _ => {},
    }
}

/// Reads the reason string and user properties, with their length in
/// front.
pub fn read_reason_props(bytes: &mut Bytes) -> (r: ReasonPropsResult)
    ensures
        reason_props_result_matches(r, spec_read_reason_props(bytes_seq(*old(bytes)))),
{
    let ghost orig = bytes_seq(*bytes);
    let (properties_len_len, properties_len) = match length(bytes_as_slice(bytes)) {
        Ok(v) => v,
        Err(e) => return ReasonPropsResult::Failed(e),
    };
    bytes_advance(bytes, properties_len_len);
    if properties_len == 0 {
        return ReasonPropsResult::NoProps;
    }
    let mut reason_string: Option<String> = None;
    let mut user_properties: Vec<(String, String)> = Vec::new();
    let mut cursor: usize = 0;
    assert(pairs_view(user_properties@) =~= Seq::<(Seq<char>, Seq<char>)>::empty());
    // read until cursor reaches property length
    while cursor < properties_len
        invariant
            orig == bytes_seq(*old(bytes)),
            properties_len <= MAX_REMAINING_LENGTH,
            cursor <= properties_len + 3 * 65537,
            spec_read_reason_props(orig) == match spec_reason_props_loop(
                bytes_seq(*bytes),
                cursor as nat,
                properties_len as nat,
                opt_string_view(reason_string),
                pairs_view(user_properties@),
            ) {
                PropsOutcome::Read(r, u, _) => ReasonPropsRead::Props(r, u),
                PropsOutcome::Failed(e) => ReasonPropsRead::Failed(e),
                PropsOutcome::Unexpected(p) => ReasonPropsRead::Unexpected(p),
            },
        decreases (if cursor < properties_len {
            properties_len - cursor
        } else {
            0
        }),
    {
        proof {
            reveal(spec_reason_props_loop);
        }
        let prop = match read_u8(bytes) {
            Ok(p) => p,
            Err(e) => return ReasonPropsResult::Failed(e),
        };
        cursor = cursor + 1;
        match property(prop) {
            Err(e) => return ReasonPropsResult::Failed(e),
            Ok(PropertyType::ReasonString) => {
                let ghost before = bytes_seq(*bytes);
                let reason = match read_mqtt_string(bytes) {
                    Ok(t) => t,
                    Err(e) => return ReasonPropsResult::Failed(e),
                };
                proof {
                    lemma_mqtt_string_bound(before);
                }
                cursor = cursor + 2 + reason.as_str().len();
                reason_string = Some(reason);
            },
            Ok(PropertyType::UserProperty) => {
                let ghost before = bytes_seq(*bytes);
                let key = match read_mqtt_string(bytes) {
                    Ok(t) => t,
                    Err(e) => return ReasonPropsResult::Failed(e),
                };
                let ghost mid = bytes_seq(*bytes);
                let value = match read_mqtt_string(bytes) {
                    Ok(t) => t,
                    Err(e) => return ReasonPropsResult::Failed(e),
                };
                proof {
                    lemma_mqtt_string_bound(before);
                    lemma_mqtt_string_bound(mid);
                }
                cursor = cursor + 2 + key.as_str().len() + 2 + value.as_str().len();
                let ghost users_before = pairs_view(user_properties@);
                let ghost kv = (key@, value@);
                user_properties.push((key, value));
                assert(pairs_view(user_properties@) =~= users_before.push(kv));
            },
            Ok(_) => return ReasonPropsResult::Unexpected(prop),
        }
    }
    proof {
        reveal(spec_reason_props_loop);
    }
    ReasonPropsResult::Props(reason_string, user_properties)
}

/// A sum over a prefix is at most the sum over the whole.
pub proof fn lemma_sum_map_prefix<A>(s: Seq<A>, n: nat, g: spec_fn(A) -> nat)
    requires
        n <= s.len(),
    ensures
        sum_map(s.take(n as int), g) <= sum_map(s, g),
    decreases s.len() - n,
{
    if n < s.len() {
        lemma_sum_map_prefix(s, (n + 1) as nat, g);
        assert(s.take(n + 1 as int) =~= s.take(n as int).push(s[n as int]));
        lemma_sum_map_push(s.take(n as int), s[n as int], g);
    } else {
        assert(s.take(n as int) =~= s);
    }
}

/// The length of the reason string and user properties.
pub fn reason_props_length(reason: &Option<String>, users: &Vec<(String, String)>) -> (r: usize)
    requires
        reason_props_len(ReasonPropertiesView { reason_string: opt_string_view(*reason), user_properties: pairs_view(users@) })
            <= usize::MAX,
    ensures
        r == reason_props_len(
            ReasonPropertiesView { reason_string: opt_string_view(*reason), user_properties: pairs_view(users@) },
        ),
{
    let ghost us = pairs_view(users@);
    let ghost g = |kv: (Seq<char>, Seq<char>)| user_property_len(kv);
    let mut len: usize = 0;
    if let Some(r) = reason {
        len = len + 1 + 2 + r.as_str().len();
    }
    let ghost base = len;
    let mut i: usize = 0;
    while i < users.len()
        invariant
            i <= users@.len(),
            us == pairs_view(users@),
            us.len() == users@.len(),
            g == (|kv: (Seq<char>, Seq<char>)| user_property_len(kv)),
            base + sum_map(us, g) <= usize::MAX,
            len == base + sum_map(us.take(i as int), g),
        decreases users@.len() - i,
    {
        proof {
            assert(us.take(i + 1) =~= us.take(i as int).push(us[i as int]));
            lemma_sum_map_push(us.take(i as int), us[i as int], g);
            lemma_sum_map_prefix(us, (i + 1) as nat, g);
        }
        let kv = &users[i];
        len = len + 1 + 2 + kv.0.as_str().len() + 2 + kv.1.as_str().len();
        i = i + 1;
    }
    assert(us.take(i as int) =~= us);
    len
}

/// Writes the length of the reason string and user properties, then the
/// properties.
pub fn write_reason_props(reason: &Option<String>, users: &Vec<(String, String)>, buffer: &mut BytesMut) -> (r:
    Result<(), Error>)
    requires
        bytes_mut_seq(*old(buffer)).len() + 4 + reason_props_len(
            ReasonPropertiesView { reason_string: opt_string_view(*reason), user_properties: pairs_view(users@) },
        ) <= usize::MAX,
    ensures
        ({
            let p = ReasonPropertiesView { reason_string: opt_string_view(*reason), user_properties: pairs_view(users@) };
            &&& reason_props_len(p) > MAX_REMAINING_LENGTH ==> r == Err::<(), Error>(Error::PayloadTooLong)
                && bytes_mut_seq(*final(buffer)) == bytes_mut_seq(*old(buffer))
            &&& reason_props_len(p) <= MAX_REMAINING_LENGTH ==> r == Ok::<(), Error>(()) && bytes_mut_seq(
                *final(buffer),
            ) == bytes_mut_seq(*old(buffer)) + reason_props_encoding(p)
        }),
{
    let ghost p = ReasonPropertiesView { reason_string: opt_string_view(*reason), user_properties: pairs_view(users@) };
    let ghost us = p.user_properties;
    let ghost fe = |kv: (Seq<char>, Seq<char>)| user_property_encoding(kv);
    let ghost fl = |kv: (Seq<char>, Seq<char>)| user_property_len(kv);
    let len = reason_props_length(reason, users);
    match write_remaining_length(buffer, len) {
        Ok(_) => {},
        Err(e) => return Err(e),
    }
    let ghost start = bytes_mut_seq(*buffer);
    if let Some(r) = reason {
        bytes_mut_put_u8(buffer, 31);
        write_mqtt_string(buffer, r.as_str());
    }
    let ghost head = bytes_mut_seq(*buffer);
    assert(head =~= start + match p.reason_string {
        Some(r) => seq![31u8] + mqtt_string_encoding(r),
        None => Seq::<u8>::empty(),
    });
    let mut i: usize = 0;
    while i < users.len()
        invariant
            i <= users@.len(),
            us == pairs_view(users@),
            us.len() == users@.len(),
            fe == (|kv: (Seq<char>, Seq<char>)| user_property_encoding(kv)),
            fl == (|kv: (Seq<char>, Seq<char>)| user_property_len(kv)),
            bytes_mut_seq(*buffer) == head + concat_map(us.take(i as int), fe),
            head.len() + sum_map(us, fl) <= usize::MAX,
        decreases users@.len() - i,
    {
        proof {
            let t = us.take(i as int);
            assert forall|x: (Seq<char>, Seq<char>)| #[trigger] fe(x).len() == fl(x) by {}
            assert(us.take(i + 1) =~= t.push(us[i as int]));
            lemma_concat_map_push(t, us[i as int], fe);
            lemma_sum_map_push(t, us[i as int], fl);
            lemma_concat_map_len(t, fe, fl);
            lemma_sum_map_prefix(us, (i + 1) as nat, fl);
        }
        let kv = &users[i];
        let ghost before = bytes_mut_seq(*buffer);
        bytes_mut_put_u8(buffer, 38);
        write_mqtt_string(buffer, kv.0.as_str());
        write_mqtt_string(buffer, kv.1.as_str());
        proof {
            let t = us.take(i as int);
            assert(bytes_mut_seq(*buffer) =~= before + fe(us[i as int]));
            assert(head + concat_map(t, fe) + fe(us[i as int]) =~= head + (concat_map(t, fe) + fe(
                us[i as int],
            )));
        }
        i = i + 1;
    }
    proof {
        assert(us.take(i as int) =~= us);
    }
    assert(bytes_mut_seq(*buffer) =~= bytes_mut_seq(*old(buffer)) + reason_props_encoding(p));
    Ok(())
}

/// Whether every string of the properties fits a length prefix.
pub open spec fn reason_props_fit(p: ReasonPropertiesView) -> bool {
    &&& p.reason_string matches Some(r) ==> encode_utf8(r).len() <= 65535
    &&& forall|i: int|
        0 <= i < p.user_properties.len() ==> encode_utf8(#[trigger] p.user_properties[i].0).len() <= 65535
            && encode_utf8(p.user_properties[i].1).len() <= 65535
}

/// One step of the reader over a user property.
proof fn lemma_reason_loop_user(
    s: Seq<u8>,
    r1: Seq<u8>,
    r2: Seq<u8>,
    r3: Seq<u8>,
    k: Seq<char>,
    v: Seq<char>,
    cursor: nat,
    len: nat,
    reason: Option<Seq<char>>,
    acc: Seq<(Seq<char>, Seq<char>)>,
)
    requires
        cursor < len,
        spec_read_u8(s) == (Ok::<u8, Error>(38u8), r1),
        spec_read_mqtt_string(r1) == (Ok::<Seq<char>, Error>(k), r2),
        spec_read_mqtt_string(r2) == (Ok::<Seq<char>, Error>(v), r3),
    ensures
        spec_reason_props_loop(s, cursor, len, reason, acc) == spec_reason_props_loop(
            r3,
            cursor + 1 + 2 + encode_utf8(k).len() + 2 + encode_utf8(v).len(),
            len,
            reason,
            acc.push((k, v)),
        ),
{
    assert(spec_property(38) == Some(PropertyType::UserProperty));
    reveal(spec_reason_props_loop);
}

/// One user property read back from its encoding.
proof fn lemma_user_step(
    u0: (Seq<char>, Seq<char>),
    after: Seq<u8>,
    cursor: nat,
    len: nat,
    reason: Option<Seq<char>>,
    acc: Seq<(Seq<char>, Seq<char>)>,
)
    requires
        cursor + user_property_len(u0) <= len,
        encode_utf8(u0.0).len() <= 65535,
        encode_utf8(u0.1).len() <= 65535,
    ensures
        spec_reason_props_loop(user_property_encoding(u0) + after, cursor, len, reason, acc)
            == spec_reason_props_loop(after, cursor + user_property_len(u0), len, reason, acc.push(u0)),
{
    let s = user_property_encoding(u0) + after;
    let r2 = mqtt_string_encoding(u0.1) + after;
    let r1 = mqtt_string_encoding(u0.0) + r2;
    assert(s =~= seq![38u8] + r1);
    assert(s.skip(1) =~= r1);
    lemma_mqtt_string_roundtrip(u0.0, r2);
    lemma_mqtt_string_roundtrip(u0.1, after);
    lemma_reason_loop_user(s, r1, r2, after, u0.0, u0.1, cursor, len, reason, acc);
}

/// A reason string read back from its encoding.
proof fn lemma_reason_step(r: Seq<char>, after: Seq<u8>, len: nat)
    requires
        1 + 2 + encode_utf8(r).len() <= len,
        encode_utf8(r).len() <= 65535,
    ensures
        spec_reason_props_loop(seq![31u8] + mqtt_string_encoding(r) + after, 0, len, None, Seq::empty())
            == spec_reason_props_loop(after, 1 + 2 + encode_utf8(r).len(), len, Some(r), Seq::empty()),
{
    let s = seq![31u8] + mqtt_string_encoding(r) + after;
    let r1 = mqtt_string_encoding(r) + after;
    assert(s =~= seq![31u8] + r1);
    assert(s.skip(1) =~= r1);
    assert(spec_read_u8(s) == (Ok::<u8, Error>(31u8), r1));
    lemma_mqtt_string_roundtrip(r, after);
    reveal(spec_reason_props_loop);
}

/// User properties read back one by one from their encodings.
proof fn lemma_users_loop(
    users: Seq<(Seq<char>, Seq<char>)>,
    rest: Seq<u8>,
    cursor: nat,
    len: nat,
    reason: Option<Seq<char>>,
    acc: Seq<(Seq<char>, Seq<char>)>,
)
    requires
        cursor + sum_map(users, |kv: (Seq<char>, Seq<char>)| user_property_len(kv)) == len,
        forall|i: int|
            0 <= i < users.len() ==> encode_utf8(#[trigger] users[i].0).len() <= 65535 && encode_utf8(
                users[i].1,
            ).len() <= 65535,
    ensures
        spec_reason_props_loop(
            concat_map(users, |kv: (Seq<char>, Seq<char>)| user_property_encoding(kv)) + rest,
            cursor,
            len,
            reason,
            acc,
        ) == PropsOutcome::Read(reason, acc + users, rest),
    decreases users.len(),
{
    let fe = |kv: (Seq<char>, Seq<char>)| user_property_encoding(kv);
    let fl = |kv: (Seq<char>, Seq<char>)| user_property_len(kv);
    if users.len() == 0 {
        assert(concat_map(users, fe) + rest =~= rest);
        assert(acc + users =~= acc);
        reveal(spec_reason_props_loop);
    } else {
        let u0 = users[0];
        let tail = users.drop_first();
        assert forall|i: int| 0 <= i < tail.len() implies encode_utf8(#[trigger] tail[i].0).len() <= 65535
            && encode_utf8(tail[i].1).len() <= 65535 by {
            assert(tail[i] == users[i + 1]);
        }
        assert(concat_map(users, fe) == fe(u0) + concat_map(tail, fe));
        assert(sum_map(users, fl) == fl(u0) + sum_map(tail, fl));
        let after = concat_map(tail, fe) + rest;
        assert(concat_map(users, fe) + rest =~= user_property_encoding(u0) + after);
        lemma_user_step(u0, after, cursor, len, reason, acc);
        lemma_users_loop(tail, rest, cursor + fl(u0), len, reason, acc.push(u0));
        assert(acc.push(u0) + tail =~= acc + users);
    }
}

/// The reason string and user properties read back as written, whatever
/// follows; none read back where there are none.
pub proof fn lemma_reason_props_roundtrip(p: ReasonPropertiesView, rest: Seq<u8>)
    requires
        reason_props_fit(p),
        reason_props_len(p) <= MAX_REMAINING_LENGTH,
    ensures
        spec_read_reason_props(reason_props_encoding(p) + rest) == if reason_props_len(p) == 0 {
            ReasonPropsRead::NoProps
        } else {
            ReasonPropsRead::Props(p.reason_string, p.user_properties)
        },
{
    let fe = |kv: (Seq<char>, Seq<char>)| user_property_encoding(kv);
    let len = reason_props_len(p);
    let body = reason_props_body(p);
    let s = reason_props_encoding(p) + rest;
    assert(s =~= vbi_encode(len) + (body + rest));
    lemma_vbi_roundtrip(len, body + rest);
    assert(s.skip(vbi_encode(len).len() as int) =~= body + rest);
    let users_part = concat_map(p.user_properties, fe) + rest;
    assert(Seq::<(Seq<char>, Seq<char>)>::empty() + p.user_properties =~= p.user_properties);
    match p.reason_string {
        Some(r) => {
            assert(body + rest =~= seq![31u8] + mqtt_string_encoding(r) + users_part);
            lemma_reason_step(r, users_part, len);
            lemma_users_loop(p.user_properties, rest, 1 + 2 + encode_utf8(r).len(), len, Some(r), Seq::empty());
        },
        None => {
            assert(body + rest =~= users_part);
            lemma_users_loop(p.user_properties, rest, 0, len, None, Seq::empty());
        },
    }
}

} // verus!
