//! The descriptions of packets and their properties: each field named and
//! written as `{}` or `{:?}` writes it.
use crate::mqtt::common::{
    opt_string_view, pairs_view, reason_props_text, ConnAck, ConnAckProperties, Connect, ConnectProperties,
    ConnectReturnCode, FixedHeader, LastWill, LastWillProperties, Login, PubComp, PubCompProperties,
    PubCompReason, PubRec, PubRecProperties, PubRecReason, PubRel, PubRelProperties, PubRelReason, Publish,
    PublishProperties, QoS,
};
use crate::buffer::bytes_seq;
use crate::mqtt::debug_text::{
    binary_byte, bool_str, debug_bytes, debug_str, bool_text, byte_binary_text, bytes_debug_text, debug_opt_bytes, debug_opt_string,
    debug_opt_u16, debug_opt_u32, debug_opt_u8, debug_pairs, debug_usizes, nat_of_u16, nat_of_u32, nat_of_u8,
    nums_debug_text, opt_bytes_debug_text, opt_num_debug_text, opt_str_debug_text, pairs_debug_text,
    str_debug_text,
};
use crate::text::{concat, decimal, decimal_chars};
use vstd::prelude::*;

verus! {

/// The name of a `QoS`, as `{:?}` writes it.
pub open spec fn qos_name(v: QoS) -> Seq<char> {
    match v {
        QoS::AtMostOnce => "AtMostOnce"@,
        QoS::AtLeastOnce => "AtLeastOnce"@,
        QoS::ExactlyOnce => "ExactlyOnce"@,
    }
}

fn qos_name_str(v: QoS) -> (r: &'static str)
    ensures
        r@ == qos_name(v),
{
    match v {
        QoS::AtMostOnce => "AtMostOnce",
        QoS::AtLeastOnce => "AtLeastOnce",
        QoS::ExactlyOnce => "ExactlyOnce",
    }
}

/// The name of a `ConnectReturnCode`, as `{:?}` writes it.
pub open spec fn connect_code_name(v: ConnectReturnCode) -> Seq<char> {
    match v {
        ConnectReturnCode::Success => "Success"@,
        ConnectReturnCode::NotAuthorized => "NotAuthorized"@,
        ConnectReturnCode::UnspecifiedError => "UnspecifiedError"@,
        ConnectReturnCode::MalformedPacket => "MalformedPacket"@,
        ConnectReturnCode::ProtocolError => "ProtocolError"@,
        ConnectReturnCode::ImplementationSpecificError => "ImplementationSpecificError"@,
        ConnectReturnCode::UnsupportedProtocolVersion => "UnsupportedProtocolVersion"@,
        ConnectReturnCode::ClientIdentifierNotValid => "ClientIdentifierNotValid"@,
        ConnectReturnCode::BadUserNamePassword => "BadUserNamePassword"@,
        ConnectReturnCode::ServerUnavailable => "ServerUnavailable"@,
        ConnectReturnCode::ServerBusy => "ServerBusy"@,
        ConnectReturnCode::Banned => "Banned"@,
        ConnectReturnCode::BadAuthenticationMethod => "BadAuthenticationMethod"@,
        ConnectReturnCode::TopicNameInvalid => "TopicNameInvalid"@,
        ConnectReturnCode::PacketTooLarge => "PacketTooLarge"@,
        ConnectReturnCode::QuotaExceeded => "QuotaExceeded"@,
        ConnectReturnCode::PayloadFormatInvalid => "PayloadFormatInvalid"@,
        ConnectReturnCode::RetainNotSupported => "RetainNotSupported"@,
        ConnectReturnCode::QoSNotSupported => "QoSNotSupported"@,
        ConnectReturnCode::UseAnotherServer => "UseAnotherServer"@,
        ConnectReturnCode::ServerMoved => "ServerMoved"@,
        ConnectReturnCode::ConnectionRateExceeded => "ConnectionRateExceeded"@,
        ConnectReturnCode::UnacceptableProtocolVersion => "UnacceptableProtocolVersion"@,
        ConnectReturnCode::IdentifierRejected => "IdentifierRejected"@,
        ConnectReturnCode::ServiceUnavailable => "ServiceUnavailable"@,
    }
}

fn connect_code_name_str(v: ConnectReturnCode) -> (r: &'static str)
    ensures
        r@ == connect_code_name(v),
{
    match v {
        ConnectReturnCode::Success => "Success",
        ConnectReturnCode::NotAuthorized => "NotAuthorized",
        ConnectReturnCode::UnspecifiedError => "UnspecifiedError",
        ConnectReturnCode::MalformedPacket => "MalformedPacket",
        ConnectReturnCode::ProtocolError => "ProtocolError",
        ConnectReturnCode::ImplementationSpecificError => "ImplementationSpecificError",
        ConnectReturnCode::UnsupportedProtocolVersion => "UnsupportedProtocolVersion",
        ConnectReturnCode::ClientIdentifierNotValid => "ClientIdentifierNotValid",
        ConnectReturnCode::BadUserNamePassword => "BadUserNamePassword",
        ConnectReturnCode::ServerUnavailable => "ServerUnavailable",
        ConnectReturnCode::ServerBusy => "ServerBusy",
        ConnectReturnCode::Banned => "Banned",
        ConnectReturnCode::BadAuthenticationMethod => "BadAuthenticationMethod",
        ConnectReturnCode::TopicNameInvalid => "TopicNameInvalid",
        ConnectReturnCode::PacketTooLarge => "PacketTooLarge",
        ConnectReturnCode::QuotaExceeded => "QuotaExceeded",
        ConnectReturnCode::PayloadFormatInvalid => "PayloadFormatInvalid",
        ConnectReturnCode::RetainNotSupported => "RetainNotSupported",
        ConnectReturnCode::QoSNotSupported => "QoSNotSupported",
        ConnectReturnCode::UseAnotherServer => "UseAnotherServer",
        ConnectReturnCode::ServerMoved => "ServerMoved",
        ConnectReturnCode::ConnectionRateExceeded => "ConnectionRateExceeded",
        ConnectReturnCode::UnacceptableProtocolVersion => "UnacceptableProtocolVersion",
        ConnectReturnCode::IdentifierRejected => "IdentifierRejected",
        ConnectReturnCode::ServiceUnavailable => "ServiceUnavailable",
    }
}

/// The name of a `PubRecReason`, as `{:?}` writes it.
pub open spec fn pubrec_reason_name(v: PubRecReason) -> Seq<char> {
    match v {
        PubRecReason::Success => "Success"@,
        PubRecReason::NoMatchingSubscribers => "NoMatchingSubscribers"@,
        PubRecReason::UnspecifiedError => "UnspecifiedError"@,
        PubRecReason::ImplementationSpecificError => "ImplementationSpecificError"@,
        PubRecReason::NotAuthorized => "NotAuthorized"@,
        PubRecReason::TopicNameInvalid => "TopicNameInvalid"@,
        PubRecReason::PacketIdentifierInUse => "PacketIdentifierInUse"@,
        PubRecReason::QuotaExceeded => "QuotaExceeded"@,
        PubRecReason::PayloadFormatInvalid => "PayloadFormatInvalid"@,
    }
}

fn pubrec_reason_name_str(v: PubRecReason) -> (r: &'static str)
    ensures
        r@ == pubrec_reason_name(v),
{
    match v {
        PubRecReason::Success => "Success",
        PubRecReason::NoMatchingSubscribers => "NoMatchingSubscribers",
        PubRecReason::UnspecifiedError => "UnspecifiedError",
        PubRecReason::ImplementationSpecificError => "ImplementationSpecificError",
        PubRecReason::NotAuthorized => "NotAuthorized",
        PubRecReason::TopicNameInvalid => "TopicNameInvalid",
        PubRecReason::PacketIdentifierInUse => "PacketIdentifierInUse",
        PubRecReason::QuotaExceeded => "QuotaExceeded",
        PubRecReason::PayloadFormatInvalid => "PayloadFormatInvalid",
    }
}

/// The name of a `PubRelReason`, as `{:?}` writes it.
pub open spec fn pubrel_reason_name(v: PubRelReason) -> Seq<char> {
    match v {
        PubRelReason::Success => "Success"@,
        PubRelReason::PacketIdentifierNotFound => "PacketIdentifierNotFound"@,
    }
}

fn pubrel_reason_name_str(v: PubRelReason) -> (r: &'static str)
    ensures
        r@ == pubrel_reason_name(v),
{
    match v {
        PubRelReason::Success => "Success",
        PubRelReason::PacketIdentifierNotFound => "PacketIdentifierNotFound",
    }
}

/// The name of a `PubCompReason`, as `{:?}` writes it.
pub open spec fn pubcomp_reason_name(v: PubCompReason) -> Seq<char> {
    match v {
        PubCompReason::Success => "Success"@,
        PubCompReason::PacketIdentifierNotFound => "PacketIdentifierNotFound"@,
    }
}

fn pubcomp_reason_name_str(v: PubCompReason) -> (r: &'static str)
    ensures
        r@ == pubcomp_reason_name(v),
{
    match v {
        PubCompReason::Success => "Success",
        PubCompReason::PacketIdentifierNotFound => "PacketIdentifierNotFound",
    }
}

/// `{:?}` of an optional reason, given the reason's name.
pub open spec fn opt_name_text(o: Option<Seq<char>>) -> Seq<char> {
    match o {
        Some(n) => "Some("@ + n + ")"@,
        None => "None"@,
    }
}

fn opt_name(o: Option<&'static str>) -> (r: String)
    ensures
        r@ == opt_name_text(
            match o {
                Some(n) => Some(n@),
                None => None,
            },
        ),
{
    match o {
        Some(n) => {
            let a = concat("Some(", n);
            concat(a.as_str(), ")")
        },
        None => {
            proof {
                reveal_strlit("");
            }
            concat("", "None")
        },
    }
}

/// A fixed header as text.
pub open spec fn fixed_header_text(h: FixedHeader) -> Seq<char> {
    "Fixed_header_1st_byte:"@ + byte_binary_text(h.byte1) + ", Fixed_header_length:"@ + decimal_chars(
        h.fixed_header_len as nat,
    ) + ", Variable_header_length + Payload_length:"@ + decimal_chars(h.remaining_len as nat) + " "@
}

impl FixedHeader {
    /// The fixed header as text, as `fixed_header_text` says.
    pub fn to_string(&self) -> (r: String)
        ensures
            r@ == fixed_header_text(*self),
    {
        let a = concat("Fixed_header_1st_byte:", binary_byte(self.byte1).as_str());
        let b = concat(a.as_str(), ", Fixed_header_length:");
        let c = concat(b.as_str(), decimal(self.fixed_header_len as u64).as_str());
        let d = concat(c.as_str(), ", Variable_header_length + Payload_length:");
        let e = concat(d.as_str(), decimal(self.remaining_len as u64).as_str());
        concat(e.as_str(), " ")
    }
}

/// A CONNECT as text.
pub open spec fn connect_text(c: Connect) -> Seq<char> {
    "client_id:"@ + str_debug_text(c.client_id@) + ", clean_session:"@ + bool_text(c.clean_session)
        + ", keep_alive:"@ + decimal_chars(c.keep_alive as nat) + "s "@
}

impl Connect {
    /// The CONNECT as text, as `connect_text` says.
    pub fn to_string(&self) -> (r: String)
        ensures
            r@ == connect_text(*self),
    {
        let a = concat("client_id:", debug_str(self.client_id.as_str()).as_str());
        let b = concat(a.as_str(), ", clean_session:");
        let c = concat(b.as_str(), bool_str(self.clean_session));
        let d = concat(c.as_str(), ", keep_alive:");
        let e = concat(d.as_str(), decimal(self.keep_alive as u64).as_str());
        concat(e.as_str(), "s ")
    }
}

/// A last will as text.
pub open spec fn last_will_text(w: LastWill) -> Seq<char> {
    "will_topic:"@ + bytes_debug_text(bytes_seq(w.topic)) + ", qos:"@ + qos_name(w.qos) + ", will_message:"@
        + bytes_debug_text(bytes_seq(w.message)) + ", retain:"@ + bool_text(w.retain) + " "@
}

impl LastWill {
    /// The last will as text, as `last_will_text` says.
    pub fn to_string(&self) -> (r: String)
        ensures
            r@ == last_will_text(*self),
    {
        let a = concat("will_topic:", debug_bytes(&self.topic).as_str());
        let b = concat(a.as_str(), ", qos:");
        let c = concat(b.as_str(), qos_name_str(self.qos));
        let d = concat(c.as_str(), ", will_message:");
        let e = concat(d.as_str(), debug_bytes(&self.message).as_str());
        let f = concat(e.as_str(), ", retain:");
        let g = concat(f.as_str(), bool_str(self.retain));
        concat(g.as_str(), " ")
    }
}

/// A login as text.
pub open spec fn login_text(l: Login) -> Seq<char> {
    "username:"@ + str_debug_text(l.username@) + ", password:"@ + str_debug_text(l.password@) + " "@
}

impl Login {
    /// The login as text, as `login_text` says.
    pub fn to_string(&self) -> (r: String)
        ensures
            r@ == login_text(*self),
    {
        let a = concat("username:", debug_str(self.username.as_str()).as_str());
        let b = concat(a.as_str(), ", password:");
        let c = concat(b.as_str(), debug_str(self.password.as_str()).as_str());
        concat(c.as_str(), " ")
    }
}

/// The properties of a CONNECT as text.
pub open spec fn connect_props_text(p: ConnectProperties) -> Seq<char> {
    "session_expiry_interval:"@ + opt_num_debug_text(nat_of_u32(p.session_expiry_interval))
        + ", receive_maximum:"@ + opt_num_debug_text(nat_of_u16(p.receive_maximum)) + ", max_packet_size:"@
        + opt_num_debug_text(nat_of_u32(p.max_packet_size)) + ", topic_alias_max:"@ + opt_num_debug_text(
        nat_of_u16(p.topic_alias_max),
    ) + ",\n        request_response_info:"@ + opt_num_debug_text(nat_of_u8(p.request_response_info))
        + ", request_problem_info:"@ + opt_num_debug_text(nat_of_u8(p.request_problem_info))
        + ", user_properties:"@ + pairs_debug_text(pairs_view(p.user_properties@))
        + ", authentication_method:"@ + opt_str_debug_text(opt_string_view(p.authentication_method))
        + ",\n        authentication_data:"@ + opt_bytes_debug_text(
        crate::mqtt::common::opt_bytes_view(p.authentication_data),
    )
}

impl ConnectProperties {
    /// The properties as text, as `connect_props_text` says.
    pub fn to_string(&self) -> (r: String)
        ensures
            r@ == connect_props_text(*self),
    {
        let a = concat("session_expiry_interval:", debug_opt_u32(self.session_expiry_interval).as_str());
        let b = concat(a.as_str(), ", receive_maximum:");
        let c = concat(b.as_str(), debug_opt_u16(self.receive_maximum).as_str());
        let d = concat(c.as_str(), ", max_packet_size:");
        let e = concat(d.as_str(), debug_opt_u32(self.max_packet_size).as_str());
        let f = concat(e.as_str(), ", topic_alias_max:");
        let g = concat(f.as_str(), debug_opt_u16(self.topic_alias_max).as_str());
        let h = concat(g.as_str(), ",\n        request_response_info:");
        let i = concat(h.as_str(), debug_opt_u8(self.request_response_info).as_str());
        let j = concat(i.as_str(), ", request_problem_info:");
        let k = concat(j.as_str(), debug_opt_u8(self.request_problem_info).as_str());
        let l = concat(k.as_str(), ", user_properties:");
        let m = concat(l.as_str(), debug_pairs(&self.user_properties).as_str());
        let n = concat(m.as_str(), ", authentication_method:");
        let o = concat(n.as_str(), debug_opt_string(&self.authentication_method).as_str());
        let q = concat(o.as_str(), ",\n        authentication_data:");
        concat(q.as_str(), debug_opt_bytes(&self.authentication_data).as_str())
    }
}

/// The properties of a last will as text.
pub open spec fn last_will_props_text(p: LastWillProperties) -> Seq<char> {
    "delay_interval:"@ + opt_num_debug_text(nat_of_u32(p.delay_interval)) + ", payload_format_indicator:"@
        + opt_num_debug_text(nat_of_u8(p.payload_format_indicator)) + ", message_expiry_interval:"@
        + opt_num_debug_text(nat_of_u32(p.message_expiry_interval)) + ", content_type:"@ + opt_str_debug_text(
        opt_string_view(p.content_type),
    ) + ",\n        response_topic:"@ + opt_str_debug_text(opt_string_view(p.response_topic))
        + ", correlation_data:"@ + opt_bytes_debug_text(crate::mqtt::common::opt_bytes_view(p.correlation_data))
        + ", user_properties:"@ + pairs_debug_text(pairs_view(p.user_properties@))
}

impl LastWillProperties {
    /// The properties as text, as `last_will_props_text` says.
    pub fn to_string(&self) -> (r: String)
        ensures
            r@ == last_will_props_text(*self),
    {
        let a = concat("delay_interval:", debug_opt_u32(self.delay_interval).as_str());
        let b = concat(a.as_str(), ", payload_format_indicator:");
        let c = concat(b.as_str(), debug_opt_u8(self.payload_format_indicator).as_str());
        let d = concat(c.as_str(), ", message_expiry_interval:");
        let e = concat(d.as_str(), debug_opt_u32(self.message_expiry_interval).as_str());
        let f = concat(e.as_str(), ", content_type:");
        let g = concat(f.as_str(), debug_opt_string(&self.content_type).as_str());
        let h = concat(g.as_str(), ",\n        response_topic:");
        let i = concat(h.as_str(), debug_opt_string(&self.response_topic).as_str());
        let j = concat(i.as_str(), ", correlation_data:");
        let k = concat(j.as_str(), debug_opt_bytes(&self.correlation_data).as_str());
        let l = concat(k.as_str(), ", user_properties:");
        concat(l.as_str(), debug_pairs(&self.user_properties).as_str())
    }
}

/// A CONNACK as text.
pub open spec fn connack_text(a: ConnAck) -> Seq<char> {
    "session_present:"@ + bool_text(a.session_present) + ", return_code:"@ + connect_code_name(a.code) + " "@
}

impl ConnAck {
    /// The CONNACK as text, as `connack_text` says.
    pub fn to_string(&self) -> (r: String)
        ensures
            r@ == connack_text(*self),
    {
        let a = concat("session_present:", bool_str(self.session_present));
        let b = concat(a.as_str(), ", return_code:");
        let c = concat(b.as_str(), connect_code_name_str(self.code));
        concat(c.as_str(), " ")
    }
}

/// The first part of the properties of a CONNACK as text, to the user
/// properties.
pub open spec fn connack_props_text_head(p: ConnAckProperties) -> Seq<char> {
    "session_expiry_interval:"@ + opt_num_debug_text(nat_of_u32(p.session_expiry_interval)) + ", receive_max:"@
        + opt_num_debug_text(nat_of_u16(p.receive_max)) + ", max_qos:"@ + opt_num_debug_text(
        nat_of_u8(p.max_qos),
    ) + ", retain_available:"@ + opt_num_debug_text(nat_of_u8(p.retain_available)) + ", max_packet_size:"@
        + opt_num_debug_text(nat_of_u32(p.max_packet_size)) + "\n        assigned_client_identifier:"@
        + opt_str_debug_text(opt_string_view(p.assigned_client_identifier)) + ", topic_alias_max:"@
        + opt_num_debug_text(nat_of_u16(p.topic_alias_max)) + ", reason_string:"@ + opt_str_debug_text(
        opt_string_view(p.reason_string),
    ) + ", user_properties:"@ + pairs_debug_text(pairs_view(p.user_properties@))
}

/// The rest of the properties of a CONNACK as text.
pub open spec fn connack_props_text_tail(p: ConnAckProperties) -> Seq<char> {
    ",\n        wildcard_subscription_available:"@ + opt_num_debug_text(nat_of_u8(p.wildcard_subscription_available))
        + ", subscription_identifiers_available:"@ + opt_num_debug_text(
        nat_of_u8(p.subscription_identifiers_available),
    ) + ",\n        shared_subscription_available:"@ + opt_num_debug_text(nat_of_u8(p.shared_subscription_available))
        + ", server_keep_alive:"@ + opt_num_debug_text(nat_of_u16(p.server_keep_alive))
        + ", response_information:"@ + opt_str_debug_text(opt_string_view(p.response_information))
        + "\n        server_reference:"@ + opt_str_debug_text(opt_string_view(p.server_reference))
        + ", authentication_method:"@ + opt_str_debug_text(opt_string_view(p.authentication_method))
        + ", authentication_data:"@ + opt_bytes_debug_text(crate::mqtt::common::opt_bytes_view(p.authentication_data))
}

/// The properties of a CONNACK as text.
pub open spec fn connack_props_text(p: ConnAckProperties) -> Seq<char> {
    connack_props_text_head(p) + connack_props_text_tail(p)
}

impl ConnAckProperties {
    fn text_head(&self) -> (r: String)
        ensures
            r@ == connack_props_text_head(*self),
    {
        let a = concat("session_expiry_interval:", debug_opt_u32(self.session_expiry_interval).as_str());
        let b = concat(a.as_str(), ", receive_max:");
        let c = concat(b.as_str(), debug_opt_u16(self.receive_max).as_str());
        let d = concat(c.as_str(), ", max_qos:");
        let e = concat(d.as_str(), debug_opt_u8(self.max_qos).as_str());
        let f = concat(e.as_str(), ", retain_available:");
        let g = concat(f.as_str(), debug_opt_u8(self.retain_available).as_str());
        let h = concat(g.as_str(), ", max_packet_size:");
        let i = concat(h.as_str(), debug_opt_u32(self.max_packet_size).as_str());
        let j = concat(i.as_str(), "\n        assigned_client_identifier:");
        let k = concat(j.as_str(), debug_opt_string(&self.assigned_client_identifier).as_str());
        let l = concat(k.as_str(), ", topic_alias_max:");
        let m = concat(l.as_str(), debug_opt_u16(self.topic_alias_max).as_str());
        let n = concat(m.as_str(), ", reason_string:");
        let o = concat(n.as_str(), debug_opt_string(&self.reason_string).as_str());
        let q = concat(o.as_str(), ", user_properties:");
        concat(q.as_str(), debug_pairs(&self.user_properties).as_str())
    }

    fn text_tail(&self) -> (r: String)
        ensures
            r@ == connack_props_text_tail(*self),
    {
        let a = concat(
            ",\n        wildcard_subscription_available:",
            debug_opt_u8(self.wildcard_subscription_available).as_str(),
        );
        let b = concat(a.as_str(), ", subscription_identifiers_available:");
        let c = concat(b.as_str(), debug_opt_u8(self.subscription_identifiers_available).as_str());
        let d = concat(c.as_str(), ",\n        shared_subscription_available:");
        let e = concat(d.as_str(), debug_opt_u8(self.shared_subscription_available).as_str());
        let f = concat(e.as_str(), ", server_keep_alive:");
        let g = concat(f.as_str(), debug_opt_u16(self.server_keep_alive).as_str());
        let h = concat(g.as_str(), ", response_information:");
        let i = concat(h.as_str(), debug_opt_string(&self.response_information).as_str());
        let j = concat(i.as_str(), "\n        server_reference:");
        let k = concat(j.as_str(), debug_opt_string(&self.server_reference).as_str());
        let l = concat(k.as_str(), ", authentication_method:");
        let m = concat(l.as_str(), debug_opt_string(&self.authentication_method).as_str());
        let n = concat(m.as_str(), ", authentication_data:");
        concat(n.as_str(), debug_opt_bytes(&self.authentication_data).as_str())
    }

    /// The properties as text, as `connack_props_text` says.
    pub fn to_string(&self) -> (r: String)
        ensures
            r@ == connack_props_text(*self),
    {
        let h = self.text_head();
        let t = self.text_tail();
        concat(h.as_str(), t.as_str())
    }
}

/// A PUBLISH as text.
pub open spec fn publish_text(p: Publish) -> Seq<char> {
    "topic:"@ + bytes_debug_text(bytes_seq(p.topic)) + ", payload:"@ + bytes_debug_text(bytes_seq(p.payload))
        + ", dup:"@ + bool_text(p.dup) + ", qos:"@ + qos_name(p.qos) + ", message_identifier:"@ + decimal_chars(
        p.pkid as nat,
    ) + ", retain:"@ + bool_text(p.retain) + " "@
}

impl Publish {
    /// The PUBLISH as text, as `publish_text` says.
    pub fn to_string(&self) -> (r: String)
        ensures
            r@ == publish_text(*self),
    {
        let a = concat("topic:", debug_bytes(&self.topic).as_str());
        let b = concat(a.as_str(), ", payload:");
        let c = concat(b.as_str(), debug_bytes(&self.payload).as_str());
        let d = concat(c.as_str(), ", dup:");
        let e = concat(d.as_str(), bool_str(self.dup));
        let f = concat(e.as_str(), ", qos:");
        let g = concat(f.as_str(), qos_name_str(self.qos));
        let h = concat(g.as_str(), ", message_identifier:");
        let i = concat(h.as_str(), decimal(self.pkid as u64).as_str());
        let j = concat(i.as_str(), ", retain:");
        let k = concat(j.as_str(), bool_str(self.retain));
        concat(k.as_str(), " ")
    }
}

/// The properties of a PUBLISH as text.
pub open spec fn publish_props_text(p: PublishProperties) -> Seq<char> {
    "payload_format_indicator:"@ + opt_num_debug_text(nat_of_u8(p.payload_format_indicator))
        + ", message_expiry_interval:"@ + opt_num_debug_text(nat_of_u32(p.message_expiry_interval))
        + ", topic_alias:"@ + opt_num_debug_text(nat_of_u16(p.topic_alias)) + ",\n        response_topic:"@
        + opt_str_debug_text(opt_string_view(p.response_topic)) + ", correlation_data:"@ + opt_bytes_debug_text(
        crate::mqtt::common::opt_bytes_view(p.correlation_data),
    ) + ", user_properties:"@ + pairs_debug_text(pairs_view(p.user_properties@))
        + ", subscription_identifiers:"@ + nums_debug_text(p.subscription_identifiers@) + ",\n        content_type:"@
        + opt_str_debug_text(opt_string_view(p.content_type)) + ","@
}

impl PublishProperties {
    /// The properties as text, as `publish_props_text` says.
    pub fn to_string(&self) -> (r: String)
        ensures
            r@ == publish_props_text(*self),
    {
        let a = concat("payload_format_indicator:", debug_opt_u8(self.payload_format_indicator).as_str());
        let b = concat(a.as_str(), ", message_expiry_interval:");
        let c = concat(b.as_str(), debug_opt_u32(self.message_expiry_interval).as_str());
        let d = concat(c.as_str(), ", topic_alias:");
        let e = concat(d.as_str(), debug_opt_u16(self.topic_alias).as_str());
        let f = concat(e.as_str(), ",\n        response_topic:");
        let g = concat(f.as_str(), debug_opt_string(&self.response_topic).as_str());
        let h = concat(g.as_str(), ", correlation_data:");
        let i = concat(h.as_str(), debug_opt_bytes(&self.correlation_data).as_str());
        let j = concat(i.as_str(), ", user_properties:");
        let k = concat(j.as_str(), debug_pairs(&self.user_properties).as_str());
        let l = concat(k.as_str(), ", subscription_identifiers:");
        let m = concat(l.as_str(), debug_usizes(&self.subscription_identifiers).as_str());
        let n = concat(m.as_str(), ",\n        content_type:");
        let o = concat(n.as_str(), debug_opt_string(&self.content_type).as_str());
        concat(o.as_str(), ",")
    }
}

/// A PUBREC as text.
pub open spec fn pubrec_text(a: PubRec) -> Seq<char> {
    "pkid:"@ + decimal_chars(a.pkid as nat) + ", reason:"@ + opt_name_text(
        match a.reason {
            Some(r) => Some(pubrec_reason_name(r)),
            None => None,
        },
    )
}

impl PubRec {
    /// The PUBREC as text, as `pubrec_text` says.
    pub fn to_string(&self) -> (r: String)
        ensures
            r@ == pubrec_text(*self),
    {
        let a = concat("pkid:", decimal(self.pkid as u64).as_str());
        let b = concat(a.as_str(), ", reason:");
        let n = match self.reason {
            Some(x) => Some(pubrec_reason_name_str(x)),
            None => None,
        };
        concat(b.as_str(), opt_name(n).as_str())
    }
}

/// A PUBREL as text.
pub open spec fn pubrel_text(a: PubRel) -> Seq<char> {
    "publish_identifier:"@ + decimal_chars(a.pkid as nat) + ", return_code:"@ + opt_name_text(
        match a.reason {
            Some(r) => Some(pubrel_reason_name(r)),
            None => None,
        },
    )
}

impl PubRel {
    /// The PUBREL as text, as `pubrel_text` says.
    pub fn to_string(&self) -> (r: String)
        ensures
            r@ == pubrel_text(*self),
    {
        let a = concat("publish_identifier:", decimal(self.pkid as u64).as_str());
        let b = concat(a.as_str(), ", return_code:");
        let n = match self.reason {
            Some(x) => Some(pubrel_reason_name_str(x)),
            None => None,
        };
        concat(b.as_str(), opt_name(n).as_str())
    }
}

/// A PUBCOMP as text.
pub open spec fn pubcomp_text(a: PubComp) -> Seq<char> {
    "publish_identifier:"@ + decimal_chars(a.pkid as nat) + ", return_code:"@ + opt_name_text(
        match a.reason {
            Some(r) => Some(pubcomp_reason_name(r)),
            None => None,
        },
    )
}

impl PubComp {
    /// The PUBCOMP as text, as `pubcomp_text` says.
    pub fn to_string(&self) -> (r: String)
        ensures
            r@ == pubcomp_text(*self),
    {
        let a = concat("publish_identifier:", decimal(self.pkid as u64).as_str());
        let b = concat(a.as_str(), ", return_code:");
        let n = match self.reason {
            Some(x) => Some(pubcomp_reason_name_str(x)),
            None => None,
        };
        concat(b.as_str(), opt_name(n).as_str())
    }
}

impl PubRecProperties {
    /// The properties as text, as `reason_props_text` says.
    pub fn to_string(&self) -> (r: String)
        ensures
            r@ == reason_props_text(
                (crate::mqtt::common::ReasonPropertiesView {
                    reason_string: opt_string_view(self.reason_string),
                    user_properties: pairs_view(self.user_properties@),
                }),
            ),
    {
        let a = concat("reason_string:", debug_opt_string(&self.reason_string).as_str());
        let b = concat(a.as_str(), ", user_properties:");
        concat(b.as_str(), debug_pairs(&self.user_properties).as_str())
    }
}

impl PubRelProperties {
    /// The properties as text, as `reason_props_text` says.
    pub fn to_string(&self) -> (r: String)
        ensures
            r@ == reason_props_text(self@),
    {
        let a = concat("reason_string:", debug_opt_string(&self.reason_string).as_str());
        let b = concat(a.as_str(), ", user_properties:");
        concat(b.as_str(), debug_pairs(&self.user_properties).as_str())
    }
}

impl PubCompProperties {
    /// The properties as text, as `reason_props_text` says.
    pub fn to_string(&self) -> (r: String)
        ensures
            r@ == reason_props_text(
                (crate::mqtt::common::ReasonPropertiesView {
                    reason_string: opt_string_view(self.reason_string),
                    user_properties: pairs_view(self.user_properties@),
                }),
            ),
    {
        let a = concat("reason_string:", debug_opt_string(&self.reason_string).as_str());
        let b = concat(a.as_str(), ", user_properties:");
        concat(b.as_str(), debug_pairs(&self.user_properties).as_str())
    }
}

} // verus!
