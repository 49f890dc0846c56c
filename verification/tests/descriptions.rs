use bytes::Bytes;
use protocol::mqtt::common::{
    ConnAck, ConnAckProperties, Connect, ConnectProperties, ConnectReturnCode, FixedHeader, LastWill,
    LastWillProperties, Login, PubComp, PubCompReason, PubRec, PubRecReason, PubRel, Publish,
    PublishProperties, QoS,
};
use protocol::nats::codec::NatsCodecError;

#[test]
fn test_display() {
    let login = Login {
        username: "test_username".to_string(),
        password: "test_password".to_string(),
    };

    let lastwill = LastWill {
        topic: Bytes::from("will_topic"),
        message: Bytes::from("will_message"),
        qos: QoS::AtLeastOnce,
        retain: true,
    };

    let connect = Connect {
        keep_alive: 30u16,
        client_id: "test_client_id".to_string(),
        clean_session: true,
    };

    assert_eq!(
        login.to_string(),
        "username:\"test_username\", password:\"test_password\" "
    );
    assert_eq!(
        lastwill.to_string(),
        "will_topic:b\"will_topic\", qos:AtLeastOnce, will_message:b\"will_message\", retain:true "
    );
    assert_eq!(
        connect.to_string(),
        "client_id:\"test_client_id\", clean_session:true, keep_alive:30s "
    );
}

#[test]
fn fixed_header_text_shows_the_first_byte_in_binary() {
    let h = FixedHeader {
        byte1: 0x32,
        fixed_header_len: 2,
        remaining_len: 5,
    };
    assert_eq!(
        h.to_string(),
        "Fixed_header_1st_byte:0b00110010, Fixed_header_length:2, Variable_header_length + Payload_length:5 "
    );
}

#[test]
fn connack_and_publish_texts() {
    let a = ConnAck {
        session_present: false,
        code: ConnectReturnCode::BadUserNamePassword,
    };
    assert_eq!(a.to_string(), "session_present:false, return_code:BadUserNamePassword ");
    let mut p = Publish::new(Bytes::from("a\tb"), Bytes::from(vec![0u8, 0x7f]), true);
    p.qos = QoS::ExactlyOnce;
    p.pkid = 300;
    assert_eq!(
        p.to_string(),
        "topic:b\"a\\tb\", payload:b\"\\0\\x7f\", dup:false, qos:ExactlyOnce, message_identifier:300, retain:true "
    );
}

#[test]
fn acknowledgement_texts_name_their_reasons() {
    let rec = PubRec {
        pkid: 3,
        reason: Some(PubRecReason::QuotaExceeded),
    };
    assert_eq!(rec.to_string(), "pkid:3, reason:Some(QuotaExceeded)");
    let rel = PubRel { pkid: 4, reason: None };
    assert_eq!(rel.to_string(), "publish_identifier:4, return_code:None");
    let comp = PubComp {
        pkid: 5,
        reason: Some(PubCompReason::PacketIdentifierNotFound),
    };
    assert_eq!(
        comp.to_string(),
        "publish_identifier:5, return_code:Some(PacketIdentifierNotFound)"
    );
}

#[test]
fn property_texts_list_every_field() {
    let p = PublishProperties {
        payload_format_indicator: Some(1),
        message_expiry_interval: None,
        topic_alias: Some(7),
        response_topic: Some("r".to_string()),
        correlation_data: None,
        user_properties: vec![("k".to_string(), "v".to_string())],
        subscription_identifiers: vec![1, 20],
        content_type: None,
    };
    assert_eq!(
        p.to_string(),
        "payload_format_indicator:Some(1), message_expiry_interval:None, topic_alias:Some(7),\n        response_topic:Some(\"r\"), correlation_data:None, user_properties:[(\"k\", \"v\")], subscription_identifiers:[1, 20],\n        content_type:None,"
    );
    let c = ConnectProperties::default();
    assert_eq!(
        c.to_string(),
        "session_expiry_interval:None, receive_maximum:None, max_packet_size:None, topic_alias_max:None,\n        request_response_info:None, request_problem_info:None, user_properties:[], authentication_method:None,\n        authentication_data:None"
    );
    let w = LastWillProperties {
        delay_interval: Some(10),
        ..LastWillProperties::default()
    };
    assert_eq!(
        w.to_string(),
        "delay_interval:Some(10), payload_format_indicator:None, message_expiry_interval:None, content_type:None,\n        response_topic:None, correlation_data:None, user_properties:[]"
    );
    let a = ConnAckProperties {
        max_qos: Some(1),
        authentication_data: Some(Bytes::from("d")),
        ..ConnAckProperties::default()
    };
    assert_eq!(
        a.to_string(),
        "session_expiry_interval:None, receive_max:None, max_qos:Some(1), retain_available:None, max_packet_size:None\n        assigned_client_identifier:None, topic_alias_max:None, reason_string:None, user_properties:[],\n        wildcard_subscription_available:None, subscription_identifiers_available:None,\n        shared_subscription_available:None, server_keep_alive:None, response_information:None\n        server_reference:None, authentication_method:None, authentication_data:Some(b\"d\")"
    );
}

#[test]
fn nats_error_texts() {
    assert_eq!(
        NatsCodecError::PayloadTooLarge(10).to_string(),
        "Payload too large: 10 bytes"
    );
    assert_eq!(
        NatsCodecError::UnknownCommand("FOO".to_string()).to_string(),
        "Unknown command: FOO"
    );
    let e = std::str::from_utf8(&[0xFFu8]).unwrap_err();
    assert!(NatsCodecError::InvalidUtf8(e)
        .to_string()
        .starts_with("Invalid UTF-8: "));
}
