use bytes::{Buf, Bytes, BytesMut};
use protocol::mqtt::common::{
    Auth, AuthProperties, AuthReason, PubAckProperties,
    parse_fixed_header, Connect, Disconnect, Filter, FixedHeader, PubAck, PubAckReason, PubComp,
    PubCompReason, PubRec, PubRecReason, PubRel, PubRelProperties, PubRelReason, Publish,
    PublishProperties, QoS,
    RetainHandling, Subscribe, UnsubAck, Unsubscribe,
};
use protocol::mqtt::mqttv4::{
    connect, disconnect, puback, pubcomp, pubrec, pubrel, subscribe, unsuback, unsubscribe,
};
use protocol::mqtt::mqttv4::subscribe::filter;
use protocol::mqtt::mqttv5;

#[test]
fn test_connect() {
    let client_id = String::from("test_client_id");
    let client_id_length = client_id.len();
    let mut buff_write = BytesMut::new();
    let login = None;
    let lastwill = None;

    let connect: Connect = Connect {
        keep_alive: 30u16,
        client_id,
        clean_session: true,
    };
    connect::write(&connect, &login, &lastwill, &mut buff_write).unwrap();

    assert_eq!(buff_write.len(), 28);
    assert_eq!(buff_write[0], 0b0001_0000);
    assert_eq!(buff_write[1], 26);
    assert_eq!(buff_write[2], 0);
    assert_eq!(buff_write[3], 4);
    assert_eq!(&buff_write[4..8], b"MQTT");
    assert_eq!(buff_write[8], 4);
    assert_eq!(buff_write[9], 0b00000010);
    assert_eq!(u16::from_be_bytes([buff_write[10], buff_write[11]]), 30u16);
    assert_eq!(
        u16::from_be_bytes([buff_write[12], buff_write[13]]),
        client_id_length as u16
    );
    assert_eq!(&buff_write[14..], b"test_client_id");

    let fixheader: FixedHeader = parse_fixed_header(&buff_write[..]).unwrap();
    assert_eq!(fixheader.byte1, 0b0001_0000);
    assert_eq!(fixheader.fixed_header_len, 2);
    assert!(fixheader.remaining_len == 26);
    let (_, x, _, _) =
        connect::read(fixheader, buff_write.copy_to_bytes(buff_write.len())).unwrap();
    assert_eq!(x.client_id, "test_client_id");
    assert_eq!(x.keep_alive, 30);
    assert!(x.clean_session);
}

#[test]
fn test_disconnect() {
    let mut buffer = BytesMut::new();
    let disconnect = Disconnect::mqttv4();
    disconnect::write(&disconnect, &mut buffer).unwrap();
    assert_eq!(buffer.get_u8(), 0b11100000);
}

#[test]
fn test_puback() {
    let mut buffer: BytesMut = BytesMut::new();
    let puback: PubAck = PubAck {
        pkid: 1,
        reason: Some(PubAckReason::Success),
    };
    puback::write(&puback, &mut buffer).unwrap();

    let fixed_header: FixedHeader = parse_fixed_header(&buffer[..]).unwrap();
    assert_eq!(fixed_header.byte1, 0b01000000);
    let puback_read = puback::read(fixed_header, buffer.copy_to_bytes(buffer.len())).unwrap();
    assert_eq!(puback_read.pkid, puback.pkid);
    assert_eq!(puback_read.reason, puback.reason);
    assert_eq!(puback.to_string(), puback_read.to_string());
}

#[test]
fn test_pubcomp() {
    let mut buffer = BytesMut::new();
    let pubcomp = PubComp {
        pkid: 5,
        reason: Some(PubCompReason::Success),
    };
    pubcomp::write(&pubcomp, &mut buffer).unwrap();

    let fixed_header: FixedHeader = parse_fixed_header(&buffer[..]).unwrap();
    let pubcomp_read = pubcomp::read(fixed_header, buffer.copy_to_bytes(buffer.len())).unwrap();
    assert_eq!(fixed_header.byte1, 0b01110000);
    assert_eq!(fixed_header.remaining_len, 2);
    assert_eq!(pubcomp_read.pkid, 5u16);
}

#[test]
fn test_pubrec() {
    let mut buffer = BytesMut::new();
    let pubrec = PubRec {
        pkid: 5,
        reason: Some(PubRecReason::Success),
    };
    pubrec::write(&pubrec, &mut buffer).unwrap();

    let fixed_header: FixedHeader = parse_fixed_header(&buffer[..]).unwrap();
    let pubrec_read = pubrec::read(fixed_header, buffer.copy_to_bytes(buffer.len())).unwrap();
    assert_eq!(fixed_header.byte1, 0b01010000);
    assert_eq!(fixed_header.remaining_len, 2);
    assert_eq!(pubrec_read.pkid, 5u16);
}

#[test]
fn test_pubrel() {
    let mut buffer = BytesMut::new();
    let pubrel = PubRel {
        pkid: 5,
        reason: Some(PubRelReason::Success),
    };
    pubrel::write(&pubrel, &mut buffer).unwrap();

    let fixed_header: FixedHeader = parse_fixed_header(&buffer[..]).unwrap();
    let pubrel_read = pubrel::read(fixed_header, buffer.copy_to_bytes(buffer.len())).unwrap();
    assert_eq!(fixed_header.byte1, 0b01100010);
    assert_eq!(fixed_header.remaining_len, 2);
    assert_eq!(pubrel_read.pkid, 5u16);
}

fn sub_topic_filter() -> Filter {
    Filter {
        path: "test_sub_topic".to_string(),
        qos: QoS::AtLeastOnce,
        no_local: false,
        preserve_retain: false,
        retain_handling: RetainHandling::OnEverySubscribe,
    }
}

#[test]
fn test_subscribe_filter() {
    let mut buffer = BytesMut::new();
    let topic_filter = sub_topic_filter();
    filter::write(&topic_filter, &mut buffer);

    let topic_filters_read: Vec<Filter> =
        filter::read(&mut buffer.copy_to_bytes(buffer.len())).unwrap();
    for i in &topic_filters_read {
        assert_eq!(i.path, "test_sub_topic");
        assert_eq!(i.qos, QoS::AtLeastOnce);
    }
}

#[test]
fn test_subscribe() {
    let mut buffer = BytesMut::new();
    let vec = vec![sub_topic_filter()];
    let subscribe: Subscribe = Subscribe {
        packet_identifier: 5u16,
        filters: vec,
    };
    subscribe::write(&subscribe, &mut buffer).unwrap();

    let fixed_header: FixedHeader = parse_fixed_header(&buffer[..]).unwrap();
    assert_eq!(fixed_header.byte1, 0b1000_0010);
    assert_eq!(fixed_header.fixed_header_len, 2);
    assert_eq!(fixed_header.remaining_len, 19);
    let subscribe_read: Subscribe =
        subscribe::read(fixed_header, buffer.copy_to_bytes(buffer.len())).unwrap();
    assert_eq!(subscribe_read.packet_identifier, 5u16);
    assert_eq!(subscribe_read.filters.len(), 1);
}

#[test]
fn test_unsuback() {
    let mut buffer = BytesMut::new();
    let unsuback = UnsubAck {
        pkid: 5u16,
        reasons: vec![],
    };
    unsuback::write(&unsuback, &mut buffer).unwrap();

    let fixed_header: FixedHeader = parse_fixed_header(&buffer[..]).unwrap();
    assert_eq!(fixed_header.byte1, 0b1011_0000);
    assert_eq!(fixed_header.fixed_header_len, 2);
    assert_eq!(fixed_header.remaining_len, 2);
    let unsuback = unsuback::read(fixed_header, buffer.copy_to_bytes(buffer.len())).unwrap();
    assert_eq!(unsuback.pkid, 5u16);
}

#[test]
fn test_unsubscribe() {
    let mut buffer = BytesMut::new();
    let mut vec = Vec::new();
    vec.push("test/topic1".to_string());
    vec.push("test/topic2".to_string());
    let unsubscribe: Unsubscribe = Unsubscribe {
        pkid: 5u16,
        filters: vec,
    };
    unsubscribe::write(&unsubscribe, &mut buffer).unwrap();

    let fixed_header: FixedHeader = parse_fixed_header(&buffer[..]).unwrap();
    assert_eq!(fixed_header.byte1, 0b1010_0010);
    assert_eq!(fixed_header.fixed_header_len, 2);
    assert_eq!(fixed_header.remaining_len, 28);
    let unsubscribe_read: Unsubscribe =
        unsubscribe::read(fixed_header, buffer.copy_to_bytes(buffer.len())).unwrap();
    assert_eq!(unsubscribe_read.pkid, 5u16);
    assert_eq!(unsubscribe_read.filters.len(), 2);
}

#[test]
fn test_pubrel_v5() {
    let mut buffer = BytesMut::new();
    let pubrel = PubRel {
        pkid: 20u16,
        reason: Some(PubRelReason::Success),
    };
    let vec = vec![("username".to_string(), "Justin".to_string())];
    let properties = PubRelProperties {
        reason_string: Some(String::from("Success")),
        user_properties: vec,
    };
    mqttv5::pubrel::write(&pubrel, &Some(properties), &mut buffer).unwrap();

    let fixed_header: FixedHeader = parse_fixed_header(&buffer[..]).unwrap();
    assert_eq!(fixed_header.byte1, 0b0110_0010);
    assert_eq!(fixed_header.fixed_header_len, 2);
    assert_eq!(fixed_header.remaining_len, 33);

    let (x, y) = mqttv5::pubrel::read(fixed_header, buffer.copy_to_bytes(buffer.len())).unwrap();
    assert_eq!(x.pkid, 20);
    assert_eq!(x.reason.unwrap(), PubRelReason::Success);
    let pubrel_properties = y.unwrap();
    assert_eq!(pubrel_properties.reason_string, Some("Success".to_string()));
    assert_eq!(
        pubrel_properties.user_properties.first(),
        Some(&("username".to_string(), "Justin".to_string()))
    );
}

#[test]
fn connect_with_will_reads_back_will_and_no_login() {
    let mut buffer = BytesMut::new();
    let connect = Connect {
        keep_alive: 10,
        client_id: "c1".to_string(),
        clean_session: false,
    };
    let will = protocol::mqtt::common::LastWill {
        topic: Bytes::from("will_topic"),
        message: Bytes::from("will_message"),
        qos: QoS::AtLeastOnce,
        retain: true,
    };
    connect::write(&connect, &None, &Some(will), &mut buffer).unwrap();
    let fixed_header = parse_fixed_header(&buffer[..]).unwrap();
    let (level, c, login, last_will) =
        connect::read(fixed_header, buffer.copy_to_bytes(buffer.len())).unwrap();
    assert_eq!(level, 4);
    assert_eq!(c.client_id, "c1");
    assert!(!c.clean_session);
    let lw = last_will.unwrap();
    assert_eq!(&lw.topic[..], b"will_topic");
    assert_eq!(&lw.message[..], b"will_message");
    assert_eq!(lw.qos, QoS::AtLeastOnce);
    assert!(lw.retain);
    assert!(login.is_none());
}

#[test]
fn puback_text_names_reason() {
    let p = PubAck {
        pkid: 42,
        reason: Some(PubAckReason::QuotaExceeded),
    };
    assert_eq!(p.to_string(), "pkid:42, reason:Some(QuotaExceeded)");
    let q = PubAck { pkid: 0, reason: None };
    assert_eq!(q.to_string(), "pkid:0, reason:None");
}

#[test]
fn fixed_header_needs_a_whole_remaining_length() {
    // 0x30 then a continuation byte with nothing after it
    assert!(parse_fixed_header(&[0x30u8, 0x80u8][..]).is_err());
}

#[test]
fn test_publish_v5() {
    let mut buffer: BytesMut = BytesMut::new();
    let topic_name: Bytes = Bytes::from("test_topic");
    let payload_value: Bytes = Bytes::from("test_payload");
    let retain_flag: bool = false;
    let mut publish: Publish = Publish::new(topic_name, payload_value, retain_flag);
    publish.qos = QoS::AtLeastOnce;
    publish.dup = true;
    publish.pkid = 15u16;

    let pub_properties: PublishProperties = PublishProperties {
        payload_format_indicator: Some(1u8),
        message_expiry_interval: Some(30u32),
        topic_alias: Some(20u16),
        response_topic: Some(String::from("response_topic")),
        correlation_data: None,
        user_properties: Vec::new(),
        subscription_identifiers: Vec::new(),
        content_type: Some("String".to_string()),
    };

    // test write function of publish in MQTT v5
    let _ = mqttv5::publish::write(&publish, &Some(pub_properties), &mut buffer);

    // test the fixed_header part
    let fixed_header: FixedHeader = parse_fixed_header(&buffer[..]).unwrap();
    assert_eq!(fixed_header.byte1, 0b00111010);
    assert_eq!(fixed_header.fixed_header_len, 2);
    assert_eq!(fixed_header.remaining_len, 62);

    // test the read function of publish packet and check the result of write function in MQTT v5
    let (x, y) =
        mqttv5::publish::read(fixed_header, buffer.copy_to_bytes(buffer.len())).unwrap();
    assert_eq!(x.dup, true);
    assert_eq!(x.qos, QoS::AtLeastOnce);
    assert_eq!(x.pkid, 15);
    assert_eq!(x.topic, "test_topic");
    assert_eq!(x.payload, "test_payload");
    assert_eq!(x.retain, false);

    let pub_properties_read = y.unwrap();
    assert_eq!(pub_properties_read.payload_format_indicator, Some(1u8));
    assert_eq!(pub_properties_read.message_expiry_interval, Some(30u32));
    assert_eq!(pub_properties_read.topic_alias, Some(20u16));
    assert_eq!(
        pub_properties_read.response_topic,
        Some("response_topic".to_string())
    );
    assert_eq!(pub_properties_read.content_type, Some("String".to_string()));
}

#[test]
fn publish_v5_without_properties_writes_a_zero_length() {
    let mut buffer = BytesMut::new();
    let publish = Publish::new(Bytes::from("a/b"), Bytes::from("hi"), true);
    let n = mqttv5::publish::write(&publish, &None, &mut buffer).unwrap();
    // topic 2 + 3, property length 1, payload 2
    assert_eq!(&buffer[..], &[0b0011_0001, 8, 0, 3, b'a', b'/', b'b', 0, b'h', b'i'][..]);
    assert_eq!(n, 10);
    let fixed_header = parse_fixed_header(&buffer[..]).unwrap();
    let (p, props) =
        mqttv5::publish::read(fixed_header, buffer.copy_to_bytes(buffer.len())).unwrap();
    assert!(props.is_none());
    assert_eq!(p.topic, "a/b");
    assert_eq!(p.payload, "hi");
    assert_eq!(p.pkid, 0);
    assert!(p.retain);
}

#[test]
fn publish_v5_with_qos_and_zero_pkid_is_refused() {
    let mut buffer = BytesMut::new();
    let mut publish = Publish::new(Bytes::from("t"), Bytes::from("p"), false);
    publish.qos = QoS::ExactlyOnce;
    let r = mqttv5::publish::write(&publish, &None, &mut buffer);
    assert!(matches!(r, Err(protocol::mqtt::common::Error::PacketIdZero)));
}

#[test]
fn publish_v5_user_properties_and_subscription_ids_read_back() {
    let mut buffer = BytesMut::new();
    let mut publish = Publish::new(Bytes::from("t"), Bytes::from("data"), false);
    publish.qos = QoS::AtLeastOnce;
    publish.pkid = 7;
    let props = PublishProperties {
        payload_format_indicator: None,
        message_expiry_interval: None,
        topic_alias: None,
        response_topic: None,
        correlation_data: Some(Bytes::from("cd")),
        user_properties: vec![("k".to_string(), "v".to_string())],
        subscription_identifiers: vec![200],
        content_type: None,
    };
    mqttv5::publish::write(&publish, &Some(props), &mut buffer).unwrap();
    let fixed_header = parse_fixed_header(&buffer[..]).unwrap();
    let (p, read) =
        mqttv5::publish::read(fixed_header, buffer.copy_to_bytes(buffer.len())).unwrap();
    let read = read.unwrap();
    assert_eq!(p.pkid, 7);
    assert_eq!(p.payload, "data");
    assert_eq!(read.correlation_data, Some(Bytes::from("cd")));
    assert_eq!(read.user_properties, vec![("k".to_string(), "v".to_string())]);
    assert_eq!(read.subscription_identifiers, vec![200]);
}

#[test]
fn publish_v5_unknown_property_is_an_error() {
    // PUBLISH QoS 0, topic "t", properties of length 2 holding identifier 17
    // (session expiry), which a PUBLISH does not carry.
    let bytes = Bytes::from(vec![0x30u8, 6, 0, 1, b't', 2, 17, 0]);
    let fixed_header = parse_fixed_header(&bytes[..]).unwrap();
    let r = mqttv5::publish::read(fixed_header, bytes);
    assert!(matches!(
        r,
        Err(protocol::mqtt::common::Error::InvalidPropertyType(17))
    ));
}

#[test]
fn test_publish() {
    let mut buffer: BytesMut = BytesMut::new();
    let topic_name: Bytes = Bytes::from("test_topic");
    let payload_value: Bytes = Bytes::from("test_payload");
    let retain_flag: bool = false;
    let publish: Publish = Publish::new(topic_name, payload_value, retain_flag);
    // test the write function of publish packet
    let _ = protocol::mqtt::mqttv4::publish::write(&publish, &mut buffer);

    // test the read function of publish packet and check the result of write function
    let fixed_header: FixedHeader = parse_fixed_header(&buffer[..]).unwrap();
    assert_eq!(fixed_header.byte1, 0b00110000);
    assert_eq!(fixed_header.fixed_header_len, 2);
    assert_eq!(fixed_header.remaining_len, 24);
    let publish_msg: Publish = protocol::mqtt::mqttv4::publish::read(
        fixed_header,
        buffer.copy_to_bytes(buffer.len()),
    )
    .unwrap();
    assert_eq!(publish_msg.topic, "test_topic");
    assert_eq!(publish_msg.payload, "test_payload");
}

#[test]
fn test_auth_v5() {
    let mut buffer = BytesMut::new();
    let auth = Auth {
        reason: Some(AuthReason::ContinueAuthentication),
    };

    let authentication_method: String = "SCRAM-SHA-256".to_string();
    let authentication_data: Bytes = Bytes::from("client-first-data");
    let user_properties: Vec<(String, String)> = vec![
        ("username".into(), "Justin".into()),
        ("tag".to_string(), "middleware".to_string()),
    ];

    let properties = AuthProperties {
        authentication_method: Some(authentication_method),
        authentication_data: Some(authentication_data),
        reason_string: Some(String::from("Not Success")),
        user_properties,
    };

    // test the write function of Auth in v5
    mqttv5::auth::write(&auth, &Some(properties.clone()), &mut buffer).unwrap();

    // test the fixed_header part
    let fixed_header: FixedHeader = parse_fixed_header(&buffer[..]).unwrap();
    assert_eq!(fixed_header.byte1, 0b1111_0000);
    assert_eq!(fixed_header.fixed_header_len, 2);
    assert_eq!(fixed_header.remaining_len, 88);

    // test the read function of the packet and check the result of write function in MQTT v5
    let (auth_read, y) =
        mqttv5::auth::read(fixed_header, buffer.copy_to_bytes(buffer.len())).unwrap();
    assert_eq!(
        auth_read.reason.unwrap(),
        AuthReason::ContinueAuthentication
    );

    let auth_properties = y.unwrap();
    assert_eq!(
        auth_properties.reason_string,
        Some("Not Success".to_string())
    );
    assert_eq!(
        auth_properties.user_properties.first(),
        Some(&("username".to_string(), "Justin".to_string()))
    );

    // test the text of the packet and its properties
    assert_eq!(auth.to_string(), auth_read.to_string());
    assert_eq!(properties.to_string(), auth_properties.to_string());
}

#[test]
fn test_puback_v5() {
    let mut buffer = BytesMut::new();
    let puback = PubAck {
        pkid: 20u16,
        reason: Some(PubAckReason::NotAuthorized),
    };

    let vec = vec![("username".to_string(), "Justin".to_string())];
    let properties = PubAckProperties {
        reason_string: Some(String::from("user authorization failed")),
        user_properties: vec,
    };

    // test the write function of PubAck in v5
    mqttv5::puback::write(&puback.clone(), &Some(properties.clone()), &mut buffer).unwrap();

    // test the fixed_header part
    let fixed_header: FixedHeader = parse_fixed_header(&buffer[..]).unwrap();
    assert_eq!(fixed_header.byte1, 0b0100_0000);
    assert_eq!(fixed_header.fixed_header_len, 2);
    assert_eq!(fixed_header.remaining_len, 51);

    // test the read function of puback packet and check the result of write function in MQTT v5
    let (pub_ack_read, option_pub_ack_properties) =
        mqttv5::puback::read(fixed_header, buffer.copy_to_bytes(buffer.len())).unwrap();
    assert_eq!(pub_ack_read.pkid, 20u16);
    assert_eq!(pub_ack_read.reason.unwrap(), PubAckReason::NotAuthorized);

    let puback_properties = option_pub_ack_properties.clone().unwrap();
    assert_eq!(
        puback_properties.reason_string,
        Some("user authorization failed".to_string())
    );
    assert_eq!(
        puback_properties.user_properties.first(),
        Some(&("username".to_string(), "Justin".to_string()))
    );

    // test the text of puback and puback_properties in v5
    assert_eq!(puback.to_string(), pub_ack_read.to_string());
    assert_eq!(properties.to_string(), puback_properties.to_string());
}

#[test]
fn auth_and_properties_text() {
    let auth = Auth {
        reason: Some(AuthReason::ReAuthenticate),
    };
    assert_eq!(auth.to_string(), "reason_code:Some(ReAuthenticate)");
    assert_eq!(Auth { reason: None }.to_string(), "reason_code:None");
    let props = AuthProperties {
        authentication_method: Some("m\"x".to_string()),
        authentication_data: Some(Bytes::from(vec![b'a', b'\n', 0xFFu8])),
        reason_string: None,
        user_properties: vec![("k".to_string(), "v".to_string()), ("a".to_string(), "b".to_string())],
    };
    assert_eq!(
        props.to_string(),
        "authentication_method:Some(\"m\\\"x\"), authentication_data:Some(b\"a\\n\\xff\"),reason_string:None, user_properties:[(\"k\", \"v\"), (\"a\", \"b\")]"
    );
    let empty = PubAckProperties {
        reason_string: None,
        user_properties: vec![],
    };
    assert_eq!(empty.to_string(), "reason_string:None, user_properties:[]");
}

#[test]
fn auth_v5_success_without_properties_is_two_bytes_and_reads_back() {
    let mut buffer = BytesMut::new();
    let auth = Auth {
        reason: Some(AuthReason::Success),
    };
    let n = mqttv5::auth::write(&auth, &None, &mut buffer).unwrap();
    assert_eq!(n, 2);
    assert_eq!(&buffer[..], &[0xF0, 0x00][..]);
    let fixed_header = parse_fixed_header(&buffer[..]).unwrap();
    let (a, p) = mqttv5::auth::read(fixed_header, buffer.copy_to_bytes(buffer.len())).unwrap();
    assert_eq!(a.reason, Some(AuthReason::Success));
    assert!(p.is_none());
}

#[test]
fn subscribe_v5_reads_back_options_and_properties() {
    let mut buffer = BytesMut::new();
    let subscribe = Subscribe {
        packet_identifier: 9,
        filters: vec![
            Filter {
                path: "a/+".to_string(),
                qos: QoS::ExactlyOnce,
                no_local: true,
                preserve_retain: false,
                retain_handling: RetainHandling::Never,
            },
            Filter {
                path: "b".to_string(),
                qos: QoS::AtMostOnce,
                no_local: false,
                preserve_retain: true,
                retain_handling: RetainHandling::OnNewSubscribe,
            },
        ],
    };
    let props = protocol::mqtt::common::SubscribeProperties {
        subscription_identifier: Some(300),
        user_properties: vec![("k".to_string(), "v".to_string())],
    };
    mqttv5::subscribe::write(&subscribe, &Some(props.clone()), &mut buffer).unwrap();
    let fixed_header = parse_fixed_header(&buffer[..]).unwrap();
    assert_eq!(fixed_header.byte1, 0x82);
    let (s, p) = mqttv5::subscribe::read(fixed_header, buffer.copy_to_bytes(buffer.len())).unwrap();
    assert_eq!(s, subscribe);
    assert_eq!(p, Some(props));
}
