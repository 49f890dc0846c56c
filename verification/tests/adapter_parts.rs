use protocol::mqtt::adapter::common::control_packet_type::ControlPacketType;
use protocol::mqtt::adapter::common::protocol_level::ProtocolLevel;
use protocol::mqtt::adapter::common::qos::QoSLevel;
use protocol::mqtt::adapter::mqtt_3_1_1::fixed_header::connect::ConnectFixedHeader;
use protocol::mqtt::adapter::mqtt_3_1_1::payload::connect::ConnectPayload;
use protocol::mqtt::adapter::mqtt_3_1_1::payload::suback::{SubAckPayload, SubAckReturnCode};
use protocol::mqtt::adapter::mqtt_3_1_1::variable_header::connack::ConnAckVariableHeader;
use protocol::mqtt::adapter::mqtt_3_1_1::variable_header::connect::{
    ConnectVariableFlags, ConnectVariableHeader,
};
use protocol::mqtt::adapter::mqtt_3_1_1::variable_header::publish::PublishVariableHeader;
use protocol::mqtt::adapter::mqtt_3_1_1::variable_header::return_code::ReturnCode;

#[test]
fn connect_fixed_header_starts_empty() {
    let mut h = ConnectFixedHeader::new();
    assert_eq!(*h.control_packet_type(), ControlPacketType::Connect);
    h.set_remaining_len(26);
    assert_eq!(*h.control_packet_type(), ControlPacketType::Connect);
}

#[test]
fn connect_payload_keeps_its_fields() {
    let p = ConnectPayload::new(
        "client".to_string(),
        Some("t".to_string()),
        None,
        Some("u".to_string()),
        None,
    );
    assert_eq!(p.client_id(), "client");
    assert_eq!(p.will_topic(), Some(&"t".to_string()));
    assert_eq!(p.will_message(), None);
    assert_eq!(p.username(), Some(&"u".to_string()));
    assert_eq!(p.password(), None);
}

#[test]
fn connect_variable_header_is_mqtt_3_1_1() {
    let flags = ConnectVariableFlags::new(true, false, true, QoSLevel::AtLeastOnce, true, false);
    let h = ConnectVariableHeader::new(flags, 60);
    assert_eq!(h.protocol_name(), "MQTT");
    assert_eq!(*h.protocol_level(), ProtocolLevel::Mqtt3_1_1);
    assert_eq!(h.keep_alive(), 60);
    let f = h.connect_flags();
    assert!(f.username_flag());
    assert!(!f.password_flag());
    assert!(f.will_retain());
    assert_eq!(*f.will_qos(), QoSLevel::AtLeastOnce);
    assert!(f.will_flag());
    assert!(!f.clean_session());
}

#[test]
fn connack_and_suback_and_publish_parts() {
    let c = ConnAckVariableHeader::new(true, ReturnCode::NotAuthorized);
    assert!(c.session_present());
    assert_eq!(*c.return_code(), ReturnCode::NotAuthorized);
    let s = SubAckPayload::new(vec![SubAckReturnCode::SuccessQoS1, SubAckReturnCode::Failure]);
    assert_eq!(
        s.return_codes(),
        &vec![SubAckReturnCode::SuccessQoS1, SubAckReturnCode::Failure]
    );
    let p = PublishVariableHeader::new("a/b".to_string(), Some(7));
    assert_eq!(p.topic_name(), "a/b");
    assert_eq!(p.packet_identifier(), Some(7));
}
