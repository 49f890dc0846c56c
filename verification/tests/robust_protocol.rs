use protocol::placement_center::ClusterType;
use protocol::mqtt::common::MqttProtocol;
use protocol::robust::{MqttWrapperExtend, RobustMQProtocol, RobustMQWrapperExtend};

#[test]
fn mqtt_protocols_read_back_from_their_numbers() {
    for p in [RobustMQProtocol::MQTT3, RobustMQProtocol::MQTT4, RobustMQProtocol::MQTT5] {
        assert_eq!(RobustMQProtocol::from_u8(p.to_u8()), p);
        assert!(p.is_mqtt());
        assert!(!p.is_kafka());
    }
    assert_eq!(RobustMQProtocol::KAFKA.to_u8(), 0);
    assert_eq!(RobustMQProtocol::from_u8(0), RobustMQProtocol::MQTT3);
    assert_eq!(RobustMQProtocol::from_u8(9), RobustMQProtocol::MQTT3);
}

#[test]
fn protocol_names_and_kinds() {
    assert_eq!(RobustMQProtocol::MQTT5.to_str(), "MQTT5");
    assert_eq!(RobustMQProtocol::KAFKA.to_str(), "KAFKA");
    assert!(RobustMQProtocol::MQTT5.is_mqtt5());
    assert!(!RobustMQProtocol::MQTT4.is_mqtt5());
    assert!(RobustMQProtocol::KAFKA.is_kafka());
    assert!(!RobustMQProtocol::KAFKA.is_mqtt());
    assert_eq!(RobustMQProtocol::KAFKA.to_mqtt(), MqttProtocol::Mqtt3);
    assert_eq!(RobustMQProtocol::MQTT4.to_mqtt(), MqttProtocol::Mqtt4);
}

#[test]
fn wrapper_extend_reports_mqtt_level() {
    let e = RobustMQWrapperExtend::MQTT(MqttWrapperExtend { protocol_version: 5 });
    assert_eq!(e.to_mqtt_protocol(), 5);
}

#[test]
fn mqtt_versions_and_cluster_kinds_have_names() {
    assert_eq!(MqttProtocol::Mqtt3.name(), "MQTT3");
    assert_eq!(MqttProtocol::Mqtt4.name(), "MQTT4");
    assert_eq!(MqttProtocol::Mqtt5.name(), "MQTT5");
    for t in [ClusterType::BrokerServer, ClusterType::StorageEngine, ClusterType::PlacementCenter] {
        assert_eq!(ClusterType::from_str_name(t.as_str_name()), Some(t));
    }
    assert_eq!(ClusterType::StorageEngine.as_str_name(), "StorageEngine");
    assert_eq!(ClusterType::from_str_name("storageengine"), None);
}
