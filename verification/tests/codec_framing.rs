use bytes::{Bytes, BytesMut};
use protocol::mqtt::common::{
    MqttPacket, PingReq, PubAck, PubAckReason, Publish, QoS, Subscribe, Filter, RetainHandling,
};
use protocol::mqtt::codec::{MqttCodec, MqttPacketWrapper};
use protocol::mqtt::common::{Connect, Login};
use protocol::mqtt::mqttv4::codec::Mqtt4Codec;
use protocol::mqtt::mqttv5::codec::Mqtt5Codec;

#[test]
fn v4_packets_written_back_to_back_are_read_one_by_one() {
    let mut codec = Mqtt4Codec::new();
    let mut buffer = BytesMut::new();
    let mut publish = Publish::new(Bytes::from("t/1"), Bytes::from("payload"), false);
    publish.qos = QoS::AtLeastOnce;
    publish.pkid = 3;
    let subscribe = Subscribe {
        packet_identifier: 4,
        filters: vec![Filter {
            path: "t/#".to_string(),
            qos: QoS::AtLeastOnce,
            no_local: false,
            preserve_retain: false,
            retain_handling: RetainHandling::OnEverySubscribe,
        }],
    };
    codec.encode(MqttPacket::Publish(publish.clone(), None), &mut buffer).unwrap();
    codec.encode(MqttPacket::Subscribe(subscribe.clone(), None), &mut buffer).unwrap();
    codec.encode(MqttPacket::PingReq(PingReq), &mut buffer).unwrap();

    assert_eq!(
        codec.decode(&mut buffer).unwrap(),
        Some(MqttPacket::Publish(publish, None))
    );
    assert_eq!(
        codec.decode(&mut buffer).unwrap(),
        Some(MqttPacket::Subscribe(subscribe, None))
    );
    assert_eq!(
        codec.decode(&mut buffer).unwrap(),
        Some(MqttPacket::PingReq(PingReq))
    );
    assert!(buffer.is_empty());
}

#[test]
fn v5_acknowledgement_with_reason_is_framed_whole() {
    let mut codec = Mqtt5Codec::new();
    let mut buffer = BytesMut::new();
    let puback = PubAck {
        pkid: 11,
        reason: Some(PubAckReason::QuotaExceeded),
    };
    codec.encode(MqttPacket::PubAck(puback, None), &mut buffer).unwrap();
    codec.encode(MqttPacket::PingReq(PingReq), &mut buffer).unwrap();
    // fixed header, identifier, reason code, property length 0
    assert_eq!(&buffer[..6], &[0x40, 4, 0, 11, 151, 0][..]);
    assert_eq!(
        codec.decode(&mut buffer).unwrap(),
        Some(MqttPacket::PubAck(puback, None))
    );
    assert_eq!(
        codec.decode(&mut buffer).unwrap(),
        Some(MqttPacket::PingReq(PingReq))
    );
    assert!(buffer.is_empty());
}

#[test]
fn codec_reads_back_the_connect_it_wrote_and_keeps_level_4() {
    let mut codec = MqttCodec::new(None);
    let connect = Connect {
        keep_alive: 30,
        client_id: "client-1".to_string(),
        clean_session: true,
    };
    let login = Login {
        username: "user".to_string(),
        password: "secret".to_string(),
    };
    let packet = MqttPacket::Connect(4, connect, None, None, None, Some(login));
    let mut buffer = BytesMut::new();
    codec
        .encode_data(
            MqttPacketWrapper {
                protocol_version: 4,
                packet: packet.clone(),
            },
            &mut buffer,
        )
        .unwrap();
    assert!(codec.can_decode(&buffer));
    assert_eq!(codec.decode_data(&mut buffer).unwrap(), Some(packet));
    assert_eq!(codec.protocol_version, Some(4));
    assert!(buffer.is_empty());
}

#[test]
fn a_used_v4_codec_decodes_as_a_fresh_one() {
    let mut used = Mqtt4Codec::new();
    let mut first = BytesMut::new();
    used.encode(MqttPacket::PingReq(PingReq), &mut first).unwrap();
    used.decode(&mut first).unwrap();
    let mut fresh = Mqtt4Codec::default();
    let mut a = BytesMut::new();
    let mut b = BytesMut::new();
    used.encode(MqttPacket::PubAck(PubAck { pkid: 9, reason: None }, None), &mut a).unwrap();
    fresh.encode(MqttPacket::PubAck(PubAck { pkid: 9, reason: None }, None), &mut b).unwrap();
    assert_eq!(a, b);
    assert_eq!(used.decode(&mut a).unwrap(), fresh.decode(&mut b).unwrap());
    assert_eq!(a, b);
}
