use bytes::BytesMut;
use protocol::mqtt::v2::byte_adapter::byte_operations::ByteOperations;
use protocol::mqtt::v2::mqttv4::control_packet_type::ControlPacketType;
use protocol::mqtt::v2::mqttv4::fixed_header::FixedHeader;
use protocol::mqtt::v2::mqttv4::fixed_header_flags::FixedHeaderFlags;
use protocol::mqtt::v2::mqttv4::mqtt_protocol_error::MQTTProtocolError;
use protocol::mqtt::v2::mqttv4::remaining_length::remaining_length_parser;
use protocol::mqtt::v2::mqttv4::variable_header::VariableHeader;
use protocol::mqtt::v2::utils::utf::utf_8_handler;
use protocol::mqtt::v2::utils::utf::utf_8_handler::write_utf8_for_mqtt;

#[test]
fn bytes_mut_can_write_a_byte() {
    let mut bytes_mut = BytesMut::new();
    bytes_mut.write_a_byte(0xAB);
    assert_eq!(bytes_mut.bytes_len(), 1);
}

#[test]
fn bytes_mut_can_write_bytes() {
    let mut bytes_mut = BytesMut::new();
    bytes_mut.write_bytes(&[0x01, 0x02, 0x03]);
    assert_eq!(bytes_mut.bytes_len(), 3);
}

#[test]
fn bytes_mut_can_read_a_byte() {
    let mut bytes_mut = BytesMut::new();
    bytes_mut.write_a_byte(0xCD);
    assert_eq!(bytes_mut.bytes_len(), 1);
    let byte = bytes_mut.read_a_byte();
    assert_eq!(byte, Some(0xCD));
}

#[test]
fn bytes_must_can_read_bytes() {
    let mut bytes_mut = BytesMut::new();
    bytes_mut.write_bytes(&[0x01, 0x02, 0x03]);
    assert_eq!(bytes_mut.bytes_len(), 3);
    let bytes = bytes_mut.read_bytes(3);
    assert_eq!(bytes, vec![0x01, 0x02, 0x03]);
}

#[test]
fn bytes_mut_bytes_len_should_return_correct_length() {
    let mut bytes_mut = BytesMut::new();
    assert_eq!(bytes_mut.bytes_len(), 0);
    bytes_mut.write_bytes(&[0x01, 0x02, 0x03, 0x04]);
    assert_eq!(bytes_mut.bytes_len(), 4);
}

#[test]
fn bytes_mut_read_more_than_available_bytes() {
    let mut bytes_mut = BytesMut::new();
    bytes_mut.write_bytes(&[0x01, 0x02]);
    assert_eq!(bytes_mut.bytes_len(), 2);
    let bytes = bytes_mut.read_bytes(3);
    assert_eq!(bytes, vec![0x01, 0x02]);
}

#[test]
fn bytes_mut_read_a_byte_from_empty_bytes_mut_should_return_none() {
    let mut bytes_mut = BytesMut::new();
    let byte = bytes_mut.read_a_byte();
    assert!(byte.is_none());
    assert_eq!(byte, None);
}

#[test]
fn byte_mut_read_bytes_from_empty_bytes_mut_should_return_empty_vec() {
    let mut bytes_mut = BytesMut::new();
    let bytes = bytes_mut.read_bytes(5);
    assert!(bytes.is_empty());
}

#[test]
fn bytes_mut_get_available_len_should_return_correct_length() {
    let mut bytes_mut = BytesMut::new();
    bytes_mut.write_bytes(&[0x01, 0x02, 0x03]);
    assert_eq!(bytes_mut.available_size(2), 2);
    assert_eq!(bytes_mut.available_size(5), 3);
}

#[test]
fn fixed_header_can_parse_connect_packet() {
    let mut bytes_mut = BytesMut::new();
    bytes_mut.write_bytes(&[0b0001_0000, 0b0000_0010, 0b0000_0100]);
    let fixed_header = FixedHeader::parse(&mut bytes_mut).unwrap();
    assert_eq!(fixed_header.control_packet_type, ControlPacketType::Connect);
    assert_eq!(
        fixed_header.fixed_header_reserve_flags,
        FixedHeaderFlags::Connect
    );
    assert_eq!(fixed_header.remaining_length, 2);
    assert_eq!(bytes_mut.read_a_byte().unwrap(), 0b0000_0100);
}

#[test]
fn fixed_header_can_parse_publish_packet() {
    let mut bytes_mut = BytesMut::new();
    bytes_mut.write_bytes(&[0b0011_1101, 0b0000_0011, 0b0000_0101, 0b0000_0110]);
    let fixed_header = FixedHeader::parse(&mut bytes_mut).unwrap();
    assert_eq!(fixed_header.control_packet_type, ControlPacketType::Publish);
    assert_eq!(
        fixed_header.fixed_header_reserve_flags,
        FixedHeaderFlags::Publish {
            dup: true,
            qos: 2,
            retain: true
        }
    );
    assert_eq!(fixed_header.remaining_length, 3);
    assert_eq!(bytes_mut.read_a_byte().unwrap(), 0b0000_0101);
}

#[test]
fn fixe_header_parse_fails_on_short_packet() {
    let mut bytes_mut = BytesMut::new();
    bytes_mut.write_bytes(&[0b0001_0000]);
    let result = FixedHeader::parse(&mut bytes_mut);
    assert!(result.is_err());
    assert!(matches!(
        result.err().unwrap(),
        MQTTProtocolError::PacketTooShort
    ));
}

#[test]
fn remaining_length_one_byte_is_64() {
    let mut bytes_mut = bytes::BytesMut::new();
    bytes_mut.write_a_byte(0b0100_0000);

    let value = remaining_length_parser::parse(&mut bytes_mut).unwrap();
    assert_eq!(value, 64);
}

#[test]
fn remaining_length_min_one_byte_is_0() {
    let mut bytes_mut = bytes::BytesMut::new();
    bytes_mut.write_a_byte(0x00);

    let value = remaining_length_parser::parse(&mut bytes_mut).unwrap();
    assert_eq!(value, 0);
}

#[test]
fn remaining_length_max_one_byte_is_127() {
    let mut bytes_mut = bytes::BytesMut::new();
    bytes_mut.write_a_byte(0x7F);

    let value = remaining_length_parser::parse(&mut bytes_mut).unwrap();
    assert_eq!(value, 127);
}

#[test]
fn remaining_length_two_bytes_321() {
    let mut bytes_mut = bytes::BytesMut::new();
    bytes_mut.write_a_byte(0b11000001);
    bytes_mut.write_a_byte(0b00000010);

    let value = remaining_length_parser::parse(&mut bytes_mut).unwrap();
    assert_eq!(value, 321);
}

#[test]
fn remaining_length_min_two_bytes_is_128() {
    let mut bytes_mut = bytes::BytesMut::new();
    bytes_mut.write_a_byte(0x80); // 0x80
    bytes_mut.write_a_byte(0x01); // 0x01

    let value = remaining_length_parser::parse(&mut bytes_mut).unwrap();
    assert_eq!(value, 128);
}

#[test]
fn remaining_length_max_two_bytes_is_16383() {
    let mut bytes_mut = bytes::BytesMut::new();
    bytes_mut.write_a_byte(0xFF); // 0xFF
    bytes_mut.write_a_byte(0x7F); // 0x7F

    let value = remaining_length_parser::parse(&mut bytes_mut).unwrap();
    assert_eq!(value, 16383);
}

#[test]
fn remaining_length_three_bytes_is_70000() {
    let mut bytes_mut = bytes::BytesMut::new();
    bytes_mut.write_a_byte(0b1111_0000); // 0xF0
    bytes_mut.write_a_byte(0b1010_0010); // 0xA2
    bytes_mut.write_a_byte(0b0000_0100); // 0x04

    let value = remaining_length_parser::parse(&mut bytes_mut).unwrap();
    assert_eq!(value, 70000);
}

#[test]
fn remaining_length_min_three_bytes() {
    let mut bytes_mut = bytes::BytesMut::new();
    bytes_mut.write_a_byte(0x80); // 0x80
    bytes_mut.write_a_byte(0x80); // 0x80
    bytes_mut.write_a_byte(0x01); // 0x01
    let value = remaining_length_parser::parse(&mut bytes_mut).unwrap();
    assert_eq!(value, 16384);
}

#[test]
fn remaining_length_max_three_bytes() {
    let mut bytes_mut = bytes::BytesMut::new();
    bytes_mut.write_a_byte(0xFF); // 0xFF
    bytes_mut.write_a_byte(0xFF); // 0xFF
    bytes_mut.write_a_byte(0x7F); // 0x7F

    let value = remaining_length_parser::parse(&mut bytes_mut).unwrap();
    assert_eq!(value, 2097151);
}

#[test]
fn remaining_length_four_bytes_is_268435455() {
    // Example: Remaining Length = 268435455
    let mut bytes_mut = bytes::BytesMut::new();
    bytes_mut.write_a_byte(0b1111_1111); // 0xFF
    bytes_mut.write_a_byte(0b1111_1111); // 0xFF
    bytes_mut.write_a_byte(0b1111_1111); // 0xFF
    bytes_mut.write_a_byte(0b0111_1111); // 0x7F

    let value = remaining_length_parser::parse(&mut bytes_mut).unwrap();
    assert_eq!(value, 268435455);
}

#[test]
fn remaining_length_min_four_bytes() {
    let mut bytes_mut = bytes::BytesMut::new();
    bytes_mut.write_a_byte(0x80); // 0x80
    bytes_mut.write_a_byte(0x80); // 0x80
    bytes_mut.write_a_byte(0x80); // 0x80
    bytes_mut.write_a_byte(0x01); // 0x01

    let value = remaining_length_parser::parse(&mut bytes_mut).unwrap();
    assert_eq!(value, 2097152);
}

#[test]
fn remaining_length_max_four_bytes() {
    let mut bytes_mut = bytes::BytesMut::new();
    bytes_mut.write_a_byte(0xFF); // 0xFF
    bytes_mut.write_a_byte(0xFF); // 0xFF
    bytes_mut.write_a_byte(0xFF); // 0xFF
    bytes_mut.write_a_byte(0x7F); // 0x7F

    let value = remaining_length_parser::parse(&mut bytes_mut).unwrap();
    assert_eq!(value, 268435455);
}

#[test]
fn remaining_length_more_than_four_bytes_should_error() {
    let mut bytes_mut = bytes::BytesMut::new();
    bytes_mut.write_a_byte(0x80); // 0x80
    bytes_mut.write_a_byte(0x80); // 0x80
    bytes_mut.write_a_byte(0x80); // 0x80
    bytes_mut.write_a_byte(0x80); // 0x80
    bytes_mut.write_a_byte(0x01); // 0x01

    let result = remaining_length_parser::parse(&mut bytes_mut);
    assert!(result.is_err());
    assert!(matches!(
        result.err().unwrap(),
        MQTTProtocolError::MalformedRemainingLength
    ));
}

#[test]
fn remaining_length_incomplete_bytes_should_error() {
    let mut bytes_mut = bytes::BytesMut::new();
    bytes_mut.write_a_byte(0x80); // 0x80
                                  // Missing subsequent bytes

    let result = remaining_length_parser::parse(&mut bytes_mut);
    assert!(result.is_err());
    assert!(matches!(
        result.err().unwrap(),
        MQTTProtocolError::PacketTooShort
    ));
}

#[test]
fn remaining_length_can_read_a_byte() {
    let mut bytes_mut = bytes::BytesMut::new();
    bytes_mut.write_a_byte(0x4D);
    bytes_mut.write_a_byte(0x01);

    let value = remaining_length_parser::parse(&mut bytes_mut).unwrap();
    assert_eq!(value, 77);
    assert_eq!(bytes_mut.read_a_byte().unwrap(), 1);
}

#[test]
fn connect_can_allowed_valid_protocol_name() {
    let mut bytes_mut = BytesMut::new();
    write_utf8_for_mqtt(&mut bytes_mut, "MQTT").unwrap();
    VariableHeader::verify_protocol_name(&mut bytes_mut).unwrap();
}

#[test]
fn connect_can_not_allowed_invalid_protocol_name() {
    let mut bytes_mut = BytesMut::new();
    let invalid_name = "hello";
    write_utf8_for_mqtt(&mut bytes_mut, invalid_name).unwrap();
    let result = VariableHeader::verify_protocol_name(&mut bytes_mut);
    assert!(result.is_err());
    assert!(matches!(
        result,
        Err(MQTTProtocolError::ProtocolNameError(invalid_name))
    ));
}

#[test]
fn utf_8_handler_should_read_2_byte_to_calculate_length() {
    let mut bytes_mut = BytesMut::new();
    bytes_mut.write_a_byte(0x00);
    bytes_mut.write_a_byte(0x05);
    let length = utf_8_handler::calculate_str_length(&mut bytes_mut).unwrap();
    assert_eq!(length, 5);
}
