use protocol::mqtt::v2::mqttv4::control_packet_type::ControlPacketType;
use protocol::mqtt::v2::mqttv4::fixed_header_flags::FixedHeaderFlags;
use protocol::mqtt::v2::mqttv4::mqtt_protocol_error::MQTTProtocolError;
use protocol::mqtt::v2::protocol_error::ProtocolError;
use protocol::mqtt::v2::utils::code_error::CodeError;
use protocol::mqtt::v2::utils::radix::radix_handler;
use protocol::mqtt::v2::utils::utf::utf_8_handler;

#[test]
fn fixed_header_connect_reserved_flags_should_be_0000() {
    let byte = 0b0001_0000;
    let packet_type = ControlPacketType::parse(byte).unwrap();
    assert_eq!(packet_type, ControlPacketType::Connect);
    assert!(FixedHeaderFlags::verify(packet_type, byte).is_ok());
}

#[test]
fn fixed_header_connack_reserved_flags_should_be_0000() {
    let byte = 0b0010_0000;
    let packet_type = ControlPacketType::parse(byte).unwrap();
    assert_eq!(packet_type, ControlPacketType::ConnAck);
    assert!(FixedHeaderFlags::verify(packet_type, byte).is_ok());
}

#[test]
fn fixed_header_publish_reserved_flags_should_be_0000_to_1111() {
    let byte = 0b0011_0110;
    let packet_type = ControlPacketType::parse(byte).unwrap();
    assert_eq!(packet_type, ControlPacketType::Publish);
    assert!(FixedHeaderFlags::verify(packet_type, byte).is_ok());
}

#[test]
fn fixed_header_puback_reserved_flags_should_be_0000() {
    let byte = 0b0100_0000;
    let packet_type = ControlPacketType::parse(byte).unwrap();
    assert_eq!(packet_type, ControlPacketType::PubAck);
    assert!(FixedHeaderFlags::verify(packet_type, byte).is_ok());
}

#[test]
fn fixed_header_pubrec_reserved_flags_should_be_0000() {
    let byte = 0b0101_0000;
    let packet_type = ControlPacketType::parse(byte).unwrap();
    assert_eq!(packet_type, ControlPacketType::PubRec);
    assert!(FixedHeaderFlags::verify(packet_type, byte).is_ok());
}

#[test]
fn fixed_header_pubrel_reserved_flags_should_be_0000() {
    let byte = 0b0110_0010;
    let packet_type = ControlPacketType::parse(byte).unwrap();
    assert_eq!(packet_type, ControlPacketType::PubRel);
    assert!(FixedHeaderFlags::verify(packet_type, byte).is_ok());
}

#[test]
fn fixed_header_pubcomp_reserved_flags_should_be_0000() {
    let byte = 0b0111_0000;
    let packet_type = ControlPacketType::parse(byte).unwrap();
    assert_eq!(packet_type, ControlPacketType::PubComp);
    assert!(FixedHeaderFlags::verify(packet_type, byte).is_ok());
}

#[test]
fn fixed_header_subscribe_reserved_flags_should_be_0010() {
    let byte = 0b1000_0010;
    let packet_type = ControlPacketType::parse(byte).unwrap();
    assert_eq!(packet_type, ControlPacketType::Subscribe);
    assert!(FixedHeaderFlags::verify(packet_type, byte).is_ok());
}

#[test]
fn fixed_header_suback_reserved_flags_should_be_0000() {
    let byte = 0b1001_0000;
    let packet_type = ControlPacketType::parse(byte).unwrap();
    assert_eq!(packet_type, ControlPacketType::SubAck);
    assert!(FixedHeaderFlags::verify(packet_type, byte).is_ok());
}

#[test]
fn fixed_header_unsubscribe_reserved_flags_should_be_0010() {
    let byte = 0b1010_0010;
    let packet_type = ControlPacketType::parse(byte).unwrap();
    assert_eq!(packet_type, ControlPacketType::Unsubscribe);
    assert!(FixedHeaderFlags::verify(packet_type, byte).is_ok());
}

#[test]
fn fixed_header_unsuback_reserved_flags_should_be_0000() {
    let byte = 0b1011_0000;
    let packet_type = ControlPacketType::parse(byte).unwrap();
    assert_eq!(packet_type, ControlPacketType::UnsubAck);
    assert!(FixedHeaderFlags::verify(packet_type, byte).is_ok());
}

#[test]
fn fixed_header_pingreq_reserved_flags_should_be_0000() {
    let byte = 0b1100_0000;
    let packet_type = ControlPacketType::parse(byte).unwrap();
    assert_eq!(packet_type, ControlPacketType::PingReq);
    assert!(FixedHeaderFlags::verify(packet_type, byte).is_ok());
}

#[test]
fn fixed_header_pingresp_reserved_flags_should_be_0000() {
    let byte = 0b1101_0000;
    let packet_type = ControlPacketType::parse(byte).unwrap();
    assert_eq!(packet_type, ControlPacketType::PingResp);
    assert!(FixedHeaderFlags::verify(packet_type, byte).is_ok());
}

#[test]
fn fixed_header_disconnect_reserved_flags_should_be_0000() {
    let byte = 0b1110_0000;
    let packet_type = ControlPacketType::parse(byte).unwrap();
    assert_eq!(packet_type, ControlPacketType::Disconnect);
    assert!(FixedHeaderFlags::verify(packet_type, byte).is_ok());
}

#[test]
fn fixed_header_invalid_reserved_flags_should_error() {
    let byte = 0b1110_0010;
    let packet_type = ControlPacketType::parse(byte).unwrap();
    assert_eq!(packet_type, ControlPacketType::Disconnect);
    let result = FixedHeaderFlags::verify(packet_type, byte);
    assert!(result.is_err());
    assert!(matches!(
        result,
        Err(MQTTProtocolError::InvalidFixedHeaderFlags)
    ))
}

#[test]
fn fixed_header_publish_extract_reserved_flags_should_get_dup_value() {
    let byte = 0b0011_1000;
    let packet_type = ControlPacketType::parse(byte).unwrap();
    assert_eq!(packet_type, ControlPacketType::Publish);
    let publish_flags = FixedHeaderFlags::parse(packet_type, byte).unwrap();
    if let FixedHeaderFlags::Publish {
        dup,
        qos: _,
        retain: _,
    } = publish_flags
    {
        assert!(dup);
    }
}

#[test]
fn fixed_header_publish_extract_reserved_flags_should_get_retain_value() {
    let byte = 0b0011_0001;
    let packet_type = ControlPacketType::parse(byte).unwrap();
    assert_eq!(packet_type, ControlPacketType::Publish);
    let publish_flags = FixedHeaderFlags::parse(packet_type, byte).unwrap();
    if let FixedHeaderFlags::Publish {
        dup: _,
        qos: _,
        retain,
    } = publish_flags
    {
        assert!(retain);
    }
}

#[test]
fn fixed_header_publish_extract_reserved_flags_should_get_qos_value() {
    let byte = 0b0011_0100;
    let packet_type = ControlPacketType::parse(byte).unwrap();
    assert_eq!(packet_type, ControlPacketType::Publish);
    let publish_flags = FixedHeaderFlags::parse(packet_type, byte).unwrap();
    if let FixedHeaderFlags::Publish {
        dup: _,
        qos,
        retain: _,
    } = publish_flags
    {
        assert_eq!(qos, 2);
    }
}

#[test]
fn fixed_header_publish_extract_reserved_flags_qos_invalid_should_error() {
    let byte = 0b0011_0110;
    let packet_type = ControlPacketType::parse(byte).unwrap();
    assert_eq!(packet_type, ControlPacketType::Publish);
    let result = FixedHeaderFlags::parse(packet_type, byte);
    assert!(result.is_err());
    assert!(matches!(
        result,
        Err(MQTTProtocolError::QoSLevelNotSupported(3))
    ))
}

#[test]
fn reserved_packet_types_are_refused() {
    assert!(ControlPacketType::parse(0b0000_0000).is_err());
    assert!(ControlPacketType::parse(0b1111_0000).is_err());
}

#[test]
fn protocol_error_unknown_protocol() {
    let error = ProtocolError::UnknownProtocol;
    assert_eq!(error.message(), "Unknown protocol");
}

#[test]
fn protocol_error_mqtt_protocol_error() {
    let mqtt_error = MQTTProtocolError::InvalidPacketType;
    let protocol_error: ProtocolError = mqtt_error.into();
    assert_eq!(
        protocol_error.message(),
        "from MQTTProtocolError: Invalid packet type: reserved bits are forbidden to use"
    );
}

#[test]
fn binary_high_4bits_should_convert_to_8bits() {
    let value: u8 = 0b0000_0101;
    let binary_high_4bits = radix_handler::high_nibble(value);
    assert_eq!(binary_high_4bits, 0b0000_0000);
}

#[test]
fn binary_low_4bits_should_convert_to_8bits() {
    let value: u8 = 0b1010_1111;
    let binary_low_4bits = radix_handler::low_nibble(value);
    assert_eq!(binary_low_4bits, 0b0000_1111);
}

#[test]
fn binary_8bits_should_convert_to_decimal() {
    let value: u8 = 0b0000_1010;
    let value = radix_handler::binary_byte_to_decimal(value);
    assert_eq!(value, 10);
}

#[test]
fn decimal_should_convert_to_binary_8bits() {
    let value: u8 = 10;
    let value = radix_handler::decimal_to_binary_byte(value);
    assert_eq!(value, 0b0000_1010);
}

#[test]
fn be_bytes_should_convert_to_u16() {
    let bytes: Vec<u8> = vec![0x12, 0x34];
    let value = radix_handler::be_bytes_to_u16(&bytes).unwrap();
    assert_eq!(value, 0x1234);
}

#[test]
fn be_bytes_to_u16_should_return_error_when_length_invalid() {
    let bytes: Vec<u8> = vec![0x12];
    let result = radix_handler::be_bytes_to_u16(&bytes);
    assert!(result.is_err());
    assert!(matches!(result, Err(CodeError::CodeLengthError(2, 1))));
}

#[test]
fn usize_can_not_exceed_u16_max_value() {
    let size: usize = 70000;
    let result = radix_handler::u16_to_be_2_bytes(size);
    assert!(result.is_err());
    assert!(matches!(
        result,
        Err(CodeError::UsizeConversionError(_size, "u16"))
    ));
}

#[test]
fn usize_can_convert_to_be_2byte() {
    let size: usize = 50000;
    let bytes = radix_handler::u16_to_be_2_bytes(size).unwrap();
    assert_eq!(bytes, [0xC3, 0x50]);
}

#[test]
fn usize_can_convert_to_be_2byte_min_value() {
    let size: usize = 0;
    let bytes = radix_handler::u16_to_be_2_bytes(size).unwrap();
    assert_eq!(bytes, [0x00, 0x00]);
}

#[test]
fn usize_can_convert_to_be_2byte_max_value() {
    let size: usize = 65535;
    let bytes = radix_handler::u16_to_be_2_bytes(size).unwrap();
    assert_eq!(bytes, [0xFF, 0xFF]);
}

#[test]
fn utf_8_handler_should_not_allow_u_d800() {
    let invalid_utf8_bytes = vec![0xED, 0xA0, 0x80];
    let result = utf_8_handler::verify_for_mqtt(&invalid_utf8_bytes);
    assert!(result.is_err());
    assert!(matches!(result, Err(CodeError::UTF8DecodingError)))
}

#[test]
fn utf_8_handler_should_not_allow_u_dfff() {
    let invalid_utf8_bytes = vec![0xED, 0xBF, 0xBF];
    let result = utf_8_handler::verify_for_mqtt(&invalid_utf8_bytes);
    assert!(result.is_err());
    assert!(matches!(result, Err(CodeError::UTF8DecodingError)))
}

#[test]
fn utf_8_handler_should_not_allow_u_0000() {
    let invalid_utf8_bytes = vec![0x00];
    let result = utf_8_handler::verify_for_mqtt(&invalid_utf8_bytes);
    assert!(result.is_err());
    assert!(matches!(result, Err(CodeError::MQTTInvalidCode(0x0000))))
}

#[test]
fn utf_8_handler_should_not_allow_u_0001() {
    let invalid_utf8_bytes = vec![0x01];
    let result = utf_8_handler::verify_for_mqtt(&invalid_utf8_bytes);
    assert!(result.is_err());
    assert!(matches!(result, Err(CodeError::MQTTInvalidCode(0x0001))))
}

#[test]
fn utf_8_handler_should_not_allow_u_001f() {
    let invalid_utf8_bytes = vec![0x1F];
    let result = utf_8_handler::verify_for_mqtt(&invalid_utf8_bytes);
    assert!(result.is_err());
    assert!(matches!(result, Err(CodeError::MQTTInvalidCode(0x001F))))
}

#[test]
fn utf_8_handler_should_not_allow_u_007f() {
    let invalid_utf8_bytes = vec![0x7F];
    let result = utf_8_handler::verify_for_mqtt(&invalid_utf8_bytes);
    assert!(result.is_err());
    assert!(matches!(result, Err(CodeError::MQTTInvalidCode(0x007F))))
}

#[test]
fn utf_8_handler_should_not_allow_u_009f() {
    let invalid_utf8_bytes = vec![0xC2, 0x9F];
    let result = utf_8_handler::verify_for_mqtt(&invalid_utf8_bytes);
    assert!(result.is_err());
    assert!(matches!(result, Err(CodeError::MQTTInvalidCode(0x009F))))
}

#[test]
fn utf_8_handler_should_not_allow_u_fdd0() {
    let invalid_utf8_bytes = vec![0xEF, 0xB7, 0x90];
    let result = utf_8_handler::verify_for_mqtt(&invalid_utf8_bytes);
    assert!(result.is_err());
    assert!(matches!(result, Err(CodeError::MQTTInvalidCode(0xFDD0))))
}

#[test]
fn utf_8_handler_should_not_allow_u_fdef() {
    let invalid_utf8_bytes = vec![0xEF, 0xB7, 0xAF];
    let result = utf_8_handler::verify_for_mqtt(&invalid_utf8_bytes);
    assert!(result.is_err());
    assert!(matches!(result, Err(CodeError::MQTTInvalidCode(0xFDEF))))
}

#[test]
fn utf_8_handler_should_not_allow_u_ffff() {
    let invalid_utf8_bytes = vec![0xEF, 0xBF, 0xBF];
    let result = utf_8_handler::verify_for_mqtt(&invalid_utf8_bytes);
    assert!(result.is_err());
    assert!(matches!(result, Err(CodeError::MQTTInvalidCode(0xFFFF))))
}

#[test]
fn utf_8_handler_should_allow_u_feff() {
    let valid_utf8_bytes = vec![0xEF, 0xBB, 0xBF];
    let result = utf_8_handler::verify_for_mqtt(&valid_utf8_bytes);
    assert!(result.is_ok());
}

#[test]
fn utf_8_handler_should_decode_utf_8_string() {
    let mut bytes_mut = bytes::BytesMut::new();
    let except_word = "hello";
    utf_8_handler::write_utf8_for_mqtt(&mut bytes_mut, except_word).unwrap();
    let utf8_string = utf_8_handler::parse(&mut bytes_mut).unwrap();
    assert_eq!(utf8_string, except_word);
}

#[test]
fn utf_8_handler_needs_two_length_bytes() {
    let mut bytes_mut = bytes::BytesMut::from(&[0x00u8][..]);
    assert!(matches!(
        utf_8_handler::parse(&mut bytes_mut),
        Err(CodeError::CodeLengthError(2, 1))
    ));
}
