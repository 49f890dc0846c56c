use bytes::{Bytes, BytesMut};
use protocol::nats::codec::{NatsCodec, NatsCodecError, NatsDecoded};
use protocol::nats::packet::NatsPacket;

fn encode(packet: NatsPacket) -> BytesMut {
    let mut codec = NatsCodec::new();
    let mut buf = BytesMut::new();
    codec.encode(&packet, "", &mut buf);
    buf
}

fn packet_of(d: NatsDecoded) -> NatsPacket {
    match d {
        NatsDecoded::Packet(p) => p,
        _ => panic!("expected a packet"),
    }
}

fn decode(buf: &mut BytesMut) -> NatsPacket {
    let mut codec = NatsCodec::new();
    packet_of(codec.decode(buf).unwrap().unwrap())
}

#[test]
fn ping_roundtrip() {
    let mut buf = encode(NatsPacket::Ping);
    assert_eq!(decode(&mut buf), NatsPacket::Ping);
}

#[test]
fn pong_roundtrip() {
    let mut buf = encode(NatsPacket::Pong);
    assert_eq!(decode(&mut buf), NatsPacket::Pong);
}

#[test]
fn ok_roundtrip() {
    let mut buf = encode(NatsPacket::ServerOk);
    assert_eq!(decode(&mut buf), NatsPacket::ServerOk);
}

#[test]
fn err_roundtrip() {
    let mut buf = encode(NatsPacket::ServerErr("Unknown Protocol Operation".to_string()));
    assert_eq!(
        decode(&mut buf),
        NatsPacket::ServerErr("Unknown Protocol Operation".to_string())
    );
}

#[test]
fn pub_no_reply_roundtrip() {
    let packet = NatsPacket::Pub {
        subject: "foo.bar".to_string(),
        reply_to: None,
        payload: Bytes::from("hello nats"),
    };
    let mut buf = encode(packet.clone());
    assert_eq!(decode(&mut buf), packet);
}

#[test]
fn pub_with_reply_roundtrip() {
    let packet = NatsPacket::Pub {
        subject: "foo".to_string(),
        reply_to: Some("INBOX.42".to_string()),
        payload: Bytes::from("knock knock"),
    };
    let mut buf = encode(packet.clone());
    assert_eq!(decode(&mut buf), packet);
}

#[test]
fn pub_empty_payload_roundtrip() {
    let packet = NatsPacket::Pub {
        subject: "notify".to_string(),
        reply_to: None,
        payload: Bytes::new(),
    };
    let mut buf = encode(packet.clone());
    assert_eq!(decode(&mut buf), packet);
}

#[test]
fn sub_no_queue_roundtrip() {
    let packet = NatsPacket::Sub {
        subject: "foo".to_string(),
        queue_group: None,
        sid: "1".to_string(),
    };
    let mut buf = encode(packet.clone());
    assert_eq!(decode(&mut buf), packet);
}

#[test]
fn sub_with_queue_roundtrip() {
    let packet = NatsPacket::Sub {
        subject: "bar".to_string(),
        queue_group: Some("workers".to_string()),
        sid: "42".to_string(),
    };
    let mut buf = encode(packet.clone());
    assert_eq!(decode(&mut buf), packet);
}

#[test]
fn unsub_no_max_roundtrip() {
    let packet = NatsPacket::Unsub {
        sid: "1".to_string(),
        max_msgs: None,
    };
    let mut buf = encode(packet.clone());
    assert_eq!(decode(&mut buf), packet);
}

#[test]
fn unsub_with_max_roundtrip() {
    let packet = NatsPacket::Unsub {
        sid: "1".to_string(),
        max_msgs: Some(5),
    };
    let mut buf = encode(packet.clone());
    assert_eq!(decode(&mut buf), packet);
}

#[test]
fn msg_no_reply_roundtrip() {
    let packet = NatsPacket::Msg {
        subject: "foo.bar".to_string(),
        sid: "9".to_string(),
        reply_to: None,
        payload: Bytes::from("Hello World"),
    };
    let mut buf = encode(packet.clone());
    assert_eq!(decode(&mut buf), packet);
}

#[test]
fn msg_with_reply_roundtrip() {
    let packet = NatsPacket::Msg {
        subject: "foo.bar".to_string(),
        sid: "9".to_string(),
        reply_to: Some("GREETING.34".to_string()),
        payload: Bytes::from("Hello World"),
    };
    let mut buf = encode(packet.clone());
    assert_eq!(decode(&mut buf), packet);
}

#[test]
fn multi_packet_in_buffer() {
    let mut codec = NatsCodec::new();
    let mut buf = BytesMut::new();
    codec.encode(&NatsPacket::Ping, "", &mut buf);
    codec.encode(&NatsPacket::Pong, "", &mut buf);
    assert_eq!(packet_of(codec.decode(&mut buf).unwrap().unwrap()), NatsPacket::Ping);
    assert_eq!(packet_of(codec.decode(&mut buf).unwrap().unwrap()), NatsPacket::Pong);
    assert!(codec.decode(&mut buf).unwrap().is_none());
}

#[test]
fn partial_buffer_returns_none() {
    let mut codec = NatsCodec::new();
    let mut buf = BytesMut::from(&b"PING"[..]);
    assert!(codec.decode(&mut buf).unwrap().is_none());
}

#[test]
fn partial_payload_returns_none() {
    let mut codec = NatsCodec::new();
    let mut buf = BytesMut::from(&b"PUB foo 10\r\nhello"[..]);
    assert!(codec.decode(&mut buf).unwrap().is_none());
}

#[test]
fn payload_completes_on_a_later_read() {
    let mut codec = NatsCodec::new();
    let mut buf = BytesMut::from(&b"PUB foo 10\r\nhello"[..]);
    assert!(codec.decode(&mut buf).unwrap().is_none());
    buf.extend_from_slice(b"world\r\nPING\r\n");
    assert_eq!(
        packet_of(codec.decode(&mut buf).unwrap().unwrap()),
        NatsPacket::Pub {
            subject: "foo".to_string(),
            reply_to: None,
            payload: Bytes::from("helloworld"),
        }
    );
    assert_eq!(packet_of(codec.decode(&mut buf).unwrap().unwrap()), NatsPacket::Ping);
}

#[test]
fn info_json_is_handed_over_as_text() {
    let mut codec = NatsCodec::new();
    let mut buf = BytesMut::from(&b"INFO  {\"server_id\":\"x\"} \r\n"[..]);
    match codec.decode(&mut buf).unwrap().unwrap() {
        NatsDecoded::InfoJson(t) => assert_eq!(t, "{\"server_id\":\"x\"}"),
        _ => panic!("expected INFO"),
    }
}

#[test]
fn info_is_written_with_the_given_json() {
    let info = protocol::nats::packet::ServerInfo {
        server_id: "id".to_string(),
        server_name: "n".to_string(),
        version: "1".to_string(),
        proto: 1,
        host: "h".to_string(),
        port: 4222,
        headers: true,
        auth_required: false,
        tls_required: false,
        tls_verify: false,
        tls_available: false,
        max_payload: 1024,
        jetstream: false,
        client_id: None,
        client_ip: None,
        nonce: None,
        cluster: None,
        cluster_dynamic: None,
        connect_urls: None,
        ws_connect_urls: None,
        ldm: None,
        git_commit: None,
        go: None,
        domain: None,
        xkey: None,
    };
    let mut codec = NatsCodec::new();
    let mut buf = BytesMut::new();
    codec.encode(&NatsPacket::Info(info), "{}", &mut buf);
    assert_eq!(&buf[..], b"INFO {}\r\n");
}

#[test]
fn verbs_are_read_in_any_case() {
    let mut codec = NatsCodec::new();
    let mut buf = BytesMut::from(&b"  ping \r\n"[..]);
    assert_eq!(packet_of(codec.decode(&mut buf).unwrap().unwrap()), NatsPacket::Ping);
}

#[test]
fn blank_lines_are_skipped() {
    let mut codec = NatsCodec::new();
    let mut buf = BytesMut::from(&b"\r\n   \r\nPONG\r\n"[..]);
    assert_eq!(packet_of(codec.decode(&mut buf).unwrap().unwrap()), NatsPacket::Pong);
    assert!(buf.is_empty());
}

#[test]
fn unknown_verb_is_reported_upper_cased() {
    let mut codec = NatsCodec::new();
    let mut buf = BytesMut::from(&b"foo bar\r\n"[..]);
    match codec.decode(&mut buf) {
        Err(NatsCodecError::UnknownCommand(v)) => assert_eq!(v, "FOO"),
        _ => panic!("expected an unknown command"),
    }
}

#[test]
fn wrong_argument_count_is_malformed() {
    let mut codec = NatsCodec::new();
    let mut buf = BytesMut::from(&b"PUB a\r\n"[..]);
    match codec.decode(&mut buf) {
        Err(NatsCodecError::MalformedCommand(m)) => {
            assert_eq!(m, "PUB expects 2 or 3 args, got: PUB a")
        }
        _ => panic!("expected a malformed command"),
    }
}

#[test]
fn non_numeric_length_is_malformed() {
    let mut codec = NatsCodec::new();
    let mut buf = BytesMut::from(&b"MSG a 1 x\r\n"[..]);
    match codec.decode(&mut buf) {
        Err(NatsCodecError::MalformedCommand(m)) => {
            assert_eq!(m, "MSG: expected integer, got 'x'")
        }
        _ => panic!("expected a malformed command"),
    }
}

#[test]
fn unsub_max_out_of_range_is_malformed() {
    let mut codec = NatsCodec::new();
    let mut buf = BytesMut::from(&b"UNSUB 1 4294967296\r\n"[..]);
    match codec.decode(&mut buf) {
        Err(NatsCodecError::MalformedCommand(m)) => {
            assert_eq!(m, "UNSUB: expected integer, got '4294967296'")
        }
        _ => panic!("expected a malformed command"),
    }
}

#[test]
fn plus_sign_length_is_accepted() {
    let mut codec = NatsCodec::new();
    let mut buf = BytesMut::from(&b"PUB a +2\r\nhi\r\n"[..]);
    assert_eq!(
        packet_of(codec.decode(&mut buf).unwrap().unwrap()),
        NatsPacket::Pub {
            subject: "a".to_string(),
            reply_to: None,
            payload: Bytes::from("hi"),
        }
    );
}

#[test]
fn payload_over_the_limit_is_refused() {
    let mut codec = NatsCodec::with_max_payload(4);
    let mut buf = BytesMut::from(&b"PUB a 5\r\nhello\r\n"[..]);
    assert!(matches!(
        codec.decode(&mut buf),
        Err(NatsCodecError::PayloadTooLarge(5))
    ));
}

#[test]
fn invalid_utf8_line_is_refused() {
    let mut codec = NatsCodec::new();
    let mut buf = BytesMut::from(&[0xFFu8, 0xFE, b'\r', b'\n'][..]);
    assert!(matches!(
        codec.decode(&mut buf),
        Err(NatsCodecError::InvalidUtf8(_))
    ));
}

#[test]
fn err_message_loses_its_quotes() {
    let mut codec = NatsCodec::new();
    let mut buf = BytesMut::from(&b"-ERR 'Stale Connection'\r\n"[..]);
    assert_eq!(
        packet_of(codec.decode(&mut buf).unwrap().unwrap()),
        NatsPacket::ServerErr("Stale Connection".to_string())
    );
}

#[test]
fn hpub_is_written_with_header_and_total_lengths() {
    let buf = encode(NatsPacket::HPub {
        subject: "s".to_string(),
        reply_to: None,
        headers: Bytes::from("NATS/1.0\r\n\r\n"),
        payload: Bytes::from("hi"),
    });
    assert_eq!(&buf[..], b"HPUB s 12 14\r\nNATS/1.0\r\n\r\nhi\r\n");
}

#[test]
fn hmsg_is_written_with_sid_and_reply() {
    let buf = encode(NatsPacket::HMsg {
        subject: "s".to_string(),
        sid: "7".to_string(),
        reply_to: Some("r".to_string()),
        headers: Bytes::from("NATS/1.0\r\n\r\n"),
        payload: Bytes::new(),
    });
    assert_eq!(&buf[..], b"HMSG s 7 r 12 12\r\nNATS/1.0\r\n\r\n\r\n");
}
