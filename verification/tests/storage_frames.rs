use bytes::BytesMut;
use protocol::storage::codec::{
    body_kind_name, BodyKind, HeaderKind, StorageEngineCodec, StorageEnginePacket, StorageError,
};
use protocol::storage::protocol::{
    ApiKey, FetchErrorCode, ReadReq, ReadReqBody, ReadReqFilter, ReadResp, ReadRespBody,
    ReqHeader, RespHeader, StorageEngineNetworkError, WriteReq, WriteReqBody, WriteResp,
    WriteRespBody,
};
use protocol::storage_engine::codec::{
    PacketKind, StorageEngineCodec as EngineCodec, StorageEnginePacket as EnginePacket,
};
use protocol::storage_engine::storage::{
    ApiKey as EngineApiKey, ApiType, ApiVersion, ErrorCode, FetchReq, Header, ProduceReq,
    ProduceReqBody, RequestCommon,
};
use protocol::storage_engine::Error as EngineError;

/// Frames `source` with stand-in header and body bytes, reads the frame
/// back, and checks what it carries and which body it announces.
fn roundtrip(source: StorageEnginePacket, api_key: ApiKey, expected: BodyKind) {
    let header_bytes = b"header-bytes".to_vec();
    let body_bytes = b"body".to_vec();
    let mut codec = StorageEngineCodec::new();
    let mut dst = BytesMut::new();
    codec
        .encode_data(&source, &header_bytes, &body_bytes, &mut dst)
        .unwrap();
    let frame = codec.decode_data(&mut dst).unwrap().unwrap();
    assert!(dst.is_empty());
    assert_eq!(frame.req_type, StorageEngineCodec::packet_req_type(&source));
    assert_eq!(frame.header, header_bytes);
    assert_eq!(frame.body, body_bytes);
    let kind = StorageEngineCodec::header_kind(frame.req_type).unwrap();
    assert_eq!(
        StorageEngineCodec::body_kind(kind, api_key, frame.req_type).unwrap(),
        expected
    );
}

#[test]
fn write_req_codec_test() {
    let header = ReqHeader::new(ApiKey::Write);
    let body = WriteReqBody::default();
    let req = WriteReq { header, body };
    roundtrip(StorageEnginePacket::WriteReq(req), ApiKey::Write, BodyKind::WriteReq);
}

#[test]
fn read_req_codec_test() {
    let header = ReqHeader::new(ApiKey::Read);
    let body = ReadReqBody::default();
    roundtrip(
        StorageEnginePacket::ReadReq(ReadReq { header, body }),
        ApiKey::Read,
        BodyKind::ReadReq,
    );
}

#[test]
fn write_resp_codec_test() {
    let header = RespHeader::new(ApiKey::Write);
    let body = WriteRespBody::default();
    let resp = WriteResp { header, body };
    roundtrip(StorageEnginePacket::WriteResp(resp), ApiKey::Write, BodyKind::WriteResp);
}

#[test]
fn read_resp_codec_test() {
    let header = RespHeader::new(ApiKey::Read);
    let body = ReadRespBody::default();
    let resp = ReadResp { header, body };
    roundtrip(StorageEnginePacket::ReadResp(resp), ApiKey::Read, BodyKind::ReadResp);
}

#[test]
fn frame_layout_is_lengths_kind_header_body() {
    let codec = StorageEngineCodec::new();
    let mut dst = BytesMut::new();
    let source = StorageEnginePacket::WriteResp(WriteResp::new(WriteRespBody::default()));
    codec.encode_data(&source, b"ab", b"c", &mut dst).unwrap();
    assert_eq!(
        &dst[..],
        &[0u8, 0, 0, 3, 2, 0, 0, 0, 2, b'a', b'b', 0, 0, 0, 1, b'c'][..]
    );
}

#[test]
fn incomplete_frame_is_left_in_place() {
    let mut codec = StorageEngineCodec::new();
    let mut src = BytesMut::from(&[0u8, 0, 0, 3, 1, 0, 0][..]);
    assert!(codec.decode_data(&mut src).unwrap().is_none());
    assert_eq!(src.len(), 7);
    let mut short = BytesMut::from(&[0u8, 0][..]);
    assert!(codec.decode_data(&mut short).unwrap().is_none());
}

#[test]
fn empty_header_is_refused_and_dropped() {
    let mut codec = StorageEngineCodec::new();
    let mut src = BytesMut::from(&[0u8, 0, 0, 0, 1, 0, 0, 0, 0, 0, 0, 0, 0, 9][..]);
    assert_eq!(
        codec.decode_data(&mut src),
        Err(StorageError::HeaderLengthIsZero)
    );
    assert_eq!(&src[..], &[9u8][..]);
}

#[test]
fn unknown_request_kind_and_key_are_refused() {
    assert_eq!(
        StorageEngineCodec::header_kind(7),
        Err(StorageError::NotAvailableRequestType(7))
    );
    assert_eq!(
        StorageEngineCodec::body_kind(HeaderKind::Request, ApiKey::Fetch, 1),
        Err(StorageError::NotAvailableRequestType(1))
    );
}

#[test]
fn undecodable_body_is_named() {
    assert_eq!(body_kind_name(BodyKind::ReadResp), "read_resp");
    assert_eq!(
        StorageEngineCodec::body_error(BodyKind::WriteReq, "bad".to_string()),
        StorageError::DecodeBodyError("write_req".to_string(), "bad".to_string())
    );
}

#[test]
fn frame_validation_flags_lengths_beyond_the_frame() {
    // declares 3 payload bytes but a header of 5
    let bad = [0u8, 0, 0, 3, 1, 0, 0, 0, 5, 0, 0, 0, 0, 0, 0, 0];
    assert!(!StorageEngineCodec::frame_is_well_formed(&bad));
    let good = [0u8, 0, 0, 3, 1, 0, 0, 0, 2, b'a', b'b', 0, 0, 0, 1, b'c'];
    assert!(StorageEngineCodec::frame_is_well_formed(&good));
}

#[test]
fn network_error_text_joins_code_and_error() {
    let e = StorageEngineNetworkError::new("E1", "broken");
    assert_eq!(e.to_str(), "E1:broken");
}

#[test]
fn read_filter_by_offset_sets_only_offset() {
    let f = ReadReqFilter::by_offset(12);
    assert_eq!(f.offset, Some(12));
    assert!(f.key.is_none() && f.tag.is_none() && f.timestamp.is_none());
}

#[test]
fn fetch_error_codes_are_numbered_in_order() {
    assert_eq!(FetchErrorCode::NoError.as_u32(), 0);
    assert_eq!(FetchErrorCode::StaleBrokerEpoch.as_u32(), 5);
}

fn build_produce_req() -> EnginePacket {
    let header = Header {
        api_key: EngineApiKey::Produce.into(),
        api_type: ApiType::Request.into(),
        api_version: ApiVersion::V0.into(),
        request: Some(RequestCommon {
            correlation_id: 3,
            client_id: "testsssss".to_string(),
        }),
        response: None,
    };
    let body = ProduceReqBody {
        transactional_id: 1,
        acks: 1,
        timeout_ms: 60000,
        topic_data: None,
    };
    EnginePacket::ProduceReq(ProduceReq {
        header: Some(header),
        body: Some(body),
    })
}

#[test]
fn codec_test() {
    let mut codec = EngineCodec::new();
    let source = build_produce_req();
    let mut dst = BytesMut::new();
    codec.encode(&source, b"hdr", b"body", &mut dst).unwrap();
    let frame = codec.decode(&mut dst).unwrap().unwrap();
    assert_eq!(frame.header, b"hdr".to_vec());
    assert_eq!(frame.body, b"body".to_vec());
    if let EnginePacket::ProduceReq(req) = &source {
        let kind = EngineCodec::packet_kind(req.header.as_ref().unwrap());
        assert_eq!(kind, PacketKind::ProduceReq);
        assert_eq!(kind.name(), "produce_req");
    }
}

#[test]
fn fetch_frames_carry_nothing_and_read_back_as_empty_header() {
    let mut codec = EngineCodec::new();
    let mut dst = BytesMut::new();
    let fetch = EnginePacket::FetchReq(FetchReq::default());
    codec.encode(&fetch, b"ignored", b"ignored", &mut dst).unwrap();
    assert_eq!(&dst[..], &[0u8; 12][..]);
    assert!(matches!(
        codec.decode(&mut dst),
        Err(EngineError::HeaderLengthIsZero)
    ));
}

#[test]
fn engine_enum_names_read_back() {
    assert_eq!(EngineApiKey::Consume.as_str_name(), "consume");
    assert_eq!(EngineApiKey::from_str_name("produce"), Some(EngineApiKey::Produce));
    assert_eq!(EngineApiKey::from_str_name("Produce"), None);
    assert_eq!(ApiType::from_str_name("Response"), Some(ApiType::Response));
    assert_eq!(ApiVersion::V0.as_str_name(), "V0");
    assert_eq!(ErrorCode::from_str_name("Success"), Some(ErrorCode::Success));
    let n: i32 = ApiType::Response.into();
    assert_eq!(n, 1);
}

#[test]
fn unknown_header_numbers_read_as_the_defaults() {
    let header = Header {
        api_key: 9,
        api_type: 9,
        api_version: 0,
        request: None,
        response: None,
    };
    assert_eq!(EngineCodec::packet_kind(&header), PacketKind::ProduceReq);
}

#[test]
fn storage_packets_are_named() {
    let req = WriteReq {
        header: ReqHeader::new(ApiKey::Write),
        body: WriteReqBody::default(),
    };
    assert_eq!(StorageEnginePacket::WriteReq(req).to_string(), "WriteReq");
    let resp = ReadResp {
        header: RespHeader::new(ApiKey::Read),
        body: ReadRespBody::default(),
    };
    assert_eq!(StorageEnginePacket::ReadResp(resp).to_string(), "ReadResp");
}

#[test]
fn a_used_storage_codec_frames_as_a_fresh_one() {
    let source = StorageEnginePacket::WriteReq(WriteReq::default());
    let mut used = StorageEngineCodec::new();
    let mut warm = BytesMut::new();
    used.encode_data(&source, b"h", b"b", &mut warm).unwrap();
    used.decode_data(&mut warm).unwrap();
    let mut fresh = StorageEngineCodec::default();
    let mut a = BytesMut::new();
    let mut b = BytesMut::new();
    used.encode_data(&source, b"header", b"body", &mut a).unwrap();
    fresh.encode_data(&source, b"header", b"body", &mut b).unwrap();
    assert_eq!(a, b);
    assert_eq!(used.decode_data(&mut a).unwrap(), fresh.decode_data(&mut b).unwrap());
}
