//! The requests and responses of the storage engine, with their headers.
use crate::text::concat;
use bytes::Bytes;
use vstd::prelude::*;

verus! {

#[derive(Clone, Debug, PartialEq, Eq)]
pub struct Header {
    pub name: String,
    pub value: String,
}

/// The kind of a request.
#[derive(Clone, Copy, Debug, PartialEq, Eq, Structural)]
pub enum ApiKey {
    Unimplemented,
    Read,
    Write,
    Fetch,
    OffsetsForLeaderEpoch,
    ShardOffset,
    Delete,
}

impl Default for ApiKey {
    fn default() -> (r: Self)
        ensures
            r == ApiKey::Unimplemented,
    {
        ApiKey::Unimplemented
    }
}

/// How a read selects records.
#[derive(Clone, Copy, Debug, PartialEq, Eq, Structural)]
pub enum ReadType {
    Offset,
    Key,
    Tag,
}

impl Default for ReadType {
    fn default() -> (r: Self)
        ensures
            r == ReadType::Offset,
    {
        ReadType::Offset
    }
}

/// An error that travels in a response: a code and a description.
#[derive(Clone, Debug, Default, PartialEq)]
pub struct StorageEngineNetworkError {
    pub code: String,
    pub error: String,
}

impl StorageEngineNetworkError {
    pub fn new(code: &str, error: &str) -> (r: Self)
        ensures
            r.code@ == code@,
            r.error@ == error@,
    {
        Self { code: code.to_owned(), error: error.to_owned() }
    }

    /// The code and the description, joined by a colon.
    pub fn to_str(&self) -> (r: String)
        ensures
            r@ == self.code@ + ":"@ + self.error@,
    {
        let a = concat(self.code.as_str(), ":");
        concat(a.as_str(), self.error.as_str())
    }
}

#[derive(Clone, Debug, Default, PartialEq)]
pub struct ReqHeader {
    pub api_key: ApiKey,
}

impl ReqHeader {
    pub fn new(api_key: ApiKey) -> (r: Self)
        ensures
            r.api_key == api_key,
    {
        Self { api_key }
    }
}

#[derive(Clone, Debug, Default, PartialEq)]
pub struct RespHeader {
    pub api_key: ApiKey,
    pub error: Option<StorageEngineNetworkError>,
}

impl RespHeader {
    pub fn new(api_key: ApiKey) -> (r: Self)
        ensures
            r.api_key == api_key,
            r.error is None,
    {
        Self { api_key, error: None }
    }

    pub fn with_error(api_key: ApiKey, error: StorageEngineNetworkError) -> (r: Self)
        ensures
            r.api_key == api_key,
            r.error == Some(error),
    {
        Self { api_key, error: Some(error) }
    }
}

/// How long a write that waits for every replica waits when the producer
/// does not say, in milliseconds.
pub const DEFAULT_WRITE_TIMEOUT_MS: u64 = 30_000;

#[derive(Clone, Debug, Default, PartialEq)]
pub struct WriteReqBody {
    pub shard_name: String,
    pub messages: Vec<Vec<u8>>,
    pub acks: i8,
    pub current_leader_epoch: u32,
    pub timeout_ms: u64,
}

impl WriteReqBody {
    pub fn new(shard_name: String, messages: Vec<Vec<u8>>) -> (r: Self)
        ensures
            r.shard_name == shard_name,
            r.messages == messages,
            r.acks == 1,
            r.current_leader_epoch == 0,
            r.timeout_ms == DEFAULT_WRITE_TIMEOUT_MS,
    {
        Self { shard_name, messages, acks: 1, current_leader_epoch: 0, timeout_ms: DEFAULT_WRITE_TIMEOUT_MS }
    }
}

#[derive(Clone, Debug, Default, PartialEq)]
pub struct WriteReq {
    pub header: ReqHeader,
    pub body: WriteReqBody,
}

impl WriteReq {
    pub fn new(body: WriteReqBody) -> (r: Self)
        ensures
            r.header.api_key == ApiKey::Write,
            r.body == body,
    {
        Self { header: ReqHeader::new(ApiKey::Write), body }
    }
}

#[derive(Clone, Debug, Default, PartialEq)]
pub struct WriteRespMessageStatus {
    pub offset: u64,
    pub pkid: u64,
    pub error: Option<StorageEngineNetworkError>,
}

impl WriteRespMessageStatus {
    pub fn new(offset: u64, pkid: u64) -> (r: Self)
        ensures
            r.offset == offset,
            r.pkid == pkid,
            r.error is None,
    {
        Self { offset, pkid, error: None }
    }

    pub fn with_error(offset: u64, pkid: u64, error: StorageEngineNetworkError) -> (r: Self)
        ensures
            r.offset == offset,
            r.pkid == pkid,
            r.error == Some(error),
    {
        Self { offset, pkid, error: Some(error) }
    }
}

#[derive(Clone, Debug, Default, PartialEq)]
pub struct WriteRespMessage {
    pub shard_name: String,
    pub messages: Vec<WriteRespMessageStatus>,
}

impl WriteRespMessage {
    pub fn new(shard_name: String, messages: Vec<WriteRespMessageStatus>) -> (r: Self)
        ensures
            r.shard_name == shard_name,
            r.messages == messages,
    {
        Self { shard_name, messages }
    }
}

#[derive(Clone, Debug, Default, PartialEq)]
pub struct WriteRespBody {
    pub status: Vec<WriteRespMessage>,
}

impl WriteRespBody {
    pub fn new(status: Vec<WriteRespMessage>) -> (r: Self)
        ensures
            r.status == status,
    {
        Self { status }
    }
}

#[derive(Clone, Debug, Default, PartialEq)]
pub struct WriteResp {
    pub header: RespHeader,
    pub body: WriteRespBody,
}

impl WriteResp {
    pub fn new(body: WriteRespBody) -> (r: Self)
        ensures
            r.header.api_key == ApiKey::Write,
            r.header.error is None,
            r.body == body,
    {
        Self { header: RespHeader::new(ApiKey::Write), body }
    }

    pub fn with_error(error: StorageEngineNetworkError) -> (r: Self)
        ensures
            r.header.api_key == ApiKey::Write,
            r.header.error == Some(error),
            r.body.status@.len() == 0,
    {
        Self { header: RespHeader::with_error(ApiKey::Write, error), body: WriteRespBody { status: Vec::new() } }
    }
}

/// What a read selects by; none of it set selects nothing in particular.
#[derive(Clone, Debug, Default, PartialEq)]
pub struct ReadReqFilter {
    pub timestamp: Option<u64>,
    pub offset: Option<u64>,
    pub key: Option<Bytes>,
    pub tag: Option<String>,
}

impl ReadReqFilter {
    pub fn by_offset(offset: u64) -> (r: Self)
        ensures
            r.offset == Some(offset),
            r.timestamp is None && r.key is None && r.tag is None,
    {
        Self { timestamp: None, offset: Some(offset), key: None, tag: None }
    }

    pub fn by_key(key: Bytes) -> (r: Self)
        ensures
            r.key == Some(key),
            r.timestamp is None && r.offset is None && r.tag is None,
    {
        Self { timestamp: None, offset: None, key: Some(key), tag: None }
    }

    pub fn by_tag(tag: String) -> (r: Self)
        ensures
            r.tag == Some(tag),
            r.timestamp is None && r.offset is None && r.key is None,
    {
        Self { timestamp: None, offset: None, key: None, tag: Some(tag) }
    }

    pub fn by_timestamp(timestamp: u64) -> (r: Self)
        ensures
            r.timestamp == Some(timestamp),
            r.offset is None && r.key is None && r.tag is None,
    {
        Self { timestamp: Some(timestamp), offset: None, key: None, tag: None }
    }
}

#[derive(Clone, Debug, PartialEq)]
pub struct ReadReqOptions {
    pub max_size: u64,
    pub max_record: u64,
}

impl Default for ReadReqOptions {
    fn default() -> (r: Self)
        ensures
            r.max_size == 1024 * 1024,
            r.max_record == 100,
    {
        Self { max_size: 1024 * 1024, max_record: 100 }
    }
}

impl ReadReqOptions {
    pub fn new(max_size: u64, max_record: u64) -> (r: Self)
        ensures
            r.max_size == max_size,
            r.max_record == max_record,
    {
        Self { max_size, max_record }
    }
}

#[derive(Clone, Debug, Default, PartialEq)]
pub struct ReadReqMessage {
    pub shard_name: String,
    pub read_type: ReadType,
    pub batch_call_source: bool,
    pub filter: ReadReqFilter,
    pub options: ReadReqOptions,
}

impl ReadReqMessage {
    pub fn new(
        shard_name: String,
        read_type: ReadType,
        batch_call_source: bool,
        filter: ReadReqFilter,
        options: ReadReqOptions,
    ) -> (r: Self)
        ensures
            r.shard_name == shard_name,
            r.read_type == read_type,
            r.batch_call_source == batch_call_source,
            r.filter == filter,
            r.options == options,
    {
        Self { shard_name, read_type, batch_call_source, filter, options }
    }
}

#[derive(Clone, Debug, Default, PartialEq)]
pub struct ReadReqBody {
    pub messages: Vec<ReadReqMessage>,
}

impl ReadReqBody {
    pub fn new(messages: Vec<ReadReqMessage>) -> (r: Self)
        ensures
            r.messages == messages,
    {
        Self { messages }
    }
}

#[derive(Clone, Debug, Default, PartialEq)]
pub struct ReadReq {
    pub header: ReqHeader,
    pub body: ReadReqBody,
}

impl ReadReq {
    pub fn new(body: ReadReqBody) -> (r: Self)
        ensures
            r.header.api_key == ApiKey::Read,
            r.body == body,
    {
        Self { header: ReqHeader::new(ApiKey::Read), body }
    }
}

#[derive(Clone, Debug, Default, PartialEq)]
pub struct ReadRespBody {
    pub messages: Vec<Vec<u8>>,
}

impl ReadRespBody {
    pub fn new(messages: Vec<Vec<u8>>) -> (r: Self)
        ensures
            r.messages == messages,
    {
        Self { messages }
    }
}

#[derive(Clone, Debug, Default, PartialEq)]
pub struct ReadResp {
    pub header: RespHeader,
    pub body: ReadRespBody,
}

impl ReadResp {
    pub fn new(body: ReadRespBody) -> (r: Self)
        ensures
            r.header.api_key == ApiKey::Read,
            r.header.error is None,
            r.body == body,
    {
        Self { header: RespHeader::new(ApiKey::Read), body }
    }

    pub fn with_error(error: StorageEngineNetworkError) -> (r: Self)
        ensures
            r.header.api_key == ApiKey::Read,
            r.header.error == Some(error),
            r.body.messages@.len() == 0,
    {
        Self { header: RespHeader::with_error(ApiKey::Read, error), body: ReadRespBody { messages: Vec::new() } }
    }
}

/// A follower's fetch from one shard's active segment.
#[derive(Clone, Debug, Default, PartialEq)]
pub struct FetchShardReq {
    pub shard_name: String,
    pub segment_seq: u32,
    pub fetch_offset: u64,
    pub current_leader_epoch: u32,
    pub max_bytes: u64,
}

/// A follower's fetch, batched across the shards it follows.
#[derive(Clone, Debug, Default, PartialEq)]
pub struct FetchReqBody {
    pub replica_id: u64,
    pub replica_broker_epoch: u64,
    pub min_bytes: u64,
    pub max_wait_ms: u64,
    pub shards: Vec<FetchShardReq>,
}

#[derive(Clone, Debug, Default, PartialEq)]
pub struct FetchReq {
    pub header: ReqHeader,
    pub body: FetchReqBody,
}

impl FetchReq {
    pub fn new(body: FetchReqBody) -> (r: Self)
        ensures
            r.header.api_key == ApiKey::Fetch,
            r.body == body,
    {
        Self { header: ReqHeader::new(ApiKey::Fetch), body }
    }
}

#[derive(Clone, Debug, Default, PartialEq)]
pub struct FetchShardResp {
    pub shard_name: String,
    pub segment_seq: u32,
    pub records: Vec<Vec<u8>>,
    pub leader_hw: u64,
    pub leader_log_start: u64,
    pub leader_leo: u64,
    pub leader_epoch: u32,
    pub error_code: u32,
}

#[derive(Clone, Debug, Default, PartialEq)]
pub struct FetchRespBody {
    pub shards: Vec<FetchShardResp>,
}

#[derive(Clone, Debug, Default, PartialEq)]
pub struct FetchResp {
    pub header: RespHeader,
    pub body: FetchRespBody,
}

impl FetchResp {
    pub fn new(body: FetchRespBody) -> (r: Self)
        ensures
            r.header.api_key == ApiKey::Fetch,
            r.header.error is None,
            r.body == body,
    {
        Self { header: RespHeader::new(ApiKey::Fetch), body }
    }

    pub fn with_error(error: StorageEngineNetworkError) -> (r: Self)
        ensures
            r.header.api_key == ApiKey::Fetch,
            r.header.error == Some(error),
            r.body.shards@.len() == 0,
    {
        Self { header: RespHeader::with_error(ApiKey::Fetch, error), body: FetchRespBody { shards: Vec::new() } }
    }
}

/// The result code of a fetch from one shard; a refusal is normal while
/// the leader changes or records expire.
#[derive(Clone, Copy, Debug, PartialEq, Eq, Structural)]
pub enum FetchErrorCode {
    NoError,
    NotLeaderForPartition,
    FencedLeaderEpoch,
    UnknownLeaderEpoch,
    OffsetOutOfRange,
    StaleBrokerEpoch,
}

impl FetchErrorCode {
    /// The number of the code.
    pub fn as_u32(self) -> (r: u32)
        ensures
            r == match self {
                FetchErrorCode::NoError => 0u32,
                FetchErrorCode::NotLeaderForPartition => 1u32,
                FetchErrorCode::FencedLeaderEpoch => 2u32,
                FetchErrorCode::UnknownLeaderEpoch => 3u32,
                FetchErrorCode::OffsetOutOfRange => 4u32,
                FetchErrorCode::StaleBrokerEpoch => 5u32,
            },
    {
        match self {
            FetchErrorCode::NoError => 0,
            FetchErrorCode::NotLeaderForPartition => 1,
            FetchErrorCode::FencedLeaderEpoch => 2,
            FetchErrorCode::UnknownLeaderEpoch => 3,
            FetchErrorCode::OffsetOutOfRange => 4,
            FetchErrorCode::StaleBrokerEpoch => 5,
        }
    }
}

#[derive(Clone, Debug, Default, PartialEq)]
pub struct OffsetsForLeaderEpochReqBody {
    pub shard_name: String,
    pub segment_seq: u32,
    pub replica_id: u64,
    pub replica_broker_epoch: u64,
    pub current_leader_epoch: u32,
    pub follower_leader_epoch: u32,
}

#[derive(Clone, Debug, PartialEq)]
pub struct OffsetsForLeaderEpochReq {
    pub header: ReqHeader,
    pub body: OffsetsForLeaderEpochReqBody,
}

impl OffsetsForLeaderEpochReq {
    pub fn new(body: OffsetsForLeaderEpochReqBody) -> (r: Self)
        ensures
            r.header.api_key == ApiKey::OffsetsForLeaderEpoch,
            r.body == body,
    {
        Self { header: ReqHeader::new(ApiKey::OffsetsForLeaderEpoch), body }
    }
}

#[derive(Clone, Debug, Default, PartialEq)]
pub struct OffsetsForLeaderEpochRespBody {
    pub truncate_epoch: i32,
    pub truncate_offset: u64,
    pub error_code: u32,
    pub current_leader_epoch: u32,
}

#[derive(Clone, Debug, Default, PartialEq)]
pub struct OffsetsForLeaderEpochResp {
    pub header: RespHeader,
    pub body: OffsetsForLeaderEpochRespBody,
}

impl OffsetsForLeaderEpochResp {
    pub fn new(body: OffsetsForLeaderEpochRespBody) -> (r: Self)
        ensures
            r.header.api_key == ApiKey::OffsetsForLeaderEpoch,
            r.header.error is None,
            r.body == body,
    {
        Self { header: RespHeader::new(ApiKey::OffsetsForLeaderEpoch), body }
    }
}

/// Asks a shard's leader for its offsets: its start and end, or, by
/// timestamp, the offset of the first record at or after it.
#[derive(Clone, Debug, Default, PartialEq)]
pub struct ShardOffsetReqBody {
    pub shard_name: String,
    pub by_timestamp: bool,
    pub timestamp: u64,
    /// Where no record matches the timestamp: 0 for the earliest, 1 for the
    /// latest.
    pub strategy: u8,
}

#[derive(Clone, Debug, PartialEq)]
pub struct ShardOffsetReq {
    pub header: ReqHeader,
    pub body: ShardOffsetReqBody,
}

impl ShardOffsetReq {
    pub fn new(body: ShardOffsetReqBody) -> (r: Self)
        ensures
            r.header.api_key == ApiKey::ShardOffset,
            r.body == body,
    {
        Self { header: ReqHeader::new(ApiKey::ShardOffset), body }
    }
}

#[derive(Clone, Debug, Default, PartialEq)]
pub struct ShardOffsetRespBody {
    pub start_offset: u64,
    pub end_offset: u64,
    pub high_watermark: u64,
    /// The offset found by timestamp, where the request asked for one.
    pub offset: u64,
    pub error_code: u32,
}

#[derive(Clone, Debug, Default, PartialEq)]
pub struct ShardOffsetResp {
    pub header: RespHeader,
    pub body: ShardOffsetRespBody,
}

impl ShardOffsetResp {
    pub fn new(body: ShardOffsetRespBody) -> (r: Self)
        ensures
            r.header.api_key == ApiKey::ShardOffset,
            r.header.error is None,
            r.body == body,
    {
        Self { header: RespHeader::new(ApiKey::ShardOffset), body }
    }
}

#[derive(Clone, Debug, Default, PartialEq)]
pub struct DeleteReqBody {
    pub shard_name: String,
    pub keys: Vec<Bytes>,
    pub offsets: Vec<u64>,
    /// Where set, every record with a smaller offset is deleted, in place
    /// of the keys and offsets.
    pub delete_before_offset: Option<u64>,
}

#[derive(Clone, Debug, PartialEq)]
pub struct DeleteReq {
    pub header: ReqHeader,
    pub body: DeleteReqBody,
}

impl DeleteReq {
    pub fn new(body: DeleteReqBody) -> (r: Self)
        ensures
            r.header.api_key == ApiKey::Delete,
            r.body == body,
    {
        Self { header: ReqHeader::new(ApiKey::Delete), body }
    }
}

#[derive(Clone, Debug, Default, PartialEq)]
pub struct DeleteRespBody {
    pub error_code: u32,
    /// The lowest offset kept after a delete before an offset.
    pub achieved_offset: u64,
}

#[derive(Clone, Debug, Default, PartialEq)]
pub struct DeleteResp {
    pub header: RespHeader,
    pub body: DeleteRespBody,
}

impl DeleteResp {
    pub fn new(body: DeleteRespBody) -> (r: Self)
        ensures
            r.header.api_key == ApiKey::Delete,
            r.header.error is None,
            r.body == body,
    {
        Self { header: RespHeader::new(ApiKey::Delete), body }
    }
}

} // verus!
