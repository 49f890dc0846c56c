//! Messages of the storage engine protocol: headers, produce and fetch
//! requests and responses, and the enumerations they carry by number.
use crate::text::str_eq;
use vstd::prelude::*;

verus! {

#[derive(Clone, PartialEq, Debug, Default)]
pub struct RequestCommon {
    pub correlation_id: u32,
    pub client_id: String,
}

#[derive(Clone, PartialEq, Debug, Default)]
pub struct ResponseCommon {
    pub correlation_id: u32,
}

/// The header of every request and response. `api_key`, `api_type` and
/// `api_version` hold the numbers of `ApiKey`, `ApiType` and `ApiVersion`.
#[derive(Clone, PartialEq, Debug, Default)]
pub struct Header {
    pub api_key: i32,
    pub api_type: i32,
    pub api_version: i32,
    pub request: Option<RequestCommon>,
    pub response: Option<ResponseCommon>,
}

#[derive(Clone, PartialEq, Debug, Default)]
pub struct TopicData {
    pub name: String,
    pub partition_data: Option<PartitionData>,
}

#[derive(Clone, PartialEq, Debug, Default)]
pub struct PartitionData {}

#[derive(Clone, PartialEq, Debug, Default)]
pub struct ProduceReqBody {
    pub transactional_id: u32,
    pub acks: u32,
    pub timeout_ms: u32,
    pub topic_data: Option<TopicData>,
}

#[derive(Clone, PartialEq, Debug, Default)]
pub struct ProduceRespBody {}

#[derive(Clone, PartialEq, Debug, Default)]
pub struct ProduceReq {
    pub header: Option<Header>,
    pub body: Option<ProduceReqBody>,
}

#[derive(Clone, PartialEq, Debug, Default)]
pub struct ProduceResp {
    pub header: Option<Header>,
    pub body: Option<ProduceRespBody>,
}

#[derive(Clone, PartialEq, Debug, Default)]
pub struct FetchReqBody {}

#[derive(Clone, PartialEq, Debug, Default)]
pub struct FetchRespBody {}

#[derive(Clone, PartialEq, Debug, Default)]
pub struct FetchReq {
    pub header: Option<Header>,
    pub body: Option<FetchReqBody>,
}

#[derive(Clone, PartialEq, Debug, Default)]
pub struct FetchResp {
    pub header: Option<Header>,
    pub body: Option<FetchRespBody>,
}

/// Which operation a message belongs to.
#[derive(Clone, Copy, Debug, PartialEq, Eq, Structural, Hash, PartialOrd, Ord)]
pub enum ApiKey {
    Produce,
    Consume,
}

/// The name of an `ApiKey` in the protocol definition.
pub open spec fn api_key_label(k: ApiKey) -> Seq<char> {
    match k {
        ApiKey::Produce => "produce"@,
        ApiKey::Consume => "consume"@,
    }
}

/// The `ApiKey` named `s` in the protocol definition, if any.
pub open spec fn api_key_named(s: Seq<char>) -> Option<ApiKey> {
    if s == "produce"@ {
        Some(ApiKey::Produce)
    } else if s == "consume"@ {
        Some(ApiKey::Consume)
    } else {
        None
    }
}

/// The number that stands for an `ApiKey` on the wire.
pub open spec fn api_key_number(k: ApiKey) -> i32 {
    match k {
        ApiKey::Produce => 0i32,
        ApiKey::Consume => 1i32,
    }
}

impl Default for ApiKey {
    fn default() -> (r: Self)
        ensures
            r == ApiKey::Produce,
    {
        ApiKey::Produce
    }
}

impl From<ApiKey> for i32 {
    fn from(k: ApiKey) -> (r: i32) {
        match k {
            ApiKey::Produce => 0,
            ApiKey::Consume => 1,
        }
    }
}

impl vstd::std_specs::convert::FromSpecImpl<ApiKey> for i32 {
    open spec fn obeys_from_spec() -> bool {
        true
    }

    open spec fn from_spec(k: ApiKey) -> i32 {
        api_key_number(k)
    }
}

impl ApiKey {
    /// The name of the value in the protocol definition.
    pub fn as_str_name(&self) -> (r: &'static str)
        ensures
            r@ == api_key_label(*self),
    {
        match self {
            ApiKey::Produce => "produce",
            ApiKey::Consume => "consume",
        }
    }

    /// The value with the given name in the protocol definition.
    pub fn from_str_name(value: &str) -> (r: Option<Self>)
        ensures
            r == api_key_named(value@),
    {
        if str_eq(value, "produce") {
            return Some(ApiKey::Produce);
        }
        if str_eq(value, "consume") {
            return Some(ApiKey::Consume);
        }
        None
    }
}

/// Reading back the name of an `ApiKey` gives the same value.
pub proof fn lemma_api_key_name_roundtrip(k: ApiKey)
    ensures
        api_key_named(api_key_label(k)) == Some(k),
{
    reveal_strlit("produce");
    reveal_strlit("consume");
    assert("produce"@[0] != "consume"@[0]);
}

/// The version of the protocol a message follows.
#[derive(Clone, Copy, Debug, PartialEq, Eq, Structural, Hash, PartialOrd, Ord)]
pub enum ApiVersion {
    V0,
}

/// The name of an `ApiVersion` in the protocol definition.
pub open spec fn api_version_label(k: ApiVersion) -> Seq<char> {
    match k {
        ApiVersion::V0 => "V0"@,
    }
}

/// The `ApiVersion` named `s` in the protocol definition, if any.
pub open spec fn api_version_named(s: Seq<char>) -> Option<ApiVersion> {
    if s == "V0"@ {
        Some(ApiVersion::V0)
    } else {
        None
    }
}

/// The number that stands for an `ApiVersion` on the wire.
pub open spec fn api_version_number(k: ApiVersion) -> i32 {
    match k {
        ApiVersion::V0 => 0i32,
    }
}

impl Default for ApiVersion {
    fn default() -> (r: Self)
        ensures
            r == ApiVersion::V0,
    {
        ApiVersion::V0
    }
}

impl From<ApiVersion> for i32 {
    fn from(k: ApiVersion) -> (r: i32) {
        match k {
            ApiVersion::V0 => 0,
        }
    }
}

impl vstd::std_specs::convert::FromSpecImpl<ApiVersion> for i32 {
    open spec fn obeys_from_spec() -> bool {
        true
    }

    open spec fn from_spec(k: ApiVersion) -> i32 {
        api_version_number(k)
    }
}

impl ApiVersion {
    /// The name of the value in the protocol definition.
    pub fn as_str_name(&self) -> (r: &'static str)
        ensures
            r@ == api_version_label(*self),
    {
        match self {
            ApiVersion::V0 => "V0",
        }
    }

    /// The value with the given name in the protocol definition.
    pub fn from_str_name(value: &str) -> (r: Option<Self>)
        ensures
            r == api_version_named(value@),
    {
        if str_eq(value, "V0") {
            return Some(ApiVersion::V0);
        }
        None
    }
}

/// Reading back the name of an `ApiVersion` gives the same value.
pub proof fn lemma_api_version_name_roundtrip(k: ApiVersion)
    ensures
        api_version_named(api_version_label(k)) == Some(k),
{
    reveal_strlit("V0");
}

/// Whether a message is a request or a response.
#[derive(Clone, Copy, Debug, PartialEq, Eq, Structural, Hash, PartialOrd, Ord)]
pub enum ApiType {
    Request,
    Response,
}

/// The name of an `ApiType` in the protocol definition.
pub open spec fn api_type_label(k: ApiType) -> Seq<char> {
    match k {
        ApiType::Request => "Request"@,
        ApiType::Response => "Response"@,
    }
}

/// The `ApiType` named `s` in the protocol definition, if any.
pub open spec fn api_type_named(s: Seq<char>) -> Option<ApiType> {
    if s == "Request"@ {
        Some(ApiType::Request)
    } else if s == "Response"@ {
        Some(ApiType::Response)
    } else {
        None
    }
}

/// The number that stands for an `ApiType` on the wire.
pub open spec fn api_type_number(k: ApiType) -> i32 {
    match k {
        ApiType::Request => 0i32,
        ApiType::Response => 1i32,
    }
}

impl Default for ApiType {
    fn default() -> (r: Self)
        ensures
            r == ApiType::Request,
    {
        ApiType::Request
    }
}

impl From<ApiType> for i32 {
    fn from(k: ApiType) -> (r: i32) {
        match k {
            ApiType::Request => 0,
            ApiType::Response => 1,
        }
    }
}

impl vstd::std_specs::convert::FromSpecImpl<ApiType> for i32 {
    open spec fn obeys_from_spec() -> bool {
        true
    }

    open spec fn from_spec(k: ApiType) -> i32 {
        api_type_number(k)
    }
}

impl ApiType {
    /// The name of the value in the protocol definition.
    pub fn as_str_name(&self) -> (r: &'static str)
        ensures
            r@ == api_type_label(*self),
    {
        match self {
            ApiType::Request => "Request",
            ApiType::Response => "Response",
        }
    }

    /// The value with the given name in the protocol definition.
    pub fn from_str_name(value: &str) -> (r: Option<Self>)
        ensures
            r == api_type_named(value@),
    {
        if str_eq(value, "Request") {
            return Some(ApiType::Request);
        }
        if str_eq(value, "Response") {
            return Some(ApiType::Response);
        }
        None
    }
}

/// Reading back the name of an `ApiType` gives the same value.
pub proof fn lemma_api_type_name_roundtrip(k: ApiType)
    ensures
        api_type_named(api_type_label(k)) == Some(k),
{
    reveal_strlit("Request");
    reveal_strlit("Response");
    assert("Request"@[2] != "Response"@[2]);
}

/// The result code of a response.
#[derive(Clone, Copy, Debug, PartialEq, Eq, Structural, Hash, PartialOrd, Ord)]
pub enum ErrorCode {
    Success,
}

/// The name of an `ErrorCode` in the protocol definition.
pub open spec fn error_code_label(k: ErrorCode) -> Seq<char> {
    match k {
        ErrorCode::Success => "Success"@,
    }
}

/// The `ErrorCode` named `s` in the protocol definition, if any.
pub open spec fn error_code_named(s: Seq<char>) -> Option<ErrorCode> {
    if s == "Success"@ {
        Some(ErrorCode::Success)
    } else {
        None
    }
}

/// The number that stands for an `ErrorCode` on the wire.
pub open spec fn error_code_number(k: ErrorCode) -> i32 {
    match k {
        ErrorCode::Success => 0i32,
    }
}

impl Default for ErrorCode {
    fn default() -> (r: Self)
        ensures
            r == ErrorCode::Success,
    {
        ErrorCode::Success
    }
}

impl From<ErrorCode> for i32 {
    fn from(k: ErrorCode) -> (r: i32) {
        match k {
            ErrorCode::Success => 0,
        }
    }
}

impl vstd::std_specs::convert::FromSpecImpl<ErrorCode> for i32 {
    open spec fn obeys_from_spec() -> bool {
        true
    }

    open spec fn from_spec(k: ErrorCode) -> i32 {
        error_code_number(k)
    }
}

impl ErrorCode {
    /// The name of the value in the protocol definition.
    pub fn as_str_name(&self) -> (r: &'static str)
        ensures
            r@ == error_code_label(*self),
    {
        match self {
            ErrorCode::Success => "Success",
        }
    }

    /// The value with the given name in the protocol definition.
    pub fn from_str_name(value: &str) -> (r: Option<Self>)
        ensures
            r == error_code_named(value@),
    {
        if str_eq(value, "Success") {
            return Some(ErrorCode::Success);
        }
        None
    }
}

/// Reading back the name of an `ErrorCode` gives the same value.
pub proof fn lemma_error_code_name_roundtrip(k: ErrorCode)
    ensures
        error_code_named(error_code_label(k)) == Some(k),
{
    reveal_strlit("Success");
}

impl Header {
    /// The header's `api_key` as an `ApiKey`; a number that stands for no
    /// key reads as the default key.
    pub fn api_key(&self) -> (r: ApiKey)
        ensures
            r == (if self.api_key == 1 { ApiKey::Consume } else { ApiKey::Produce }),
    {
        if self.api_key == 1 {
            ApiKey::Consume
        } else {
            ApiKey::Produce
        }
    }

    /// The header's `api_type` as an `ApiType`; a number that stands for no
    /// type reads as the default type.
    pub fn api_type(&self) -> (r: ApiType)
        ensures
            r == (if self.api_type == 1 { ApiType::Response } else { ApiType::Request }),
    {
        if self.api_type == 1 {
            ApiType::Response
        } else {
            ApiType::Request
        }
    }
}

/// The numbers and names of the storage engine's enumerations, as the
/// protocol definition gives them: API key 0 `produce` and 1 `consume`, API
/// version 0 `V0`, API type 0 `Request` and 1 `Response`, error code 0
/// `Success`.
pub proof fn lemma_storage_enum_numbers()
    ensures
        api_key_number(ApiKey::Produce) == 0 && api_key_label(ApiKey::Produce) == "produce"@,
        api_key_number(ApiKey::Consume) == 1 && api_key_label(ApiKey::Consume) == "consume"@,
        api_version_number(ApiVersion::V0) == 0 && api_version_label(ApiVersion::V0) == "V0"@,
        api_type_number(ApiType::Request) == 0 && api_type_label(ApiType::Request) == "Request"@,
        api_type_number(ApiType::Response) == 1 && api_type_label(ApiType::Response) == "Response"@,
        error_code_number(ErrorCode::Success) == 0 && error_code_label(ErrorCode::Success) == "Success"@,
{
}

} // verus!
