//! Framing of storage engine packets.
//!
//! A frame is `data_len (u32) | req_type (u8) | header_len (u32) | header |
//! body_len (u32) | body`, every integer big-endian, where `data_len` is the
//! length of the header and the body together. Header and body are encoded
//! values; which values they hold is decided by `req_type` and by the
//! header's `api_key`.
use crate::buffer::{
    be_u32_bytes, be_u32_value, bytes_advance, bytes_as_slice, bytes_get_u32, bytes_get_u8,
    bytes_mut_as_slice, bytes_mut_extend, bytes_mut_freeze, bytes_mut_len, bytes_mut_put_u32,
    bytes_mut_put_u8, bytes_mut_seq, bytes_mut_split_to, bytes_seq, bytes_split_to,
    lemma_be_u32_roundtrip,
};
use crate::storage::protocol::{ApiKey, ReadReq, ReadResp, WriteReq, WriteResp};
use bytes::BytesMut;
use vstd::prelude::*;
use vstd::slice::slice_to_vec;

verus! {

/// What the storage engine codec refuses.
#[derive(Debug, Clone, PartialEq, Eq)]
pub enum StorageError {
    /// The header and the body together are longer than a frame may carry.
    PayloadSizeLimitExceeded(usize),
    /// A frame declares a header of no bytes.
    HeaderLengthIsZero,
    /// The frame's request kind, or its header's API key, is not one the
    /// codec carries.
    NotAvailableRequestType(u8),
    /// The header bytes did not decode; the decoder's message.
    DecodeHeaderError(String),
    /// The body bytes did not decode: which body, and the decoder's message.
    DecodeBodyError(String, String),
}

/// The largest payload, header and body together, that a frame may carry
/// (8 GiB).
pub const STORAGE_MAX_SIZE: u64 = 8589934592;

/// The bytes of a frame besides its header and body.
pub const FRAME_OVERHEAD: usize = 13;

/// Request kind of the frames that carry a request.
pub const REQUEST_KIND: u8 = 1;

/// Request kind of the frames that carry a response.
pub const RESPONSE_KIND: u8 = 2;

#[derive(Debug, PartialEq, Clone)]
pub struct StorageEngineCodec {}

#[derive(Clone, Debug, PartialEq)]
pub enum StorageEnginePacket {
    WriteReq(WriteReq),
    WriteResp(WriteResp),
    ReadReq(ReadReq),
    ReadResp(ReadResp),
}

/// The name of a storage packet.
pub open spec fn storage_packet_text(p: StorageEnginePacket) -> Seq<char> {
    match p {
        StorageEnginePacket::WriteReq(_) => "WriteReq"@,
        StorageEnginePacket::WriteResp(_) => "WriteResp"@,
        StorageEnginePacket::ReadReq(_) => "ReadReq"@,
        StorageEnginePacket::ReadResp(_) => "ReadResp"@,
    }
}

impl StorageEnginePacket {
    /// The packet's name, as `storage_packet_text` says.
    pub fn to_string(&self) -> (r: String)
        ensures
            r@ == storage_packet_text(*self),
    {
        proof {
            reveal_strlit("");
        }
        match self {
            StorageEnginePacket::WriteReq(_) => crate::text::concat("", "WriteReq"),
            StorageEnginePacket::WriteResp(_) => crate::text::concat("", "WriteResp"),
            StorageEnginePacket::ReadReq(_) => crate::text::concat("", "ReadReq"),
            StorageEnginePacket::ReadResp(_) => crate::text::concat("", "ReadResp"),
        }
    }
}

/// A frame cut from the stream: its request kind and the encoded header and
/// body it carries.
#[derive(Clone, Debug, PartialEq, Eq)]
pub struct StorageFrame {
    pub req_type: u8,
    pub header: Vec<u8>,
    pub body: Vec<u8>,
}

/// Which header a frame carries, by its request kind.
#[derive(Clone, Copy, Debug, PartialEq, Eq, Structural)]
pub enum HeaderKind {
    Request,
    Response,
}

/// Which body a frame carries, by its request kind and its header's API key.
#[derive(Clone, Copy, Debug, PartialEq, Eq, Structural)]
pub enum BodyKind {
    WriteReq,
    ReadReq,
    WriteResp,
    ReadResp,
}

/// The request kind written for a packet: requests are kind 1, responses
/// kind 2.
pub open spec fn request_kind(item: StorageEnginePacket) -> u8 {
    match item {
        StorageEnginePacket::WriteReq(_) => 1,
        StorageEnginePacket::ReadReq(_) => 1,
        StorageEnginePacket::WriteResp(_) => 2,
        StorageEnginePacket::ReadResp(_) => 2,
    }
}

/// The frame that carries `header` and `body` under request kind `req_type`.
/// Each length is written as a 32-bit integer, cut to its low 32 bits.
pub open spec fn frame_encoding(req_type: u8, header: Seq<u8>, body: Seq<u8>) -> Seq<u8> {
    be_u32_bytes((header.len() + body.len()) as u32) + seq![req_type] + be_u32_bytes(
        header.len() as u32,
    ) + header + be_u32_bytes(body.len() as u32) + body
}

/// The payload length that a frame at the head of `s` declares.
pub open spec fn frame_data_len(s: Seq<u8>) -> int {
    be_u32_value(s) as int
}

/// The length of the whole frame at the head of `s`.
pub open spec fn frame_total_len(s: Seq<u8>) -> int {
    frame_data_len(s) + 13
}

/// `s` starts with a whole frame.
pub open spec fn frame_complete(s: Seq<u8>) -> bool {
    s.len() >= 4 && s.len() >= frame_total_len(s)
}

/// The header length that the frame at the head of `s` declares.
pub open spec fn frame_header_len(s: Seq<u8>) -> int {
    be_u32_value(s.skip(5)) as int
}

/// The body length that the frame at the head of `s` declares.
pub open spec fn frame_body_len(s: Seq<u8>) -> int {
    be_u32_value(s.skip(9 + frame_header_len(s))) as int
}

/// A whole frame at the head of `s` holds the header and the body it
/// declares (a frame with an empty header is refused before they are read).
pub open spec fn frame_fits(s: Seq<u8>) -> bool {
    (frame_complete(s) && frame_header_len(s) != 0) ==> (frame_header_len(s) <= frame_data_len(s)
        && frame_header_len(s) + frame_body_len(s) <= frame_data_len(s))
}

impl Default for StorageEngineCodec {
    fn default() -> (r: Self)
        ensures
            r == (StorageEngineCodec {}),
    {
        StorageEngineCodec::new()
    }
}

/// The 32-bit big-endian integer at `at` in `s`.
fn be_u32_at(s: &[u8], at: usize) -> (r: u32)
    requires
        at + 4 <= s@.len(),
    ensures
        r == be_u32_value(s@.skip(at as int)),
{
    let b0 = s[at] as u32;
    let b1 = s[at + 1] as u32;
    let b2 = s[at + 2] as u32;
    let b3 = s[at + 3] as u32;
    b0 * 16777216 + b1 * 65536 + b2 * 256 + b3
}

impl StorageEngineCodec {
    pub fn new() -> (r: StorageEngineCodec)
        ensures
            r == (StorageEngineCodec {}),
    {
        StorageEngineCodec {}
    }

    /// The request kind under which `item` is framed.
    pub fn packet_req_type(item: &StorageEnginePacket) -> (r: u8)
        ensures
            r == request_kind(*item),
    {
        match item {
            StorageEnginePacket::WriteReq(_) => REQUEST_KIND,
            StorageEnginePacket::ReadReq(_) => REQUEST_KIND,
            StorageEnginePacket::WriteResp(_) => RESPONSE_KIND,
            StorageEnginePacket::ReadResp(_) => RESPONSE_KIND,
        }
    }

    /// Frames `item`, whose header and body are given encoded, onto `dst`.
    /// A payload over `STORAGE_MAX_SIZE` is refused and `dst` is left as
    /// it was.
    pub fn encode_data(
        &self,
        item: &StorageEnginePacket,
        header_byte: &[u8],
        body_byte: &[u8],
        dst: &mut BytesMut,
    ) -> (r: Result<(), StorageError>)
        requires
            bytes_mut_seq(*old(dst)).len() + header_byte@.len() + body_byte@.len() + 13
                <= usize::MAX,
        ensures
            header_byte@.len() + body_byte@.len() > STORAGE_MAX_SIZE ==> (r == Err::<
                (),
                StorageError,
            >(StorageError::PayloadSizeLimitExceeded(
                (header_byte@.len() + body_byte@.len()) as usize,
            )) && bytes_mut_seq(*final(dst)) == bytes_mut_seq(*old(dst))),
            header_byte@.len() + body_byte@.len() <= STORAGE_MAX_SIZE ==> (r is Ok
                && bytes_mut_seq(*final(dst)) == bytes_mut_seq(*old(dst)) + frame_encoding(
                request_kind(*item),
                header_byte@,
                body_byte@,
            )),
    {
        let req_type = Self::packet_req_type(item);
        let header_len = header_byte.len();
        let body_len = body_byte.len();
        let data_len = header_len + body_len;
        if data_len as u64 > STORAGE_MAX_SIZE {
            return Err(StorageError::PayloadSizeLimitExceeded(data_len));
        }
        let ghost d0 = bytes_mut_seq(*dst);
        bytes_mut_put_u32(dst, data_len as u32);
        bytes_mut_put_u8(dst, req_type);
        bytes_mut_put_u32(dst, header_len as u32);
        bytes_mut_extend(dst, header_byte);
        bytes_mut_put_u32(dst, body_len as u32);
        bytes_mut_extend(dst, body_byte);
        proof {
            let e = frame_encoding(req_type, header_byte@, body_byte@);
            assert(bytes_mut_seq(*dst) =~= d0 + e);
        }
        Ok(())
    }

    /// Cuts the frame at the head of `src`. With too few bytes for a whole
    /// frame, nothing is taken and `Ok(None)` comes back; otherwise the whole
    /// frame leaves `src`, and its parts come back unless its header is
    /// empty.
    pub fn decode_data(&mut self, src: &mut BytesMut) -> (r: Result<
        Option<StorageFrame>,
        StorageError,
    >)
        requires
            frame_fits(bytes_mut_seq(*old(src))),
        ensures
            !frame_complete(bytes_mut_seq(*old(src))) ==> (r == Ok::<
                Option<StorageFrame>,
                StorageError,
            >(None) && bytes_mut_seq(*final(src)) == bytes_mut_seq(*old(src))),
            frame_complete(bytes_mut_seq(*old(src))) ==> bytes_mut_seq(*final(src))
                == bytes_mut_seq(*old(src)).skip(frame_total_len(bytes_mut_seq(*old(src)))),
            frame_complete(bytes_mut_seq(*old(src))) && frame_header_len(bytes_mut_seq(*old(src)))
                == 0 ==> r == Err::<Option<StorageFrame>, StorageError>(
                StorageError::HeaderLengthIsZero,
            ),
            ({
                let s = bytes_mut_seq(*old(src));
                let h = frame_header_len(s);
                let b = frame_body_len(s);
                frame_complete(s) && h != 0 ==> (r matches Ok(Some(f)) && f.req_type == s[4]
                    && f.header@ == s.subrange(9, 9 + h) && f.body@ == s.subrange(
                    13 + h,
                    13 + h + b,
                ))
            }),
    {
        let ghost s = bytes_mut_seq(*src);
        let src_len = bytes_mut_len(src);
        if src_len < 4 {
            return Ok(None);
        }
        let data_len = be_u32_at(bytes_mut_as_slice(src), 0);
        assert(s.skip(0) =~= s);
        if data_len as u64 > STORAGE_MAX_SIZE {
            return Err(StorageError::PayloadSizeLimitExceeded(data_len as usize));
        }
        let frame_len: u64 = data_len as u64 + 13;
        if (src_len as u64) < frame_len {
            return Ok(None);
        }
        let frame = bytes_mut_split_to(src, frame_len as usize);
        let mut f = bytes_mut_freeze(frame);
        let ghost fs = bytes_seq(f);
        assert(fs =~= s.take(frame_len as int));
        bytes_advance(&mut f, 4);
        let req_type = bytes_get_u8(&mut f);
        let header_len = bytes_get_u32(&mut f);
        assert(fs.skip(5) =~= s.skip(5).take(fs.len() - 5));
        assert(header_len == frame_header_len(s));
        if header_len == 0 {
            return Err(StorageError::HeaderLengthIsZero);
        }
        let ghost h = header_len as int;
        let header = bytes_split_to(&mut f, header_len as usize);
        let body_len = bytes_get_u32(&mut f);
        assert(fs.skip(9 + h) =~= s.skip(9 + h).take(fs.len() - 9 - h));
        assert(body_len == frame_body_len(s));
        let body = bytes_split_to(&mut f, body_len as usize);
        let header_vec = slice_to_vec(bytes_as_slice(&header));
        let body_vec = slice_to_vec(bytes_as_slice(&body));
        proof {
            assert(header_vec@ =~= s.subrange(9, 9 + h));
            assert(body_vec@ =~= s.subrange(13 + h, 13 + h + body_len));
        }
        Ok(Some(StorageFrame { req_type, header: header_vec, body: body_vec }))
    }

    /// Which header a frame of kind `req_type` carries.
    pub fn header_kind(req_type: u8) -> (r: Result<HeaderKind, StorageError>)
        ensures
            req_type == REQUEST_KIND ==> r == Ok::<HeaderKind, StorageError>(HeaderKind::Request),
            req_type == RESPONSE_KIND ==> r == Ok::<HeaderKind, StorageError>(
                HeaderKind::Response,
            ),
            req_type != REQUEST_KIND && req_type != RESPONSE_KIND ==> r == Err::<
                HeaderKind,
                StorageError,
            >(StorageError::NotAvailableRequestType(req_type)),
    {
        if req_type == REQUEST_KIND {
            Ok(HeaderKind::Request)
        } else if req_type == RESPONSE_KIND {
            Ok(HeaderKind::Response)
        } else {
            Err(StorageError::NotAvailableRequestType(req_type))
        }
    }

    /// Which body follows a decoded header: writes and reads are carried,
    /// any other API key is refused under the frame's request kind.
    pub fn body_kind(kind: HeaderKind, api_key: ApiKey, req_type: u8) -> (r: Result<
        BodyKind,
        StorageError,
    >)
        ensures
            api_key != ApiKey::Write && api_key != ApiKey::Read ==> r == Err::<
                BodyKind,
                StorageError,
            >(StorageError::NotAvailableRequestType(req_type)),
            kind == HeaderKind::Request && api_key == ApiKey::Write ==> r == Ok::<
                BodyKind,
                StorageError,
            >(BodyKind::WriteReq),
            kind == HeaderKind::Request && api_key == ApiKey::Read ==> r == Ok::<
                BodyKind,
                StorageError,
            >(BodyKind::ReadReq),
            kind == HeaderKind::Response && api_key == ApiKey::Write ==> r == Ok::<
                BodyKind,
                StorageError,
            >(BodyKind::WriteResp),
            kind == HeaderKind::Response && api_key == ApiKey::Read ==> r == Ok::<
                BodyKind,
                StorageError,
            >(BodyKind::ReadResp),
    {
        match (kind, api_key) {
            (HeaderKind::Request, ApiKey::Write) => Ok(BodyKind::WriteReq),
            (HeaderKind::Request, ApiKey::Read) => Ok(BodyKind::ReadReq),
            (HeaderKind::Response, ApiKey::Write) => Ok(BodyKind::WriteResp),
            (HeaderKind::Response, ApiKey::Read) => Ok(BodyKind::ReadResp),
            _ => Err(StorageError::NotAvailableRequestType(req_type)),
        }
    }

    /// The error for a body of kind `kind` that did not decode, with the
    /// decoder's message.
    pub fn body_error(kind: BodyKind, message: String) -> (r: StorageError)
        ensures
            r matches StorageError::DecodeBodyError(n, m) && n@ == body_kind_label(kind) && m
                == message,
    {
        StorageError::DecodeBodyError(body_kind_name(kind).to_owned(), message)
    }

    /// Whether the frame at the head of `src` holds what it declares, so
    /// that `decode_data` can take it.
    pub fn frame_is_well_formed(src: &[u8]) -> (r: bool)
        ensures
            r == frame_fits(src@),
    {
        let ghost s = src@;
        let n = src.len();
        if n < 4 {
            return true;
        }
        let d = be_u32_at(src, 0);
        assert(s.skip(0) =~= s);
        if (n as u64) < d as u64 + 13 {
            return true;
        }
        let h = be_u32_at(src, 5);
        if h == 0 {
            return true;
        }
        if h > d {
            return false;
        }
        let b = be_u32_at(src, 9 + h as usize);
        h as u64 + b as u64 <= d as u64
    }
}

/// The name under which a body kind is reported when it does not decode.
pub open spec fn body_kind_label(kind: BodyKind) -> Seq<char> {
    match kind {
        BodyKind::WriteReq => "write_req"@,
        BodyKind::ReadReq => "read_req"@,
        BodyKind::WriteResp => "write_resp"@,
        BodyKind::ReadResp => "read_resp"@,
    }
}

/// The name under which a body kind is reported when it does not decode.
pub fn body_kind_name(kind: BodyKind) -> (r: &'static str)
    ensures
        r@ == body_kind_label(kind),
{
    match kind {
        BodyKind::WriteReq => "write_req",
        BodyKind::ReadReq => "read_req",
        BodyKind::WriteResp => "write_resp",
        BodyKind::ReadResp => "read_resp",
    }
}

/// Requests are framed under request kind 1 and responses under kind 2, and
/// the frame is laid out as the payload length in four bytes, the kind, the
/// header length in four bytes, the header, the body length in four bytes
/// and the body, each length high byte first.
pub proof fn lemma_frame_kinds_and_layout(item: StorageEnginePacket, req_type: u8, header: Seq<u8>, body: Seq<u8>)
    requires
        header.len() + body.len() <= u32::MAX,
    ensures
        REQUEST_KIND == 1 && RESPONSE_KIND == 2,
        (item is WriteReq || item is ReadReq) ==> request_kind(item) == 1,
        (item is WriteResp || item is ReadResp) ==> request_kind(item) == 2,
        ({
            let n = header.len() + body.len();
            let hl = header.len();
            let bl = body.len();
            frame_encoding(req_type, header, body) == seq![
                (n / 16777216) as u8,
                ((n / 65536) % 256) as u8,
                ((n / 256) % 256) as u8,
                (n % 256) as u8,
                req_type,
                (hl / 16777216) as u8,
                ((hl / 65536) % 256) as u8,
                ((hl / 256) % 256) as u8,
                (hl % 256) as u8,
            ] + header + seq![
                (bl / 16777216) as u8,
                ((bl / 65536) % 256) as u8,
                ((bl / 256) % 256) as u8,
                (bl % 256) as u8,
            ] + body
        }),
{
    let n = header.len() + body.len();
    let hl = header.len();
    let bl = body.len();
    assert(frame_encoding(req_type, header, body) =~= seq![
        (n / 16777216) as u8,
        ((n / 65536) % 256) as u8,
        ((n / 256) % 256) as u8,
        (n % 256) as u8,
        req_type,
        (hl / 16777216) as u8,
        ((hl / 65536) % 256) as u8,
        ((hl / 256) % 256) as u8,
        (hl % 256) as u8,
    ] + header + seq![
        (bl / 16777216) as u8,
        ((bl / 65536) % 256) as u8,
        ((bl / 256) % 256) as u8,
        (bl % 256) as u8,
    ] + body);
}

/// What a frame written by `encode_data` reads back as: for a non-empty
/// header and a payload whose length fits in 32 bits, the frame is whole,
/// holds what it declares, and gives back the request kind, the header and
/// the body, leaving the bytes after it untouched.
pub proof fn lemma_frame_roundtrip(req_type: u8, header: Seq<u8>, body: Seq<u8>, rest: Seq<u8>)
    requires
        header.len() > 0,
        header.len() + body.len() <= u32::MAX,
    ensures
        ({
            let e = frame_encoding(req_type, header, body);
            let s = e + rest;
            &&& frame_complete(s)
            &&& frame_fits(s)
            &&& frame_total_len(s) == e.len()
            &&& s[4] == req_type
            &&& frame_header_len(s) == header.len()
            &&& frame_body_len(s) == body.len()
            &&& s.subrange(9, 9 + header.len() as int) == header
            &&& s.subrange(13 + header.len() as int, 13 + header.len() + body.len() as int) == body
            &&& s.skip(e.len() as int) == rest
        }),
{
    let d = (header.len() + body.len()) as u32;
    let hl = header.len() as u32;
    let bl = body.len() as u32;
    lemma_be_u32_roundtrip(d);
    lemma_be_u32_roundtrip(hl);
    lemma_be_u32_roundtrip(bl);
    let e = frame_encoding(req_type, header, body);
    let s = e + rest;
    let h = header.len() as int;
    assert(e.len() == 13 + header.len() + body.len());
    assert(s.take(4) =~= be_u32_bytes(d));
    assert(frame_data_len(s) == d);
    assert(s.skip(5).take(4) =~= be_u32_bytes(hl));
    assert(frame_header_len(s) == hl);
    assert(s.skip(9 + h).take(4) =~= be_u32_bytes(bl));
    assert(frame_body_len(s) == bl);
    assert(s.subrange(9, 9 + h) =~= header);
    assert(s.subrange(13 + h, 13 + h + body.len()) =~= body);
    assert(s.skip(e.len() as int) =~= rest);
}

/// The codec holds no state: every two codecs are the same value, the one
/// that `new` and `default` give, so a codec after any calls decodes and
/// encodes as a fresh one, and what it returns depends on the arguments of
/// the call alone.
pub proof fn lemma_storage_codec_stateless(a: StorageEngineCodec, b: StorageEngineCodec)
    ensures
        a == b,
        a == (StorageEngineCodec {  }),
{
}

} // verus!
