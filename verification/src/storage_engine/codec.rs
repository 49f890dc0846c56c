//! Framing of storage engine messages.
//!
//! A frame is `data_len (u32) | header_len (u32) | header | body_len (u32) |
//! body`, every integer big-endian, where `data_len` is the length of the
//! header and the body together. Header and body are protobuf encodings;
//! which body follows is decided by the header's API key and type.
use crate::buffer::{
    be_u32_bytes, be_u32_value, bytes_as_slice, bytes_advance, bytes_get_u32, bytes_mut_as_slice,
    bytes_mut_extend, bytes_mut_freeze, bytes_mut_len, bytes_mut_put_u32, bytes_mut_seq,
    bytes_mut_split_to, bytes_seq, bytes_split_to, lemma_be_u32_roundtrip,
};
use crate::storage_engine::storage::{
    ApiKey, ApiType, FetchReq, FetchResp, Header, ProduceReq, ProduceResp,
};
use crate::storage_engine::Error;
use bytes::BytesMut;
use vstd::prelude::*;
use vstd::slice::slice_to_vec;

verus! {

/// The largest payload, header and body together, that a frame may carry
/// (8 GiB).
pub const ENGINE_MAX_SIZE: u64 = 8589934592;

pub struct StorageEngineCodec {}

#[derive(Debug, PartialEq, Clone)]
pub enum StorageEnginePacket {
    ProduceReq(ProduceReq),
    ProduceResp(ProduceResp),
    FetchReq(FetchReq),
    FetchResp(FetchResp),
}

/// A frame cut from the stream: the encoded header and body it carries.
#[derive(Clone, Debug, PartialEq, Eq)]
pub struct EngineFrame {
    pub header: Vec<u8>,
    pub body: Vec<u8>,
}

/// Which message a decoded header announces.
#[derive(Clone, Copy, Debug, PartialEq, Eq, Structural)]
pub enum PacketKind {
    ProduceReq,
    ProduceResp,
    FetchReq,
    FetchResp,
}

/// Fetch messages are framed with an empty header and an empty body.
pub open spec fn is_fetch(item: StorageEnginePacket) -> bool {
    item is FetchReq || item is FetchResp
}

/// A produce message carries both its header and its body.
pub open spec fn carries_parts(item: StorageEnginePacket) -> bool {
    match item {
        StorageEnginePacket::ProduceReq(p) => p.header is Some && p.body is Some,
        StorageEnginePacket::ProduceResp(p) => p.header is Some && p.body is Some,
        _ => true,
    }
}

/// The frame that carries `header` and `body`. Each length is written as a
/// 32-bit integer, cut to its low 32 bits.
pub open spec fn engine_frame_encoding(header: Seq<u8>, body: Seq<u8>) -> Seq<u8> {
    be_u32_bytes((header.len() + body.len()) as u32) + be_u32_bytes(header.len() as u32) + header
        + be_u32_bytes(body.len() as u32) + body
}

/// The payload length that a frame at the head of `s` declares.
pub open spec fn engine_data_len(s: Seq<u8>) -> int {
    be_u32_value(s) as int
}

/// The length of the whole frame at the head of `s`.
pub open spec fn engine_total_len(s: Seq<u8>) -> int {
    engine_data_len(s) + 12
}

/// `s` starts with a whole frame.
pub open spec fn engine_complete(s: Seq<u8>) -> bool {
    s.len() >= 4 && s.len() >= engine_total_len(s)
}

/// The header length that the frame at the head of `s` declares.
pub open spec fn engine_header_len(s: Seq<u8>) -> int {
    be_u32_value(s.skip(4)) as int
}

/// The body length that the frame at the head of `s` declares.
pub open spec fn engine_body_len(s: Seq<u8>) -> int {
    be_u32_value(s.skip(8 + engine_header_len(s))) as int
}

/// A whole frame at the head of `s` holds the header and the body it
/// declares (a frame with an empty header is refused before they are read).
pub open spec fn engine_frame_fits(s: Seq<u8>) -> bool {
    (engine_complete(s) && engine_header_len(s) != 0) ==> (engine_header_len(s)
        <= engine_data_len(s) && engine_header_len(s) + engine_body_len(s) <= engine_data_len(
        s,
    ))
}

/// The message that a header of the given key and type announces.
pub open spec fn kind_of(key: ApiKey, api_type: ApiType) -> PacketKind {
    match (key, api_type) {
        (ApiKey::Produce, ApiType::Request) => PacketKind::ProduceReq,
        (ApiKey::Produce, ApiType::Response) => PacketKind::ProduceResp,
        (ApiKey::Consume, ApiType::Request) => PacketKind::FetchReq,
        (ApiKey::Consume, ApiType::Response) => PacketKind::FetchResp,
    }
}

/// The name under which a message kind is reported when its body does not
/// decode.
pub open spec fn packet_kind_label(kind: PacketKind) -> Seq<char> {
    match kind {
        PacketKind::ProduceReq => "produce_req"@,
        PacketKind::ProduceResp => "produce_resp"@,
        PacketKind::FetchReq => "fetch_req"@,
        PacketKind::FetchResp => "fetch_resp"@,
    }
}

/// The message a header announces: produce with a request is a produce
/// request, with a response a produce response; consume with a request is a
/// fetch request, with a response a fetch response; each reported by its
/// name when its body does not decode.
pub proof fn lemma_packet_kinds()
    ensures
        kind_of(ApiKey::Produce, ApiType::Request) == PacketKind::ProduceReq,
        kind_of(ApiKey::Produce, ApiType::Response) == PacketKind::ProduceResp,
        kind_of(ApiKey::Consume, ApiType::Request) == PacketKind::FetchReq,
        kind_of(ApiKey::Consume, ApiType::Response) == PacketKind::FetchResp,
        packet_kind_label(PacketKind::ProduceReq) == "produce_req"@,
        packet_kind_label(PacketKind::ProduceResp) == "produce_resp"@,
        packet_kind_label(PacketKind::FetchReq) == "fetch_req"@,
        packet_kind_label(PacketKind::FetchResp) == "fetch_resp"@,
{
}

/// The 32-bit big-endian integer at `at` in `s`.
fn be_u32_at(s: &[u8], at: usize) -> (r: u32)
    requires
        at + 4 <= s@.len(),
    ensures
        r == be_u32_value(s@.skip(at as int)),
{
    let b0 = s[at] as u32;
    let b1 = s[at + 1] as u32;
    let b2 = s[at + 2] as u32;
    let b3 = s[at + 3] as u32;
    b0 * 16777216 + b1 * 65536 + b2 * 256 + b3
}

impl StorageEngineCodec {
    pub fn new() -> (r: StorageEngineCodec)
        ensures
            r == (StorageEngineCodec {}),
    {
        StorageEngineCodec {}
    }

    /// Frames `item` onto `dst`. A produce message is framed with
    /// `header_byte` and `body_byte`, the encodings of its header and body;
    /// a fetch message is framed with an empty header and body, whatever is
    /// given. A payload over `ENGINE_MAX_SIZE` is refused and `dst` is left
    /// as it was.
    pub fn encode(
        &mut self,
        item: &StorageEnginePacket,
        header_byte: &[u8],
        body_byte: &[u8],
        dst: &mut BytesMut,
    ) -> (r: Result<(), Error>)
        requires
            carries_parts(*item),
            bytes_mut_seq(*old(dst)).len() + header_byte@.len() + body_byte@.len() + 12
                <= usize::MAX,
        ensures
            is_fetch(*item) ==> (r is Ok && bytes_mut_seq(*final(dst)) == bytes_mut_seq(*old(dst))
                + engine_frame_encoding(Seq::empty(), Seq::empty())),
            !is_fetch(*item) && header_byte@.len() + body_byte@.len() > ENGINE_MAX_SIZE ==> (
            r matches Err(Error::PayloadSizeLimitExceeded(n)) && n == header_byte@.len()
                + body_byte@.len() && bytes_mut_seq(*final(dst)) == bytes_mut_seq(*old(dst))),
            !is_fetch(*item) && header_byte@.len() + body_byte@.len() <= ENGINE_MAX_SIZE ==> (
            r is Ok && bytes_mut_seq(*final(dst)) == bytes_mut_seq(*old(dst))
                + engine_frame_encoding(header_byte@, body_byte@)),
    {
        let empty: Vec<u8> = Vec::new();
        let fetch = match item {
            StorageEnginePacket::FetchReq(_) => true,
            StorageEnginePacket::FetchResp(_) => true,
            _ => false,
        };
        let hb: &[u8] = if fetch {
            empty.as_slice()
        } else {
            header_byte
        };
        let bb: &[u8] = if fetch {
            empty.as_slice()
        } else {
            body_byte
        };
        let header_len = hb.len();
        let body_len = bb.len();
        let data_len = header_len + body_len;
        if data_len as u64 > ENGINE_MAX_SIZE {
            return Err(Error::PayloadSizeLimitExceeded(data_len));
        }
        let ghost d0 = bytes_mut_seq(*dst);
        bytes_mut_put_u32(dst, data_len as u32);
        bytes_mut_put_u32(dst, header_len as u32);
        bytes_mut_extend(dst, hb);
        bytes_mut_put_u32(dst, body_len as u32);
        bytes_mut_extend(dst, bb);
        proof {
            assert(bytes_mut_seq(*dst) =~= d0 + engine_frame_encoding(hb@, bb@));
        }
        Ok(())
    }

    /// Cuts the frame at the head of `src`. With too few bytes for a whole
    /// frame, nothing is taken and `Ok(None)` comes back; otherwise the whole
    /// frame leaves `src`, and its header and body come back unless its
    /// header is empty.
    pub fn decode(&mut self, src: &mut BytesMut) -> (r: Result<Option<EngineFrame>, Error>)
        requires
            engine_frame_fits(bytes_mut_seq(*old(src))),
        ensures
            !engine_complete(bytes_mut_seq(*old(src))) ==> (r matches Ok(None)
                && bytes_mut_seq(*final(src)) == bytes_mut_seq(*old(src))),
            engine_complete(bytes_mut_seq(*old(src))) ==> bytes_mut_seq(*final(src))
                == bytes_mut_seq(*old(src)).skip(engine_total_len(bytes_mut_seq(*old(src)))),
            engine_complete(bytes_mut_seq(*old(src))) && engine_header_len(
                bytes_mut_seq(*old(src)),
            ) == 0 ==> (r matches Err(Error::HeaderLengthIsZero)),
            ({
                let s = bytes_mut_seq(*old(src));
                let h = engine_header_len(s);
                let b = engine_body_len(s);
                engine_complete(s) && h != 0 ==> (r matches Ok(Some(f)) && f.header@
                    == s.subrange(8, 8 + h) && f.body@ == s.subrange(12 + h, 12 + h + b))
            }),
    {
        let ghost s = bytes_mut_seq(*src);
        let src_len = bytes_mut_len(src);
        if src_len < 4 {
            return Ok(None);
        }
        let data_len = be_u32_at(bytes_mut_as_slice(src), 0);
        assert(s.skip(0) =~= s);
        if data_len as u64 > ENGINE_MAX_SIZE {
            return Err(Error::PayloadSizeLimitExceeded(data_len as usize));
        }
        let frame_len: u64 = data_len as u64 + 12;
        if (src_len as u64) < frame_len {
            return Ok(None);
        }
        let frame = bytes_mut_split_to(src, frame_len as usize);
        let mut f = bytes_mut_freeze(frame);
        let ghost fs = bytes_seq(f);
        assert(fs =~= s.take(frame_len as int));
        bytes_advance(&mut f, 4);
        let header_len = bytes_get_u32(&mut f);
        assert(fs.skip(4) =~= s.skip(4).take(fs.len() - 4));
        assert(header_len == engine_header_len(s));
        if header_len == 0 {
            return Err(Error::HeaderLengthIsZero);
        }
        let ghost h = header_len as int;
        let header = bytes_split_to(&mut f, header_len as usize);
        let body_len = bytes_get_u32(&mut f);
        assert(fs.skip(8 + h) =~= s.skip(8 + h).take(fs.len() - 8 - h));
        assert(body_len == engine_body_len(s));
        let body = bytes_split_to(&mut f, body_len as usize);
        let header_vec = slice_to_vec(bytes_as_slice(&header));
        let body_vec = slice_to_vec(bytes_as_slice(&body));
        proof {
            assert(header_vec@ =~= s.subrange(8, 8 + h));
            assert(body_vec@ =~= s.subrange(12 + h, 12 + h + body_len));
        }
        Ok(Some(EngineFrame { header: header_vec, body: body_vec }))
    }

    /// The message that a decoded header announces, by its key and type.
    pub fn packet_kind(header: &Header) -> (r: PacketKind)
        ensures
            r == kind_of(
                if header.api_key == 1 {
                    ApiKey::Consume
                } else {
                    ApiKey::Produce
                },
                if header.api_type == 1 {
                    ApiType::Response
                } else {
                    ApiType::Request
                },
            ),
    {
        match header.api_key() {
            ApiKey::Produce => match header.api_type() {
                ApiType::Request => PacketKind::ProduceReq,
                ApiType::Response => PacketKind::ProduceResp,
            },
            ApiKey::Consume => match header.api_type() {
                ApiType::Request => PacketKind::FetchReq,
                ApiType::Response => PacketKind::FetchResp,
            },
        }
    }

    /// Whether the frame at the head of `src` holds what it declares, so
    /// that `decode` can take it.
    pub fn frame_is_well_formed(src: &[u8]) -> (r: bool)
        ensures
            r == engine_frame_fits(src@),
    {
        let ghost s = src@;
        let n = src.len();
        if n < 4 {
            return true;
        }
        let d = be_u32_at(src, 0);
        assert(s.skip(0) =~= s);
        if (n as u64) < d as u64 + 12 {
            return true;
        }
        let h = be_u32_at(src, 4);
        if h == 0 {
            return true;
        }
        if h > d {
            return false;
        }
        let b = be_u32_at(src, 8 + h as usize);
        h as u64 + b as u64 <= d as u64
    }
}

impl PacketKind {
    /// The name under which this kind is reported when its body does not
    /// decode.
    pub fn name(&self) -> (r: &'static str)
        ensures
            r@ == packet_kind_label(*self),
    {
        match self {
            PacketKind::ProduceReq => "produce_req",
            PacketKind::ProduceResp => "produce_resp",
            PacketKind::FetchReq => "fetch_req",
            PacketKind::FetchResp => "fetch_resp",
        }
    }
}

/// What a frame written by `encode` reads back as: for a non-empty header
/// and a payload whose length fits in 32 bits, the frame is whole, holds
/// what it declares, and gives back the header and the body, leaving the
/// bytes after it untouched.
pub proof fn lemma_engine_frame_roundtrip(header: Seq<u8>, body: Seq<u8>, rest: Seq<u8>)
    requires
        header.len() > 0,
        header.len() + body.len() <= u32::MAX,
    ensures
        ({
            let e = engine_frame_encoding(header, body);
            let s = e + rest;
            &&& engine_complete(s)
            &&& engine_frame_fits(s)
            &&& engine_total_len(s) == e.len()
            &&& engine_header_len(s) == header.len()
            &&& engine_body_len(s) == body.len()
            &&& s.subrange(8, 8 + header.len() as int) == header
            &&& s.subrange(12 + header.len() as int, 12 + header.len() + body.len() as int)
                == body
            &&& s.skip(e.len() as int) == rest
        }),
{
    let d = (header.len() + body.len()) as u32;
    let hl = header.len() as u32;
    let bl = body.len() as u32;
    lemma_be_u32_roundtrip(d);
    lemma_be_u32_roundtrip(hl);
    lemma_be_u32_roundtrip(bl);
    let e = engine_frame_encoding(header, body);
    let s = e + rest;
    let h = header.len() as int;
    assert(e.len() == 12 + header.len() + body.len());
    assert(s.take(4) =~= be_u32_bytes(d));
    assert(engine_data_len(s) == d);
    assert(s.skip(4).take(4) =~= be_u32_bytes(hl));
    assert(engine_header_len(s) == hl);
    assert(s.skip(8 + h).take(4) =~= be_u32_bytes(bl));
    assert(engine_body_len(s) == bl);
    assert(s.subrange(8, 8 + h) =~= header);
    assert(s.subrange(12 + h, 12 + h + body.len()) =~= body);
    assert(s.skip(e.len() as int) =~= rest);
}

/// A fetch message is framed as a frame with an empty header, which the
/// decoder refuses: it reads back as `HeaderLengthIsZero`.
pub proof fn lemma_fetch_frame_has_empty_header(rest: Seq<u8>)
    ensures
        ({
            let s = engine_frame_encoding(Seq::empty(), Seq::empty()) + rest;
            engine_complete(s) && engine_header_len(s) == 0 && engine_frame_fits(s)
        }),
{
    lemma_be_u32_roundtrip(0);
    let e = engine_frame_encoding(Seq::empty(), Seq::empty());
    let s = e + rest;
    assert(s.take(4) =~= be_u32_bytes(0));
    assert(s.skip(4).take(4) =~= be_u32_bytes(0));
}

/// The codec holds no state: every two codecs are the same value, the one
/// that `new` and `default` give, so a codec after any calls decodes and
/// encodes as a fresh one, and what it returns depends on the arguments of
/// the call alone.
pub proof fn lemma_engine_codec_stateless(a: StorageEngineCodec, b: StorageEngineCodec)
    ensures
        a == b,
        a == (StorageEngineCodec {  }),
{
}

} // verus!
