//! Types shared by the MQTT 3.1.1 and 5.0 codecs, the fixed header, the
//! variable byte integer and the length-prefixed strings of the wire format.
use crate::buffer::{
    be_u16_bytes, be_u16_value, be_u32_value, bytes_get_u16, bytes_get_u32, bytes_get_u8,
    bytes_len, bytes_mut_put_u16, bytes_mut_put_u8, bytes_mut_extend, bytes_mut_len, bytes_mut_seq, bytes_seq,
    bytes_split_to, bytes_as_slice, string_from_utf8,
};
use vstd::slice::{slice_subrange, slice_to_vec};
use bytes::{Bytes, BytesMut};
use vstd::prelude::*;
use vstd::utf8::*;
use crate::mqtt::mqtt_protocol_error::{spec_from_error, MQTTProtocolError};
use crate::mqtt::mqttv4::connect::login::{bytes_equal, spec_login_read};
use crate::mqtt::mqttv4::connect::will::spec_will_read;
use crate::buffer::bytes_advance;

verus! {

#[derive(Clone, Copy, Debug, PartialEq, Eq, Structural)]
pub enum MqttProtocol {
    Mqtt3,
    Mqtt4,
    Mqtt5,
}

impl Default for MqttProtocol {
    fn default() -> (r: Self)
        ensures
            r == MqttProtocol::Mqtt3,
    {
        MqttProtocol::Mqtt3
    }
}

pub fn is_mqtt3(protocol: u8) -> (r: bool)
    ensures
        r == (protocol == 3),
{
    protocol == 3
}

pub fn is_mqtt4(protocol: u8) -> (r: bool)
    ensures
        r == (protocol == 4),
{
    protocol == 4
}

pub fn is_mqtt5(protocol: u8) -> (r: bool)
    ensures
        r == (protocol == 5),
{
    protocol == 5
}

impl MqttProtocol {
    pub fn is_mqtt3(&self) -> (r: bool)
        ensures
            r == (*self == MqttProtocol::Mqtt3),
    {
        *self == MqttProtocol::Mqtt3
    }

    pub fn is_mqtt4(&self) -> (r: bool)
        ensures
            r == (*self == MqttProtocol::Mqtt4),
    {
        *self == MqttProtocol::Mqtt4
    }

    pub fn is_mqtt5(&self) -> (r: bool)
        ensures
            r == (*self == MqttProtocol::Mqtt5),
    {
        *self == MqttProtocol::Mqtt5
    }

    /// The protocol level that the version is known by on the wire.
    pub fn level(&self) -> (r: u8)
        ensures
            r == match *self {
                MqttProtocol::Mqtt3 => 3u8,
                MqttProtocol::Mqtt4 => 4u8,
                MqttProtocol::Mqtt5 => 5u8,
            },
    {
        match *self {
            MqttProtocol::Mqtt3 => 3,
            MqttProtocol::Mqtt4 => 4,
            MqttProtocol::Mqtt5 => 5,
        }
    }

    /// The name the version is known by in the broker: `MQTT3`, `MQTT4`
    /// or `MQTT5`.
    pub fn name(&self) -> (r: String)
        ensures
            r@ == mqtt_protocol_name(*self),
    {
        match *self {
            MqttProtocol::Mqtt3 => "MQTT3".to_owned(),
            MqttProtocol::Mqtt4 => "MQTT4".to_owned(),
            MqttProtocol::Mqtt5 => "MQTT5".to_owned(),
        }
    }
}

/// The name of an MQTT version in the broker.
pub open spec fn mqtt_protocol_name(p: MqttProtocol) -> Seq<char> {
    match p {
        MqttProtocol::Mqtt3 => "MQTT3"@,
        MqttProtocol::Mqtt4 => "MQTT4"@,
        MqttProtocol::Mqtt5 => "MQTT5"@,
    }
}

/// MQTT control packet type, the high nibble of the first byte.
#[derive(Debug, Clone, Copy, PartialEq, Eq, Structural)]
pub enum PacketType {
    Connect,
    ConnAck,
    Publish,
    PubAck,
    PubRec,
    PubRel,
    PubComp,
    Subscribe,
    SubAck,
    Unsubscribe,
    UnsubAck,
    PingReq,
    PingResp,
    Disconnect,
    Auth,
}

/// The number that stands for a packet type in the high nibble.
pub open spec fn packet_type_number(t: PacketType) -> u8 {
    match t {
        PacketType::Connect => 1,
        PacketType::ConnAck => 2,
        PacketType::Publish => 3,
        PacketType::PubAck => 4,
        PacketType::PubRec => 5,
        PacketType::PubRel => 6,
        PacketType::PubComp => 7,
        PacketType::Subscribe => 8,
        PacketType::SubAck => 9,
        PacketType::Unsubscribe => 10,
        PacketType::UnsubAck => 11,
        PacketType::PingReq => 12,
        PacketType::PingResp => 13,
        PacketType::Disconnect => 14,
        PacketType::Auth => 15,
    }
}

impl PacketType {
    /// The number of this packet type.
    pub fn number(&self) -> (r: u8)
        ensures
            r == packet_type_number(*self),
    {
        match *self {
            PacketType::Connect => 1,
            PacketType::ConnAck => 2,
            PacketType::Publish => 3,
            PacketType::PubAck => 4,
            PacketType::PubRec => 5,
            PacketType::PubRel => 6,
            PacketType::PubComp => 7,
            PacketType::Subscribe => 8,
            PacketType::SubAck => 9,
            PacketType::Unsubscribe => 10,
            PacketType::UnsubAck => 11,
            PacketType::PingReq => 12,
            PacketType::PingResp => 13,
            PacketType::Disconnect => 14,
            PacketType::Auth => 15,
        }
    }
}

/// Error during serialization and deserialization
#[derive(Debug, Clone, PartialEq, Eq)]
pub enum Error {
    InvalidConnectReturnCode(u8),
    InvalidReason(u8),
    InvalidRemainingLength(usize),
    InvalidProtocol,
    InvalidProtocolLevel(u8),
    IncorrectPacketFormat,
    InvalidPacketType(u8),
    InvalidRetainForwardRule(u8),
    InvalidQoS(u8),
    PayloadTooLong,
    PayloadNotUtf8,
    BoundaryCrossed(usize),
    MalformedPacket,
    MalformedRemainingLength,
    InsufficientBytes(usize),
    PacketIdZero,
    PayloadSizeLimitExceeded(usize),
    EmptySubscription,
    InvalidSubscribeReasonCode(u8),
    TopicNotUtf8,
    PayloadSizeIncorrect,
    InvalidPropertyType(u8),
}

/// The high nibble of a byte is its quotient by 16.
pub proof fn lemma_high_nibble(b: u8)
    ensures
        b >> 4 == b / 16,
{
    assert(b >> 4 == b / 16) by (bit_vector);
}

/// The low nibble of a byte is its remainder by 16.
pub proof fn lemma_low_nibble(b: u8)
    ensures
        b & 0x0F == b % 16,
{
    assert(b & 0x0F == b % 16) by (bit_vector);
}

/// The lowest bit of a byte.
pub proof fn lemma_low_bit(b: u8)
    ensures
        (b & 0x01 == 1) == (b % 2 == 1),
        (b & 0x01 != 0) == (b % 2 == 1),
{
    assert((b & 0x01 == 1) == (b % 2 == 1)) by (bit_vector);
    assert((b & 0x01 != 0) == (b % 2 == 1)) by (bit_vector);
}

/// Fixed header of a packet: the first byte, how many bytes the fixed
/// header takes, and the remaining length (variable header + payload).
#[derive(Debug, Clone, Copy, PartialEq, Eq, Structural)]
pub struct FixedHeader {
    /// First byte of the stream. Used to indenify packet types and several flags
    pub byte1: u8,
    /// Length of fixed header. Byte 1 + (1..4) bytes.
    pub fixed_header_len: usize,
    /// Remaining length of the packet. Doesn't include fixed header bytes
    pub remaining_len: usize,
}

/// The packet type that the first byte of a fixed header names, or the
/// error for a reserved or unknown number.
pub open spec fn spec_packet_type(byte1: u8) -> Result<PacketType, Error> {
    let num = byte1 / 16;
    if num == 1 {
        Ok(PacketType::Connect)
    } else if num == 2 {
        Ok(PacketType::ConnAck)
    } else if num == 3 {
        Ok(PacketType::Publish)
    } else if num == 4 {
        Ok(PacketType::PubAck)
    } else if num == 5 {
        Ok(PacketType::PubRec)
    } else if num == 6 {
        Ok(PacketType::PubRel)
    } else if num == 7 {
        Ok(PacketType::PubComp)
    } else if num == 8 {
        Ok(PacketType::Subscribe)
    } else if num == 9 {
        Ok(PacketType::SubAck)
    } else if num == 10 {
        Ok(PacketType::Unsubscribe)
    } else if num == 11 {
        Ok(PacketType::UnsubAck)
    } else if num == 12 {
        Ok(PacketType::PingReq)
    } else if num == 13 {
        Ok(PacketType::PingResp)
    } else if num == 14 {
        Ok(PacketType::Disconnect)
    } else {
        Err(Error::InvalidPacketType(num))
    }
}

impl FixedHeader {
    pub fn new(byte1: u8, remaining_len_len: usize, remaining_len: usize) -> (r: FixedHeader)
        requires
            remaining_len_len < usize::MAX,
        ensures
            r.byte1 == byte1,
            r.fixed_header_len == remaining_len_len + 1,
            r.remaining_len == remaining_len,
    {
        FixedHeader { byte1, fixed_header_len: remaining_len_len + 1, remaining_len }
    }

    pub fn packet_type(&self) -> (r: Result<PacketType, Error>)
        ensures
            r == spec_packet_type(self.byte1),
    {
        let num = self.byte1 >> 4;
        proof {
            lemma_high_nibble(self.byte1);
        }
        match num {
            1 => Ok(PacketType::Connect),
            2 => Ok(PacketType::ConnAck),
            3 => Ok(PacketType::Publish),
            4 => Ok(PacketType::PubAck),
            5 => Ok(PacketType::PubRec),
            6 => Ok(PacketType::PubRel),
            7 => Ok(PacketType::PubComp),
            8 => Ok(PacketType::Subscribe),
            9 => Ok(PacketType::SubAck),
            10 => Ok(PacketType::Unsubscribe),
            11 => Ok(PacketType::UnsubAck),
            12 => Ok(PacketType::PingReq),
            13 => Ok(PacketType::PingResp),
            14 => Ok(PacketType::Disconnect),
            _ => Err(Error::InvalidPacketType(num)),
        }
    }

    /// Returns the size of full packet (fixed header + variable header + payload)
    pub fn frame_length(&self) -> (r: usize)
        requires
            self.fixed_header_len + self.remaining_len <= usize::MAX,
        ensures
            r == self.fixed_header_len + self.remaining_len,
    {
        self.fixed_header_len + self.remaining_len
    }
}

/// The packet type that the first byte of a fixed header names is the one
/// that its high four bits number in MQTT: 1 CONNECT, 2 CONNACK, 3 PUBLISH,
/// 4 PUBACK, 5 PUBREC, 6 PUBREL, 7 PUBCOMP, 8 SUBSCRIBE, 9 SUBACK,
/// 10 UNSUBSCRIBE, 11 UNSUBACK, 12 PINGREQ, 13 PINGRESP, 14 DISCONNECT; 0
/// and 15 are refused with their number. The number of a type read so is
/// those four bits.
pub proof fn lemma_packet_type_numbers(b: u8)
    ensures
        b >> 4u8 == 1 ==> spec_packet_type(b) == Ok::<PacketType, Error>(PacketType::Connect),
        b >> 4u8 == 2 ==> spec_packet_type(b) == Ok::<PacketType, Error>(PacketType::ConnAck),
        b >> 4u8 == 3 ==> spec_packet_type(b) == Ok::<PacketType, Error>(PacketType::Publish),
        b >> 4u8 == 4 ==> spec_packet_type(b) == Ok::<PacketType, Error>(PacketType::PubAck),
        b >> 4u8 == 5 ==> spec_packet_type(b) == Ok::<PacketType, Error>(PacketType::PubRec),
        b >> 4u8 == 6 ==> spec_packet_type(b) == Ok::<PacketType, Error>(PacketType::PubRel),
        b >> 4u8 == 7 ==> spec_packet_type(b) == Ok::<PacketType, Error>(PacketType::PubComp),
        b >> 4u8 == 8 ==> spec_packet_type(b) == Ok::<PacketType, Error>(PacketType::Subscribe),
        b >> 4u8 == 9 ==> spec_packet_type(b) == Ok::<PacketType, Error>(PacketType::SubAck),
        b >> 4u8 == 10 ==> spec_packet_type(b) == Ok::<PacketType, Error>(PacketType::Unsubscribe),
        b >> 4u8 == 11 ==> spec_packet_type(b) == Ok::<PacketType, Error>(PacketType::UnsubAck),
        b >> 4u8 == 12 ==> spec_packet_type(b) == Ok::<PacketType, Error>(PacketType::PingReq),
        b >> 4u8 == 13 ==> spec_packet_type(b) == Ok::<PacketType, Error>(PacketType::PingResp),
        b >> 4u8 == 14 ==> spec_packet_type(b) == Ok::<PacketType, Error>(PacketType::Disconnect),
        b >> 4u8 == 0 || b >> 4u8 == 15 ==> spec_packet_type(b) == Err::<PacketType, Error>(
            Error::InvalidPacketType(b >> 4u8),
        ),
        spec_packet_type(b) matches Ok(t) ==> packet_type_number(t) == b >> 4u8,
{
    lemma_high_nibble(b);
    assert(b >> 4u8 <= 15) by (bit_vector);
}

/// Largest remaining length that four variable-byte-integer bytes hold.
pub const MAX_REMAINING_LENGTH: usize = 268_435_455;

/// Variable byte integer encoding: seven bits per byte, least significant
/// group first, the high bit set on every byte but the last.
pub open spec fn vbi_encode(n: nat) -> Seq<u8>
    decreases n,
{
    if n < 128 {
        seq![n as u8]
    } else {
        seq![((n % 128) + 128) as u8] + vbi_encode(n / 128)
    }
}

/// Reading a variable byte integer from position `i` of `s`, where `acc` is
/// the value of the bytes before `i` and `weight` that of a unit at `i`.
/// The result is the number of bytes that make it and its value.  At most
/// four bytes are read: a fourth byte with its high bit set is malformed,
/// and running out of bytes first asks for one more.
pub open spec fn vbi_scan(s: Seq<u8>, i: nat, acc: nat, weight: nat) -> Result<(nat, nat), Error>
    decreases s.len() - i,
{
    if i >= s.len() {
        Err(Error::InsufficientBytes(1))
    } else if s[i as int] < 128 {
        Ok((i + 1, acc + (s[i as int] as nat) * weight))
    } else if i >= 3 {
        Err(Error::MalformedRemainingLength)
    } else {
        vbi_scan(s, i + 1, acc + ((s[i as int] % 128) as nat) * weight, weight * 128)
    }
}

/// The variable byte integer that starts `s`: (bytes used, value).
pub open spec fn vbi_decode(s: Seq<u8>) -> Result<(nat, nat), Error> {
    vbi_scan(s, 0, 0, 1)
}

/// Number of bytes the variable byte integer encoding of `len` takes.
pub open spec fn spec_len_len(len: nat) -> nat {
    if len >= 2_097_152 {
        4
    } else if len >= 16_384 {
        3
    } else if len >= 128 {
        2
    } else {
        1
    }
}

pub proof fn lemma_vbi_encode_len(n: nat)
    requires
        n <= MAX_REMAINING_LENGTH,
    ensures
        vbi_encode(n).len() == spec_len_len(n),
        1 <= vbi_encode(n).len() <= 4,
{
    if n >= 128 {
        if n >= 16384 {
            if n >= 2097152 {
                assert(vbi_encode(n / 128 / 128 / 128).len() == 1);
            }
            assert(vbi_encode(n / 128 / 128).len() == spec_len_len(n / 128 / 128));
        }
        assert(vbi_encode(n / 128).len() == spec_len_len(n / 128));
    }
}

proof fn lemma_mul_split(w: nat, m: nat)
    ensures
        (m % 128) * w + w * 128 * (m / 128) == w * m,
{
    assert((m % 128) * w + w * 128 * (m / 128) == w * ((m % 128) + 128 * (m / 128))) by (nonlinear_arith);
}

/// Reading the encoding of `m` at position `i` gives `m` back.
proof fn lemma_vbi_scan_encode(s: Seq<u8>, i: nat, acc: nat, w: nat, m: nat)
    requires
        i + vbi_encode(m).len() <= 4,
        i + vbi_encode(m).len() <= s.len(),
        s.subrange(i as int, (i + vbi_encode(m).len()) as int) == vbi_encode(m),
    ensures
        vbi_scan(s, i, acc, w) == Ok::<(nat, nat), Error>((i + vbi_encode(m).len(), acc + w * m)),
    decreases m,
{
    let e = vbi_encode(m);
    let ii = i as int;
    assert(s[ii] == s.subrange(ii, ii + e.len())[0]);
    if m < 128 {
        assert(s[ii] == m as u8);
        assert((m as u8) as nat * w == w * m) by (nonlinear_arith)
            requires
                m < 128,
        ;
    } else {
        let e2 = vbi_encode(m / 128);
        assert(e.len() == 1 + e2.len());
        assert(s[ii] == ((m % 128) + 128) as u8);
        assert(s[ii] >= 128);
        assert(s[ii] % 128 == m % 128);
        assert(e == seq![((m % 128) + 128) as u8] + e2);
        assert(s.subrange(ii + 1, ii + 1 + e2.len()) =~= e2) by {
            assert forall|j: int| 0 <= j < e2.len() implies #[trigger] s.subrange(ii + 1, ii + 1 + e2.len())[j] == e2[j] by {
                assert(s[ii + 1 + j] == s.subrange(ii, ii + e.len())[1 + j]);
                assert(e[1 + j] == e2[j]);
            }
        }
        lemma_vbi_scan_encode(s, i + 1, acc + ((m % 128) as nat) * w, w * 128, m / 128);
        lemma_mul_split(w, m);
    }
}

/// Decoding the encoding of a remaining length gives it back, whatever follows.
pub proof fn lemma_vbi_roundtrip(n: nat, rest: Seq<u8>)
    requires
        n <= MAX_REMAINING_LENGTH,
    ensures
        vbi_decode(vbi_encode(n) + rest) == Ok::<(nat, nat), Error>((vbi_encode(n).len(), n)),
{
    lemma_vbi_encode_len(n);
    let s = vbi_encode(n) + rest;
    assert(s.subrange(0, vbi_encode(n).len() as int) =~= vbi_encode(n));
    lemma_vbi_scan_encode(s, 0, 0, 1, n);
}


/// The low seven bits of a byte, and whether its high bit is clear.
pub proof fn lemma_vbi_byte(b: u8)
    ensures
        b & 0x7F == b % 128,
        (b & 0x80 == 0) == (b < 128),
{
    assert(b & 0x7F == b % 128) by (bit_vector);
    assert((b & 0x80 == 0) == (b < 128)) by (bit_vector);
}

/// Parses the variable byte integer that starts the stream and returns the
/// number of bytes that make it and its value.  Used for the remaining
/// length as well as for property lengths.
pub fn length(stream: &[u8]) -> (r: Result<(usize, usize), Error>)
    ensures
        match r {
            Ok((c, v)) => vbi_decode(stream@) == Ok::<(nat, nat), Error>((c as nat, v as nat)) && 1 <= c
                <= 4 && c <= stream@.len() && v <= MAX_REMAINING_LENGTH,
            Err(e) => vbi_decode(stream@) == Err::<(nat, nat), Error>(e),
        },
{
    let mut len: usize = 0;
    let mut i: usize = 0;
    let mut mult: usize = 1;
    while i < stream.len()
        invariant
            i <= 3,
            (i == 0 && mult == 1) || (i == 1 && mult == 128) || (i == 2 && mult == 16384) || (i == 3
                && mult == 2097152),
            len < mult,
            vbi_decode(stream@) == vbi_scan(stream@, i as nat, len as nat, mult as nat),
        decreases stream.len() - i,
    {
        let byte = stream[i];
        proof {
            lemma_vbi_byte(byte);
        }
        let low = (byte & 0x7F) as usize;
        assert(low * mult <= 127 * mult) by (nonlinear_arith)
            requires
                low <= 127,
        ;
        len = len + low * mult;
        if (byte & 0x80) == 0 {
            return Ok((i + 1, len));
        }
        // Only a max of 4 bytes allowed for remaining length
        if i == 3 {
            return Err(Error::MalformedRemainingLength);
        }
        i = i + 1;
        mult = mult * 128;
    }
    // Not enough bytes to frame remaining length. wait for one more byte
    Err(Error::InsufficientBytes(1))
}

/// What parsing a fixed header from the start of `s` gives.
pub open spec fn spec_parse_fixed_header(s: Seq<u8>) -> Result<FixedHeader, Error> {
    if s.len() < 2 {
        Err(Error::InsufficientBytes((2 - s.len()) as usize))
    } else {
        match vbi_decode(s.skip(1)) {
            Ok((c, v)) => Ok(
                FixedHeader { byte1: s[0], fixed_header_len: (c + 1) as usize, remaining_len: v as usize },
            ),
            Err(e) => Err(e),
        }
    }
}

/// A fixed header as parsing can give it: at most five bytes long and a
/// remaining length that four bytes can hold.
pub open spec fn fixed_header_bounded(h: FixedHeader) -> bool {
    2 <= h.fixed_header_len <= 5 && h.remaining_len <= MAX_REMAINING_LENGTH
}

/// Parses fixed header
pub fn parse_fixed_header(stream: &[u8]) -> (r: Result<FixedHeader, Error>)
    ensures
        r == spec_parse_fixed_header(stream@),
        r matches Ok(h) ==> fixed_header_bounded(h),
{
    // At least 2 bytes are necessary to frame a packet
    let stream_len = stream.len();
    if stream_len < 2 {
        return Err(Error::InsufficientBytes(2 - stream_len));
    }
    let byte1 = stream[0];
    let rest = slice_subrange(stream, 1, stream_len);
    assert(rest@ == stream@.skip(1));
    match length(rest) {
        Ok((len_len, len)) => Ok(FixedHeader::new(byte1, len_len, len)),
        Err(e) => Err(e),
    }
}

/// What checking a stream for one whole packet gives.
pub open spec fn spec_check(s: Seq<u8>, max_packet_size: usize) -> Result<FixedHeader, Error> {
    match spec_parse_fixed_header(s) {
        Err(e) => Err(e),
        Ok(h) => if h.remaining_len > max_packet_size {
            Err(Error::PayloadSizeLimitExceeded(h.remaining_len))
        } else if s.len() < h.fixed_header_len + h.remaining_len {
            Err(Error::InsufficientBytes((h.fixed_header_len + h.remaining_len - s.len()) as usize))
        } else {
            Ok(h)
        },
    }
}

/// Parses the fixed header and checks that the stream holds the whole
/// packet, and that it is no longer than `max_packet_size`.
pub fn check(stream: &[u8], max_packet_size: usize) -> (r: Result<FixedHeader, Error>)
    ensures
        r == spec_check(stream@, max_packet_size),
        r matches Ok(h) ==> fixed_header_bounded(h) && h.fixed_header_len + h.remaining_len
            <= stream@.len(),
{
    let stream_len = stream.len();
    let fixed_header = match parse_fixed_header(stream) {
        Ok(h) => h,
        Err(e) => return Err(e),
    };
    // Don't let rogue connections attack with huge payloads.
    if fixed_header.remaining_len > max_packet_size {
        return Err(Error::PayloadSizeLimitExceeded(fixed_header.remaining_len));
    }
    let frame_length = fixed_header.frame_length();
    if stream_len < frame_length {
        return Err(Error::InsufficientBytes(frame_length - stream_len));
    }
    Ok(fixed_header)
}

/// Writes remaining length to stream and returns number of bytes for remaining length
pub fn write_remaining_length(stream: &mut BytesMut, len: usize) -> (r: Result<usize, Error>)
    requires
        bytes_mut_seq(*old(stream)).len() + 4 <= usize::MAX,
    ensures
        len > MAX_REMAINING_LENGTH ==> r == Err::<usize, Error>(Error::PayloadTooLong) && bytes_mut_seq(
            *final(stream),
        ) == bytes_mut_seq(*old(stream)),
        len <= MAX_REMAINING_LENGTH ==> r == Ok::<usize, Error>(vbi_encode(len as nat).len() as usize)
            && bytes_mut_seq(*final(stream)) == bytes_mut_seq(*old(stream)) + vbi_encode(len as nat),
        len <= MAX_REMAINING_LENGTH ==> vbi_encode(len as nat).len() == spec_len_len(len as nat),
{
    if len > MAX_REMAINING_LENGTH {
        return Err(Error::PayloadTooLong);  // Maximum packet length is 256MB
    }
    proof {
        lemma_vbi_encode_len(len as nat);
    }
    let ghost start = bytes_mut_seq(*stream);
    let mut x = len;
    let mut count: usize = 0;
    loop
        invariant_except_break
            x <= len,
            len <= MAX_REMAINING_LENGTH,
            start == bytes_mut_seq(*old(stream)),
            bytes_mut_seq(*stream) + vbi_encode(x as nat) == start + vbi_encode(len as nat),
            count + vbi_encode(x as nat).len() == vbi_encode(len as nat).len(),
            vbi_encode(len as nat).len() <= 4,
            bytes_mut_seq(*stream).len() + vbi_encode(x as nat).len() <= start.len() + 4,
            start.len() + 4 <= usize::MAX,
        ensures
            bytes_mut_seq(*stream) == start + vbi_encode(len as nat),
            count == vbi_encode(len as nat).len(),
        decreases x,
    {
        let ghost before = bytes_mut_seq(*stream);
        let next = x / 128;
        let byte: u8 = if next > 0 {
            (x % 128 + 128) as u8
        } else {
            (x % 128) as u8
        };
        assert(vbi_encode(x as nat).len() >= 1);
        bytes_mut_put_u8(stream, byte);
        count = count + 1;
        if next == 0 {
            assert(vbi_encode(x as nat) == seq![byte]);
            assert(bytes_mut_seq(*stream) == before + vbi_encode(x as nat));
            break;
        }
        let ghost e2 = vbi_encode(next as nat);
        assert(vbi_encode(x as nat) == seq![byte] + e2);
        assert(bytes_mut_seq(*stream) + e2 =~= before + vbi_encode(x as nat));
        x = next;
    }
    Ok(count)
}

/// Return number of remaining length bytes required for encoding length
pub fn len_len(len: usize) -> (r: usize)
    ensures
        r == spec_len_len(len as nat),
{
    if len >= 2_097_152 {
        4
    } else if len >= 16_384 {
        3
    } else if len >= 128 {
        2
    } else {
        1
    }
}

/// Quality of service
#[derive(Debug, Clone, Copy, PartialEq, Eq, Structural)]
pub enum QoS {
    AtMostOnce,
    AtLeastOnce,
    ExactlyOnce,
}

impl Default for QoS {
    fn default() -> (r: Self)
        ensures
            r == QoS::AtMostOnce,
    {
        QoS::AtMostOnce
    }
}

/// The QoS level that a number names.
pub open spec fn spec_qos(num: u8) -> Option<QoS> {
    if num == 0 {
        Some(QoS::AtMostOnce)
    } else if num == 1 {
        Some(QoS::AtLeastOnce)
    } else if num == 2 {
        Some(QoS::ExactlyOnce)
    } else {
        None
    }
}

/// The number of a QoS level.
pub open spec fn qos_number(q: QoS) -> u8 {
    match q {
        QoS::AtMostOnce => 0,
        QoS::AtLeastOnce => 1,
        QoS::ExactlyOnce => 2,
    }
}

/// The QoS levels as MQTT numbers them: 0 at most once, 1 at least once, 2
/// exactly once; a number read names the level written with it, and 3 or
/// more names none.
pub proof fn lemma_qos_numbers(n: u8)
    ensures
        qos_number(QoS::AtMostOnce) == 0 && spec_qos(0) == Some(QoS::AtMostOnce),
        qos_number(QoS::AtLeastOnce) == 1 && spec_qos(1) == Some(QoS::AtLeastOnce),
        qos_number(QoS::ExactlyOnce) == 2 && spec_qos(2) == Some(QoS::ExactlyOnce),
        n >= 3 ==> spec_qos(n) is None,
{
}

/// Maps a number to QoS
pub fn qos(num: u8) -> (r: Option<QoS>)
    ensures
        r == spec_qos(num),
{
    match num {
        0 => Some(QoS::AtMostOnce),
        1 => Some(QoS::AtLeastOnce),
        2 => Some(QoS::ExactlyOnce),
        _ => None,
    }
}

/// The number of a QoS level, as it stands on the wire.
pub fn qos_to_u8(q: QoS) -> (r: u8)
    ensures
        r == qos_number(q),
        spec_qos(r) == Some(q),
{
    match q {
        QoS::AtMostOnce => 0,
        QoS::AtLeastOnce => 1,
        QoS::ExactlyOnce => 2,
    }
}

#[derive(Debug, Clone, Copy, PartialEq, Eq, Structural)]
pub enum RetainForwardRule {
    OnEverySubscribe,
    OnNewSubscribe,
    Never,
}

impl Default for RetainForwardRule {
    fn default() -> (r: Self)
        ensures
            r == RetainForwardRule::OnEverySubscribe,
    {
        RetainForwardRule::OnEverySubscribe
    }
}

/// The retain handling option that a number names.
pub open spec fn spec_retain_forward_rule(num: u8) -> Option<RetainForwardRule> {
    if num == 0 {
        Some(RetainForwardRule::OnEverySubscribe)
    } else if num == 1 {
        Some(RetainForwardRule::OnNewSubscribe)
    } else if num == 2 {
        Some(RetainForwardRule::Never)
    } else {
        None
    }
}

/// The number of a retain handling option.
pub open spec fn retain_forward_rule_number(r: RetainForwardRule) -> u8 {
    match r {
        RetainForwardRule::OnEverySubscribe => 0,
        RetainForwardRule::OnNewSubscribe => 1,
        RetainForwardRule::Never => 2,
    }
}

pub fn retain_forward_rule(num: u8) -> (r: Option<RetainForwardRule>)
    ensures
        r == spec_retain_forward_rule(num),
{
    match num {
        0 => Some(RetainForwardRule::OnEverySubscribe),
        1 => Some(RetainForwardRule::OnNewSubscribe),
        2 => Some(RetainForwardRule::Never),
        _ => None,
    }
}

/// The number of a retain handling option, as it stands on the wire.
pub fn retain_forward_rule_to_u8(rule: RetainForwardRule) -> (r: u8)
    ensures
        r == retain_forward_rule_number(rule),
        spec_retain_forward_rule(r) == Some(rule),
{
    match rule {
        RetainForwardRule::OnEverySubscribe => 0,
        RetainForwardRule::OnNewSubscribe => 1,
        RetainForwardRule::Never => 2,
    }
}

// ---------------------------------------------------------------------------
// Reading and writing the primitive fields of the variable header and payload.
// Each reader is described by what it returns and the bytes it leaves.
// ---------------------------------------------------------------------------

pub open spec fn spec_read_u8(s: Seq<u8>) -> (Result<u8, Error>, Seq<u8>) {
    if s.len() < 1 {
        (Err(Error::MalformedPacket), s)
    } else {
        (Ok(s[0]), s.skip(1))
    }
}

pub open spec fn spec_read_u16(s: Seq<u8>) -> (Result<u16, Error>, Seq<u8>) {
    if s.len() < 2 {
        (Err(Error::MalformedPacket), s)
    } else {
        (Ok(be_u16_value(s)), s.skip(2))
    }
}

pub open spec fn spec_read_u32(s: Seq<u8>) -> (Result<u32, Error>, Seq<u8>) {
    if s.len() < 4 {
        (Err(Error::MalformedPacket), s)
    } else {
        (Ok(be_u32_value(s)), s.skip(4))
    }
}

/// A length-prefixed run of bytes: two bytes of length, then the bytes.
pub open spec fn spec_read_mqtt_bytes(s: Seq<u8>) -> (Result<Seq<u8>, Error>, Seq<u8>) {
    if s.len() < 2 {
        (Err(Error::MalformedPacket), s)
    } else {
        let n = be_u16_value(s) as int;
        if n > s.len() - 2 {
            (Err(Error::BoundaryCrossed(n as usize)), s.skip(2))
        } else {
            (Ok(s.subrange(2, 2 + n)), s.skip(2 + n))
        }
    }
}

/// A length-prefixed UTF-8 string; the text it decodes to.
pub open spec fn spec_read_mqtt_string(s: Seq<u8>) -> (Result<Seq<char>, Error>, Seq<u8>) {
    match spec_read_mqtt_bytes(s) {
        (Ok(b), rest) => if valid_utf8(b) {
            (Ok(decode_utf8(b)), rest)
        } else {
            (Err(Error::TopicNotUtf8), rest)
        },
        (Err(e), rest) => (Err(e), rest),
    }
}

/// The encoding of a run of bytes: its length in two bytes, then the bytes.
pub open spec fn mqtt_bytes_encoding(b: Seq<u8>) -> Seq<u8> {
    be_u16_bytes(b.len() as u16) + b
}

/// The encoding of a string: its UTF-8 bytes, length-prefixed.
pub open spec fn mqtt_string_encoding(s: Seq<char>) -> Seq<u8> {
    mqtt_bytes_encoding(encode_utf8(s))
}

pub fn read_u8(stream: &mut Bytes) -> (r: Result<u8, Error>)
    ensures
        (r, bytes_seq(*final(stream))) == spec_read_u8(bytes_seq(*old(stream))),
{
    if bytes_len(stream) < 1 {
        return Err(Error::MalformedPacket);
    }
    Ok(bytes_get_u8(stream))
}

pub fn read_u16(stream: &mut Bytes) -> (r: Result<u16, Error>)
    ensures
        (r, bytes_seq(*final(stream))) == spec_read_u16(bytes_seq(*old(stream))),
{
    if bytes_len(stream) < 2 {
        return Err(Error::MalformedPacket);
    }
    Ok(bytes_get_u16(stream))
}

pub fn read_u32(stream: &mut Bytes) -> (r: Result<u32, Error>)
    ensures
        (r, bytes_seq(*final(stream))) == spec_read_u32(bytes_seq(*old(stream))),
{
    if bytes_len(stream) < 4 {
        return Err(Error::MalformedPacket);
    }
    Ok(bytes_get_u32(stream))
}

/// Read a series of bytes with a length from a byte stream
pub fn read_mqtt_bytes(stream: &mut Bytes) -> (r: Result<Bytes, Error>)
    ensures
        match (r, spec_read_mqtt_bytes(bytes_seq(*old(stream)))) {
            (Ok(b), (Ok(sb), rest)) => bytes_seq(b) == sb && bytes_seq(*final(stream)) == rest,
            (Err(e), (Err(se), rest)) => e == se && bytes_seq(*final(stream)) == rest,
            _ => false,
        },
{
    let len = match read_u16(stream) {
        Ok(v) => v as usize,
        Err(e) => return Err(e),
    };
    // Prevent attacks with wrong remaining length.
    if len > bytes_len(stream) {
        return Err(Error::BoundaryCrossed(len));
    }
    let r = bytes_split_to(stream, len);
    proof {
        let s = bytes_seq(*old(stream));
        assert(s.skip(2).take(len as int) =~= s.subrange(2, 2 + len));
        assert(s.skip(2).skip(len as int) =~= s.skip(2 + len));
    }
    Ok(r)
}

/// Reads a string from bytes stream
pub fn read_mqtt_string(stream: &mut Bytes) -> (r: Result<String, Error>)
    ensures
        match (r, spec_read_mqtt_string(bytes_seq(*old(stream)))) {
            (Ok(v), (Ok(sv), rest)) => v@ == sv && bytes_seq(*final(stream)) == rest,
            (Err(e), (Err(se), rest)) => e == se && bytes_seq(*final(stream)) == rest,
            _ => false,
        },
{
    let s = match read_mqtt_bytes(stream) {
        Ok(b) => b,
        Err(e) => return Err(e),
    };
    let v = slice_to_vec(bytes_as_slice(&s));
    match string_from_utf8(v) {
        Some(text) => Ok(text),
        None => Err(Error::TopicNotUtf8),
    }
}

/// Serializes bytes to stream (including length)
pub fn write_mqtt_bytes(stream: &mut BytesMut, bytes: &[u8])
    requires
        bytes_mut_seq(*old(stream)).len() + 2 + bytes@.len() <= usize::MAX,
    ensures
        bytes_mut_seq(*final(stream)) == bytes_mut_seq(*old(stream)) + mqtt_bytes_encoding(bytes@),
{
    bytes_mut_put_u16(stream, bytes.len() as u16);
    bytes_mut_extend(stream, bytes);
    assert(bytes_mut_seq(*stream) =~= bytes_mut_seq(*old(stream)) + mqtt_bytes_encoding(bytes@));
}

/// Serializes a string to stream
pub fn write_mqtt_string(stream: &mut BytesMut, string: &str)
    requires
        bytes_mut_seq(*old(stream)).len() + 2 + encode_utf8(string@).len() <= usize::MAX,
    ensures
        bytes_mut_seq(*final(stream)) == bytes_mut_seq(*old(stream)) + mqtt_string_encoding(string@),
{
    write_mqtt_bytes(stream, string.as_bytes())
}

/// Reading a length-prefixed run of bytes gives back what was written.
pub proof fn lemma_mqtt_bytes_roundtrip(b: Seq<u8>, rest: Seq<u8>)
    requires
        b.len() <= 65535,
    ensures
        spec_read_mqtt_bytes(mqtt_bytes_encoding(b) + rest) == (Ok::<Seq<u8>, Error>(b), rest),
{
    let s = mqtt_bytes_encoding(b) + rest;
    crate::buffer::lemma_be_u16_roundtrip(b.len() as u16);
    assert(be_u16_value(s) == b.len()) by {
        assert(s[0] == be_u16_bytes(b.len() as u16)[0]);
        assert(s[1] == be_u16_bytes(b.len() as u16)[1]);
    }
    assert(s.subrange(2, 2 + b.len() as int) =~= b);
    assert(s.skip(2 + b.len() as int) =~= rest);
}

/// Reading a string gives back what was written.
pub proof fn lemma_mqtt_string_roundtrip(t: Seq<char>, rest: Seq<u8>)
    requires
        encode_utf8(t).len() <= 65535,
    ensures
        spec_read_mqtt_string(mqtt_string_encoding(t) + rest) == (Ok::<Seq<char>, Error>(t), rest),
{
    lemma_mqtt_bytes_roundtrip(encode_utf8(t), rest);
    encode_utf8_valid_utf8(t);
    encode_utf8_decode_utf8(t);
}


/// The fixed header that encodes a packet with first byte `byte1` and
/// remaining length `len`.
pub open spec fn fixed_header_encoding(byte1: u8, len: nat) -> Seq<u8> {
    seq![byte1] + vbi_encode(len)
}

/// Parsing the fixed header of an encoded packet gives its first byte and
/// remaining length back.
pub proof fn lemma_fixed_header_roundtrip(byte1: u8, len: nat, body: Seq<u8>)
    requires
        len <= MAX_REMAINING_LENGTH,
    ensures
        spec_parse_fixed_header(fixed_header_encoding(byte1, len) + body) == Ok::<FixedHeader, Error>(
            FixedHeader {
                byte1,
                fixed_header_len: (vbi_encode(len).len() + 1) as usize,
                remaining_len: len as usize,
            },
        ),
        vbi_encode(len).len() == spec_len_len(len),
{
    let s = fixed_header_encoding(byte1, len) + body;
    lemma_vbi_encode_len(len);
    assert(s.skip(1) =~= vbi_encode(len) + body);
    lemma_vbi_roundtrip(len, body);
}

/// The bytes of an acknowledgement that carries only a packet identifier.
pub open spec fn pkid_ack_encoding(byte1: u8, pkid: u16) -> Seq<u8> {
    fixed_header_encoding(byte1, 2) + be_u16_bytes(pkid)
}

/// The packet identifier that a variable header starting `v` carries.
pub open spec fn spec_read_pkid(v: Seq<u8>) -> Result<u16, Error> {
    if v.len() < 2 {
        Err(Error::MalformedPacket)
    } else {
        Ok(be_u16_value(v))
    }
}

/// Parsing such an acknowledgement finds a two-byte fixed header with
/// remaining length 2, followed by the identifier.
pub proof fn lemma_pkid_ack_roundtrip(byte1: u8, pkid: u16)
    ensures
        spec_parse_fixed_header(pkid_ack_encoding(byte1, pkid)) == Ok::<FixedHeader, Error>(
            FixedHeader { byte1, fixed_header_len: 2, remaining_len: 2 },
        ),
        pkid_ack_encoding(byte1, pkid).skip(2) == be_u16_bytes(pkid),
        spec_read_pkid(pkid_ack_encoding(byte1, pkid).skip(2)) == Ok::<u16, Error>(pkid),
{
    lemma_fixed_header_roundtrip(byte1, 2, be_u16_bytes(pkid));
    crate::buffer::lemma_be_u16_roundtrip(pkid);
    assert(pkid_ack_encoding(byte1, pkid).skip(2) =~= be_u16_bytes(pkid));
}

/// The encodings of the items of `s`, one after another.
pub open spec fn concat_map<A>(s: Seq<A>, f: spec_fn(A) -> Seq<u8>) -> Seq<u8>
    decreases s.len(),
{
    if s.len() == 0 {
        Seq::<u8>::empty()
    } else {
        f(s[0]) + concat_map(s.drop_first(), f)
    }
}

/// The sum of `g` over the items of `s`.
pub open spec fn sum_map<A>(s: Seq<A>, g: spec_fn(A) -> nat) -> nat
    decreases s.len(),
{
    if s.len() == 0 {
        0
    } else {
        g(s[0]) + sum_map(s.drop_first(), g)
    }
}

pub proof fn lemma_concat_map_push<A>(s: Seq<A>, x: A, f: spec_fn(A) -> Seq<u8>)
    ensures
        concat_map(s.push(x), f) == concat_map(s, f) + f(x),
    decreases s.len(),
{
    if s.len() == 0 {
        assert(s.push(x).drop_first() =~= Seq::<A>::empty());
        assert(s.push(x)[0] == x);
        assert(concat_map(Seq::<A>::empty(), f) =~= Seq::<u8>::empty());
        assert(concat_map(s.push(x), f) =~= f(x));
    } else {
        assert(s.push(x).drop_first() =~= s.drop_first().push(x));
        assert(s.push(x)[0] == s[0]);
        lemma_concat_map_push(s.drop_first(), x, f);
        assert(concat_map(s.push(x), f) =~= concat_map(s, f) + f(x));
    }
}

pub proof fn lemma_sum_map_push<A>(s: Seq<A>, x: A, g: spec_fn(A) -> nat)
    ensures
        sum_map(s.push(x), g) == sum_map(s, g) + g(x),
    decreases s.len(),
{
    if s.len() == 0 {
        assert(s.push(x).drop_first() =~= Seq::<A>::empty());
        assert(s.push(x)[0] == x);
        assert(sum_map(Seq::<A>::empty(), g) == 0);
    } else {
        assert(s.push(x).drop_first() =~= s.drop_first().push(x));
        assert(s.push(x)[0] == s[0]);
        lemma_sum_map_push(s.drop_first(), x, g);
    }
}

pub proof fn lemma_concat_map_len<A>(s: Seq<A>, f: spec_fn(A) -> Seq<u8>, g: spec_fn(A) -> nat)
    requires
        forall|x: A| #[trigger] f(x).len() == g(x),
    ensures
        concat_map(s, f).len() == sum_map(s, g),
    decreases s.len(),
{
    if s.len() > 0 {
        lemma_concat_map_len(s.drop_first(), f, g);
    }
}

// ----------------------------- Connect packet -----------------------------
/// Connection packet initialized by the client
#[derive(Debug, Clone, PartialEq, Eq)]
pub struct Connect {
    /// mqtt keep alive interval
    pub keep_alive: u16,
    /// Client ID
    pub client_id: String,
    /// Clean session. Ask the broker to clear previous session
    pub clean_session: bool,
}

pub struct ConnectView {
    pub keep_alive: u16,
    pub client_id: Seq<char>,
    pub clean_session: bool,
}

impl View for Connect {
    type V = ConnectView;

    open spec fn view(&self) -> ConnectView {
        ConnectView { keep_alive: self.keep_alive, client_id: self.client_id@, clean_session: self.clean_session }
    }
}

/// LastWill that broker forwards on behalf of the client
#[derive(Debug, Clone, PartialEq, Eq)]
pub struct LastWill {
    pub topic: Bytes,
    pub message: Bytes,
    pub qos: QoS,
    pub retain: bool,
}

pub struct LastWillView {
    pub topic: Seq<u8>,
    pub message: Seq<u8>,
    pub qos: QoS,
    pub retain: bool,
}

impl View for LastWill {
    type V = LastWillView;

    open spec fn view(&self) -> LastWillView {
        LastWillView {
            topic: bytes_seq(self.topic),
            message: bytes_seq(self.message),
            qos: self.qos,
            retain: self.retain,
        }
    }
}

#[derive(Debug, Clone, PartialEq, Eq)]
pub struct Login {
    pub username: String,
    pub password: String,
}

pub struct LoginView {
    pub username: Seq<char>,
    pub password: Seq<char>,
}

impl View for Login {
    type V = LoginView;

    open spec fn view(&self) -> LoginView {
        LoginView { username: self.username@, password: self.password@ }
    }
}

/// The views of a list of key/value string pairs.
pub open spec fn pairs_view(v: Seq<(String, String)>) -> Seq<(Seq<char>, Seq<char>)> {
    v.map_values(|p: (String, String)| (p.0@, p.1@))
}

/// The view of an optional string.
pub open spec fn opt_string_view(o: Option<String>) -> Option<Seq<char>> {
    match o {
        Some(s) => Some(s@),
        None => None,
    }
}

/// The view of an optional run of bytes.
pub open spec fn opt_bytes_view(o: Option<Bytes>) -> Option<Seq<u8>> {
    match o {
        Some(b) => Some(bytes_seq(b)),
        None => None,
    }
}

//-----------------------------ConnectAck packet----------------
/// Return code in connack
/// This contains return codes for both MQTT v4(3.11) and v5
#[derive(Debug, Clone, Copy, PartialEq, Eq, Structural)]
pub enum ConnectReturnCode {
    // MQTT 3/4/5 Common
    Success,
    NotAuthorized,
    // MQTT 5
    UnspecifiedError,
    MalformedPacket,
    ProtocolError,
    ImplementationSpecificError,
    UnsupportedProtocolVersion,
    ClientIdentifierNotValid,
    BadUserNamePassword,
    ServerUnavailable,
    ServerBusy,
    Banned,
    BadAuthenticationMethod,
    TopicNameInvalid,
    PacketTooLarge,
    QuotaExceeded,
    PayloadFormatInvalid,
    RetainNotSupported,
    QoSNotSupported,
    UseAnotherServer,
    ServerMoved,
    ConnectionRateExceeded,
    // MQTT 3/4
    UnacceptableProtocolVersion,
    IdentifierRejected,
    ServiceUnavailable,
}

/// Acknowledgement to connect packet
#[derive(Debug, Clone, Copy, PartialEq, Eq, Structural)]
pub struct ConnAck {
    pub session_present: bool,
    pub code: ConnectReturnCode,
}

#[derive(Debug, Clone, Copy, PartialEq, Eq, Structural)]
pub struct PingReq;

#[derive(Debug, Clone, Copy, PartialEq, Eq, Structural)]
pub struct PingResp;

//----------------------Publish Packet --------------------------------
/// Publish packet
#[derive(Clone, Debug, PartialEq, Eq)]
pub struct Publish {
    pub dup: bool,
    pub qos: QoS,
    pub pkid: u16,
    pub retain: bool,
    pub topic: Bytes,
    pub payload: Bytes,
}

pub struct PublishView {
    pub dup: bool,
    pub qos: QoS,
    pub pkid: u16,
    pub retain: bool,
    pub topic: Seq<u8>,
    pub payload: Seq<u8>,
}

impl View for Publish {
    type V = PublishView;

    open spec fn view(&self) -> PublishView {
        PublishView {
            dup: self.dup,
            qos: self.qos,
            pkid: self.pkid,
            retain: self.retain,
            topic: bytes_seq(self.topic),
            payload: bytes_seq(self.payload),
        }
    }
}

impl Publish {
    /// Constructor of Publish
    pub fn new(topic: Bytes, payload: Bytes, retain: bool) -> (r: Publish)
        ensures
            r@ == (PublishView {
                dup: false,
                qos: QoS::AtMostOnce,
                pkid: 0,
                retain,
                topic: bytes_seq(topic),
                payload: bytes_seq(payload),
            }),
    {
        Publish { dup: false, qos: QoS::AtMostOnce, pkid: 0, retain, topic, payload }
    }

    pub fn is_empty(&self) -> (r: bool)
        ensures
            !r,
    {
        false
    }

    /// Length of the variable header and payload of this packet in MQTT 3.1.1.
    pub fn len(&self) -> (r: usize)
        requires
            bytes_seq(self.topic).len() + bytes_seq(self.payload).len() + 4 <= usize::MAX,
        ensures
            r == publish_body_len(self@),
    {
        let len = 2 + bytes_len(&self.topic) + bytes_len(&self.payload);
        if self.qos == QoS::AtMostOnce {
            len
        } else {
            len + 2
        }
    }
}

/// Topic length prefix, topic, packet identifier when QoS > 0, payload.
pub open spec fn publish_body_len(p: PublishView) -> nat {
    2 + p.topic.len() + p.payload.len() + if p.qos == QoS::AtMostOnce {
        0nat
    } else {
        2nat
    }
}

#[derive(Debug, Clone, PartialEq, Eq, Default)]
pub struct PublishProperties {
    pub payload_format_indicator: Option<u8>,
    pub message_expiry_interval: Option<u32>,
    pub topic_alias: Option<u16>,
    pub response_topic: Option<String>,
    pub correlation_data: Option<Bytes>,
    pub user_properties: Vec<(String, String)>,
    pub subscription_identifiers: Vec<usize>,
    pub content_type: Option<String>,
}

/// Acknowledgement to QoS 1 publish packet
#[derive(Debug, Clone, Copy, PartialEq, Eq, Structural)]
pub struct PubAck {
    pub pkid: u16,
    pub reason: Option<PubAckReason>,
}

/// Return code in puback
#[derive(Debug, Clone, Copy, PartialEq, Eq, Structural)]
pub enum PubAckReason {
    Success,
    NoMatchingSubscribers,
    UnspecifiedError,
    ImplementationSpecificError,
    NotAuthorized,
    TopicNameInvalid,
    PacketIdentifierInUse,
    QuotaExceeded,
    PayloadFormatInvalid,
}

/// The name of a PUBACK reason.
pub open spec fn puback_reason_name(r: PubAckReason) -> Seq<char> {
    match r {
        PubAckReason::Success => "Success"@,
        PubAckReason::NoMatchingSubscribers => "NoMatchingSubscribers"@,
        PubAckReason::UnspecifiedError => "UnspecifiedError"@,
        PubAckReason::ImplementationSpecificError => "ImplementationSpecificError"@,
        PubAckReason::NotAuthorized => "NotAuthorized"@,
        PubAckReason::TopicNameInvalid => "TopicNameInvalid"@,
        PubAckReason::PacketIdentifierInUse => "PacketIdentifierInUse"@,
        PubAckReason::QuotaExceeded => "QuotaExceeded"@,
        PubAckReason::PayloadFormatInvalid => "PayloadFormatInvalid"@,
    }
}

/// A PUBACK as text: `pkid:<pkid>, reason:<reason>`, the reason written
/// `None` or `Some(<name>)`.
pub open spec fn puback_text(p: PubAck) -> Seq<char> {
    "pkid:"@ + crate::text::decimal_chars(p.pkid as nat) + ", reason:"@ + match p.reason {
        Some(r) => "Some("@ + puback_reason_name(r) + ")"@,
        None => "None"@,
    }
}

impl PubAckReason {
    fn name(&self) -> (r: &'static str)
        ensures
            r@ == puback_reason_name(*self),
    {
        match self {
            PubAckReason::Success => "Success",
            PubAckReason::NoMatchingSubscribers => "NoMatchingSubscribers",
            PubAckReason::UnspecifiedError => "UnspecifiedError",
            PubAckReason::ImplementationSpecificError => "ImplementationSpecificError",
            PubAckReason::NotAuthorized => "NotAuthorized",
            PubAckReason::TopicNameInvalid => "TopicNameInvalid",
            PubAckReason::PacketIdentifierInUse => "PacketIdentifierInUse",
            PubAckReason::QuotaExceeded => "QuotaExceeded",
            PubAckReason::PayloadFormatInvalid => "PayloadFormatInvalid",
        }
    }
}

impl PubAck {
    /// The PUBACK as text, as `puback_text` says.
    pub fn to_string(&self) -> (r: String)
        ensures
            r@ == puback_text(*self),
    {
        let a = crate::text::concat("pkid:", crate::text::decimal(self.pkid as u64).as_str());
        let b = crate::text::concat(a.as_str(), ", reason:");
        let r = match self.reason {
            Some(reason) => {
                let c = crate::text::concat(b.as_str(), "Some(");
                let d = crate::text::concat(c.as_str(), reason.name());
                crate::text::concat(d.as_str(), ")")
            },
            None => crate::text::concat(b.as_str(), "None"),
        };
        assert(r@ =~= puback_text(*self));
        r
    }
}

/// Reason string and user properties, the properties that most
/// acknowledgements carry.
pub struct ReasonPropertiesView {
    pub reason_string: Option<Seq<char>>,
    pub user_properties: Seq<(Seq<char>, Seq<char>)>,
}

/// The reason string and user properties as text, each value as `{:?}`
/// writes it.
pub open spec fn reason_props_text(p: ReasonPropertiesView) -> Seq<char> {
    "reason_string:"@ + crate::mqtt::debug_text::opt_str_debug_text(p.reason_string) + ", user_properties:"@
        + crate::mqtt::debug_text::pairs_debug_text(p.user_properties)
}

#[derive(Debug, Clone, PartialEq, Eq, Default)]
pub struct PubAckProperties {
    pub reason_string: Option<String>,
    pub user_properties: Vec<(String, String)>,
}

impl View for PubAckProperties {
    type V = ReasonPropertiesView;

    open spec fn view(&self) -> ReasonPropertiesView {
        ReasonPropertiesView {
            reason_string: opt_string_view(self.reason_string),
            user_properties: pairs_view(self.user_properties@),
        }
    }
}

impl PubAckProperties {
    /// The properties as text, as `reason_props_text` says.
    pub fn to_string(&self) -> (r: String)
        ensures
            r@ == reason_props_text(self@),
    {
        let a = crate::text::concat(
            "reason_string:",
            crate::mqtt::debug_text::debug_opt_string(&self.reason_string).as_str(),
        );
        let b = crate::text::concat(a.as_str(), ", user_properties:");
        let r = crate::text::concat(b.as_str(), crate::mqtt::debug_text::debug_pairs(&self.user_properties).as_str());
        assert(r@ =~= reason_props_text(self@));
        r
    }
}

//-----------------------------PubRec packet---------------------------------
/// Acknowledgement as part 1 to QoS 2 publish packet
#[derive(Debug, Clone, Copy, PartialEq, Eq, Structural)]
pub struct PubRec {
    pub pkid: u16,
    pub reason: Option<PubRecReason>,
}

/// Return code in pubrec packet
#[derive(Debug, Clone, Copy, PartialEq, Eq, Structural)]
pub enum PubRecReason {
    Success,
    NoMatchingSubscribers,
    UnspecifiedError,
    ImplementationSpecificError,
    NotAuthorized,
    TopicNameInvalid,
    PacketIdentifierInUse,
    QuotaExceeded,
    PayloadFormatInvalid,
}

#[derive(Debug, Clone, PartialEq, Eq, Default)]
pub struct PubRecProperties {
    pub reason_string: Option<String>,
    pub user_properties: Vec<(String, String)>,
}

//--------------------------- PubRel packet -------------------------------
/// Publish release in response to PubRec packet as QoS 2
#[derive(Debug, Clone, Copy, PartialEq, Eq, Structural)]
pub struct PubRel {
    pub pkid: u16,
    pub reason: Option<PubRelReason>,
}

/// Return code in pubrel
#[derive(Debug, Clone, Copy, PartialEq, Eq, Structural)]
pub enum PubRelReason {
    Success,
    PacketIdentifierNotFound,
}

#[derive(Debug, Clone, PartialEq, Eq, Default)]
pub struct PubRelProperties {
    pub reason_string: Option<String>,
    pub user_properties: Vec<(String, String)>,
}

impl View for PubRelProperties {
    type V = ReasonPropertiesView;

    open spec fn view(&self) -> ReasonPropertiesView {
        ReasonPropertiesView {
            reason_string: opt_string_view(self.reason_string),
            user_properties: pairs_view(self.user_properties@),
        }
    }
}

//--------------------------- PubComp packet -------------------------------
/// Asssured publish complete as QoS 2 in response to PubRel packet
#[derive(Debug, Clone, Copy, PartialEq, Eq, Structural)]
pub struct PubComp {
    pub pkid: u16,
    pub reason: Option<PubCompReason>,
}

/// Return code in pubcomp pcaket
#[derive(Debug, Clone, Copy, PartialEq, Eq, Structural)]
pub enum PubCompReason {
    Success,
    PacketIdentifierNotFound,
}

#[derive(Debug, Clone, PartialEq, Eq, Default)]
pub struct PubCompProperties {
    pub reason_string: Option<String>,
    pub user_properties: Vec<(String, String)>,
}

//--------------------------- Subscribe packet -------------------------------
/// Subscription packet
#[derive(Debug, Clone, PartialEq, Eq)]
pub struct Subscribe {
    pub packet_identifier: u16,
    pub filters: Vec<Filter>,
}

/// The retain handling option of a subscription, by the name MQTT 5 gives it.
pub type RetainHandling = RetainForwardRule;

/// Subscription filter
#[derive(Clone, Debug, PartialEq, Eq)]
pub struct Filter {
    //  in mqtt v4, there are only path and qos valid
    pub path: String,
    pub qos: QoS,
    // the following options are only valid in mqtt v5
    pub no_local: bool,
    pub preserve_retain: bool,
    pub retain_handling: RetainForwardRule,
}

pub struct FilterView {
    pub path: Seq<char>,
    pub qos: QoS,
    pub no_local: bool,
    pub preserve_retain: bool,
    pub retain_handling: RetainForwardRule,
}

impl View for Filter {
    type V = FilterView;

    open spec fn view(&self) -> FilterView {
        FilterView {
            path: self.path@,
            qos: self.qos,
            no_local: self.no_local,
            preserve_retain: self.preserve_retain,
            retain_handling: self.retain_handling,
        }
    }
}

/// The views of a list of filters.
pub open spec fn filters_view(v: Seq<Filter>) -> Seq<FilterView> {
    v.map_values(|f: Filter| f@)
}

pub struct SubscribeView {
    pub packet_identifier: u16,
    pub filters: Seq<FilterView>,
}

impl View for Subscribe {
    type V = SubscribeView;

    open spec fn view(&self) -> SubscribeView {
        SubscribeView { packet_identifier: self.packet_identifier, filters: filters_view(self.filters@) }
    }
}

#[derive(Debug, Clone, PartialEq, Eq, Default)]
pub struct SubscribeProperties {
    pub subscription_identifier: Option<usize>,
    pub user_properties: Vec<(String, String)>,
}

pub struct SubscribePropertiesView {
    pub subscription_identifier: Option<usize>,
    pub user_properties: Seq<(Seq<char>, Seq<char>)>,
}

impl View for SubscribeProperties {
    type V = SubscribePropertiesView;

    open spec fn view(&self) -> SubscribePropertiesView {
        SubscribePropertiesView {
            subscription_identifier: self.subscription_identifier,
            user_properties: pairs_view(self.user_properties@),
        }
    }
}

//--------------------------- SubscribeAck packet -------------------------------
/// Ackknowledgement to subscribe
#[derive(Debug, Clone, PartialEq, Eq)]
pub struct SubAck {
    pub pkid: u16,
    pub return_codes: Vec<SubscribeReasonCode>,
}

impl SubAck {
    pub fn is_empty(&self) -> (r: bool)
        ensures
            !r,
    {
        false
    }

    pub fn len(&self) -> (r: usize)
        requires
            self.return_codes@.len() + 2 <= usize::MAX,
        ensures
            r == 2 + self.return_codes@.len(),
    {
        2 + self.return_codes.len()
    }
}

#[derive(Debug, Clone, Copy, PartialEq, Eq, Structural)]
pub enum SubscribeReasonCode {
    QoS0,
    QoS1,
    QoS2,
    Success(QoS),
    Failure,
    // the following codes only valid in mqtt v5
    Unspecified,
    ImplementationSpecific,
    NotAuthorized,
    TopicFilterInvalid,
    PkidInUse,
    QuotaExceeded,
    SharedSubscriptionsNotSupported,
    SubscriptionIdNotSupported,
    WildcardSubscriptionsNotSupported,
    ExclusiveSubscriptionDisabled,
    TopicSubscribed,
}

#[derive(Debug, Clone, PartialEq, Eq, Default)]
pub struct SubAckProperties {
    pub reason_string: Option<String>,
    pub user_properties: Vec<(String, String)>,
}

//--------------------------- Unsubscribe packet -------------------------------
/// Unsubscribe packet
#[derive(Debug, Clone, PartialEq, Eq, Default)]
pub struct Unsubscribe {
    pub pkid: u16,
    pub filters: Vec<String>,
}

pub struct UnsubscribeView {
    pub pkid: u16,
    pub filters: Seq<Seq<char>>,
}

impl View for Unsubscribe {
    type V = UnsubscribeView;

    open spec fn view(&self) -> UnsubscribeView {
        UnsubscribeView { pkid: self.pkid, filters: self.filters@.map_values(|f: String| f@) }
    }
}

#[derive(Debug, Clone, PartialEq, Eq, Default)]
pub struct UnsubscribeProperties {
    pub user_properties: Vec<(String, String)>,
}

//--------------------------- UnsubscribeAck packet -------------------------------
/// Acknowledgement to unsubscribe
#[derive(Debug, Clone, PartialEq, Eq)]
pub struct UnsubAck {
    pub pkid: u16,
    pub reasons: Vec<UnsubAckReason>,  // only valid in MQTT V5
}

#[derive(Debug, Clone, Copy, PartialEq, Eq, Structural)]
pub enum UnsubAckReason {
    Success,
    NoSubscriptionExisted,
    UnspecifiedError,
    ImplementationSpecificError,
    NotAuthorized,
    TopicFilterInvalid,
    PacketIdentifierInUse,
}

// UnsubAckProperties only valid in MQTT V5
#[derive(Debug, Clone, PartialEq, Eq, Default)]
pub struct UnsubAckProperties {
    pub reason_string: Option<String>,
    pub user_properties: Vec<(String, String)>,
}

//--------------------------- Disconnect packet -------------------------------
#[derive(Debug, Clone, Copy, PartialEq, Eq, Structural)]
pub struct Disconnect {
    /// Disconnect reason code which will be only used in MQTT V5
    pub reason_code: Option<DisconnectReasonCode>,
}

#[derive(Debug, Clone, Copy, PartialEq, Eq, Structural)]
pub enum DisconnectReasonCode {
    NormalDisconnection,
    DisconnectWithWillMessage,
    UnspecifiedError,
    MalformedPacket,
    ProtocolError,
    ImplementationSpecificError,
    NotAuthorized,
    ServerBusy,
    ServerShuttingDown,
    KeepAliveTimeout,
    SessionTakenOver,
    TopicFilterInvalid,
    TopicNameInvalid,
    ReceiveMaximumExceeded,
    TopicAliasInvalid,
    PacketTooLarge,
    MessageRateTooHigh,
    QuotaExceeded,
    AdministrativeAction,
    PayloadFormatInvalid,
    RetainNotSupported,
    QoSNotSupported,
    UseAnotherServer,
    ServerMoved,
    SharedSubscriptionNotSupported,
    ConnectionRateExceeded,
    MaximumConnectTime,
    SubscriptionIdentifiersNotSupported,
    WildcardSubscriptionsNotSupported,
}

#[derive(Debug, Clone, PartialEq, Eq, Default)]
pub struct DisconnectProperties {
    /// Session Expiry Interval in seconds
    pub session_expiry_interval: Option<u32>,
    /// Human readable reason for the disconnect
    pub reason_string: Option<String>,
    /// List of user properties
    pub user_properties: Vec<(String, String)>,
    /// String which can be used by the client to identify aonther server to use
    pub server_reference: Option<String>,
}

//--------------------------- AUTH packet -------------------------------
/// AUTH packet is for authentication, but only used in MQTT 5.0
#[derive(Debug, Clone, Copy, PartialEq, Eq, Structural)]
pub struct Auth {
    pub reason: Option<AuthReason>,
}

#[derive(Debug, Clone, Copy, PartialEq, Eq, Structural)]
pub enum AuthReason {
    Success,
    ContinueAuthentication,
    ReAuthenticate,
}

#[derive(Debug, Clone, PartialEq, Eq, Default)]
pub struct AuthProperties {
    /// authentication method
    pub authentication_method: Option<String>,
    /// authentication data
    pub authentication_data: Option<Bytes>,
    /// Human readable reason for the disconnect
    pub reason_string: Option<String>,
    /// List of user properties
    pub user_properties: Vec<(String, String)>,
}

pub struct AuthPropertiesView {
    pub authentication_method: Option<Seq<char>>,
    pub authentication_data: Option<Seq<u8>>,
    pub reason_string: Option<Seq<char>>,
    pub user_properties: Seq<(Seq<char>, Seq<char>)>,
}

impl View for AuthProperties {
    type V = AuthPropertiesView;

    open spec fn view(&self) -> AuthPropertiesView {
        AuthPropertiesView {
            authentication_method: opt_string_view(self.authentication_method),
            authentication_data: opt_bytes_view(self.authentication_data),
            reason_string: opt_string_view(self.reason_string),
            user_properties: pairs_view(self.user_properties@),
        }
    }
}

/// The name of an AUTH reason, as `{:?}` writes it.
pub open spec fn auth_reason_name(r: AuthReason) -> Seq<char> {
    match r {
        AuthReason::Success => "Success"@,
        AuthReason::ContinueAuthentication => "ContinueAuthentication"@,
        AuthReason::ReAuthenticate => "ReAuthenticate"@,
    }
}

/// An AUTH as text: `reason_code:` and the reason, written `None` or
/// `Some(<name>)`.
pub open spec fn auth_text(a: Auth) -> Seq<char> {
    "reason_code:"@ + match a.reason {
        Some(r) => "Some("@ + auth_reason_name(r) + ")"@,
        None => "None"@,
    }
}

impl Auth {
    /// The AUTH as text, as `auth_text` says.
    pub fn to_string(&self) -> (r: String)
        ensures
            r@ == auth_text(*self),
    {
        let r = match self.reason {
            Some(reason) => {
                let name = match reason {
                    AuthReason::Success => "Success",
                    AuthReason::ContinueAuthentication => "ContinueAuthentication",
                    AuthReason::ReAuthenticate => "ReAuthenticate",
                };
                let c = crate::text::concat("reason_code:", "Some(");
                let d = crate::text::concat(c.as_str(), name);
                crate::text::concat(d.as_str(), ")")
            },
            None => crate::text::concat("reason_code:", "None"),
        };
        assert(r@ =~= auth_text(*self));
        r
    }
}

/// The properties of an AUTH as text, each value as `{:?}` writes it.
pub open spec fn auth_props_text(p: AuthPropertiesView) -> Seq<char> {
    "authentication_method:"@ + crate::mqtt::debug_text::opt_str_debug_text(p.authentication_method)
        + ", authentication_data:"@ + crate::mqtt::debug_text::opt_bytes_debug_text(p.authentication_data)
        + ",reason_string:"@ + crate::mqtt::debug_text::opt_str_debug_text(p.reason_string)
        + ", user_properties:"@ + crate::mqtt::debug_text::pairs_debug_text(p.user_properties)
}

impl AuthProperties {
    /// The properties as text, as `auth_props_text` says.
    pub fn to_string(&self) -> (r: String)
        ensures
            r@ == auth_props_text(self@),
    {
        let a = crate::text::concat(
            "authentication_method:",
            crate::mqtt::debug_text::debug_opt_string(&self.authentication_method).as_str(),
        );
        let b = crate::text::concat(a.as_str(), ", authentication_data:");
        let c = crate::text::concat(
            b.as_str(),
            crate::mqtt::debug_text::debug_opt_bytes(&self.authentication_data).as_str(),
        );
        let d = crate::text::concat(c.as_str(), ",reason_string:");
        let e = crate::text::concat(
            d.as_str(),
            crate::mqtt::debug_text::debug_opt_string(&self.reason_string).as_str(),
        );
        let f = crate::text::concat(e.as_str(), ", user_properties:");
        let r = crate::text::concat(f.as_str(), crate::mqtt::debug_text::debug_pairs(&self.user_properties).as_str());
        assert(r@ =~= auth_props_text(self@));
        r
    }
}

/// ConnectProperties can be used in MQTT Version 5
#[derive(Debug, Clone, PartialEq, Eq, Default)]
pub struct ConnectProperties {
    /// Expiry interval property after loosing connection
    pub session_expiry_interval: Option<u32>,
    /// Maximum simultaneous packets
    pub receive_maximum: Option<u16>,
    /// Maximum packet size
    pub max_packet_size: Option<u32>,
    /// Maximum mapping integer for a topic
    pub topic_alias_max: Option<u16>,
    pub request_response_info: Option<u8>,
    pub request_problem_info: Option<u8>,
    /// List of user properties
    pub user_properties: Vec<(String, String)>,
    /// Method of authentication
    pub authentication_method: Option<String>,
    /// Authentication data
    pub authentication_data: Option<Bytes>,
}

/// LastWillProperties can be used in MQTT Version 5
#[derive(Debug, Clone, PartialEq, Eq, Default)]
pub struct LastWillProperties {
    pub delay_interval: Option<u32>,
    pub payload_format_indicator: Option<u8>,
    pub message_expiry_interval: Option<u32>,
    pub content_type: Option<String>,
    pub response_topic: Option<String>,
    pub correlation_data: Option<Bytes>,
    pub user_properties: Vec<(String, String)>,
}

#[derive(Debug, Clone, PartialEq, Eq, Default)]
pub struct ConnAckProperties {
    pub session_expiry_interval: Option<u32>,
    pub receive_max: Option<u16>,
    pub max_qos: Option<u8>,
    pub retain_available: Option<u8>,
    pub max_packet_size: Option<u32>,
    pub assigned_client_identifier: Option<String>,
    pub topic_alias_max: Option<u16>,
    pub reason_string: Option<String>,
    pub user_properties: Vec<(String, String)>,
    pub wildcard_subscription_available: Option<u8>,
    pub subscription_identifiers_available: Option<u8>,
    pub shared_subscription_available: Option<u8>,
    pub server_keep_alive: Option<u16>,
    pub response_information: Option<String>,
    pub server_reference: Option<String>,
    pub authentication_method: Option<String>,
    pub authentication_data: Option<Bytes>,
}

#[derive(Clone, Debug, PartialEq, Eq)]
pub enum MqttPacket {
    Connect(
        u8,
        Connect,
        Option<ConnectProperties>,
        Option<LastWill>,
        Option<LastWillProperties>,
        Option<Login>,
    ),
    ConnAck(ConnAck, Option<ConnAckProperties>),
    Publish(Publish, Option<PublishProperties>),
    PubAck(PubAck, Option<PubAckProperties>),
    PubRec(PubRec, Option<PubRecProperties>),
    PubRel(PubRel, Option<PubRelProperties>),
    PubComp(PubComp, Option<PubCompProperties>),
    PingReq(PingReq),
    PingResp(PingResp),
    Subscribe(Subscribe, Option<SubscribeProperties>),
    SubAck(SubAck, Option<SubAckProperties>),
    Unsubscribe(Unsubscribe, Option<UnsubscribeProperties>),
    UnsubAck(UnsubAck, Option<UnsubAckProperties>),
    Disconnect(Disconnect, Option<DisconnectProperties>),
    Auth(Auth, Option<AuthProperties>),
}

/// What reading a CONNECT gives, whichever protocol level it names.
pub struct ConnectReadOutcome {
    pub protocol_version: u8,
    pub connect: Connect,
    pub properties: Option<ConnectProperties>,
    pub last_will: Option<LastWill>,
    pub last_will_properties: Option<LastWillProperties>,
    pub login: Option<Login>,
}

/// What `connect_read` gives: the protocol level, the connect, the login
/// and the last will.
pub open spec fn spec_connect_read_any(h: FixedHeader, s: Seq<u8>) -> Result<
    (u8, ConnectView, Option<LoginView>, Option<LastWillView>),
    MQTTProtocolError,
> {
    match spec_read_mqtt_string(s.skip(h.fixed_header_len as int)) {
        (Err(e), _) => Err(spec_from_error(e)),
        (Ok(name), r1) => match spec_read_u8(r1) {
            (Err(e), _) => Err(spec_from_error(e)),
            (Ok(level), r2) => if name != "MQTT"@ && name != "MQIsdp"@ {
                Err(MQTTProtocolError::InvalidProtocol)
            } else if level == 5 {
                Err(MQTTProtocolError::InvalidProtocolLevel(5))
            } else if level == 4 || level == 3 {
                match spec_read_u8(r2) {
                    (Err(e), _) => Err(spec_from_error(e)),
                    (Ok(flags), r3) => match spec_read_u16(r3) {
                        (Err(e), _) => Err(spec_from_error(e)),
                        (Ok(keep_alive), r4) => match spec_read_mqtt_bytes(r4) {
                            (Err(e), _) => Err(spec_from_error(e)),
                            (Ok(id), r5) => if !valid_utf8(id) {
                                Err(MQTTProtocolError::PayloadNotUtf8)
                            } else {
                                match spec_will_read(flags, r5) {
                                    (Err(e), _) => Err(e),
                                    (Ok(will), r6) => match spec_login_read(flags, r6) {
                                        (Err(e), _) => Err(e),
                                        (Ok(login), _) => Ok(
                                            (
                                                level,
                                                ConnectView {
                                                    keep_alive,
                                                    client_id: decode_utf8(id),
                                                    clean_session: flags & 0b10 != 0,
                                                },
                                                login,
                                                will,
                                            ),
                                        ),
                                    },
                                }
                            },
                        },
                    },
                }
            } else {
                Err(MQTTProtocolError::InvalidProtocol)
            },
        },
    }
}

/// Whether what `connect_read` returned is the described outcome.
pub open spec fn connect_outcome_matches(
    o: ConnectReadOutcome,
    s: (u8, ConnectView, Option<LoginView>, Option<LastWillView>),
) -> bool {
    &&& o.protocol_version == s.0
    &&& o.connect@ == s.1
    &&& o.properties is None
    &&& o.last_will_properties is None
    &&& match (o.login, s.2) {
        (Some(l), Some(sl)) => l@ == sl,
        (None, None) => true,
        _ => false,
    }
    &&& match (o.last_will, s.3) {
        (Some(w), Some(sw)) => w@ == sw,
        (None, None) => true,
        _ => false,
    }
}

/// Whether a text is the given literal, compared by its UTF-8 bytes.
fn text_is(t: &String, lit: &str) -> (r: bool)
    ensures
        r == (t@ == lit@),
{
    proof {
        encode_utf8_decode_utf8(t@);
        encode_utf8_decode_utf8(lit@);
    }
    bytes_equal(t.as_str().as_bytes(), lit.as_bytes())
}

/// Reads a CONNECT of protocol level 3 or 4; level 5, whose properties
/// this library does not read, is refused as an invalid level.
pub fn connect_read(fixed_header: FixedHeader, bytes: Bytes) -> (r: Result<ConnectReadOutcome, MQTTProtocolError>)
    requires
        fixed_header.fixed_header_len <= bytes_seq(bytes).len(),
    ensures
        match (r, spec_connect_read_any(fixed_header, bytes_seq(bytes))) {
            (Ok(o), Ok(so)) => connect_outcome_matches(o, so),
            (Err(e), Err(se)) => e == se,
            _ => false,
        },
{
    let mut buf = bytes;
    let variable_header_index = fixed_header.fixed_header_len;
    bytes_advance(&mut buf, variable_header_index);
    // variable header
    let protocol_name = match read_mqtt_string(&mut buf) {
        Ok(n) => n,
        Err(e) => return Err(MQTTProtocolError::from_error(e)),
    };
    let protocol_level = match read_u8(&mut buf) {
        Ok(l) => l,
        Err(e) => return Err(MQTTProtocolError::from_error(e)),
    };
    if !text_is(&protocol_name, "MQTT") && !text_is(&protocol_name, "MQIsdp") {
        return Err(MQTTProtocolError::InvalidProtocol);
    }
    if protocol_level == 5 {
        return Err(MQTTProtocolError::InvalidProtocolLevel(5));
    }
    if protocol_level == 4 || protocol_level == 3 {
        let connect_flags = match read_u8(&mut buf) {
            Ok(f) => f,
            Err(e) => return Err(MQTTProtocolError::from_error(e)),
        };
        let clean_session = (connect_flags & 0b10) != 0;
        let keep_alive = match read_u16(&mut buf) {
            Ok(k) => k,
            Err(e) => return Err(MQTTProtocolError::from_error(e)),
        };
        let client_id = match read_mqtt_bytes(&mut buf) {
            Ok(b) => b,
            Err(e) => return Err(MQTTProtocolError::from_error(e)),
        };
        let client_id = match string_from_utf8(slice_to_vec(bytes_as_slice(&client_id))) {
            Some(t) => t,
            None => return Err(MQTTProtocolError::PayloadNotUtf8),
        };
        let last_will = match crate::mqtt::mqttv4::connect::will::read(connect_flags, &mut buf) {
            Ok(w) => w,
            Err(e) => return Err(e),
        };
        let login = match crate::mqtt::mqttv4::connect::login::read(connect_flags, &mut buf) {
            Ok(l) => l,
            Err(e) => return Err(e),
        };
        let connect = Connect { keep_alive, client_id, clean_session };
        return Ok(
            ConnectReadOutcome {
                protocol_version: protocol_level,
                connect,
                properties: None,
                last_will,
                last_will_properties: None,
                login,
            },
        );
    }
    Err(MQTTProtocolError::InvalidProtocol)
}

} // verus!
