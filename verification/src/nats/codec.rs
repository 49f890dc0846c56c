//! The NATS codec: control lines ended by `\r\n`, some followed by a
//! payload of the length they declare.
//!
//! INFO and CONNECT carry a JSON object; the codec hands its text over as
//! it stands and takes the text to write from its caller.
use crate::buffer::{
    bytes_as_slice, bytes_len, bytes_mut_as_slice, bytes_mut_extend, bytes_mut_freeze,
    bytes_mut_len, bytes_mut_seq, bytes_mut_split_to, bytes_new, bytes_seq, str_from_utf8,
};
use crate::nats::packet::{NatsPacket, NatsPacketView};
use crate::text::{chars_of, concat, decimal, decimal_chars, string_from_chars};
use bytes::{Bytes, BytesMut};
use vstd::prelude::*;
use vstd::slice::slice_subrange;
use vstd::utf8::{decode_utf8, encode_utf8, valid_utf8};

pub mod control;
pub mod line;
pub mod roundtrip;

use control::{parse_control_line, spec_parse_control_line, ControlView, ParsedControl};
use line::{trim, trim_bounds};

verus! {

/// What the NATS codec refuses.
#[derive(Debug)]
pub enum NatsCodecError {
    Io(std::io::Error),
    InvalidUtf8(std::str::Utf8Error),
    /// The JSON text of an INFO or a CONNECT did not read; the reader's
    /// message.
    InvalidJson(String),
    UnknownCommand(String),
    MalformedCommand(String),
    PayloadTooLarge(usize),
}

/// `Display` for an I/O error: the text that `format!("{}", e)` gives,
/// which depends on the operating system; nothing is stated of it.
#[verifier::external_body]
fn io_error_text(e: &std::io::Error) -> (r: String) {
    format!("{}", e)
}

/// `Display` for a UTF-8 error: the text that `format!("{}", e)` gives;
/// what it says is not stated here.
#[verifier::external_body]
fn utf8_error_text(e: &std::str::Utf8Error) -> (r: String) {
    format!("{}", e)
}

/// The text of an error: its kind, then its message or number. The texts
/// of the outside libraries' errors follow their prefix.
pub open spec fn error_text_matches(e: NatsErrorView, t: Seq<char>) -> bool {
    match e {
        NatsErrorView::Io => t.len() >= "I/O error: "@.len() && t.take("I/O error: "@.len() as int)
            == "I/O error: "@,
        NatsErrorView::InvalidUtf8 => t.len() >= "Invalid UTF-8: "@.len() && t.take(
            "Invalid UTF-8: "@.len() as int,
        ) == "Invalid UTF-8: "@,
        NatsErrorView::InvalidJson(m) => t == "Invalid JSON: "@ + m,
        NatsErrorView::UnknownCommand(m) => t == "Unknown command: "@ + m,
        NatsErrorView::MalformedCommand(m) => t == "Malformed command: "@ + m,
        NatsErrorView::PayloadTooLarge(n) => t == "Payload too large: "@ + decimal_chars(n as nat) + " bytes"@,
    }
}

impl NatsCodecError {
    /// The error as text, as `error_text_matches` says.
    pub fn to_string(&self) -> (r: String)
        ensures
            error_text_matches(error_view(*self), r@),
    {
        match self {
            NatsCodecError::Io(e) => {
                let r = concat("I/O error: ", io_error_text(e).as_str());
                assert(r@.take("I/O error: "@.len() as int) =~= "I/O error: "@);
                r
            },
            NatsCodecError::InvalidUtf8(e) => {
                let r = concat("Invalid UTF-8: ", utf8_error_text(e).as_str());
                assert(r@.take("Invalid UTF-8: "@.len() as int) =~= "Invalid UTF-8: "@);
                r
            },
            NatsCodecError::InvalidJson(m) => concat("Invalid JSON: ", m.as_str()),
            NatsCodecError::UnknownCommand(m) => concat("Unknown command: ", m.as_str()),
            NatsCodecError::MalformedCommand(m) => concat("Malformed command: ", m.as_str()),
            NatsCodecError::PayloadTooLarge(n) => {
                let a = concat("Payload too large: ", decimal(*n as u64).as_str());
                concat(a.as_str(), " bytes")
            },
        }
    }
}

/// An error with its texts as characters; the errors of the outside
/// libraries stand for themselves by their kind only.
pub enum NatsErrorView {
    Io,
    InvalidUtf8,
    InvalidJson(Seq<char>),
    UnknownCommand(Seq<char>),
    MalformedCommand(Seq<char>),
    PayloadTooLarge(usize),
}

pub open spec fn error_view(e: NatsCodecError) -> NatsErrorView {
    match e {
        NatsCodecError::Io(_) => NatsErrorView::Io,
        NatsCodecError::InvalidUtf8(_) => NatsErrorView::InvalidUtf8,
        NatsCodecError::InvalidJson(m) => NatsErrorView::InvalidJson(m@),
        NatsCodecError::UnknownCommand(s) => NatsErrorView::UnknownCommand(s@),
        NatsCodecError::MalformedCommand(s) => NatsErrorView::MalformedCommand(s@),
        NatsCodecError::PayloadTooLarge(n) => NatsErrorView::PayloadTooLarge(n),
    }
}

/// What the decoder hands out: a packet, or the JSON text of an INFO or a
/// CONNECT, which its caller reads into a `ServerInfo` or a
/// `ClientConnect`.
pub enum NatsDecoded {
    Packet(NatsPacket),
    InfoJson(String),
    ConnectJson(String),
}

pub enum DecodedView {
    Packet(NatsPacketView),
    InfoJson(Seq<char>),
    ConnectJson(Seq<char>),
}

pub open spec fn decoded_view(d: NatsDecoded) -> DecodedView {
    match d {
        NatsDecoded::Packet(p) => DecodedView::Packet(p@),
        NatsDecoded::InfoJson(s) => DecodedView::InfoJson(s@),
        NatsDecoded::ConnectJson(s) => DecodedView::ConnectJson(s@),
    }
}

/// The fields read from the control line of a packet whose payload is
/// still to come.
pub enum PartialPacket {
    Pub { subject: String, reply_to: Option<String> },
    Msg { subject: String, sid: String, reply_to: Option<String> },
}

pub enum DecodeState {
    /// Waiting for a control line ended by `\r\n`.
    ReadingControl,
    /// A control line was read; waiting for `payload_len + 2` more bytes.
    ReadingPayload { packet: PartialPacket, payload_len: usize },
}

pub enum PartialView {
    Pub { subject: Seq<char>, reply_to: Option<Seq<char>> },
    Msg { subject: Seq<char>, sid: Seq<char>, reply_to: Option<Seq<char>> },
}

pub enum StateView {
    ReadingControl,
    ReadingPayload { packet: PartialView, payload_len: usize },
}

pub open spec fn opt_view(o: Option<String>) -> Option<Seq<char>> {
    match o {
        Some(s) => Some(s@),
        None => None,
    }
}

pub open spec fn state_view(s: DecodeState) -> StateView {
    match s {
        DecodeState::ReadingControl => StateView::ReadingControl,
        DecodeState::ReadingPayload { packet, payload_len } => StateView::ReadingPayload {
            packet: match packet {
                PartialPacket::Pub { subject, reply_to } => PartialView::Pub {
                    subject: subject@,
                    reply_to: opt_view(reply_to),
                },
                PartialPacket::Msg { subject, sid, reply_to } => PartialView::Msg {
                    subject: subject@,
                    sid: sid@,
                    reply_to: opt_view(reply_to),
                },
            },
            payload_len,
        },
    }
}

/// The default payload limit: 8 MiB.
pub const MAX_PAYLOAD: usize = 8388608;

pub struct NatsCodec {
    state: DecodeState,
    max_payload: usize,
}

/// The index of the first `\r\n` in `s` at or after `i`.
pub open spec fn crlf_from(s: Seq<u8>, i: nat) -> Option<nat>
    decreases s.len() - i,
{
    if i + 1 >= s.len() {
        None
    } else if s[i as int] == 13 && s[i + 1 as int] == 10 {
        Some(i)
    } else {
        crlf_from(s, i + 1)
    }
}

pub proof fn lemma_crlf_from(s: Seq<u8>, i: nat)
    ensures
        crlf_from(s, i) matches Some(p) ==> (i <= p && p + 1 < s.len() && s[p as int] == 13
            && s[p + 1 as int] == 10),
    decreases s.len() - i,
{
    if i + 1 < s.len() && !(s[i as int] == 13 && s[i + 1 as int] == 10) {
        lemma_crlf_from(s, i + 1);
    }
}

/// The packet whose control line gave `p`, with its payload.
pub open spec fn assemble(p: PartialView, payload: Seq<u8>) -> NatsPacketView {
    match p {
        PartialView::Pub { subject, reply_to } => NatsPacketView::Pub { subject, reply_to, payload },
        PartialView::Msg { subject, sid, reply_to } => NatsPacketView::Msg {
            subject,
            sid,
            reply_to,
            payload,
        },
    }
}

pub type DecodeStep = (Result<Option<DecodedView>, NatsErrorView>, StateView, Seq<u8>);

/// What one control line leads to: a result, or a state to go on in.
pub enum LineOutcome {
    Done(Result<Option<DecodedView>, NatsErrorView>),
    Continue(StateView),
}

/// What the control line with bytes `line_bytes` leads to, with payload
/// limit `max`. A blank line is skipped; a line that announces a payload
/// moves to reading it.
pub open spec fn line_outcome(max: usize, line_bytes: Seq<u8>) -> LineOutcome {
    if !valid_utf8(line_bytes) {
        LineOutcome::Done(Err(NatsErrorView::InvalidUtf8))
    } else {
        let line = trim(decode_utf8(line_bytes));
        if line.len() == 0 {
            LineOutcome::Continue(StateView::ReadingControl)
        } else {
            match spec_parse_control_line(line) {
                Err(e) => LineOutcome::Done(Err(e)),
                Ok(ControlView::Complete(d)) => LineOutcome::Done(Ok(Some(d))),
                Ok(ControlView::Pub { subject, reply_to, payload_len }) => {
                    if payload_len > max {
                        LineOutcome::Done(Err(NatsErrorView::PayloadTooLarge(payload_len)))
                    } else if payload_len == 0 {
                        LineOutcome::Done(
                            Ok(
                                Some(
                                    DecodedView::Packet(
                                        NatsPacketView::Pub {
                                            subject,
                                            reply_to,
                                            payload: Seq::empty(),
                                        },
                                    ),
                                ),
                            ),
                        )
                    } else {
                        LineOutcome::Continue(
                            StateView::ReadingPayload {
                                packet: PartialView::Pub { subject, reply_to },
                                payload_len,
                            },
                        )
                    }
                },
                Ok(ControlView::Msg { subject, sid, reply_to, payload_len }) => {
                    if payload_len > max {
                        LineOutcome::Done(Err(NatsErrorView::PayloadTooLarge(payload_len)))
                    } else if payload_len == 0 {
                        LineOutcome::Done(
                            Ok(
                                Some(
                                    DecodedView::Packet(
                                        NatsPacketView::Msg {
                                            subject,
                                            sid,
                                            reply_to,
                                            payload: Seq::empty(),
                                        },
                                    ),
                                ),
                            ),
                        )
                    } else {
                        LineOutcome::Continue(
                            StateView::ReadingPayload {
                                packet: PartialView::Msg { subject, sid, reply_to },
                                payload_len,
                            },
                        )
                    }
                },
            }
        }
    }
}

/// One call of the decoder in state `st`, with payload limit `max`, on the
/// bytes `s`: what it returns, the state it leaves, and the bytes it
/// leaves.
pub open spec fn spec_decode(st: StateView, max: usize, s: Seq<u8>) -> DecodeStep
    decreases s.len(),
{
    match st {
        StateView::ReadingPayload { packet, payload_len } => {
            if s.len() < payload_len + 2 {
                (Ok(None), st, s)
            } else {
                (
                    Ok(
                        Some(
                            DecodedView::Packet(assemble(packet, s.take(payload_len as int))),
                        ),
                    ),
                    StateView::ReadingControl,
                    s.skip(payload_len + 2),
                )
            }
        },
        StateView::ReadingControl => {
            match crlf_from(s, 0) {
                None => (Ok(None), st, s),
                Some(p) => {
                    proof {
                        lemma_crlf_from(s, 0);
                    }
                    let rest = s.skip(p + 2 as int);
                    match line_outcome(max, s.take(p as int)) {
                        LineOutcome::Done(r) => (r, StateView::ReadingControl, rest),
                        LineOutcome::Continue(next) => spec_decode(next, max, rest),
                    }
                },
            }
        },
    }
}

pub open spec fn decode_result_view(r: Result<Option<NatsDecoded>, NatsCodecError>) -> Result<
    Option<DecodedView>,
    NatsErrorView,
> {
    match r {
        Ok(Some(d)) => Ok(Some(decoded_view(d))),
        Ok(None) => Ok(None),
        Err(e) => Err(error_view(e)),
    }
}

/// ` ` and the text, when there is one.
pub open spec fn opt_arg(o: Option<Seq<char>>) -> Seq<char> {
    match o {
        Some(t) => " "@ + t,
        None => Seq::empty(),
    }
}

/// The control line of a packet, without its payload.
pub open spec fn control_text(p: NatsPacketView, json: Seq<char>) -> Seq<char> {
    match p {
        NatsPacketView::Info(_) => "INFO "@ + json + "\r\n"@,
        NatsPacketView::Msg { subject, sid, reply_to, payload } => "MSG "@ + subject + " "@ + sid
            + opt_arg(reply_to) + " "@ + decimal_chars(payload.len()) + "\r\n"@,
        NatsPacketView::HMsg { subject, sid, reply_to, headers, payload } => "HMSG "@ + subject
            + " "@ + sid + opt_arg(reply_to) + " "@ + decimal_chars(headers.len()) + " "@
            + decimal_chars(headers.len() + payload.len()) + "\r\n"@,
        NatsPacketView::Ping => "PING\r\n"@,
        NatsPacketView::Pong => "PONG\r\n"@,
        NatsPacketView::ServerOk => "+OK\r\n"@,
        NatsPacketView::ServerErr(m) => "-ERR '"@ + m + "'\r\n"@,
        NatsPacketView::Connect(_) => "CONNECT "@ + json + "\r\n"@,
        NatsPacketView::Pub { subject, reply_to, payload } => "PUB "@ + subject + opt_arg(reply_to)
            + " "@ + decimal_chars(payload.len()) + "\r\n"@,
        NatsPacketView::HPub { subject, reply_to, headers, payload } => "HPUB "@ + subject
            + opt_arg(reply_to) + " "@ + decimal_chars(headers.len()) + " "@ + decimal_chars(
            headers.len() + payload.len(),
        ) + "\r\n"@,
        NatsPacketView::Sub { subject, queue_group, sid } => "SUB "@ + subject + opt_arg(
            queue_group,
        ) + " "@ + sid + "\r\n"@,
        NatsPacketView::Unsub { sid, max_msgs } => "UNSUB "@ + sid + opt_arg(
            match max_msgs {
                Some(n) => Some(decimal_chars(n as nat)),
                None => None,
            },
        ) + "\r\n"@,
    }
}

/// The bytes that follow the control line: headers and payload, then
/// `\r\n`, for the packets that carry them.
pub open spec fn body_bytes(p: NatsPacketView) -> Seq<u8> {
    match p {
        NatsPacketView::Msg { payload, .. } => payload + encode_utf8("\r\n"@),
        NatsPacketView::Pub { payload, .. } => payload + encode_utf8("\r\n"@),
        NatsPacketView::HMsg { headers, payload, .. } => headers + payload + encode_utf8(
            "\r\n"@,
        ),
        NatsPacketView::HPub { headers, payload, .. } => headers + payload + encode_utf8(
            "\r\n"@,
        ),
        _ => Seq::empty(),
    }
}

/// The bytes that the encoder writes for a packet; `json` is the JSON text
/// of the object that an INFO or a CONNECT carries.
pub open spec fn spec_encode(p: NatsPacketView, json: Seq<char>) -> Seq<u8> {
    encode_utf8(control_text(p, json)) + body_bytes(p)
}

/// The first `\r\n` in `buf`.
fn find_crlf(buf: &[u8]) -> (r: Option<usize>)
    ensures
        r matches Some(p) ==> crlf_from(buf@, 0) == Some(p as nat),
        r is None ==> crlf_from(buf@, 0) is None,
{
    let mut i: usize = 0;
    while buf.len() > 1 && i < buf.len() - 1
        invariant
            crlf_from(buf@, i as nat) == crlf_from(buf@, 0),
        decreases buf@.len() - i,
    {
        if buf[i] == 13 && buf[i + 1] == 10 {
            return Some(i);
        }
        i = i + 1;
    }
    None
}

fn opt_arg_text(o: &Option<String>) -> (r: String)
    ensures
        r@ == opt_arg(opt_view(*o)),
{
    match o {
        Some(t) => concat(" ", t.as_str()),
        None => String::new(),
    }
}

/// What one control line leads to, as the decoder acts on it.
enum LineResult {
    Done(Result<Option<NatsDecoded>, NatsCodecError>),
    Continue(DecodeState),
}

spec fn line_result_view(r: LineResult) -> LineOutcome {
    match r {
        LineResult::Done(d) => LineOutcome::Done(decode_result_view(d)),
        LineResult::Continue(st) => LineOutcome::Continue(state_view(st)),
    }
}

/// Reads the control line with bytes `line`, with payload limit `max`.
fn read_line(max: usize, line: &[u8]) -> (r: LineResult)
    ensures
        line_result_view(r) == line_outcome(max, line@),
        r matches LineResult::Continue(st) ==> match st {
            DecodeState::ReadingPayload { payload_len, .. } => payload_len <= max,
            DecodeState::ReadingControl => true,
        },
{
    let text = match str_from_utf8(line) {
        Ok(l) => l,
        Err(e) => return LineResult::Done(Err(NatsCodecError::InvalidUtf8(e))),
    };
    let cs = chars_of(text);
    let (a, b) = trim_bounds(cs.as_slice());
    if a == b {
        return LineResult::Continue(DecodeState::ReadingControl);
    }
    let t = string_from_chars(slice_subrange(cs.as_slice(), a, b));
    match parse_control_line(t.as_str()) {
        Err(e) => LineResult::Done(Err(e)),
        Ok(ParsedControl::Complete(d)) => LineResult::Done(Ok(Some(d))),
        Ok(ParsedControl::Pub { subject, reply_to, payload_len }) => {
            if payload_len > max {
                LineResult::Done(Err(NatsCodecError::PayloadTooLarge(payload_len)))
            } else if payload_len == 0 {
                LineResult::Done(
                    Ok(Some(NatsDecoded::Packet(NatsPacket::Pub { subject, reply_to, payload: bytes_new() }))),
                )
            } else {
                LineResult::Continue(
                    DecodeState::ReadingPayload {
                        packet: PartialPacket::Pub { subject, reply_to },
                        payload_len,
                    },
                )
            }
        },
        Ok(ParsedControl::Msg { subject, sid, reply_to, payload_len }) => {
            if payload_len > max {
                LineResult::Done(Err(NatsCodecError::PayloadTooLarge(payload_len)))
            } else if payload_len == 0 {
                LineResult::Done(
                    Ok(
                        Some(
                            NatsDecoded::Packet(
                                NatsPacket::Msg { subject, sid, reply_to, payload: bytes_new() },
                            ),
                        ),
                    ),
                )
            } else {
                LineResult::Continue(
                    DecodeState::ReadingPayload {
                        packet: PartialPacket::Msg { subject, sid, reply_to },
                        payload_len,
                    },
                )
            }
        },
    }
}

impl Default for NatsCodec {
    fn default() -> (r: Self)
        ensures
            r.wf(),
            r.spec_state() == StateView::ReadingControl,
            r.spec_max_payload() == MAX_PAYLOAD,
    {
        Self::new()
    }
}

impl NatsCodec {
    /// The state the decoder is in.
    pub closed spec fn spec_state(&self) -> StateView {
        state_view(self.state)
    }

    /// The largest payload the decoder accepts.
    pub closed spec fn spec_max_payload(&self) -> usize {
        self.max_payload
    }

    /// A payload length and its `\r\n` fit in a `usize`.
    pub closed spec fn wf(&self) -> bool {
        self.max_payload <= usize::MAX - 2 && match self.state {
            DecodeState::ReadingPayload { payload_len, .. } => payload_len <= self.max_payload,
            DecodeState::ReadingControl => true,
        }
    }

    pub fn new() -> (r: Self)
        ensures
            r.wf(),
            r.spec_state() == StateView::ReadingControl,
            r.spec_max_payload() == MAX_PAYLOAD,
    {
        NatsCodec { state: DecodeState::ReadingControl, max_payload: MAX_PAYLOAD }
    }

    pub fn with_max_payload(max_payload: usize) -> (r: Self)
        requires
            max_payload <= usize::MAX - 2,
        ensures
            r.wf(),
            r.spec_state() == StateView::ReadingControl,
            r.spec_max_payload() == max_payload,
    {
        NatsCodec { state: DecodeState::ReadingControl, max_payload }
    }

    /// Reads the next packet from `src`, as `spec_decode` says: `Ok(None)`
    /// until a whole packet is there.
    pub fn decode(&mut self, src: &mut BytesMut) -> (r: Result<Option<NatsDecoded>, NatsCodecError>)
        requires
            old(self).wf(),
        ensures
            final(self).wf(),
            final(self).spec_max_payload() == old(self).spec_max_payload(),
            ({
                let step = spec_decode(
                    old(self).spec_state(),
                    old(self).spec_max_payload(),
                    bytes_mut_seq(*old(src)),
                );
                &&& decode_result_view(r) == step.0
                &&& final(self).spec_state() == step.1
                &&& bytes_mut_seq(*final(src)) == step.2
            }),
    {
        let ghost st0 = self.spec_state();
        let ghost s0 = bytes_mut_seq(*src);
        let max = self.max_payload;
        loop
            invariant
                self.wf(),
                self.max_payload == max,
                max == old(self).spec_max_payload(),
                st0 == old(self).spec_state(),
                s0 == bytes_mut_seq(*old(src)),
                spec_decode(self.spec_state(), max, bytes_mut_seq(*src)) == spec_decode(st0, max, s0),
            decreases bytes_mut_seq(*src).len(),
        {
            let ghost s = bytes_mut_seq(*src);
            let mut state = DecodeState::ReadingControl;
            std::mem::swap(&mut state, &mut self.state);
            match state {
                DecodeState::ReadingPayload { packet, payload_len } => {
                    let needed = payload_len + 2;
                    if bytes_mut_len(src) < needed {
                        self.state = DecodeState::ReadingPayload { packet, payload_len };
                        return Ok(None);
                    }
                    let payload = bytes_mut_freeze(bytes_mut_split_to(src, payload_len));
                    let _crlf = bytes_mut_split_to(src, 2);
                    proof {
                        assert(s.skip(payload_len as int).skip(2) =~= s.skip(payload_len + 2));
                    }
                    let p = match packet {
                        PartialPacket::Pub { subject, reply_to } => NatsPacket::Pub {
                            subject,
                            reply_to,
                            payload,
                        },
                        PartialPacket::Msg { subject, sid, reply_to } => NatsPacket::Msg {
                            subject,
                            sid,
                            reply_to,
                            payload,
                        },
                    };
                    return Ok(Some(NatsDecoded::Packet(p)));
                },
                DecodeState::ReadingControl => {
                    let pos = match find_crlf(bytes_mut_as_slice(src)) {
                        Some(p) => p,
                        None => return Ok(None),
                    };
                    proof {
                        lemma_crlf_from(s, 0);
                    }
                    let line_bytes = bytes_mut_split_to(src, pos);
                    let _crlf = bytes_mut_split_to(src, 2);
                    proof {
                        assert(s.skip(pos as int).skip(2) =~= s.skip(pos + 2));
                    }
                    match read_line(max, bytes_mut_as_slice(&line_bytes)) {
                        LineResult::Done(r) => {
                            proof {
                                assert(spec_decode(StateView::ReadingControl, max, s) == (
                                    decode_result_view(r),
                                    StateView::ReadingControl,
                                    s.skip(pos + 2),
                                ));
                            }
                            return r;
                        },
                        LineResult::Continue(next) => {
                            self.state = next;
                        },
                    }
                },
            }
        }
    }

    /// Writes `packet` onto `dst` as `spec_encode` says; `json` is the JSON
    /// text of the object of an INFO or a CONNECT, and is not read for other
    /// packets.
    pub fn encode(&mut self, packet: &NatsPacket, json: &str, dst: &mut BytesMut)
        requires
            bytes_mut_seq(*old(dst)).len() + spec_encode(packet@, json@).len() <= usize::MAX,
        ensures
            bytes_mut_seq(*final(dst)) == bytes_mut_seq(*old(dst)) + spec_encode(packet@, json@),
    {
        let ghost d0 = bytes_mut_seq(*dst);
        let ctrl: String = match packet {
            NatsPacket::Info(_) => concat(concat("INFO ", json).as_str(), "\r\n"),
            NatsPacket::Connect(_) => concat(concat("CONNECT ", json).as_str(), "\r\n"),
            NatsPacket::Ping => "PING\r\n".to_owned(),
            NatsPacket::Pong => "PONG\r\n".to_owned(),
            NatsPacket::ServerOk => "+OK\r\n".to_owned(),
            NatsPacket::ServerErr(m) => concat(concat("-ERR '", m.as_str()).as_str(), "'\r\n"),
            NatsPacket::Msg { subject, sid, reply_to, payload } => {
                let a = concat("MSG ", subject.as_str());
                let b = concat(concat(a.as_str(), " ").as_str(), sid.as_str());
                let c = concat(b.as_str(), opt_arg_text(reply_to).as_str());
                let d = concat(concat(c.as_str(), " ").as_str(), decimal(bytes_len(payload) as u64).as_str());
                concat(d.as_str(), "\r\n")
            },
            NatsPacket::HMsg { subject, sid, reply_to, headers, payload } => {
                let hl = bytes_len(headers);
                let total = hl as u64 + bytes_len(payload) as u64;
                let a = concat("HMSG ", subject.as_str());
                let b = concat(concat(a.as_str(), " ").as_str(), sid.as_str());
                let c = concat(b.as_str(), opt_arg_text(reply_to).as_str());
                let d = concat(concat(c.as_str(), " ").as_str(), decimal(hl as u64).as_str());
                let e = concat(concat(d.as_str(), " ").as_str(), decimal(total).as_str());
                concat(e.as_str(), "\r\n")
            },
            NatsPacket::Pub { subject, reply_to, payload } => {
                let a = concat("PUB ", subject.as_str());
                let c = concat(a.as_str(), opt_arg_text(reply_to).as_str());
                let d = concat(concat(c.as_str(), " ").as_str(), decimal(bytes_len(payload) as u64).as_str());
                concat(d.as_str(), "\r\n")
            },
            NatsPacket::HPub { subject, reply_to, headers, payload } => {
                let hl = bytes_len(headers);
                let total = hl as u64 + bytes_len(payload) as u64;
                let a = concat("HPUB ", subject.as_str());
                let c = concat(a.as_str(), opt_arg_text(reply_to).as_str());
                let d = concat(concat(c.as_str(), " ").as_str(), decimal(hl as u64).as_str());
                let e = concat(concat(d.as_str(), " ").as_str(), decimal(total).as_str());
                concat(e.as_str(), "\r\n")
            },
            NatsPacket::Sub { subject, queue_group, sid } => {
                let a = concat("SUB ", subject.as_str());
                let c = concat(a.as_str(), opt_arg_text(queue_group).as_str());
                let d = concat(concat(c.as_str(), " ").as_str(), sid.as_str());
                concat(d.as_str(), "\r\n")
            },
            NatsPacket::Unsub { sid, max_msgs } => {
                let a = concat("UNSUB ", sid.as_str());
                let b = match max_msgs {
                    Some(n) => concat(concat(a.as_str(), " ").as_str(), decimal(*n as u64).as_str()),
                    None => a,
                };
                concat(b.as_str(), "\r\n")
            },
        };
        proof {
            assert(ctrl@ =~= control_text(packet@, json@));
        }
        bytes_mut_extend(dst, ctrl.as_str().as_bytes());
        match packet {
            NatsPacket::Msg { payload, .. } => {
                bytes_mut_extend(dst, bytes_as_slice(payload));
                bytes_mut_extend(dst, "\r\n".as_bytes());
            },
            NatsPacket::Pub { payload, .. } => {
                bytes_mut_extend(dst, bytes_as_slice(payload));
                bytes_mut_extend(dst, "\r\n".as_bytes());
            },
            NatsPacket::HMsg { headers, payload, .. } => {
                bytes_mut_extend(dst, bytes_as_slice(headers));
                bytes_mut_extend(dst, bytes_as_slice(payload));
                bytes_mut_extend(dst, "\r\n".as_bytes());
            },
            NatsPacket::HPub { headers, payload, .. } => {
                bytes_mut_extend(dst, bytes_as_slice(headers));
                bytes_mut_extend(dst, bytes_as_slice(payload));
                bytes_mut_extend(dst, "\r\n".as_bytes());
            },
            _ => {},
        }
        proof {
            assert(bytes_mut_seq(*dst) =~= d0 + spec_encode(packet@, json@));
        }
    }
}

} // verus!
