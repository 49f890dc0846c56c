//! Reading a control line: its verb, then the arguments that the verb
//! takes.
use crate::nats::codec::line::{
    parse_unsigned, parse_unsigned_text, split_whitespace, split_ws, strip_bounds, strip_char,
    lemma_word_len, trim, trim_bounds, word_end, word_len,
};
use crate::nats::codec::{
    decoded_view, error_view, DecodedView, NatsCodecError, NatsDecoded, NatsErrorView,
};
use crate::nats::packet::{NatsPacket, NatsPacketView};
use crate::text::{chars_of, concat, str_eq, string_from_chars};
use vstd::prelude::*;
use vstd::slice::slice_subrange;

verus! {

/// The characters of `s`, upper-cased as `str::to_uppercase` does it by
/// the Unicode case tables.
pub uninterp spec fn uppercase(s: Seq<char>) -> Seq<char>;

/// Text made only of ASCII characters.
pub open spec fn is_ascii_text(s: Seq<char>) -> bool {
    forall|i: int| 0 <= i < s.len() ==> (#[trigger] s[i] as u32) < 128
}

/// An ASCII character upper-cased: `a` to `z` become `A` to `Z`.
pub open spec fn ascii_upper_char(c: char) -> char {
    if 97 <= (c as u32) && (c as u32) <= 122 {
        ((c as u32) - 32) as char
    } else {
        c
    }
}

/// Text upper-cased: on ASCII text, `a` to `z` become `A` to `Z` and every
/// other character stays; other text goes by the Unicode case tables
/// (`uppercase`).
pub open spec fn upper_text(s: Seq<char>) -> Seq<char> {
    if is_ascii_text(s) {
        s.map_values(|c: char| ascii_upper_char(c))
    } else {
        uppercase(s)
    }
}

/// `str::to_uppercase`: on ASCII text it upper-cases `a` to `z` and keeps
/// every other character; what it gives for other text is named by
/// `uppercase`, and not stated.
#[verifier::external_body]
fn to_uppercase(s: &str) -> (r: String)
    ensures
        is_ascii_text(s@) ==> r@ == s@.map_values(|c: char| ascii_upper_char(c)),
        !is_ascii_text(s@) ==> r@ == uppercase(s@),
{
    s.to_uppercase()
}

/// A control line read up to its end: a packet that needs nothing more, or
/// the fields of a packet whose payload follows.
pub enum ParsedControl {
    Complete(NatsDecoded),
    Pub { subject: String, reply_to: Option<String>, payload_len: usize },
    Msg { subject: String, sid: String, reply_to: Option<String>, payload_len: usize },
}

pub enum ControlView {
    Complete(DecodedView),
    Pub { subject: Seq<char>, reply_to: Option<Seq<char>>, payload_len: usize },
    Msg { subject: Seq<char>, sid: Seq<char>, reply_to: Option<Seq<char>>, payload_len: usize },
}

pub open spec fn parsed_view(p: ParsedControl) -> ControlView {
    match p {
        ParsedControl::Complete(d) => ControlView::Complete(decoded_view(d)),
        ParsedControl::Pub { subject, reply_to, payload_len } => ControlView::Pub {
            subject: subject@,
            reply_to: match reply_to {
                Some(t) => Some(t@),
                None => None,
            },
            payload_len,
        },
        ParsedControl::Msg { subject, sid, reply_to, payload_len } => ControlView::Msg {
            subject: subject@,
            sid: sid@,
            reply_to: match reply_to {
                Some(t) => Some(t@),
                None => None,
            },
            payload_len,
        },
    }
}

pub open spec fn control_result_view(r: Result<ParsedControl, NatsCodecError>) -> Result<
    ControlView,
    NatsErrorView,
> {
    match r {
        Ok(p) => Ok(parsed_view(p)),
        Err(e) => Err(error_view(e)),
    }
}

/// The message for an argument of `cmd` that is not a number.
pub open spec fn int_error(cmd: Seq<char>, s: Seq<char>) -> Seq<char> {
    cmd + ": expected integer, got '"@ + s + "'"@
}

/// The message for `cmd` given the wrong number of arguments.
pub open spec fn arity_error(cmd: Seq<char>, expected: Seq<char>, line: Seq<char>) -> Seq<char> {
    cmd + " expects "@ + expected + " args, got: "@ + line
}

/// A payload length argument of `cmd`.
pub open spec fn length_arg(cmd: Seq<char>, s: Seq<char>) -> Result<usize, NatsErrorView> {
    match parse_unsigned(s, usize::MAX as int) {
        Some(n) => Ok(n as usize),
        None => Err(NatsErrorView::MalformedCommand(int_error(cmd, s))),
    }
}

/// What a control line says, given its verb upper-cased (`up`), the text
/// after the verb (`rest`) and the whole line.
pub open spec fn spec_parse_command(up: Seq<char>, rest: Seq<char>, line: Seq<char>) -> Result<
    ControlView,
    NatsErrorView,
> {
    let parts = split_ws(rest);
    if up == "INFO"@ {
        Ok(ControlView::Complete(DecodedView::InfoJson(trim(rest))))
    } else if up == "CONNECT"@ {
        Ok(ControlView::Complete(DecodedView::ConnectJson(trim(rest))))
    } else if up == "PUB"@ {
        if parts.len() == 2 {
            match length_arg("PUB"@, parts[1]) {
                Ok(n) => Ok(ControlView::Pub { subject: parts[0], reply_to: None, payload_len: n }),
                Err(e) => Err(e),
            }
        } else if parts.len() == 3 {
            match length_arg("PUB"@, parts[2]) {
                Ok(n) => Ok(
                    ControlView::Pub { subject: parts[0], reply_to: Some(parts[1]), payload_len: n },
                ),
                Err(e) => Err(e),
            }
        } else {
            Err(NatsErrorView::MalformedCommand(arity_error("PUB"@, "2 or 3"@, line)))
        }
    } else if up == "SUB"@ {
        if parts.len() == 2 {
            Ok(
                ControlView::Complete(
                    DecodedView::Packet(
                        NatsPacketView::Sub { subject: parts[0], queue_group: None, sid: parts[1] },
                    ),
                ),
            )
        } else if parts.len() == 3 {
            Ok(
                ControlView::Complete(
                    DecodedView::Packet(
                        NatsPacketView::Sub {
                            subject: parts[0],
                            queue_group: Some(parts[1]),
                            sid: parts[2],
                        },
                    ),
                ),
            )
        } else {
            Err(NatsErrorView::MalformedCommand(arity_error("SUB"@, "2 or 3"@, line)))
        }
    } else if up == "UNSUB"@ {
        if parts.len() == 1 {
            Ok(
                ControlView::Complete(
                    DecodedView::Packet(NatsPacketView::Unsub { sid: parts[0], max_msgs: None }),
                ),
            )
        } else if parts.len() == 2 {
            match parse_unsigned(parts[1], u32::MAX as int) {
                Some(n) => Ok(
                    ControlView::Complete(
                        DecodedView::Packet(
                            NatsPacketView::Unsub { sid: parts[0], max_msgs: Some(n as u32) },
                        ),
                    ),
                ),
                None => Err(NatsErrorView::MalformedCommand(int_error("UNSUB"@, parts[1]))),
            }
        } else {
            Err(NatsErrorView::MalformedCommand(arity_error("UNSUB"@, "1 or 2"@, line)))
        }
    } else if up == "MSG"@ {
        if parts.len() == 3 {
            match length_arg("MSG"@, parts[2]) {
                Ok(n) => Ok(
                    ControlView::Msg { subject: parts[0], sid: parts[1], reply_to: None, payload_len: n },
                ),
                Err(e) => Err(e),
            }
        } else if parts.len() == 4 {
            match length_arg("MSG"@, parts[3]) {
                Ok(n) => Ok(
                    ControlView::Msg {
                        subject: parts[0],
                        sid: parts[1],
                        reply_to: Some(parts[2]),
                        payload_len: n,
                    },
                ),
                Err(e) => Err(e),
            }
        } else {
            Err(NatsErrorView::MalformedCommand(arity_error("MSG"@, "3 or 4"@, line)))
        }
    } else if up == "PING"@ {
        Ok(ControlView::Complete(DecodedView::Packet(NatsPacketView::Ping)))
    } else if up == "PONG"@ {
        Ok(ControlView::Complete(DecodedView::Packet(NatsPacketView::Pong)))
    } else if up == "+OK"@ {
        Ok(ControlView::Complete(DecodedView::Packet(NatsPacketView::ServerOk)))
    } else if up == "-ERR"@ {
        Ok(ControlView::Complete(DecodedView::Packet(NatsPacketView::ServerErr(strip_char(trim(rest), '\'')))))
    } else {
        Err(NatsErrorView::UnknownCommand(up))
    }
}

/// What a (trimmed, non-empty) control line says: its verb is the text up
/// to the first white space, compared upper-cased.
pub open spec fn spec_parse_control_line(line: Seq<char>) -> Result<ControlView, NatsErrorView> {
    let n = word_len(line) as int;
    spec_parse_command(upper_text(line.take(n)), line.skip(n), line)
}

/// The text of characters `s[a..b]`.
fn text_of(s: &[char], a: usize, b: usize) -> (r: String)
    requires
        a <= b <= s@.len(),
    ensures
        r@ == s@.subrange(a as int, b as int),
{
    string_from_chars(slice_subrange(s, a, b))
}

fn int_error_text(cmd: &str, s: &[char]) -> (r: String)
    ensures
        r@ == int_error(cmd@, s@),
{
    let t = string_from_chars(s);
    let a = concat(cmd, ": expected integer, got '");
    let b = concat(a.as_str(), t.as_str());
    let r = concat(b.as_str(), "'");
    assert(r@ =~= int_error(cmd@, s@));
    r
}

fn arity_error_text(cmd: &str, expected: &str, line: &str) -> (r: String)
    ensures
        r@ == arity_error(cmd@, expected@, line@),
{
    let a = concat(cmd, " expects ");
    let b = concat(a.as_str(), expected);
    let c = concat(b.as_str(), " args, got: ");
    let r = concat(c.as_str(), line);
    assert(r@ =~= arity_error(cmd@, expected@, line@));
    r
}

fn length_argument(cmd: &str, s: &[char]) -> (r: Result<usize, NatsCodecError>)
    ensures
        match (r, length_arg(cmd@, s@)) {
            (Ok(n), Ok(m)) => n == m,
            (Err(e), Err(f)) => error_view(e) == f,
            _ => false,
        },
{
    match parse_unsigned_text(s, usize::MAX as u64) {
        Some(n) => Ok(n as usize),
        None => Err(NatsCodecError::MalformedCommand(int_error_text(cmd, s))),
    }
}

/// Reads the arguments of a control line whose verb, upper-cased, is `up`;
/// `rest` is the text after the verb and `line` the whole line, which
/// error messages quote.
pub fn parse_command(up: &str, rest: &[char], line: &str) -> (r: Result<ParsedControl, NatsCodecError>)
    ensures
        control_result_view(r) == spec_parse_command(up@, rest@, line@),
{
    proof {
        reveal_strlit("PUB");
        reveal_strlit("MSG");
        reveal_strlit("UNSUB");
    }
    let parts = split_whitespace(rest);
    let ghost ps = split_ws(rest@);
    if str_eq(up, "INFO") {
        let (a, b) = trim_bounds(rest);
        return Ok(ParsedControl::Complete(NatsDecoded::InfoJson(text_of(rest, a, b))));
    }
    if str_eq(up, "CONNECT") {
        let (a, b) = trim_bounds(rest);
        return Ok(ParsedControl::Complete(NatsDecoded::ConnectJson(text_of(rest, a, b))));
    }
    if str_eq(up, "PUB") {
        if parts.len() == 2 {
            let n = match length_argument("PUB", parts[1].as_slice()) {
                Ok(n) => n,
                Err(e) => return Err(e),
            };
            let subject = string_from_chars(parts[0].as_slice());
            return Ok(ParsedControl::Pub { subject, reply_to: None, payload_len: n });
        } else if parts.len() == 3 {
            let n = match length_argument("PUB", parts[2].as_slice()) {
                Ok(n) => n,
                Err(e) => return Err(e),
            };
            let subject = string_from_chars(parts[0].as_slice());
            let reply_to = string_from_chars(parts[1].as_slice());
            return Ok(ParsedControl::Pub { subject, reply_to: Some(reply_to), payload_len: n });
        } else {
            return Err(NatsCodecError::MalformedCommand(arity_error_text("PUB", "2 or 3", line)));
        }
    }
    if str_eq(up, "SUB") {
        if parts.len() == 2 {
            let subject = string_from_chars(parts[0].as_slice());
            let sid = string_from_chars(parts[1].as_slice());
            return Ok(
                ParsedControl::Complete(
                    NatsDecoded::Packet(NatsPacket::Sub { subject, queue_group: None, sid }),
                ),
            );
        } else if parts.len() == 3 {
            let subject = string_from_chars(parts[0].as_slice());
            let queue_group = string_from_chars(parts[1].as_slice());
            let sid = string_from_chars(parts[2].as_slice());
            return Ok(
                ParsedControl::Complete(
                    NatsDecoded::Packet(
                        NatsPacket::Sub { subject, queue_group: Some(queue_group), sid },
                    ),
                ),
            );
        } else {
            return Err(NatsCodecError::MalformedCommand(arity_error_text("SUB", "2 or 3", line)));
        }
    }
    if str_eq(up, "UNSUB") {
        if parts.len() == 1 {
            let sid = string_from_chars(parts[0].as_slice());
            return Ok(
                ParsedControl::Complete(NatsDecoded::Packet(NatsPacket::Unsub { sid, max_msgs: None })),
            );
        } else if parts.len() == 2 {
            let m = match parse_unsigned_text(parts[1].as_slice(), 4294967295u64) {
                Some(m) => m as u32,
                None => {
                    return Err(
                        NatsCodecError::MalformedCommand(
                            int_error_text("UNSUB", parts[1].as_slice()),
                        ),
                    );
                },
            };
            let sid = string_from_chars(parts[0].as_slice());
            return Ok(
                ParsedControl::Complete(
                    NatsDecoded::Packet(NatsPacket::Unsub { sid, max_msgs: Some(m) }),
                ),
            );
        } else {
            return Err(
                NatsCodecError::MalformedCommand(arity_error_text("UNSUB", "1 or 2", line)),
            );
        }
    }
    if str_eq(up, "MSG") {
        if parts.len() == 3 {
            let n = match length_argument("MSG", parts[2].as_slice()) {
                Ok(n) => n,
                Err(e) => return Err(e),
            };
            let subject = string_from_chars(parts[0].as_slice());
            let sid = string_from_chars(parts[1].as_slice());
            return Ok(ParsedControl::Msg { subject, sid, reply_to: None, payload_len: n });
        } else if parts.len() == 4 {
            let n = match length_argument("MSG", parts[3].as_slice()) {
                Ok(n) => n,
                Err(e) => return Err(e),
            };
            let subject = string_from_chars(parts[0].as_slice());
            let sid = string_from_chars(parts[1].as_slice());
            let reply_to = string_from_chars(parts[2].as_slice());
            return Ok(
                ParsedControl::Msg { subject, sid, reply_to: Some(reply_to), payload_len: n },
            );
        } else {
            return Err(NatsCodecError::MalformedCommand(arity_error_text("MSG", "3 or 4", line)));
        }
    }
    if str_eq(up, "PING") {
        return Ok(ParsedControl::Complete(NatsDecoded::Packet(NatsPacket::Ping)));
    }
    if str_eq(up, "PONG") {
        return Ok(ParsedControl::Complete(NatsDecoded::Packet(NatsPacket::Pong)));
    }
    if str_eq(up, "+OK") {
        return Ok(ParsedControl::Complete(NatsDecoded::Packet(NatsPacket::ServerOk)));
    }
    if str_eq(up, "-ERR") {
        let (a, b) = trim_bounds(rest);
        let trimmed = slice_subrange(rest, a, b);
        let (c, d) = strip_bounds(trimmed, '\'');
        let msg = text_of(trimmed, c, d);
        return Ok(ParsedControl::Complete(NatsDecoded::Packet(NatsPacket::ServerErr(msg))));
    }
    Err(NatsCodecError::UnknownCommand(up.to_owned()))
}

/// Reads a trimmed, non-empty control line.
pub fn parse_control_line(line: &str) -> (r: Result<ParsedControl, NatsCodecError>)
    ensures
        control_result_view(r) == spec_parse_control_line(line@),
{
    let cs = chars_of(line);
    let n = word_end(cs.as_slice());
    proof {
        lemma_word_len(cs@);
    }
    let verb = text_of(cs.as_slice(), 0, n);
    let rest = slice_subrange(cs.as_slice(), n, cs.len());
    let up = to_uppercase(verb.as_str());
    proof {
        assert(verb@ =~= line@.take(n as int));
        assert(rest@ =~= line@.skip(n as int));
    }
    parse_command(up.as_str(), rest, line)
}

} // verus!
