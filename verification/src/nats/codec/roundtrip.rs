//! What the decoder reads back of what the encoder writes.
use crate::nats::codec::control::{
    arity_error, ascii_upper_char, is_ascii_text, length_arg, spec_parse_command,
    spec_parse_control_line, upper_text, ControlView,
};
use crate::nats::codec::line::{
    digits_value, is_digit, is_ws, lemma_word_len, parse_unsigned, split_ws, strip_char,
    strip_end_char, strip_start_char, trim, trim_end, trim_start, unsigned_digits, word_len,
};
use crate::nats::codec::{
    assemble, control_text, crlf_from, lemma_crlf_from, line_outcome, opt_arg, spec_decode, spec_encode,
    DecodedView, LineOutcome, NatsErrorView, PartialView, StateView,
};
use crate::nats::packet::NatsPacketView;
use crate::text::{decimal_chars, digit_char, lemma_encode_utf8_concat};
use vstd::prelude::*;
use vstd::utf8::{
    encode_scalar, encode_utf8, encode_utf8_decode_utf8, encode_utf8_valid_utf8, has_width_1_encoding,
    has_width_2_encoding, has_width_3_encoding, is_scalar, leading_byte_width_1,
};

verus! {

/// A word of a control line: not empty, without white space.
pub open spec fn nats_word(w: Seq<char>) -> bool {
    w.len() > 0 && forall|i: int| 0 <= i < w.len() ==> !is_ws(#[trigger] w[i])
}

/// Text without a carriage return.
pub open spec fn no_cr(t: Seq<char>) -> bool {
    forall|i: int| 0 <= i < t.len() ==> (#[trigger] t[i] as u32) != 13
}

proof fn lemma_high_byte(h: u8, x: u8)
    by (bit_vector)
    requires
        h >= 0x80,
    ensures
        (h | x) != 13u8,
{
}

proof fn lemma_low_byte(c: u32)
    by (bit_vector)
    requires
        c <= 0x7F,
        c != 13,
    ensures
        ((c & 0x7F) as u8) != 13u8,
{
}

proof fn lemma_scalar_no_cr(c: u32)
    requires
        is_scalar(c),
        c != 13,
    ensures
        forall|i: int| 0 <= i < encode_scalar(c).len() ==> #[trigger] encode_scalar(c)[i] != 13u8,
{
    if has_width_1_encoding(c) {
        lemma_low_byte(c);
    } else if has_width_2_encoding(c) {
        lemma_high_byte(0xC0, ((c >> 6) & 0x1F) as u8);
        lemma_high_byte(0x80, (c & 0x3F) as u8);
    } else if has_width_3_encoding(c) {
        lemma_high_byte(0xE0, ((c >> 12) & 0x0F) as u8);
        lemma_high_byte(0x80, ((c >> 6) & 0x3F) as u8);
        lemma_high_byte(0x80, (c & 0x3F) as u8);
    } else {
        lemma_high_byte(0xF0, ((c >> 18) & 0x7) as u8);
        lemma_high_byte(0x80, ((c >> 12) & 0x3F) as u8);
        lemma_high_byte(0x80, ((c >> 6) & 0x3F) as u8);
        lemma_high_byte(0x80, (c & 0x3F) as u8);
    }
}

/// Text without a carriage return encodes without the byte 13.
proof fn lemma_encode_no_cr(t: Seq<char>)
    requires
        no_cr(t),
    ensures
        forall|i: int| 0 <= i < encode_utf8(t).len() ==> #[trigger] encode_utf8(t)[i] != 13u8,
    decreases t.len(),
{
    broadcast use vstd::utf8::char_is_scalar;

    if t.len() > 0 {
        assert(no_cr(t.drop_first())) by {
            assert forall|i: int| 0 <= i < t.drop_first().len() implies (
            #[trigger] t.drop_first()[i] as u32) != 13 by {
                assert(t.drop_first()[i] == t[i + 1]);
            }
        }
        lemma_encode_no_cr(t.drop_first());
        let c = t[0];
        vstd::utf8::char_is_scalar(c);
        lemma_scalar_no_cr(c as u32);
        let a = encode_scalar(c as u32);
        let b = encode_utf8(t.drop_first());
        assert(encode_utf8(t) == a + b);
        assert forall|i: int| 0 <= i < encode_utf8(t).len() implies #[trigger] encode_utf8(t)[i]
            != 13u8 by {
            if i < a.len() {
                assert(encode_utf8(t)[i] == a[i]);
            } else {
                assert(encode_utf8(t)[i] == b[i - a.len()]);
            }
        }
    }
}

/// The bytes of `\r\n`.
proof fn lemma_crlf_bytes()
    ensures
        encode_utf8("\r\n"@) == seq![13u8, 10u8],
{
    reveal_strlit("\r\n");
    let s = "\r\n"@;
    assert(s.drop_first().drop_first() =~= Seq::<char>::empty());
    assert(leading_byte_width_1(13) == 13u8) by (bit_vector);
    assert(leading_byte_width_1(10) == 10u8) by (bit_vector);
    assert(encode_utf8(Seq::<char>::empty()) =~= Seq::<u8>::empty());
    assert(encode_utf8(s.drop_first()) =~= seq![10u8]);
    assert(encode_utf8(s) =~= seq![13u8, 10u8]);
}

proof fn lemma_crlf_at(s: Seq<u8>, l: nat, i: nat)
    requires
        i <= l,
        l + 1 < s.len(),
        s[l as int] == 13,
        s[l + 1 as int] == 10,
        forall|k: int| 0 <= k < l ==> #[trigger] s[k] != 13u8,
    ensures
        crlf_from(s, i) == Some(l),
    decreases l - i,
{
    if i < l {
        assert(s[i as int] != 13u8);
        lemma_crlf_at(s, l, i + 1);
    }
}

/// A control line followed by `\r\n` is cut at that `\r\n` and read as
/// `line_outcome` says.
pub proof fn lemma_decode_control_line(t: Seq<char>, tail: Seq<u8>, max: usize)
    requires
        no_cr(t),
    ensures
        spec_decode(StateView::ReadingControl, max, encode_utf8(t + "\r\n"@) + tail) == match line_outcome(max, encode_utf8(t)) {
            LineOutcome::Done(r) => (r, StateView::ReadingControl, tail),
            LineOutcome::Continue(next) => spec_decode(next, max, tail),
        },
{
    lemma_encode_utf8_concat(t, "\r\n"@);
    lemma_crlf_bytes();
    lemma_encode_no_cr(t);
    let e = encode_utf8(t);
    let s = encode_utf8(t + "\r\n"@) + tail;
    assert(s =~= e + seq![13u8, 10u8] + tail);
    let l = e.len();
    assert forall|k: int| 0 <= k < l implies #[trigger] s[k] != 13u8 by {
        assert(s[k] == e[k]);
    }
    lemma_crlf_at(s, l, 0);
    lemma_crlf_from(s, 0);
    assert(s.take(l as int) =~= e);
    assert(s.skip(l + 2 as int) =~= tail);
}

/// A control line with no white space at either end is its own trim.
proof fn lemma_trim_id(t: Seq<char>)
    requires
        t.len() > 0,
        !is_ws(t[0]),
        !is_ws(t.last()),
    ensures
        trim(t) == t,
{
}

/// The verb of `a + b` is `a` when `a` is a word and `b` starts with white
/// space or is empty.
proof fn lemma_word_len_concat(a: Seq<char>, b: Seq<char>)
    requires
        forall|i: int| 0 <= i < a.len() ==> !is_ws(#[trigger] a[i]),
        b.len() == 0 || is_ws(b[0]),
    ensures
        word_len(a + b) == a.len(),
    decreases a.len(),
{
    if a.len() > 0 {
        assert((a + b).drop_first() =~= a.drop_first() + b);
        assert forall|i: int| 0 <= i < a.drop_first().len() implies !is_ws(
            #[trigger] a.drop_first()[i],
        ) by {
            assert(a.drop_first()[i] == a[i + 1]);
        }
        lemma_word_len_concat(a.drop_first(), b);
    } else {
        assert(a + b =~= b);
    }
}

/// Splitting ` word` followed by text that starts with white space (or
/// nothing) gives the word, then the words of that text.
proof fn lemma_split_step(w: Seq<char>, tail: Seq<char>)
    requires
        nats_word(w),
        tail.len() == 0 || is_ws(tail[0]),
    ensures
        split_ws(" "@ + w + tail) == seq![w] + split_ws(tail),
{
    reveal_strlit(" ");
    let s = " "@ + w + tail;
    assert(is_ws(s[0]));
    assert(s.drop_first() =~= w + tail);
    let u = w + tail;
    lemma_word_len_concat(w, tail);
    assert(u[0] == w[0]);
    assert(u.take(w.len() as int) =~= w);
    assert(u.skip(w.len() as int) =~= tail);
    assert(split_ws(u) == seq![w] + split_ws(tail));
    assert(split_ws(s) == split_ws(s.drop_first()));
}

/// The decimal text of `n` reads back as `n`.
proof fn lemma_decimal_digits(n: nat)
    ensures
        decimal_chars(n).len() >= 1,
        forall|i: int| 0 <= i < decimal_chars(n).len() ==> is_digit(#[trigger] decimal_chars(n)[i]),
        digits_value(decimal_chars(n)) == n,
    decreases n,
{
    let s = decimal_chars(n);
    assert(digits_value(Seq::<char>::empty()) == 0);
    if n < 10 {
        assert(s.drop_last() =~= Seq::<char>::empty());
        assert((digit_char(n) as u32) == n + 48);
    } else {
        assert((digit_char(n % 10) as u32) == n % 10 + 48);
        lemma_decimal_digits(n / 10);
        assert(s.drop_last() =~= decimal_chars(n / 10));
        assert forall|i: int| 0 <= i < s.len() implies is_digit(#[trigger] s[i]) by {
            if i < s.len() - 1 {
                assert(s[i] == decimal_chars(n / 10)[i]);
            }
        }
    }
}

proof fn lemma_decimal_parse(n: nat, max: int)
    requires
        n <= max,
    ensures
        parse_unsigned(decimal_chars(n), max) == Some(n),
        nats_word(decimal_chars(n)),
{
    lemma_decimal_digits(n);
    let s = decimal_chars(n);
    assert(!(s[0] == '+')) by {
        assert(is_digit(s[0]));
    }
    assert(unsigned_digits(s) == s);
    assert forall|i: int| 0 <= i < s.len() implies !is_ws(#[trigger] s[i]) by {
        assert(is_digit(s[i]));
    }
}

/// The control line of a packet that the decoder reads back: its verb,
/// then its words, each after a space.
pub open spec fn words_line(verb: Seq<char>, words: Seq<Seq<char>>) -> Seq<char>
    decreases words.len(),
{
    if words.len() == 0 {
        verb
    } else {
        words_line(verb, words.drop_last()) + " "@ + words.last()
    }
}

/// ` w1 w2 ...`
pub open spec fn spaced(words: Seq<Seq<char>>) -> Seq<char>
    decreases words.len(),
{
    if words.len() == 0 {
        Seq::empty()
    } else {
        " "@ + words[0] + spaced(words.drop_first())
    }
}

proof fn lemma_spaced_split(words: Seq<Seq<char>>)
    requires
        forall|i: int| 0 <= i < words.len() ==> nats_word(#[trigger] words[i]),
    ensures
        split_ws(spaced(words)) == words,
        spaced(words).len() == 0 || is_ws(spaced(words)[0]),
    decreases words.len(),
{
    reveal_strlit(" ");
    if words.len() > 0 {
        let rest = words.drop_first();
        assert forall|i: int| 0 <= i < rest.len() implies nats_word(#[trigger] rest[i]) by {
            assert(rest[i] == words[i + 1]);
        }
        lemma_spaced_split(rest);
        assert(nats_word(words[0]));
        lemma_split_step(words[0], spaced(rest));
        assert(seq![words[0]] + rest =~= words);
    } else {
        assert(split_ws(Seq::<char>::empty()) == Seq::<Seq<char>>::empty());
    }
}

proof fn lemma_words_line(verb: Seq<char>, words: Seq<Seq<char>>)
    ensures
        words_line(verb, words) == verb + spaced(words),
    decreases words.len(),
{
    if words.len() > 0 {
        lemma_words_line(verb, words.drop_last());
        lemma_spaced_snoc(words);
        assert(verb + spaced(words.drop_last()) + " "@ + words.last() =~= verb + spaced(words));
    } else {
        assert(verb + spaced(words) =~= verb);
    }
}

proof fn lemma_spaced_snoc(words: Seq<Seq<char>>)
    requires
        words.len() > 0,
    ensures
        spaced(words) == spaced(words.drop_last()) + " "@ + words.last(),
    decreases words.len(),
{
    if words.len() == 1 {
        assert(words.drop_first() =~= Seq::<Seq<char>>::empty());
        assert(words.drop_last() =~= Seq::<Seq<char>>::empty());
        assert(spaced(Seq::<Seq<char>>::empty()) =~= Seq::<char>::empty());
        assert(spaced(words) =~= " "@ + words[0]);
        assert(spaced(words.drop_last()) + " "@ + words.last() =~= " "@ + words[0]);
    } else {
        let t = words.drop_first();
        lemma_spaced_snoc(t);
        assert(t.drop_last() =~= words.drop_last().drop_first());
        assert(t.last() == words.last());
        assert(words.drop_last()[0] == words[0]);
        assert(spaced(words) =~= spaced(words.drop_last()) + " "@ + words.last());
    }
}

/// How a control line made of an ASCII upper-case verb and words reads.
proof fn lemma_parse_words(verb: Seq<char>, words: Seq<Seq<char>>)
    requires
        nats_word(verb),
        is_ascii_text(verb),
        verb.map_values(|c: char| ascii_upper_char(c)) == verb,
        forall|i: int| 0 <= i < words.len() ==> nats_word(#[trigger] words[i]),
    ensures
        spec_parse_control_line(words_line(verb, words)) == spec_parse_command(
            verb,
            spaced(words),
            words_line(verb, words),
        ),
        split_ws(spaced(words)) == words,
{
    let line = words_line(verb, words);
    lemma_words_line(verb, words);
    lemma_spaced_split(words);
    lemma_word_len_concat(verb, spaced(words));
    assert(line.take(verb.len() as int) =~= verb);
    assert(line.skip(verb.len() as int) =~= spaced(words));
}

} // verus!

verus! {

/// A verb of upper-case ASCII letters, `+` or `-`.
pub open spec fn verb_chars(v: Seq<char>) -> bool {
    v.len() > 0 && forall|i: int|
        0 <= i < v.len() ==> ((65 <= (#[trigger] v[i] as u32) && (v[i] as u32) <= 90) || (v[i] as u32)
            == 43 || (v[i] as u32) == 45)
}

proof fn lemma_verb(v: Seq<char>)
    requires
        verb_chars(v),
    ensures
        nats_word(v),
        is_ascii_text(v),
        v.map_values(|c: char| ascii_upper_char(c)) == v,
        no_cr(v),
{
    assert(v.map_values(|c: char| ascii_upper_char(c)) =~= v);
}

proof fn lemma_no_cr_concat(a: Seq<char>, b: Seq<char>)
    requires
        no_cr(a),
        no_cr(b),
    ensures
        no_cr(a + b),
{
    assert forall|i: int| 0 <= i < (a + b).len() implies ((#[trigger] (a + b)[i]) as u32) != 13 by {
        if i < a.len() {
            assert((a + b)[i] == a[i]);
        } else {
            assert((a + b)[i] == b[i - a.len()]);
        }
    }
}

proof fn lemma_word_no_cr(w: Seq<char>)
    requires
        nats_word(w),
    ensures
        no_cr(w),
{
    assert forall|i: int| 0 <= i < w.len() implies ((#[trigger] w[i]) as u32) != 13 by {
        assert(!is_ws(w[i]));
    }
}

proof fn lemma_space_no_cr()
    ensures
        no_cr(" "@),
        " "@.len() == 1,
        is_ws(" "@[0]),
{
    reveal_strlit(" ");
}

/// The line of a verb and words: no carriage return, non-empty, and with
/// no white space at either end.
proof fn lemma_words_line_shape(verb: Seq<char>, words: Seq<Seq<char>>)
    requires
        nats_word(verb),
        forall|i: int| 0 <= i < words.len() ==> nats_word(#[trigger] words[i]),
    ensures
        no_cr(words_line(verb, words)),
        words_line(verb, words).len() > 0,
        words_line(verb, words)[0] == verb[0],
        !is_ws(words_line(verb, words).last()),
    decreases words.len(),
{
    lemma_space_no_cr();
    if words.len() == 0 {
        lemma_word_no_cr(verb);
    } else {
        let init = words.drop_last();
        assert forall|i: int| 0 <= i < init.len() implies nats_word(#[trigger] init[i]) by {
            assert(init[i] == words[i]);
        }
        lemma_words_line_shape(verb, init);
        let w = words.last();
        assert(nats_word(w));
        lemma_word_no_cr(w);
        let a = words_line(verb, init);
        lemma_no_cr_concat(a, " "@);
        lemma_no_cr_concat(a + " "@, w);
        assert(words_line(verb, words) == a + " "@ + w);
        assert((a + " "@ + w)[0] == a[0]);
        assert((a + " "@ + w).last() == w.last());
        assert(!is_ws(w[w.len() - 1]));
    }
}

/// How the control line of a verb and words reads.
proof fn lemma_words_line_reads(verb: Seq<char>, words: Seq<Seq<char>>)
    requires
        verb_chars(verb),
        forall|i: int| 0 <= i < words.len() ==> nats_word(#[trigger] words[i]),
    ensures
        no_cr(words_line(verb, words)),
        valid_utf8_line(words_line(verb, words)),
        spec_parse_control_line(trim(vstd::utf8::decode_utf8(encode_utf8(words_line(verb, words)))))
            == spec_parse_command(verb, spaced(words), words_line(verb, words)),
        split_ws(spaced(words)) == words,
{
    lemma_verb(verb);
    lemma_words_line_shape(verb, words);
    let l = words_line(verb, words);
    encode_utf8_valid_utf8(l);
    encode_utf8_decode_utf8(l);
    assert(!is_ws(l[0]));
    lemma_trim_id(l);
    lemma_parse_words(verb, words);
}

/// The encoding of a line is valid UTF-8, that reads back as a non-empty
/// line.
pub open spec fn valid_utf8_line(l: Seq<char>) -> bool {
    &&& vstd::utf8::valid_utf8(encode_utf8(l))
    &&& trim(vstd::utf8::decode_utf8(encode_utf8(l))).len() > 0
}

} // verus!

verus! {

/// The word of an optional argument, if any.
pub open spec fn opt_word(o: Option<Seq<char>>) -> bool {
    match o {
        Some(w) => nats_word(w),
        None => true,
    }
}

/// The words of an optional argument.
pub open spec fn opt_words(o: Option<Seq<char>>) -> Seq<Seq<char>> {
    match o {
        Some(w) => seq![w],
        None => seq![],
    }
}

/// The packets that the decoder reads back as they were written: their
/// texts are words (a message carried by `-ERR` has no carriage return and
/// does not start or end with a quote), and their payloads are within the
/// limit. INFO and CONNECT are read back as their JSON text, and HPUB and
/// HMSG are not read.
pub open spec fn reads_back(p: NatsPacketView, max: usize) -> bool {
    match p {
        NatsPacketView::Ping => true,
        NatsPacketView::Pong => true,
        NatsPacketView::ServerOk => true,
        NatsPacketView::ServerErr(m) => no_cr(m) && (m.len() == 0 || ((m[0] as u32) != 39 && (
        m.last() as u32) != 39)),
        NatsPacketView::Pub { subject, reply_to, payload } => nats_word(subject) && opt_word(
            reply_to,
        ) && payload.len() <= max,
        NatsPacketView::Msg { subject, sid, reply_to, payload } => nats_word(subject) && nats_word(
            sid,
        ) && opt_word(reply_to) && payload.len() <= max,
        NatsPacketView::Sub { subject, queue_group, sid } => nats_word(subject) && opt_word(
            queue_group,
        ) && nats_word(sid),
        NatsPacketView::Unsub { sid, .. } => nats_word(sid),
        _ => false,
    }
}

/// What stays in the buffer after a packet is read back: the `\r\n` that
/// follows an empty payload, which the next read skips as a blank line.
pub open spec fn left_after(p: NatsPacketView) -> Seq<u8> {
    match p {
        NatsPacketView::Pub { payload, .. } => if payload.len() == 0 {
            encode_utf8("\r\n"@)
        } else {
            Seq::empty()
        },
        NatsPacketView::Msg { payload, .. } => if payload.len() == 0 {
            encode_utf8("\r\n"@)
        } else {
            Seq::empty()
        },
        _ => Seq::empty(),
    }
}

proof fn lemma_spaced_1(a: Seq<char>)
    ensures
        spaced(seq![a]) == " "@ + a,
{
    assert(seq![a].drop_first() =~= Seq::<Seq<char>>::empty());
    assert(spaced(Seq::<Seq<char>>::empty()) =~= Seq::<char>::empty());
    assert(spaced(seq![a]) =~= " "@ + a);
}

proof fn lemma_spaced_cons(a: Seq<char>, t: Seq<Seq<char>>)
    ensures
        spaced(seq![a] + t) == " "@ + a + spaced(t),
{
    assert((seq![a] + t).drop_first() =~= t);
    assert((seq![a] + t)[0] == a);
}

/// The literals that stand for verbs: their characters.
proof fn lemma_verb_literals()
    ensures
        verb_chars("INFO"@),
        verb_chars("CONNECT"@),
        verb_chars("PUB"@),
        verb_chars("SUB"@),
        verb_chars("UNSUB"@),
        verb_chars("MSG"@),
        verb_chars("PING"@),
        verb_chars("PONG"@),
        verb_chars("+OK"@),
        verb_chars("-ERR"@),
        "INFO"@.len() == 4 && "CONNECT"@.len() == 7 && "PUB"@.len() == 3 && "SUB"@.len() == 3
            && "UNSUB"@.len() == 5 && "MSG"@.len() == 3 && "PING"@.len() == 4 && "PONG"@.len() == 4
            && "+OK"@.len() == 3 && "-ERR"@.len() == 4,
        "SUB"@ != "PUB"@,
        "MSG"@ != "PUB"@ && "MSG"@ != "SUB"@,
        "PING"@ != "INFO"@,
        "PONG"@ != "INFO"@ && "PONG"@ != "PING"@,
        "+OK"@ != "PUB"@ && "+OK"@ != "SUB"@ && "+OK"@ != "MSG"@,
        "-ERR"@ != "INFO"@ && "-ERR"@ != "PING"@ && "-ERR"@ != "PONG"@,
{
    reveal_strlit("INFO");
    reveal_strlit("CONNECT");
    reveal_strlit("PUB");
    reveal_strlit("SUB");
    reveal_strlit("UNSUB");
    reveal_strlit("MSG");
    reveal_strlit("PING");
    reveal_strlit("PONG");
    reveal_strlit("+OK");
    reveal_strlit("-ERR");
    assert("SUB"@[0] != "PUB"@[0]);
    assert("MSG"@[0] != "PUB"@[0] && "MSG"@[0] != "SUB"@[0]);
    assert("PING"@[0] != "INFO"@[0]);
    assert("PONG"@[0] != "INFO"@[0] && "PONG"@[1] != "PING"@[1]);
    assert("+OK"@[0] != "PUB"@[0] && "+OK"@[0] != "SUB"@[0] && "+OK"@[0] != "MSG"@[0]);
    assert("-ERR"@[0] != "INFO"@[0] && "-ERR"@[0] != "PING"@[0] && "-ERR"@[0] != "PONG"@[0]);
}

/// A packet made of one control line is read back from its line.
proof fn lemma_line_packet(
    verb: Seq<char>,
    words: Seq<Seq<char>>,
    p: NatsPacketView,
    json: Seq<char>,
    max: usize,
    rest: Seq<u8>,
)
    requires
        verb_chars(verb),
        forall|i: int| 0 <= i < words.len() ==> nats_word(#[trigger] words[i]),
        control_text(p, json) == words_line(verb, words) + "\r\n"@,
        spec_encode(p, json) == encode_utf8(control_text(p, json)),
        spec_parse_command(verb, spaced(words), words_line(verb, words)) == Ok::<
            ControlView,
            NatsErrorView,
        >(ControlView::Complete(DecodedView::Packet(p))),
    ensures
        spec_decode(StateView::ReadingControl, max, spec_encode(p, json) + rest) == (
            Ok::<Option<DecodedView>, NatsErrorView>(Some(DecodedView::Packet(p))),
            StateView::ReadingControl,
            rest,
        ),
{
    let l = words_line(verb, words);
    lemma_words_line_reads(verb, words);
    lemma_decode_control_line(l, rest, max);
}

} // verus!

verus! {

/// The control line fields of a packet whose payload follows, as the parser
/// gives them.
pub open spec fn announced(partial: PartialView, n: usize) -> ControlView {
    match partial {
        PartialView::Pub { subject, reply_to } => ControlView::Pub {
            subject,
            reply_to,
            payload_len: n,
        },
        PartialView::Msg { subject, sid, reply_to } => ControlView::Msg {
            subject,
            sid,
            reply_to,
            payload_len: n,
        },
    }
}

/// A packet with a payload is read back from its line and its payload.
proof fn lemma_payload_packet(
    verb: Seq<char>,
    words: Seq<Seq<char>>,
    p: NatsPacketView,
    partial: PartialView,
    payload: Seq<u8>,
    json: Seq<char>,
    max: usize,
    rest: Seq<u8>,
)
    requires
        verb_chars(verb),
        forall|i: int| 0 <= i < words.len() ==> nats_word(#[trigger] words[i]),
        control_text(p, json) == words_line(verb, words) + "\r\n"@,
        spec_encode(p, json) == encode_utf8(control_text(p, json)) + payload + encode_utf8(
            "\r\n"@,
        ),
        payload.len() <= max,
        spec_parse_command(verb, spaced(words), words_line(verb, words)) == Ok::<
            ControlView,
            NatsErrorView,
        >(announced(partial, payload.len() as usize)),
        p == assemble(partial, payload),
        left_after(p) == (if payload.len() == 0 {
            encode_utf8("\r\n"@)
        } else {
            Seq::empty()
        }),
    ensures
        spec_decode(StateView::ReadingControl, max, spec_encode(p, json) + rest) == (
            Ok::<Option<DecodedView>, NatsErrorView>(Some(DecodedView::Packet(p))),
            StateView::ReadingControl,
            left_after(p) + rest,
        ),
{
    let l = words_line(verb, words);
    let tail = payload + encode_utf8("\r\n"@) + rest;
    lemma_words_line_reads(verb, words);
    assert(spec_encode(p, json) + rest =~= encode_utf8(l + "\r\n"@) + tail);
    lemma_decode_control_line(l, tail, max);
    lemma_crlf_bytes();
    if payload.len() == 0 {
        assert(payload =~= Seq::<u8>::empty());
        assert(tail =~= left_after(p) + rest);
    } else {
        assert(tail.take(payload.len() as int) =~= payload);
        assert(tail.skip(payload.len() + 2 as int) =~= rest);
        assert(left_after(p) + rest =~= rest);
    }
}

proof fn lemma_spaced_2(a: Seq<char>, b: Seq<char>)
    ensures
        spaced(seq![a, b]) == " "@ + a + " "@ + b,
{
    lemma_spaced_1(b);
    assert(seq![a, b] =~= seq![a] + seq![b]);
    lemma_spaced_cons(a, seq![b]);
    assert(" "@ + a + (" "@ + b) =~= " "@ + a + " "@ + b);
}

proof fn lemma_spaced_3(a: Seq<char>, b: Seq<char>, c: Seq<char>)
    ensures
        spaced(seq![a, b, c]) == " "@ + a + " "@ + b + " "@ + c,
{
    lemma_spaced_2(b, c);
    assert(seq![a, b, c] =~= seq![a] + seq![b, c]);
    lemma_spaced_cons(a, seq![b, c]);
    assert(" "@ + a + (" "@ + b + " "@ + c) =~= " "@ + a + " "@ + b + " "@ + c);
}

proof fn lemma_spaced_4(a: Seq<char>, b: Seq<char>, c: Seq<char>, d: Seq<char>)
    ensures
        spaced(seq![a, b, c, d]) == " "@ + a + " "@ + b + " "@ + c + " "@ + d,
{
    lemma_spaced_3(b, c, d);
    assert(seq![a, b, c, d] =~= seq![a] + seq![b, c, d]);
    lemma_spaced_cons(a, seq![b, c, d]);
    assert(" "@ + a + (" "@ + b + " "@ + c + " "@ + d) =~= " "@ + a + " "@ + b + " "@ + c + " "@
        + d);
}

} // verus!

verus! {

proof fn lemma_rt_ping(p: NatsPacketView, json: Seq<char>, max: usize, rest: Seq<u8>)
    requires
        p == NatsPacketView::Ping || p == NatsPacketView::Pong || p == NatsPacketView::ServerOk,
    ensures
        spec_decode(StateView::ReadingControl, max, spec_encode(p, json) + rest) == (
            Ok::<Option<DecodedView>, NatsErrorView>(Some(DecodedView::Packet(p))),
            StateView::ReadingControl,
            rest,
        ),
{
    lemma_verb_literals();
    reveal_strlit("\r\n");
    reveal_strlit("PING\r\n");
    reveal_strlit("PONG\r\n");
    reveal_strlit("+OK\r\n");
    reveal_strlit("PING");
    reveal_strlit("PONG");
    reveal_strlit("+OK");
    let words = Seq::<Seq<char>>::empty();
    assert(spaced(words) =~= Seq::<char>::empty());
    let verb = if p == NatsPacketView::Ping {
        "PING"@
    } else if p == NatsPacketView::Pong {
        "PONG"@
    } else {
        "+OK"@
    };
    assert(words_line(verb, words) == verb);
    assert(control_text(p, json) =~= verb + "\r\n"@);
    assert(spec_encode(p, json) =~= encode_utf8(control_text(p, json)));
    lemma_line_packet(verb, words, p, json, max, rest);
}

proof fn lemma_rt_sub(p: NatsPacketView, json: Seq<char>, max: usize, rest: Seq<u8>)
    requires
        p is Sub,
        reads_back(p, max),
    ensures
        spec_decode(StateView::ReadingControl, max, spec_encode(p, json) + rest) == (
            Ok::<Option<DecodedView>, NatsErrorView>(Some(DecodedView::Packet(p))),
            StateView::ReadingControl,
            rest,
        ),
{
    lemma_verb_literals();
    reveal_strlit("SUB ");
    reveal_strlit("SUB");
    reveal_strlit(" ");
    if let NatsPacketView::Sub { subject, queue_group, sid } = p {
        assert("SUB "@ =~= "SUB"@ + " "@);
        assert(spec_encode(p, json) =~= encode_utf8(control_text(p, json)));
        match queue_group {
            Some(q) => {
                let words = seq![subject, q, sid];
                lemma_spaced_3(subject, q, sid);
                lemma_words_line("SUB"@, words);
                assert(control_text(p, json) =~= words_line("SUB"@, words) + "\r\n"@);
                lemma_words_line_reads("SUB"@, words);
                lemma_line_packet("SUB"@, words, p, json, max, rest);
            },
            None => {
                let words = seq![subject, sid];
                lemma_spaced_2(subject, sid);
                lemma_words_line("SUB"@, words);
                assert(control_text(p, json) =~= words_line("SUB"@, words) + "\r\n"@);
                lemma_words_line_reads("SUB"@, words);
                lemma_line_packet("SUB"@, words, p, json, max, rest);
            },
        }
    }
}

#[verifier::rlimit(50)]
#[verifier::spinoff_prover]
proof fn lemma_rt_unsub(p: NatsPacketView, json: Seq<char>, max: usize, rest: Seq<u8>)
    requires
        p is Unsub,
        reads_back(p, max),
    ensures
        spec_decode(StateView::ReadingControl, max, spec_encode(p, json) + rest) == (
            Ok::<Option<DecodedView>, NatsErrorView>(Some(DecodedView::Packet(p))),
            StateView::ReadingControl,
            rest,
        ),
{
    lemma_verb_literals();
    reveal_strlit("UNSUB ");
    reveal_strlit("UNSUB");
    reveal_strlit(" ");
    if let NatsPacketView::Unsub { sid, max_msgs } = p {
        assert("UNSUB "@ =~= "UNSUB"@ + " "@);
        assert(spec_encode(p, json) =~= encode_utf8(control_text(p, json)));
        match max_msgs {
            Some(n) => {
                let d = decimal_chars(n as nat);
                lemma_decimal_parse(n as nat, u32::MAX as int);
                let words = seq![sid, d];
                lemma_spaced_2(sid, d);
                lemma_words_line("UNSUB"@, words);
                assert(control_text(p, json) =~= words_line("UNSUB"@, words) + "\r\n"@);
                lemma_words_line_reads("UNSUB"@, words);
                lemma_line_packet("UNSUB"@, words, p, json, max, rest);
            },
            None => {
                let words = seq![sid];
                lemma_spaced_1(sid);
                lemma_words_line("UNSUB"@, words);
                assert(control_text(p, json) =~= words_line("UNSUB"@, words) + "\r\n"@);
                lemma_words_line_reads("UNSUB"@, words);
                lemma_line_packet("UNSUB"@, words, p, json, max, rest);
            },
        }
    }
}

proof fn lemma_rt_pub(p: NatsPacketView, json: Seq<char>, max: usize, rest: Seq<u8>)
    requires
        p is Pub,
        reads_back(p, max),
    ensures
        spec_decode(StateView::ReadingControl, max, spec_encode(p, json) + rest) == (
            Ok::<Option<DecodedView>, NatsErrorView>(Some(DecodedView::Packet(p))),
            StateView::ReadingControl,
            left_after(p) + rest,
        ),
{
    lemma_verb_literals();
    reveal_strlit("PUB ");
    reveal_strlit("PUB");
    reveal_strlit(" ");
    if let NatsPacketView::Pub { subject, reply_to, payload } = p {
        assert("PUB "@ =~= "PUB"@ + " "@);
        let n = payload.len();
        let d = decimal_chars(n);
        lemma_decimal_parse(n, usize::MAX as int);
        let partial = PartialView::Pub { subject, reply_to };
        assert(p == assemble(partial, payload));
        assert(spec_encode(p, json) =~= encode_utf8(control_text(p, json)) + payload + encode_utf8(
            "\r\n"@,
        ));
        match reply_to {
            Some(r) => {
                let words = seq![subject, r, d];
                lemma_spaced_3(subject, r, d);
                lemma_words_line("PUB"@, words);
                assert(control_text(p, json) =~= words_line("PUB"@, words) + "\r\n"@);
                lemma_words_line_reads("PUB"@, words);
                lemma_payload_packet("PUB"@, words, p, partial, payload, json, max, rest);
            },
            None => {
                let words = seq![subject, d];
                lemma_spaced_2(subject, d);
                lemma_words_line("PUB"@, words);
                assert(control_text(p, json) =~= words_line("PUB"@, words) + "\r\n"@);
                lemma_words_line_reads("PUB"@, words);
                lemma_payload_packet("PUB"@, words, p, partial, payload, json, max, rest);
            },
        }
    }
}

proof fn lemma_rt_msg(p: NatsPacketView, json: Seq<char>, max: usize, rest: Seq<u8>)
    requires
        p is Msg,
        reads_back(p, max),
    ensures
        spec_decode(StateView::ReadingControl, max, spec_encode(p, json) + rest) == (
            Ok::<Option<DecodedView>, NatsErrorView>(Some(DecodedView::Packet(p))),
            StateView::ReadingControl,
            left_after(p) + rest,
        ),
{
    lemma_verb_literals();
    reveal_strlit("MSG ");
    reveal_strlit("MSG");
    reveal_strlit(" ");
    if let NatsPacketView::Msg { subject, sid, reply_to, payload } = p {
        assert("MSG "@ =~= "MSG"@ + " "@);
        let n = payload.len();
        let d = decimal_chars(n);
        lemma_decimal_parse(n, usize::MAX as int);
        let partial = PartialView::Msg { subject, sid, reply_to };
        assert(p == assemble(partial, payload));
        assert(spec_encode(p, json) =~= encode_utf8(control_text(p, json)) + payload + encode_utf8(
            "\r\n"@,
        ));
        match reply_to {
            Some(r) => {
                let words = seq![subject, sid, r, d];
                lemma_spaced_4(subject, sid, r, d);
                lemma_words_line("MSG"@, words);
                assert(control_text(p, json) =~= words_line("MSG"@, words) + "\r\n"@);
                lemma_words_line_reads("MSG"@, words);
                lemma_payload_packet("MSG"@, words, p, partial, payload, json, max, rest);
            },
            None => {
                let words = seq![subject, sid, d];
                lemma_spaced_3(subject, sid, d);
                lemma_words_line("MSG"@, words);
                assert(control_text(p, json) =~= words_line("MSG"@, words) + "\r\n"@);
                lemma_words_line_reads("MSG"@, words);
                lemma_payload_packet("MSG"@, words, p, partial, payload, json, max, rest);
            },
        }
    }
}

} // verus!

verus! {

proof fn lemma_strip_quotes(m: Seq<char>)
    requires
        m.len() == 0 || ((m[0] as u32) != 39 && (m.last() as u32) != 39),
    ensures
        strip_char("'"@ + m + "'"@, '\'') == m,
{
    reveal_strlit("'");
    let q = "'"@ + m + "'"@;
    let u = m + "'"@;
    assert(q.drop_first() =~= u);
    assert(strip_start_char(q, '\'') == strip_start_char(u, '\''));
    if m.len() == 0 {
        assert(u.drop_first() =~= Seq::<char>::empty());
        assert(strip_start_char(Seq::<char>::empty(), '\'') =~= Seq::<char>::empty());
        assert(strip_start_char(u, '\'') == Seq::<char>::empty());
        assert(strip_end_char(Seq::<char>::empty(), '\'') =~= Seq::<char>::empty());
        assert(m =~= Seq::<char>::empty());
    } else {
        assert(u[0] == m[0]);
        assert(strip_start_char(u, '\'') == u);
        assert(u.drop_last() =~= m);
        assert(strip_end_char(m, '\'') == m);
        assert(strip_end_char(u, '\'') == strip_end_char(m, '\''));
    }
}

proof fn lemma_rt_err(p: NatsPacketView, json: Seq<char>, max: usize, rest: Seq<u8>)
    requires
        p is ServerErr,
        reads_back(p, max),
    ensures
        spec_decode(StateView::ReadingControl, max, spec_encode(p, json) + rest) == (
            Ok::<Option<DecodedView>, NatsErrorView>(Some(DecodedView::Packet(p))),
            StateView::ReadingControl,
            rest,
        ),
{
    lemma_verb_literals();
    reveal_strlit("-ERR '");
    reveal_strlit("'\r\n");
    reveal_strlit("-ERR");
    reveal_strlit(" ");
    reveal_strlit("'");
    reveal_strlit("\r\n");
    if let NatsPacketView::ServerErr(m) = p {
        let verb = "-ERR"@;
        let q = "'"@ + m + "'"@;
        let r = " "@ + q;
        let l = verb + r;
        assert(control_text(p, json) =~= l + "\r\n"@);
        assert(spec_encode(p, json) =~= encode_utf8(control_text(p, json)));
        // the line has no carriage return and no white space at its ends
        lemma_verb(verb);
        lemma_space_no_cr();
        assert(no_cr("'"@));
        lemma_no_cr_concat("'"@, m);
        lemma_no_cr_concat("'"@ + m, "'"@);
        lemma_no_cr_concat(" "@, q);
        lemma_no_cr_concat(verb, r);
        lemma_decode_control_line(l, rest, max);
        encode_utf8_valid_utf8(l);
        encode_utf8_decode_utf8(l);
        assert(l[0] == verb[0]);
        assert(l.last() == '\'');
        lemma_trim_id(l);
        // its verb and the text after it
        lemma_word_len_concat(verb, r);
        assert(l.take(4) =~= verb);
        assert(l.skip(4) =~= r);
        // the message, between its quotes
        assert(r.drop_first() =~= q);
        assert(trim_start(r) == trim_start(q));
        assert(trim_start(q) == q);
        assert(trim_end(q) == q);
        assert(trim(r) == q);
        lemma_strip_quotes(m);
    }
}

/// What the decoder reads back of what the encoder writes: from the state
/// of reading a control line, each packet that `reads_back` admits comes
/// back as it was written, the bytes after it stay in the buffer, and so
/// does the `\r\n` after an empty payload (`left_after`), which the next
/// read skips.
pub proof fn lemma_nats_roundtrip(p: NatsPacketView, json: Seq<char>, max: usize, rest: Seq<u8>)
    requires
        reads_back(p, max),
    ensures
        spec_decode(StateView::ReadingControl, max, spec_encode(p, json) + rest) == (
            Ok::<Option<DecodedView>, NatsErrorView>(Some(DecodedView::Packet(p))),
            StateView::ReadingControl,
            left_after(p) + rest,
        ),
{
    match p {
        NatsPacketView::Ping => {
            lemma_rt_ping(p, json, max, rest);
            assert(left_after(p) + rest =~= rest);
        },
        NatsPacketView::Pong => {
            lemma_rt_ping(p, json, max, rest);
            assert(left_after(p) + rest =~= rest);
        },
        NatsPacketView::ServerOk => {
            lemma_rt_ping(p, json, max, rest);
            assert(left_after(p) + rest =~= rest);
        },
        NatsPacketView::ServerErr(_) => {
            lemma_rt_err(p, json, max, rest);
            assert(left_after(p) + rest =~= rest);
        },
        NatsPacketView::Sub { .. } => {
            lemma_rt_sub(p, json, max, rest);
            assert(left_after(p) + rest =~= rest);
        },
        NatsPacketView::Unsub { .. } => {
            lemma_rt_unsub(p, json, max, rest);
            assert(left_after(p) + rest =~= rest);
        },
        NatsPacketView::Pub { .. } => {
            lemma_rt_pub(p, json, max, rest);
        },
        NatsPacketView::Msg { .. } => {
            lemma_rt_msg(p, json, max, rest);
        },
        _ => {},
    }
}

/// The `\r\n` left after an empty payload is skipped by the next read: it
/// reads on as if it were not there.
pub proof fn lemma_blank_line_skipped(st_rest: Seq<u8>, max: usize)
    ensures
        spec_decode(StateView::ReadingControl, max, encode_utf8("\r\n"@) + st_rest) == spec_decode(
            StateView::ReadingControl,
            max,
            st_rest,
        ),
{
    let e = Seq::<char>::empty();
    assert(e + "\r\n"@ =~= "\r\n"@);
    assert(no_cr(e));
    lemma_decode_control_line(e, st_rest, max);
    assert(encode_utf8(e) =~= Seq::<u8>::empty());
    vstd::utf8::encode_utf8_valid_utf8(e);
    vstd::utf8::encode_utf8_decode_utf8(e);
    assert(trim(e) =~= e);
}

/// The words of the control lines, in the order NATS puts them, as the
/// encoder writes them and the decoder reads them: `SUB subject [queue]
/// sid`, `UNSUB sid`, `PUB subject [reply-to] length` and `MSG subject sid
/// [reply-to] length`, each line ending in `\r\n`, the payload and its own
/// `\r\n` after the length.
pub proof fn lemma_nats_word_order(
    a: Seq<char>,
    b: Seq<char>,
    c: Seq<char>,
    payload: Seq<u8>,
    max: usize,
    rest: Seq<u8>,
)
    requires
        nats_word(a),
        nats_word(b),
        nats_word(c),
        0 < payload.len() <= max,
    ensures
        ({
            let ok = |p: NatsPacketView|
                (Ok::<Option<DecodedView>, NatsErrorView>(Some(DecodedView::Packet(p))), StateView::ReadingControl, rest);
            let n = decimal_chars(payload.len());
            let sub3 = "SUB "@ + a + " "@ + b + " "@ + c + "\r\n"@;
            let sub2 = "SUB "@ + a + " "@ + c + "\r\n"@;
            let unsub = "UNSUB "@ + c + "\r\n"@;
            let pub3 = "PUB "@ + a + " "@ + b + " "@ + n + "\r\n"@;
            let msg4 = "MSG "@ + a + " "@ + c + " "@ + b + " "@ + n + "\r\n"@;
            let tail = payload + encode_utf8("\r\n"@);
            let sub_q = NatsPacketView::Sub { subject: a, queue_group: Some(b), sid: c };
            let sub_n = NatsPacketView::Sub { subject: a, queue_group: None, sid: c };
            let un = NatsPacketView::Unsub { sid: c, max_msgs: None };
            let pb = NatsPacketView::Pub { subject: a, reply_to: Some(b), payload };
            let ms = NatsPacketView::Msg { subject: a, sid: c, reply_to: Some(b), payload };
            &&& spec_encode(sub_q, Seq::empty()) == encode_utf8(sub3)
            &&& spec_decode(StateView::ReadingControl, max, encode_utf8(sub3) + rest) == ok(sub_q)
            &&& spec_encode(sub_n, Seq::empty()) == encode_utf8(sub2)
            &&& spec_decode(StateView::ReadingControl, max, encode_utf8(sub2) + rest) == ok(sub_n)
            &&& spec_encode(un, Seq::empty()) == encode_utf8(unsub)
            &&& spec_decode(StateView::ReadingControl, max, encode_utf8(unsub) + rest) == ok(un)
            &&& spec_encode(pb, Seq::empty()) == encode_utf8(pub3) + tail
            &&& spec_decode(StateView::ReadingControl, max, encode_utf8(pub3) + tail + rest) == ok(pb)
            &&& spec_encode(ms, Seq::empty()) == encode_utf8(msg4) + tail
            &&& spec_decode(StateView::ReadingControl, max, encode_utf8(msg4) + tail + rest) == ok(ms)
        }),
{
    reveal_strlit(" ");
    let n = decimal_chars(payload.len());
    let tail = payload + encode_utf8("\r\n"@);
    let sub_q = NatsPacketView::Sub { subject: a, queue_group: Some(b), sid: c };
    let sub_n = NatsPacketView::Sub { subject: a, queue_group: None, sid: c };
    let un = NatsPacketView::Unsub { sid: c, max_msgs: None };
    let pb = NatsPacketView::Pub { subject: a, reply_to: Some(b), payload };
    let ms = NatsPacketView::Msg { subject: a, sid: c, reply_to: Some(b), payload };
    let j = Seq::<char>::empty();
    assert(control_text(sub_q, j) =~= "SUB "@ + a + " "@ + b + " "@ + c + "\r\n"@);
    assert(control_text(sub_n, j) =~= "SUB "@ + a + " "@ + c + "\r\n"@);
    assert(control_text(un, j) =~= "UNSUB "@ + c + "\r\n"@);
    assert(control_text(pb, j) =~= "PUB "@ + a + " "@ + b + " "@ + n + "\r\n"@);
    assert(control_text(ms, j) =~= "MSG "@ + a + " "@ + c + " "@ + b + " "@ + n + "\r\n"@);
    assert(spec_encode(sub_q, j) =~= encode_utf8(control_text(sub_q, j)));
    assert(spec_encode(sub_n, j) =~= encode_utf8(control_text(sub_n, j)));
    assert(spec_encode(un, j) =~= encode_utf8(control_text(un, j)));
    lemma_nats_roundtrip(sub_q, j, max, rest);
    lemma_nats_roundtrip(sub_n, j, max, rest);
    lemma_nats_roundtrip(un, j, max, rest);
    lemma_nats_roundtrip(pb, j, max, rest);
    lemma_nats_roundtrip(ms, j, max, rest);
    assert(left_after(pb) + rest =~= rest);
    assert(left_after(ms) + rest =~= rest);
    assert(encode_utf8(control_text(pb, j)) + tail + rest =~= spec_encode(pb, j) + rest);
    assert(encode_utf8(control_text(ms, j)) + tail + rest =~= spec_encode(ms, j) + rest);
}

} // verus!
