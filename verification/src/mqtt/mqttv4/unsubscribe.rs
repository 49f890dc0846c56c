//! UNSUBSCRIBE in MQTT 3.1.1: a packet identifier and the topic filters to
//! drop, each a length-prefixed string.
use crate::buffer::{be_u16_bytes, bytes_advance, bytes_mut_put_u16, bytes_mut_put_u8, bytes_mut_seq, bytes_seq};
use crate::mqtt::common::{
    concat_map, fixed_header_encoding, lemma_concat_map_len, lemma_concat_map_push,
    lemma_fixed_header_roundtrip, lemma_mqtt_string_roundtrip, lemma_sum_map_push, mqtt_string_encoding,
    read_mqtt_string, read_u16, spec_parse_fixed_header, spec_read_mqtt_bytes, spec_read_mqtt_string, spec_read_u16, sum_map,
    write_mqtt_string, write_remaining_length, Error, FixedHeader, Unsubscribe, UnsubscribeView,
    MAX_REMAINING_LENGTH,
};
use bytes::{Bytes, BytesMut};
use vstd::prelude::*;
use vstd::utf8::*;

verus! {

/// The number of bytes a topic filter takes: its length and its UTF-8 bytes.
pub open spec fn topic_len(t: Seq<char>) -> nat {
    encode_utf8(t).len() + 2
}

/// The remaining length of an UNSUBSCRIBE.
pub open spec fn unsubscribe_body_len(u: UnsubscribeView) -> nat {
    2 + sum_map(u.filters, |t: Seq<char>| topic_len(t))
}

/// The bytes of an UNSUBSCRIBE packet.
pub open spec fn unsubscribe_encoding(u: UnsubscribeView) -> Seq<u8> {
    fixed_header_encoding(0xA2, unsubscribe_body_len(u)) + be_u16_bytes(u.pkid) + concat_map(
        u.filters,
        |t: Seq<char>| mqtt_string_encoding(t),
    )
}

/// What reading topic filters worth `remaining` bytes from `s` gives;
/// `None` where a filter runs past the remaining length, which the reader
/// does not allow for.
pub open spec fn spec_read_topics(s: Seq<u8>, remaining: nat) -> Option<Result<Seq<Seq<char>>, Error>>
    decreases remaining,
{
    if remaining == 0 {
        Some(Ok(Seq::empty()))
    } else {
        match spec_read_mqtt_string(s) {
            (Err(e), _) => Some(Err(e)),
            (Ok(t), r) => if topic_len(t) > remaining {
                None
            } else {
                match spec_read_topics(r, (remaining - topic_len(t)) as nat) {
                    Some(Ok(rest)) => Some(Ok(seq![t] + rest)),
                    other => other,
                }
            },
        }
    }
}

/// The topics read so far in front of what reading the rest gives.
pub open spec fn prepend_topics(
    done: Seq<Seq<char>>,
    rest: Option<Result<Seq<Seq<char>>, Error>>,
) -> Option<Result<Seq<Seq<char>>, Error>> {
    match rest {
        Some(Ok(r)) => Some(Ok(done + r)),
        other => other,
    }
}

/// What reading an UNSUBSCRIBE packet from `s` gives; `None` where the
/// lengths in it do not add up, which the reader does not allow for.
pub open spec fn spec_unsubscribe_read(h: FixedHeader, s: Seq<u8>) -> Option<Result<UnsubscribeView, Error>> {
    match spec_read_u16(s.skip(h.fixed_header_len as int)) {
        (Err(e), _) => Some(Err(e)),
        (Ok(pkid), rest) => match spec_read_topics(rest, (h.remaining_len - 2) as nat) {
            None => None,
            Some(Err(e)) => Some(Err(e)),
            Some(Ok(filters)) => Some(Ok(UnsubscribeView { pkid, filters })),
        },
    }
}

/// A sum over a prefix is at most the sum over the whole.
proof fn lemma_sum_prefix(s: Seq<Seq<char>>, n: nat)
    requires
        n <= s.len(),
    ensures
        sum_map(s.take(n as int), |t: Seq<char>| topic_len(t)) <= sum_map(s, |t: Seq<char>| topic_len(t)),
    decreases s.len() - n,
{
    let g = |t: Seq<char>| topic_len(t);
    if n < s.len() {
        lemma_sum_prefix(s, (n + 1) as nat);
        assert(s.take(n + 1 as int) =~= s.take(n as int).push(s[n as int]));
        lemma_sum_map_push(s.take(n as int), s[n as int], g);
    } else {
        assert(s.take(n as int) =~= s);
    }
}

pub fn write(unsubscribe: &Unsubscribe, buffer: &mut BytesMut) -> (r: Result<usize, Error>)
    requires
        bytes_mut_seq(*old(buffer)).len() + 7 + unsubscribe_body_len(unsubscribe@) <= usize::MAX,
    ensures
        unsubscribe_body_len(unsubscribe@) > MAX_REMAINING_LENGTH ==> r == Err::<usize, Error>(
            Error::PayloadTooLong,
        ) && bytes_mut_seq(*final(buffer)) == bytes_mut_seq(*old(buffer)).push(0xA2),
        unsubscribe_body_len(unsubscribe@) <= MAX_REMAINING_LENGTH ==> r == Ok::<usize, Error>(
            unsubscribe_encoding(unsubscribe@).len() as usize,
        ) && bytes_mut_seq(*final(buffer)) == bytes_mut_seq(*old(buffer)) + unsubscribe_encoding(
            unsubscribe@,
        ),
{
    let ghost uv = unsubscribe@;
    let ghost g = |t: Seq<char>| topic_len(t);
    let ghost fe = |t: Seq<char>| mqtt_string_encoding(t);
    // 2 bytes for packet identifier, then each topic filter with its length
    let mut total: usize = 0;
    let mut i: usize = 0;
    while i < unsubscribe.filters.len()
        invariant
            i <= unsubscribe.filters@.len(),
            uv == unsubscribe@,
            uv.filters.len() == unsubscribe.filters@.len(),
            g == (|t: Seq<char>| topic_len(t)),
            2 + sum_map(uv.filters, g) <= usize::MAX,
            total == sum_map(uv.filters.take(i as int), g),
        decreases unsubscribe.filters@.len() - i,
    {
        proof {
            assert(uv.filters.take(i + 1) =~= uv.filters.take(i as int).push(uv.filters[i as int]));
            lemma_sum_map_push(uv.filters.take(i as int), uv.filters[i as int], g);
            lemma_sum_prefix(uv.filters, (i + 1) as nat);
            assert(uv.filters[i as int] == unsubscribe.filters@[i as int]@);
        }
        total = total + unsubscribe.filters[i].as_str().len() + 2;
        i = i + 1;
    }
    assert(uv.filters.take(i as int) =~= uv.filters);
    let remaining_len = 2 + total;
    bytes_mut_put_u8(buffer, 0xA2);
    let remaining_len_bytes = match write_remaining_length(buffer, remaining_len) {
        Ok(c) => c,
        Err(e) => return Err(e),
    };
    bytes_mut_put_u16(buffer, unsubscribe.pkid);
    let ghost head = bytes_mut_seq(*buffer);
    assert(head =~= bytes_mut_seq(*old(buffer)) + fixed_header_encoding(0xA2, remaining_len as nat)
        + be_u16_bytes(uv.pkid));
    let mut i: usize = 0;
    while i < unsubscribe.filters.len()
        invariant
            i <= unsubscribe.filters@.len(),
            uv == unsubscribe@,
            uv.filters.len() == unsubscribe.filters@.len(),
            fe == (|t: Seq<char>| mqtt_string_encoding(t)),
            g == (|t: Seq<char>| topic_len(t)),
            bytes_mut_seq(*buffer) == head + concat_map(uv.filters.take(i as int), fe),
            head.len() + sum_map(uv.filters, g) <= usize::MAX,
        decreases unsubscribe.filters@.len() - i,
    {
        proof {
            let t = uv.filters.take(i as int);
            assert forall|x: Seq<char>| #[trigger] fe(x).len() == g(x) by {}
            assert(uv.filters.take(i + 1) =~= t.push(uv.filters[i as int]));
            lemma_concat_map_push(t, uv.filters[i as int], fe);
            lemma_sum_map_push(t, uv.filters[i as int], g);
            lemma_concat_map_len(t, fe, g);
            lemma_sum_prefix(uv.filters, (i + 1) as nat);
            assert(unsubscribe.filters@[i as int]@ == uv.filters[i as int]);
        }
        write_mqtt_string(buffer, unsubscribe.filters[i].as_str());
        proof {
            let t = uv.filters.take(i as int);
            assert(head + concat_map(t, fe) + fe(uv.filters[i as int]) =~= head + (concat_map(t, fe) + fe(
                uv.filters[i as int],
            )));
        }
        i = i + 1;
    }
    proof {
        assert(uv.filters.take(i as int) =~= uv.filters);
        assert forall|x: Seq<char>| #[trigger] fe(x).len() == g(x) by {}
        lemma_concat_map_len(uv.filters, fe, g);
    }
    assert(bytes_mut_seq(*buffer) =~= bytes_mut_seq(*old(buffer)) + unsubscribe_encoding(uv));
    Ok(1 + remaining_len_bytes + remaining_len)
}

/// Whether an UNSUBSCRIBE can be read: its remaining length covers the
/// packet identifier, and its topic filters, as far as they read, fit in
/// it.
pub fn lengths_fit(fixed_header: FixedHeader, bytes: Bytes) -> (r: bool)
    requires
        fixed_header.fixed_header_len <= bytes_seq(bytes).len(),
    ensures
        r == (fixed_header.remaining_len >= 2 && spec_unsubscribe_read(fixed_header, bytes_seq(bytes))
            is Some),
{
    if fixed_header.remaining_len < 2 {
        return false;
    }
    let mut buf = bytes;
    bytes_advance(&mut buf, fixed_header.fixed_header_len);
    let pkid = match read_u16(&mut buf) {
        Ok(v) => v,
        Err(_) => return true,
    };
    let mut payload_bytes = fixed_header.remaining_len - 2;
    let ghost orig = bytes_seq(buf);
    assert(spec_unsubscribe_read(fixed_header, bytes_seq(bytes)) == match spec_read_topics(
        orig,
        (fixed_header.remaining_len - 2) as nat,
    ) {
        None => None,
        Some(Err(e)) => Some(Err(e)),
        Some(Ok(f)) => Some(Ok(UnsubscribeView { pkid, filters: f })),
    });
    while payload_bytes > 0
        invariant
            fixed_header.remaining_len >= 2,
            (spec_unsubscribe_read(fixed_header, bytes_seq(bytes)) is Some) == (spec_read_topics(
                orig,
                (fixed_header.remaining_len - 2) as nat,
            ) is Some),
            (spec_read_topics(orig, (fixed_header.remaining_len - 2) as nat) is Some)
                == (spec_read_topics(bytes_seq(buf), payload_bytes as nat) is Some),
        decreases payload_bytes,
    {
        let ghost before = bytes_seq(buf);
        let topic_filter = match read_mqtt_string(&mut buf) {
            Ok(t) => t,
            Err(_) => return true,
        };
        proof {
            let b = spec_read_mqtt_bytes(before).0->Ok_0;
            decode_utf8_encode_utf8(b);
        }
        let used = topic_filter.as_str().len();
        assert(topic_len(topic_filter@) == used + 2);
        if used > payload_bytes || payload_bytes - used < 2 {
            return false;
        }
        payload_bytes = payload_bytes - used - 2;
    }
    true
}

pub fn read(fixed_header: FixedHeader, bytes: Bytes) -> (r: Result<Unsubscribe, Error>)
    requires
        fixed_header.fixed_header_len <= bytes_seq(bytes).len(),
        fixed_header.remaining_len >= 2,
        spec_unsubscribe_read(fixed_header, bytes_seq(bytes)) is Some,
    ensures
        match (r, spec_unsubscribe_read(fixed_header, bytes_seq(bytes))) {
            (Ok(v), Some(Ok(sv))) => v@ == sv,
            (Err(e), Some(Err(se))) => e == se,
            _ => false,
        },
{
    let mut buf = bytes;
    let variable_header_index = fixed_header.fixed_header_len;
    bytes_advance(&mut buf, variable_header_index);
    let pkid = match read_u16(&mut buf) {
        Ok(v) => v,
        Err(e) => return Err(e),
    };
    let mut payload_bytes = fixed_header.remaining_len - 2;
    let mut filters: Vec<String> = Vec::with_capacity(1);
    let ghost orig = bytes_seq(buf);
    assert(spec_unsubscribe_read(fixed_header, bytes_seq(bytes)) == match spec_read_topics(
        orig,
        (fixed_header.remaining_len - 2) as nat,
    ) {
        None => None,
        Some(Err(e)) => Some(Err(e)),
        Some(Ok(f)) => Some(Ok(UnsubscribeView { pkid, filters: f })),
    });
    while payload_bytes > 0
        invariant
            spec_unsubscribe_read(fixed_header, bytes_seq(bytes)) == match spec_read_topics(
                orig,
                (fixed_header.remaining_len - 2) as nat,
            ) {
                None => None,
                Some(Err(e)) => Some(Err(e)),
                Some(Ok(f)) => Some(Ok(UnsubscribeView { pkid, filters: f })),
            },
            spec_read_topics(orig, (fixed_header.remaining_len - 2) as nat) == prepend_topics(
                filters@.map_values(|f: String| f@),
                spec_read_topics(bytes_seq(buf), payload_bytes as nat),
            ),
            spec_read_topics(orig, (fixed_header.remaining_len - 2) as nat) is Some,
        decreases payload_bytes,
    {
        let topic_filter = match read_mqtt_string(&mut buf) {
            Ok(t) => t,
            Err(e) => return Err(e),
        };
        let used = topic_filter.as_str().len() + 2;
        payload_bytes = payload_bytes - used;
        let ghost before = filters@.map_values(|f: String| f@);
        filters.push(topic_filter);
        proof {
            let t = filters@[filters@.len() - 1]@;
            assert(filters@.map_values(|f: String| f@) =~= before + seq![t]);
            match spec_read_topics(bytes_seq(buf), payload_bytes as nat) {
                Some(Ok(rest)) => {
                    assert(before + seq![t] + rest =~= before + (seq![t] + rest));
                },
                _ => {},
            }
        }
    }
    assert(filters@.map_values(|f: String| f@) + Seq::<Seq<char>>::empty() =~= filters@.map_values(
        |f: String| f@,
    ));
    Ok(Unsubscribe { pkid, filters })
}

/// Topic filters read back one by one from their encodings, to the last
/// byte of the remaining length.
proof fn lemma_topics_roundtrip(ts: Seq<Seq<char>>)
    requires
        forall|i: int| 0 <= i < ts.len() ==> encode_utf8(#[trigger] ts[i]).len() <= 65535,
    ensures
        spec_read_topics(
            concat_map(ts, |t: Seq<char>| mqtt_string_encoding(t)),
            sum_map(ts, |t: Seq<char>| topic_len(t)),
        ) == Some(Ok::<Seq<Seq<char>>, Error>(ts)),
    decreases ts.len(),
{
    let fe = |t: Seq<char>| mqtt_string_encoding(t);
    let g = |t: Seq<char>| topic_len(t);
    if ts.len() == 0 {
        assert(ts =~= Seq::<Seq<char>>::empty());
    } else {
        let rest = ts.drop_first();
        assert(concat_map(ts, fe) == fe(ts[0]) + concat_map(rest, fe));
        assert(sum_map(ts, g) == g(ts[0]) + sum_map(rest, g));
        assert forall|i: int| 0 <= i < rest.len() implies encode_utf8(#[trigger] rest[i]).len() <= 65535 by {
            assert(rest[i] == ts[i + 1]);
        }
        lemma_topics_roundtrip(rest);
        assert(encode_utf8(ts[0]).len() <= 65535);
        lemma_mqtt_string_roundtrip(ts[0], concat_map(rest, fe));
        assert(seq![ts[0]] + rest =~= ts);
    }
}

/// An UNSUBSCRIBE whose filters fit a length prefix and whose remaining
/// length fits four bytes reads back as written.
pub proof fn lemma_unsubscribe_roundtrip(u: UnsubscribeView)
    requires
        forall|i: int| 0 <= i < u.filters.len() ==> encode_utf8(#[trigger] u.filters[i]).len() <= 65535,
        unsubscribe_body_len(u) <= MAX_REMAINING_LENGTH,
    ensures
        spec_parse_fixed_header(unsubscribe_encoding(u)) matches Ok(h) && h.byte1 == 0xA2
            && spec_unsubscribe_read(h, unsubscribe_encoding(u)) == Some(Ok::<UnsubscribeView, Error>(u)),
{
    let fe = |t: Seq<char>| mqtt_string_encoding(t);
    let fs = concat_map(u.filters, fe);
    let body = be_u16_bytes(u.pkid) + fs;
    let e = unsubscribe_encoding(u);
    assert(e =~= fixed_header_encoding(0xA2, unsubscribe_body_len(u)) + body);
    lemma_fixed_header_roundtrip(0xA2, unsubscribe_body_len(u), body);
    let h = spec_parse_fixed_header(e)->Ok_0;
    assert(e.skip(h.fixed_header_len as int) =~= body);
    crate::buffer::lemma_be_u16_roundtrip(u.pkid);
    assert(body.skip(2) =~= fs);
    assert(body[0] == be_u16_bytes(u.pkid)[0] && body[1] == be_u16_bytes(u.pkid)[1]);
    lemma_topics_roundtrip(u.filters);
}

} // verus!
