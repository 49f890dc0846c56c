//! What the codec reads back of a CONNECT that it wrote: the frame, the
//! packet and the protocol level it remembers.
use crate::mqtt::codec::{decodable, decoded, written, MAX_PACKET_SIZE};
use crate::mqtt::common::{
    fixed_header_encoding, lemma_fixed_header_roundtrip, spec_check,
    spec_connect_read_any, spec_packet_type, spec_parse_fixed_header, spec_read_mqtt_bytes,
    Connect, ConnectView, FixedHeader, LastWill, LastWillView, Login, LoginView, MqttPacket, PacketType,
};
use crate::mqtt::framing::lemma_connect_framed;
use crate::mqtt::mqtt_protocol_error::MQTTProtocolError;
use crate::mqtt::mqttv4::connect::{
    connect_body_len, connect_encoding, connect_flags, lemma_connect_roundtrip, lemma_flags_position,
    lemma_protocol_name, login_read_back, opt_login_view, opt_will_view, protocol_name_bytes, spec_connect_read,
    spec_connect_read_rest,
};
use vstd::prelude::*;
use vstd::utf8::*;

verus! {

/// Where the MQTT 3.1.1 reading of a CONNECT succeeds, the codec's reading,
/// which takes any level, gives the same.
proof fn lemma_read_any_agrees(h: FixedHeader, s: Seq<u8>)
    requires
        spec_connect_read(h, s) is Ok,
    ensures
        spec_connect_read_any(h, s) == spec_connect_read(h, s),
{
    reveal(spec_connect_read_rest);
    let t = s.skip(h.fixed_header_len as int);
    let name = spec_read_mqtt_bytes(t).0->Ok_0;
    assert(name == protocol_name_bytes());
    lemma_protocol_name();
    encode_utf8_decode_utf8("MQTT"@);
}

/// What the codec writes for a CONNECT into an empty buffer.
proof fn lemma_written_connect(
    ver_w: u8,
    lvl: u8,
    c: Connect,
    w: Option<LastWill>,
    l: Option<Login>,
    b: Seq<u8>,
    wr: Result<usize, MQTTProtocolError>,
)
    requires
        ver_w == 3 || ver_w == 4,
        written(ver_w, MqttPacket::Connect(lvl, c, None, w, None, l), Seq::empty(), b, wr),
        connect_body_len(c@, opt_login_view(l), opt_will_view(w)) <= MAX_PACKET_SIZE,
    ensures
        wr is Ok,
        b == connect_encoding(
            c@,
            opt_login_view(l),
            opt_will_view(w),
            connect_flags(c@, opt_login_view(l), opt_will_view(w)),
        ),
{
    let cv = c@;
    let lv = opt_login_view(l);
    let wv = opt_will_view(w);
    let clean: u8 = if cv.clean_session {
        0x02u8
    } else {
        0u8
    };
    let f = connect_flags(cv, lv, wv);
    lemma_flags_position(cv, lv, wv, clean, f);
    assert(Seq::<u8>::empty() + connect_encoding(cv, lv, wv, clean) =~= connect_encoding(cv, lv, wv, clean));
}

/// The header of a CONNECT is read the same whatever follows it.
proof fn lemma_connect_header(cv: ConnectView, lv: Option<LoginView>, wv: Option<LastWillView>, rest: Seq<u8>)
    requires
        connect_body_len(cv, lv, wv) <= MAX_PACKET_SIZE,
    ensures
        ({
            let e = connect_encoding(cv, lv, wv, connect_flags(cv, lv, wv));
            &&& spec_parse_fixed_header(e + rest) == spec_parse_fixed_header(e)
            &&& spec_parse_fixed_header(e) matches Ok(h) && h.byte1 == 0x10
        }),
{
    let n = connect_body_len(cv, lv, wv);
    let e = connect_encoding(cv, lv, wv, connect_flags(cv, lv, wv));
    let fh = fixed_header_encoding(0x10, n);
    let body = e.skip(fh.len() as int);
    assert(e =~= fh + body);
    lemma_fixed_header_roundtrip(0x10, n, body);
    lemma_fixed_header_roundtrip(0x10, n, body + rest);
    assert(e + rest =~= fh + (body + rest));
}

/// What the codec decodes from a CONNECT frame that the 3.1.1 reading takes.
proof fn lemma_connect_decoded(
    h: FixedHeader,
    e: Seq<u8>,
    so: (u8, ConnectView, Option<LoginView>, Option<LastWillView>),
    ver: Option<u8>,
    r: Result<Option<MqttPacket>, MQTTProtocolError>,
    ver_after: Option<u8>,
)
    requires
        spec_connect_read(h, e) == Ok::<(u8, ConnectView, Option<LoginView>, Option<LastWillView>), MQTTProtocolError>(so),
        decoded(ver, h, PacketType::Connect, e, r, ver_after),
    ensures
        ver_after == Some(so.0),
        r matches Ok(Some(MqttPacket::Connect(lv2, c2, p2, w2, wp2, l2))) && lv2 == so.0 && c2@ == so.1 && p2 is None
            && wp2 is None && opt_login_view(l2) == so.2 && opt_will_view(w2) == so.3,
{
    lemma_read_any_agrees(h, e);
}

/// A CONNECT that the codec writes at level 3 or 4 into an empty buffer is
/// what it reads back from that buffer, whatever level it was at and
/// whatever follows: the write succeeds, the frame is taken whole and the
/// rest is left, and the packet comes back at level 4 with no properties,
/// the same connect and will, and the login unless it is empty; the codec
/// is at level 4 afterwards. The client identifier is not empty unless the
/// connect asks for a clean session, the strings fit a length prefix, a
/// login has no password without a user name, and the packet is no longer
/// than the codec accepts.
pub proof fn lemma_codec_connect_roundtrip(
    ver_w: u8,
    lvl: u8,
    c: Connect,
    w: Option<LastWill>,
    l: Option<Login>,
    b: Seq<u8>,
    wr: Result<usize, MQTTProtocolError>,
    rest: Seq<u8>,
    ver: Option<u8>,
    r: Result<Option<MqttPacket>, MQTTProtocolError>,
    ver_after: Option<u8>,
)
    requires
        ver_w == 3 || ver_w == 4,
        written(ver_w, MqttPacket::Connect(lvl, c, None, w, None, l), Seq::empty(), b, wr),
        encode_utf8(c@.client_id).len() <= 65535,
        c@.client_id.len() > 0 || c@.clean_session,
        opt_will_view(w) matches Some(wv) ==> wv.topic.len() <= 65535 && wv.message.len() <= 65535,
        opt_login_view(l) matches Some(lv) ==> encode_utf8(lv.username).len() <= 65535 && encode_utf8(
            lv.password,
        ).len() <= 65535 && (lv.username.len() == 0 ==> lv.password.len() == 0),
        connect_body_len(c@, opt_login_view(l), opt_will_view(w)) <= MAX_PACKET_SIZE,
    ensures
        wr is Ok,
        decodable(ver, b + rest),
        spec_check(b + rest, MAX_PACKET_SIZE) matches Ok(h) && h.fixed_header_len + h.remaining_len == b.len()
            && spec_packet_type(h.byte1) == Ok::<PacketType, crate::mqtt::common::Error>(PacketType::Connect)
            && (b + rest).take(b.len() as int) == b && (b + rest).skip(b.len() as int) == rest && (decoded(
            ver,
            h,
            PacketType::Connect,
            b,
            r,
            ver_after,
        ) ==> (ver_after == Some(4u8) && (r matches Ok(Some(MqttPacket::Connect(lv2, c2, p2, w2, wp2, l2)))
            && lv2 == 4 && c2@ == c@ && p2 is None && wp2 is None && opt_will_view(w2) == opt_will_view(w)
            && opt_login_view(l2) == login_read_back(opt_login_view(l))))),
{
    let cv = c@;
    let lv = opt_login_view(l);
    let wv = opt_will_view(w);
    let e = connect_encoding(cv, lv, wv, connect_flags(cv, lv, wv));
    lemma_written_connect(ver_w, lvl, c, w, l, b, wr);
    lemma_connect_framed(cv, lv, wv, rest);
    lemma_connect_header(cv, lv, wv, rest);
    lemma_connect_roundtrip(cv, lv, wv);
    let h = spec_check(b + rest, MAX_PACKET_SIZE)->Ok_0;
    assert(0x10u8 / 16 == 1);
    if decoded(ver, h, PacketType::Connect, b, r, ver_after) {
        lemma_connect_decoded(h, e, (4u8, cv, login_read_back(lv), wv), ver, r, ver_after);
    }
}

} // verus!
