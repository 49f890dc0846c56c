//! CONNECT in MQTT 3.1.1: the protocol name and level, the connect flags,
//! the keep alive, then the client identifier, the last will and the login.
pub mod login;
pub mod validation;
pub mod will;

use crate::buffer::{be_u16_bytes, bytes_advance, bytes_as_slice, bytes_mut_len, bytes_mut_put_u16, bytes_mut_put_u8, bytes_mut_seq, bytes_mut_set, bytes_seq, string_from_utf8};
use crate::mqtt::common::{
    fixed_header_encoding, lemma_fixed_header_roundtrip, lemma_mqtt_bytes_roundtrip, mqtt_bytes_encoding,
    qos_number, spec_parse_fixed_header, mqtt_string_encoding, read_mqtt_bytes, read_u16, read_u8,
    spec_read_mqtt_bytes, spec_read_u16, spec_read_u8, write_mqtt_string, write_remaining_length, Connect,
    ConnectView, FixedHeader, LastWill, LastWillView, Login, LoginView, MAX_REMAINING_LENGTH, vbi_encode,
    spec_len_len, lemma_vbi_encode_len,
};
use crate::mqtt::mqtt_protocol_error::{spec_from_error, MQTTProtocolError};
use self::login::{lemma_login_roundtrip, login_encoding, login_flags, login_len, spec_login_read};
use self::will::{lemma_will_roundtrip, spec_will_read, will_encoding, will_flags, will_len};
use bytes::{Bytes, BytesMut};
use vstd::prelude::*;
use vstd::slice::slice_to_vec;
use vstd::utf8::*;

verus! {

pub const MQTT_CONTROL_PACKET_TYPE_CONNECT: u8 = 0b0001_0000;

pub const MQTT_PROTOCOL_VERSION_3_1_1: u8 = 0b0000_0100;

const MQTT_LENGTH_MSB: usize = 1;

const MQTT_LENGTH_LSB: usize = 1;

const MQTT_PROTOCOL_NAME_DESCRIPTION_LENGTH: usize = 2;

const MQTT_PROTOCOL_NAME_LENGTH: usize = 4;

const MQTT_CONNECT_PROTOCOL_LEVEL_LENGTH: usize = 1;

const MQTT_CONNECT_ACKNOWLEDGE_FLAGS_LENGTH: usize = 1;

const MQTT_KEEP_ALIVE_DESCRIPTION_LENGTH: usize = 2;

/// The bytes of the protocol name "MQTT".
pub open spec fn protocol_name_bytes() -> Seq<u8> {
    seq![77u8, 81u8, 84u8, 84u8]
}

/// The number of bytes of the payload: the client identifier, the last
/// will and the login.
pub open spec fn connect_payload_len(c: ConnectView, l: Option<LoginView>, w: Option<LastWillView>) -> nat {
    2 + encode_utf8(c.client_id).len() + match w {
        Some(w) => will_len(w),
        None => 0,
    } + match l {
        Some(l) => login_len(l),
        None => 0,
    }
}

/// The remaining length of a CONNECT: ten bytes of variable header, then
/// the payload.
pub open spec fn connect_body_len(c: ConnectView, l: Option<LoginView>, w: Option<LastWillView>) -> nat {
    10 + connect_payload_len(c, l, w)
}

/// The connect flags: clean session, then what the last will and the login
/// set.
pub open spec fn connect_flags(c: ConnectView, l: Option<LoginView>, w: Option<LastWillView>) -> u8 {
    let clean: u8 = if c.clean_session {
        0x02u8
    } else {
        0u8
    };
    let with_will: u8 = match w {
        Some(w) => clean | will_flags(w),
        None => clean,
    };
    match l {
        Some(l) => with_will | login_flags(l),
        None => with_will,
    }
}

/// The bytes of a CONNECT up to its client identifier, with `flags` as
/// its flags byte and `n` as its remaining length.
pub open spec fn connect_head(c: ConnectView, n: nat, flags: u8) -> Seq<u8> {
    fixed_header_encoding(MQTT_CONTROL_PACKET_TYPE_CONNECT, n) + mqtt_bytes_encoding(protocol_name_bytes())
        + seq![MQTT_PROTOCOL_VERSION_3_1_1, flags] + be_u16_bytes(c.keep_alive) + mqtt_string_encoding(
        c.client_id,
    )
}

/// The bytes of the last will, if any.
pub open spec fn will_part(w: Option<LastWillView>) -> Seq<u8> {
    match w {
        Some(w) => will_encoding(w),
        None => Seq::empty(),
    }
}

/// The bytes of the login, if any.
pub open spec fn login_part(l: Option<LoginView>) -> Seq<u8> {
    match l {
        Some(l) => login_encoding(l),
        None => Seq::empty(),
    }
}

/// The bytes of a CONNECT whose flags byte is `flags`.
pub open spec fn connect_encoding(
    c: ConnectView,
    l: Option<LoginView>,
    w: Option<LastWillView>,
    flags: u8,
) -> Seq<u8> {
    connect_head(c, connect_body_len(c, l, w), flags) + will_part(w) + login_part(l)
}

/// What reading a CONNECT packet from `s` gives: the protocol level, the
/// connect, the login and the last will.
pub open spec fn spec_connect_read(h: FixedHeader, s: Seq<u8>) -> Result<
    (u8, ConnectView, Option<LoginView>, Option<LastWillView>),
    MQTTProtocolError,
> {
    match spec_read_mqtt_bytes(s.skip(h.fixed_header_len as int)) {
        (Err(e), _) => Err(spec_from_error(e)),
        (Ok(name), r1) => if !valid_utf8(name) {
            Err(MQTTProtocolError::PayloadNotUtf8)
        } else if name != protocol_name_bytes() {
            Err(MQTTProtocolError::InvalidProtocolName)
        } else {
            match spec_read_u8(r1) {
                (Err(e), _) => Err(spec_from_error(e)),
                (Ok(level), r2) => if level != 4 && level != 3 {
                    Err(MQTTProtocolError::InvalidProtocolLevel(level))
                } else {
                    match spec_read_u8(r2) {
                        (Err(e), _) => Err(spec_from_error(e)),
                        (Ok(flags), r3) => if flags & 0b1 != 0 {
                            Err(MQTTProtocolError::ReservedSetError)
                        } else {
                            spec_connect_read_rest(level, flags, r3)
                        },
                    }
                },
            }
        },
    }
}

/// What reading a CONNECT gives after its protocol level and flags.
#[verifier::opaque]
pub open spec fn spec_connect_read_rest(level: u8, flags: u8, s: Seq<u8>) -> Result<
    (u8, ConnectView, Option<LoginView>, Option<LastWillView>),
    MQTTProtocolError,
> {
    match spec_read_u16(s) {
        (Err(e), _) => Err(spec_from_error(e)),
        (Ok(keep_alive), r4) => match spec_read_mqtt_bytes(r4) {
            (Err(e), _) => Err(spec_from_error(e)),
            (Ok(id), r5) => if !valid_utf8(id) {
                Err(MQTTProtocolError::PayloadNotUtf8)
            } else if id.len() == 0 && flags & 0b10 == 0 {
                Err(MQTTProtocolError::IncorrectPacketFormat)
            } else {
                match spec_will_read(flags, r5) {
                    (Err(e), _) => Err(e),
                    (Ok(will), r6) => match spec_login_read(flags, r6) {
                        (Err(e), _) => Err(e),
                        (Ok(login), _) => Ok(
                            (
                                level,
                                ConnectView {
                                    keep_alive,
                                    client_id: decode_utf8(id),
                                    clean_session: flags & 0b10 != 0,
                                },
                                login,
                                will,
                            ),
                        ),
                    },
                }
            },
        },
    }
}

/// The views of what `read` returns.
pub open spec fn connect_read_view(
    r: (u8, Connect, Option<Login>, Option<LastWill>),
) -> (u8, ConnectView, Option<LoginView>, Option<LastWillView>) {
    (r.0, r.1@, match r.2 {
        Some(l) => Some(l@),
        None => None,
    }, match r.3 {
        Some(w) => Some(w@),
        None => None,
    })
}

fn variable_header_length() -> (r: usize)
    ensures
        r == 10,
{
    // Protocol Name (two bytes of length, then "MQTT"), Protocol Version,
    // Connect Flags, and Keep Alive.
    MQTT_PROTOCOL_NAME_DESCRIPTION_LENGTH + MQTT_PROTOCOL_NAME_LENGTH + MQTT_CONNECT_PROTOCOL_LEVEL_LENGTH
        + MQTT_CONNECT_ACKNOWLEDGE_FLAGS_LENGTH + MQTT_KEEP_ALIVE_DESCRIPTION_LENGTH
}

fn payload_length(connect: &Connect, login: &Option<Login>, will: &Option<LastWill>) -> (r: usize)
    requires
        connect_payload_len(connect@, opt_login_view(*login), opt_will_view(*will)) <= usize::MAX,
    ensures
        r == connect_payload_len(connect@, opt_login_view(*login), opt_will_view(*will)),
{
    let mut len: usize = 0;
    // client id length is mandatory and resides at the very beginning of payload
    len = len + MQTT_LENGTH_MSB;
    len = len + MQTT_LENGTH_LSB;
    len = len + connect.client_id.as_str().len();
    // last will length
    if let Some(w) = will {
        len = len + will::len(w);
    }
    // username and password length
    if let Some(l) = login {
        len = len + login::len(l);
    }
    len
}

fn remaining_length(connect: &Connect, login: &Option<Login>, will: &Option<LastWill>) -> (r: usize)
    requires
        connect_body_len(connect@, opt_login_view(*login), opt_will_view(*will)) <= usize::MAX,
    ensures
        r == connect_body_len(connect@, opt_login_view(*login), opt_will_view(*will)),
{
    variable_header_length() + payload_length(connect, login, will)
}

/// The view of an optional login.
pub open spec fn opt_login_view(l: Option<Login>) -> Option<LoginView> {
    match l {
        Some(l) => Some(l@),
        None => None,
    }
}

/// The view of an optional last will.
pub open spec fn opt_will_view(w: Option<LastWill>) -> Option<LastWillView> {
    match w {
        Some(w) => Some(w@),
        None => None,
    }
}

pub proof fn lemma_protocol_name()
    ensures
        encode_utf8("MQTT"@) == protocol_name_bytes(),
{
    reveal_strlit("MQTT");
    assert(is_ascii_chars("MQTT"@));
    is_ascii_chars_encode_utf8("MQTT"@);
    assert(encode_utf8("MQTT"@) =~= protocol_name_bytes());
}

/// Whether a byte string spells "MQTT".
pub fn is_protocol_name(b: &[u8]) -> (r: bool)
    ensures
        r == (b@ == protocol_name_bytes()),
{
    let r = b.len() == 4 && b[0] == 77 && b[1] == 81 && b[2] == 84 && b[3] == 84;
    assert(r ==> b@ =~= protocol_name_bytes());
    r
}

pub fn read(fixed_header: FixedHeader, bytes: Bytes) -> (r: Result<
    (u8, Connect, Option<Login>, Option<LastWill>),
    MQTTProtocolError,
>)
    requires
        fixed_header.fixed_header_len <= bytes_seq(bytes).len(),
    ensures
        match (r, spec_connect_read(fixed_header, bytes_seq(bytes))) {
            (Ok(v), Ok(sv)) => connect_read_view(v) == sv,
            (Err(e), Err(se)) => e == se,
            _ => false,
        },
{
    let mut buf = bytes;
    let variable_header_index = fixed_header.fixed_header_len;
    bytes_advance(&mut buf, variable_header_index);
    // variable header
    let protocol_name = match read_mqtt_bytes(&mut buf) {
        Ok(b) => b,
        Err(e) => return Err(MQTTProtocolError::from_error(e)),
    };
    let name_slice = bytes_as_slice(&protocol_name);
    if string_from_utf8(slice_to_vec(name_slice)).is_none() {
        return Err(MQTTProtocolError::PayloadNotUtf8);
    }
    if !is_protocol_name(name_slice) {
        return Err(MQTTProtocolError::InvalidProtocolName);
    }
    let protocol_level = match read_u8(&mut buf) {
        Ok(v) => v,
        Err(e) => return Err(MQTTProtocolError::from_error(e)),
    };
    if protocol_level != 4 && protocol_level != 3 {
        return Err(MQTTProtocolError::InvalidProtocolLevel(protocol_level));
    }
    let connect_flags = match read_u8(&mut buf) {
        Ok(v) => v,
        Err(e) => return Err(MQTTProtocolError::from_error(e)),
    };
    // the reserved bit (bit 0) must be 0
    if (connect_flags & 0b1) != 0 {
        return Err(MQTTProtocolError::ReservedSetError);
    }
    proof {
        reveal(spec_connect_read_rest);
    }
    let clean_session = (connect_flags & 0b10) != 0;
    let keep_alive = match read_u16(&mut buf) {
        Ok(v) => v,
        Err(e) => return Err(MQTTProtocolError::from_error(e)),
    };
    let raw_client_id = match read_mqtt_bytes(&mut buf) {
        Ok(b) => b,
        Err(e) => return Err(MQTTProtocolError::from_error(e)),
    };
    // when clean session is 1, the client id may be empty
    let client_id = match string_from_utf8(slice_to_vec(bytes_as_slice(&raw_client_id))) {
        Some(t) => t,
        None => return Err(MQTTProtocolError::PayloadNotUtf8),
    };
    proof {
        decode_utf8_encode_utf8(bytes_seq(raw_client_id));
        if bytes_seq(raw_client_id).len() == 0 {
            assert(decode_utf8(bytes_seq(raw_client_id)) =~= Seq::<char>::empty());
        }
    }
    if client_id.as_str().is_empty() && (connect_flags & 0b10) == 0 {
        return Err(MQTTProtocolError::IncorrectPacketFormat);
    }
    let last_will = match will::read(connect_flags, &mut buf) {
        Ok(w) => w,
        Err(e) => return Err(e),
    };
    let login = match login::read(connect_flags, &mut buf) {
        Ok(l) => l,
        Err(e) => return Err(e),
    };
    let connect = Connect { keep_alive, client_id, clean_session };
    Ok((protocol_level, connect, login, last_will))
}

/// The flags byte of a CONNECT stands right after the protocol name and
/// level.
pub(crate) proof fn lemma_flags_position(c: ConnectView, l: Option<LoginView>, w: Option<LastWillView>, f0: u8, f: u8)
    requires
        connect_body_len(c, l, w) <= MAX_REMAINING_LENGTH,
    ensures
        vbi_encode(connect_body_len(c, l, w)).len() == spec_len_len(connect_body_len(c, l, w)),
        connect_encoding(c, l, w, f0).len() > spec_len_len(connect_body_len(c, l, w)) + 8,
        connect_encoding(c, l, w, f0).update(spec_len_len(connect_body_len(c, l, w)) + 8int, f)
            == connect_encoding(c, l, w, f),
{
    let n = connect_body_len(c, l, w);
    lemma_vbi_encode_len(n);
    assert(connect_encoding(c, l, w, f0).update(spec_len_len(n) + 8int, f) =~= connect_encoding(c, l, w, f));
}

#[verifier::rlimit(80)]
pub fn write(
    connect: &Connect,
    login: &Option<Login>,
    will: &Option<LastWill>,
    buffer: &mut BytesMut,
) -> (r: Result<usize, MQTTProtocolError>)
    requires
        bytes_mut_seq(*old(buffer)).len() + 5 + connect_body_len(
            connect@,
            opt_login_view(*login),
            opt_will_view(*will),
        ) <= usize::MAX,
    ensures
        ({
            let c = connect@;
            let l = opt_login_view(*login);
            let w = opt_will_view(*will);
            let n = connect_body_len(c, l, w);
            let old_b = bytes_mut_seq(*old(buffer));
            let new_b = bytes_mut_seq(*final(buffer));
            let clean: u8 = if c.clean_session {
                0x02u8
            } else {
                0u8
            };
            &&& n > MAX_REMAINING_LENGTH ==> r == Err::<usize, MQTTProtocolError>(
                MQTTProtocolError::PayloadTooLong,
            ) && new_b == old_b.push(MQTT_CONTROL_PACKET_TYPE_CONNECT)
            // The flags byte is written at the place that it takes when
            // the buffer starts empty.
            &&& n <= MAX_REMAINING_LENGTH ==> r == Ok::<usize, MQTTProtocolError>(n as usize) && new_b == (
            old_b + connect_encoding(c, l, w, clean)).update(spec_len_len(n) + 8int, connect_flags(c, l, w))
            &&& n <= MAX_REMAINING_LENGTH && old_b.len() == 0 ==> new_b == connect_encoding(
                c,
                l,
                w,
                connect_flags(c, l, w),
            )
        }),
{
    let ghost c = connect@;
    let ghost l = opt_login_view(*login);
    let ghost w = opt_will_view(*will);
    let ghost start = bytes_mut_seq(*buffer);
    // fixed header
    bytes_mut_put_u8(buffer, MQTT_CONTROL_PACKET_TYPE_CONNECT);
    let len = remaining_length(connect, login, will);
    let count = match write_remaining_length(buffer, len) {
        Ok(c) => c,
        Err(e) => return Err(MQTTProtocolError::from_error(e)),
    };
    // variable header
    proof {
        lemma_protocol_name();
    }
    write_mqtt_string(buffer, "MQTT");
    bytes_mut_put_u8(buffer, MQTT_PROTOCOL_VERSION_3_1_1);
    let flags_index = 1 + count + 2 + 4 + 1;
    let mut connect_flags: u8 = 0;
    if connect.clean_session {
        connect_flags = 0x02;
    }
    let ghost clean = connect_flags;
    bytes_mut_put_u8(buffer, connect_flags);
    bytes_mut_put_u16(buffer, connect.keep_alive);
    write_mqtt_string(buffer, connect.client_id.as_str());
    let ghost after_id = bytes_mut_seq(*buffer);
    assert(after_id =~= start + connect_head(c, len as nat, clean));
    if let Some(wl) = will {
        let f = match will::write(wl, buffer) {
            Ok(f) => f,
            Err(e) => return Err(e),
        };
        connect_flags = connect_flags | f;
    }
    let ghost after_will = bytes_mut_seq(*buffer);
    assert(after_will =~= after_id + will_part(w));
    if let Some(lg) = login {
        connect_flags = connect_flags | login::write(lg, buffer);
    }
    assert(bytes_mut_seq(*buffer) =~= after_will + login_part(l));
    proof {
        lemma_flags_position(c, l, w, clean, connect_flags);
        assert(bytes_mut_seq(*buffer) =~= start + connect_encoding(c, l, w, clean));
    }
    // update connect flags
    bytes_mut_set(buffer, flags_index, connect_flags);
    proof {
        if bytes_mut_seq(*old(buffer)).len() == 0 {
            assert(bytes_mut_seq(*old(buffer)) + connect_encoding(c, l, w, clean) =~= connect_encoding(
                c,
                l,
                w,
                clean,
            ));
        }
    }
    Ok(len)
}


/// The bits of the connect flags that a clean session, a last will and a
/// login set, each read back on its own.
proof fn lemma_flag_bits(clean: u8, q: u8, retain: u8, has_will: bool, lf: u8)
    by (bit_vector)
    requires
        clean == 0 || clean == 2,
        q <= 2,
        retain == 0 || retain == 0x20,
        lf == 0 || lf == 0x40 || lf == 0x80 || lf == 0xC0,
    ensures
        ({
            let wf: u8 = if has_will {
                (0x04u8 | (q << 3u8)) | retain
            } else {
                0u8
            };
            let f: u8 = (clean | wf) | lf;
            &&& f & 0b1 == 0
            &&& (f & 0b10 != 0) == (clean == 2)
            &&& (f & 0b100 != 0) == has_will
            &&& !has_will ==> f & 0b0011_1000 == 0
            &&& has_will ==> (f & 0b11000) >> 3u8 == q
            &&& has_will ==> (f & 0b0010_0000 != 0) == (retain == 0x20)
            &&& (f & 0b1000_0000 != 0) == (lf == 0x80 || lf == 0xC0)
            &&& (f & 0b0100_0000 != 0) == (lf == 0x40 || lf == 0xC0)
        }),
        clean | 0u8 == clean,
        (clean | 0x04u8 | (q << 3u8)) == (clean | (0x04u8 | (q << 3u8))),
        ((clean | ((0x04u8 | (q << 3u8)) | 0x20u8)) | 0u8) == (clean | ((0x04u8 | (q << 3u8)) | 0x20u8)),
        ((clean | (0x04u8 | (q << 3u8))) | 0u8) == (clean | (0x04u8 | (q << 3u8))),
{
}

/// The connect flags of a CONNECT, spelled out by their parts.
proof fn lemma_connect_flags_parts(c: ConnectView, l: Option<LoginView>, w: Option<LastWillView>)
    ensures
        ({
            let clean: u8 = if c.clean_session {
                2u8
            } else {
                0u8
            };
            let q: u8 = match w {
                Some(w) => qos_number(w.qos),
                None => 0u8,
            };
            let retain: u8 = match w {
                Some(w) => if w.retain {
                    0x20u8
                } else {
                    0u8
                },
                None => 0u8,
            };
            let wf: u8 = if w is Some {
                (0x04u8 | (q << 3u8)) | retain
            } else {
                0u8
            };
            let lf: u8 = match l {
                Some(l) => login_flags(l),
                None => 0u8,
            };
            &&& connect_flags(c, l, w) == (clean | wf) | lf
            &&& q <= 2
            &&& retain == 0 || retain == 0x20
            &&& lf == 0 || lf == 0x40 || lf == 0x80 || lf == 0xC0
        }),
{
    let clean: u8 = if c.clean_session {
        2u8
    } else {
        0u8
    };
    let q: u8 = match w {
        Some(w) => qos_number(w.qos),
        None => 0u8,
    };
    let retain: u8 = match w {
        Some(w) => if w.retain {
            0x20u8
        } else {
            0u8
        },
        None => 0u8,
    };
    lemma_flag_bits(clean, q, retain, w is Some, 0);
    let lf: u8 = match l {
        Some(l) => login_flags(l),
        None => 0u8,
    };
    let wf: u8 = if w is Some {
        (0x04u8 | (q << 3u8)) | retain
    } else {
        0u8
    };
    let cw = clean | wf;
    assert(cw | 0u8 == cw) by (bit_vector);
    assert(0x04u8 | (q << 3u8) | 0u8 == 0x04u8 | (q << 3u8)) by (bit_vector);
}

/// The connect flags that a CONNECT is written with, bit by bit: bit 0 is
/// reserved and clear, bit 1 asks for a clean session, bit 2 says there is
/// a will, bits 3-4 are its QoS (0, 1 or 2) and bit 5 its retain flag, all
/// clear without a will; bit 6 says a password follows and bit 7 a user
/// name, each set only when it is not empty.
pub proof fn lemma_connect_flag_bits(c: ConnectView, l: Option<LoginView>, w: Option<LastWillView>)
    ensures
        ({
            let f = connect_flags(c, l, w);
            &&& f & 0x01 == 0
            &&& (f & 0x02 != 0) == c.clean_session
            &&& (f & 0x04 != 0) == (w is Some)
            &&& w is None ==> f & 0x38 == 0
            &&& w matches Some(wv) ==> (f & 0x18) >> 3u8 == match wv.qos {
                crate::mqtt::common::QoS::AtMostOnce => 0u8,
                crate::mqtt::common::QoS::AtLeastOnce => 1u8,
                crate::mqtt::common::QoS::ExactlyOnce => 2u8,
            } && (f & 0x20 != 0) == wv.retain
            &&& (f & 0x80 != 0) == (l matches Some(lv) && lv.username.len() != 0)
            &&& (f & 0x40 != 0) == (l matches Some(lv) && lv.password.len() != 0)
        }),
{
    lemma_connect_flags_parts(c, l, w);
    let clean: u8 = if c.clean_session {
        2u8
    } else {
        0u8
    };
    let q: u8 = match w {
        Some(w) => qos_number(w.qos),
        None => 0u8,
    };
    let retain: u8 = match w {
        Some(w) => if w.retain {
            0x20u8
        } else {
            0u8
        },
        None => 0u8,
    };
    let lf: u8 = match l {
        Some(l) => login_flags(l),
        None => 0u8,
    };
    lemma_flag_bits(clean, q, retain, w is Some, lf);
}

/// The bytes of a CONNECT after its flags byte.
pub open spec fn connect_tail(c: ConnectView, l: Option<LoginView>, w: Option<LastWillView>) -> Seq<u8> {
    be_u16_bytes(c.keep_alive) + mqtt_string_encoding(c.client_id) + will_part(w) + login_part(l)
}

/// The login that reading back a written login gives: none where it has
/// neither a user name nor a password.
pub open spec fn login_read_back(l: Option<LoginView>) -> Option<LoginView> {
    match l {
        Some(lv) => if lv.username.len() == 0 && lv.password.len() == 0 {
            None
        } else {
            Some(lv)
        },
        None => None,
    }
}

/// Reading a CONNECT up to its flags byte.
#[verifier::rlimit(80)]
proof fn lemma_connect_read_head(c: ConnectView, l: Option<LoginView>, w: Option<LastWillView>, f: u8)
    requires
        connect_body_len(c, l, w) <= MAX_REMAINING_LENGTH,
        f & 0b1 == 0,
    ensures
        spec_parse_fixed_header(connect_encoding(c, l, w, f)) matches Ok(h) && h.byte1
            == MQTT_CONTROL_PACKET_TYPE_CONNECT && spec_connect_read(h, connect_encoding(c, l, w, f))
            == spec_connect_read_rest(4, f, connect_tail(c, l, w)),
{
    let n = connect_body_len(c, l, w);
    let e = connect_encoding(c, l, w, f);
    let t3 = connect_tail(c, l, w);
    let t1 = seq![MQTT_PROTOCOL_VERSION_3_1_1, f] + t3;
    let body = mqtt_bytes_encoding(protocol_name_bytes()) + t1;
    assert(e =~= fixed_header_encoding(MQTT_CONTROL_PACKET_TYPE_CONNECT, n) + body);
    lemma_fixed_header_roundtrip(MQTT_CONTROL_PACKET_TYPE_CONNECT, n, body);
    let h = spec_parse_fixed_header(e)->Ok_0;
    assert(e.skip(h.fixed_header_len as int) =~= body);
    lemma_mqtt_bytes_roundtrip(protocol_name_bytes(), t1);
    lemma_protocol_name();
    encode_utf8_valid_utf8("MQTT"@);
    assert(valid_utf8(protocol_name_bytes()));
    assert(t1.skip(1) =~= seq![f] + t3);
    assert((seq![f] + t3).skip(1) =~= t3);
    assert(spec_read_u8(t1) == (Ok::<u8, crate::mqtt::common::Error>(4u8), seq![f] + t3));
    assert(spec_read_u8(seq![f] + t3) == (Ok::<u8, crate::mqtt::common::Error>(f), t3));
}

/// Reading a CONNECT after its flags byte, given flags that announce its
/// parts as they are.
proof fn lemma_connect_read_tail(c: ConnectView, l: Option<LoginView>, w: Option<LastWillView>, f: u8)
    requires
        encode_utf8(c.client_id).len() <= 65535,
        c.client_id.len() > 0 || c.clean_session,
        (f & 0b10 != 0) == c.clean_session,
        match w {
            None => f & 0b100 == 0 && f & 0b0011_1000 == 0,
            Some(w) => {
                &&& f & 0b100 != 0
                &&& (f & 0b11000) >> 3u8 == qos_number(w.qos)
                &&& (f & 0b0010_0000 != 0) == w.retain
                &&& w.topic.len() <= 65535
                &&& w.message.len() <= 65535
            },
        },
        match l {
            None => f & 0b1000_0000 == 0 && f & 0b0100_0000 == 0,
            Some(l) => {
                &&& (f & 0b1000_0000 != 0) == (l.username.len() != 0)
                &&& (f & 0b0100_0000 != 0) == (l.password.len() != 0)
                &&& l.username.len() == 0 ==> l.password.len() == 0
                &&& encode_utf8(l.username).len() <= 65535
                &&& encode_utf8(l.password).len() <= 65535
            },
        },
    ensures
        spec_connect_read_rest(4, f, connect_tail(c, l, w)) == Ok::<
            (u8, ConnectView, Option<LoginView>, Option<LastWillView>),
            MQTTProtocolError,
        >((4u8, c, login_read_back(l), w)),
{
    let wp = will_part(w);
    let lp = login_part(l);
    let t5 = wp + lp;
    let t4 = mqtt_string_encoding(c.client_id) + t5;
    let t3 = connect_tail(c, l, w);
    reveal(spec_connect_read_rest);
    assert(t3 =~= be_u16_bytes(c.keep_alive) + t4);
    crate::buffer::lemma_be_u16_roundtrip(c.keep_alive);
    assert(t3.skip(2) =~= t4);
    assert(t3[0] == be_u16_bytes(c.keep_alive)[0] && t3[1] == be_u16_bytes(c.keep_alive)[1]);
    lemma_mqtt_bytes_roundtrip(encode_utf8(c.client_id), t5);
    encode_utf8_valid_utf8(c.client_id);
    encode_utf8_decode_utf8(c.client_id);
    if c.client_id.len() > 0 && encode_utf8(c.client_id).len() == 0 {
        assert(encode_utf8(c.client_id) =~= Seq::<u8>::empty());
        assert(decode_utf8(Seq::<u8>::empty()) =~= Seq::<char>::empty());
    }
    lemma_will_roundtrip(f, w, lp);
    assert(lp =~= lp + Seq::<u8>::empty());
    lemma_login_roundtrip(f, l, Seq::<u8>::empty());
}

/// A CONNECT written into an empty buffer reads back as written, at
/// protocol level 4: its client identifier is not empty unless it asks for
/// a clean session, its strings fit a length prefix, a login does not have
/// a password without a user name, and its remaining length fits four
/// bytes. A login with neither a user name nor a password reads back as
/// none.
pub proof fn lemma_connect_roundtrip(c: ConnectView, l: Option<LoginView>, w: Option<LastWillView>)
    requires
        encode_utf8(c.client_id).len() <= 65535,
        c.client_id.len() > 0 || c.clean_session,
        w matches Some(wv) ==> wv.topic.len() <= 65535 && wv.message.len() <= 65535,
        l matches Some(lv) ==> encode_utf8(lv.username).len() <= 65535 && encode_utf8(lv.password).len()
            <= 65535 && (lv.username.len() == 0 ==> lv.password.len() == 0),
        connect_body_len(c, l, w) <= MAX_REMAINING_LENGTH,
    ensures
        spec_parse_fixed_header(connect_encoding(c, l, w, connect_flags(c, l, w))) matches Ok(h) && h.byte1
            == MQTT_CONTROL_PACKET_TYPE_CONNECT && spec_connect_read(
            h,
            connect_encoding(c, l, w, connect_flags(c, l, w)),
        ) == Ok::<(u8, ConnectView, Option<LoginView>, Option<LastWillView>), MQTTProtocolError>(
            (4u8, c, login_read_back(l), w),
        ),
{
    let f = connect_flags(c, l, w);
    lemma_connect_flags_parts(c, l, w);
    let clean: u8 = if c.clean_session {
        2u8
    } else {
        0u8
    };
    let q: u8 = match w {
        Some(w) => qos_number(w.qos),
        None => 0u8,
    };
    let retain: u8 = match w {
        Some(w) => if w.retain {
            0x20u8
        } else {
            0u8
        },
        None => 0u8,
    };
    let lf: u8 = match l {
        Some(l) => login_flags(l),
        None => 0u8,
    };
    lemma_flag_bits(clean, q, retain, w is Some, lf);
    lemma_connect_read_head(c, l, w, f);
    lemma_connect_read_tail(c, l, w, f);
}

} // verus!
