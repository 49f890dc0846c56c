//! The user name and password of a CONNECT.
use crate::buffer::{bytes_as_slice, bytes_mut_seq, bytes_seq, string_from_utf8};
use crate::mqtt::common::{
    mqtt_string_encoding, read_mqtt_bytes, spec_read_mqtt_bytes, write_mqtt_string, Login, LoginView,
};
use crate::mqtt::mqtt_protocol_error::{spec_from_error, MQTTProtocolError};
use bytes::{Bytes, BytesMut};
use vstd::prelude::*;
use vstd::slice::slice_to_vec;
use vstd::utf8::*;

verus! {

/// The bytes a string takes when it is written, none when it is empty.
pub open spec fn optional_string_len(t: Seq<char>) -> nat {
    if t.len() == 0 {
        0
    } else {
        2 + encode_utf8(t).len()
    }
}

/// A string as it is written when it is not empty.
pub open spec fn optional_string_encoding(t: Seq<char>) -> Seq<u8> {
    if t.len() == 0 {
        Seq::empty()
    } else {
        mqtt_string_encoding(t)
    }
}

/// The number of bytes a login takes.
pub open spec fn login_len(l: LoginView) -> nat {
    optional_string_len(l.username) + optional_string_len(l.password)
}

/// The bytes of a login: the user name, then the password, each only when
/// it is not empty.
pub open spec fn login_encoding(l: LoginView) -> Seq<u8> {
    optional_string_encoding(l.username) + optional_string_encoding(l.password)
}

/// The connect flags that a login sets: one for a user name, one for a
/// password.
pub open spec fn login_flags(l: LoginView) -> u8 {
    if l.username.len() != 0 && l.password.len() != 0 {
        0xC0u8
    } else if l.username.len() != 0 {
        0x80u8
    } else if l.password.len() != 0 {
        0x40u8
    } else {
        0u8
    }
}

/// What reading a string whose flag is `present` gives: the empty string
/// where the flag is clear.
pub open spec fn spec_read_optional_string(present: bool, s: Seq<u8>) -> (
    Result<Seq<char>, MQTTProtocolError>,
    Seq<u8>,
) {
    if !present {
        (Ok(Seq::empty()), s)
    } else {
        match spec_read_mqtt_bytes(s) {
            (Err(e), r) => (Err(spec_from_error(e)), r),
            (Ok(b), r) => if valid_utf8(b) {
                (Ok(decode_utf8(b)), r)
            } else {
                (Err(MQTTProtocolError::PayloadNotUtf8), r)
            },
        }
    }
}

/// What reading the login that the connect flags announce gives, and the
/// bytes left.
#[verifier::opaque]
pub open spec fn spec_login_read(connect_flags: u8, s: Seq<u8>) -> (
    Result<Option<LoginView>, MQTTProtocolError>,
    Seq<u8>,
) {
    if connect_flags & 0b1000_0000 == 0 && connect_flags & 0b0100_0000 != 0 {
        // a password without a user name
        (Err(MQTTProtocolError::IncorrectPacketFormat), s)
    } else {
        match spec_read_optional_string(connect_flags & 0b1000_0000 != 0, s) {
            (Err(e), r1) => (Err(e), r1),
            (Ok(username), r1) => match spec_read_optional_string(connect_flags & 0b0100_0000 != 0, r1) {
                (Err(e), r2) => (Err(e), r2),
                (Ok(password), r2) => if username.len() == 0 && password.len() == 0 {
                    (Ok(None), r2)
                } else {
                    (Ok(Some(LoginView { username, password })), r2)
                },
            },
        }
    }
}

fn read_optional_string(present: bool, bytes: &mut Bytes) -> (r: Result<String, MQTTProtocolError>)
    ensures
        ({
            let (sr, rest) = spec_read_optional_string(present, bytes_seq(*old(bytes)));
            &&& bytes_seq(*final(bytes)) == rest
            &&& match (r, sr) {
                (Ok(v), Ok(sv)) => v@ == sv,
                (Err(e), Err(se)) => e == se,
                _ => false,
            }
        }),
{
    if !present {
        return Ok(String::new());
    }
    let raw = match read_mqtt_bytes(bytes) {
        Ok(b) => b,
        Err(e) => return Err(MQTTProtocolError::from_error(e)),
    };
    match string_from_utf8(slice_to_vec(bytes_as_slice(&raw))) {
        Some(t) => Ok(t),
        None => Err(MQTTProtocolError::PayloadNotUtf8),
    }
}

pub fn read(connect_flags: u8, bytes: &mut Bytes) -> (r: Result<Option<Login>, MQTTProtocolError>)
    ensures
        ({
            let (sr, rest) = spec_login_read(connect_flags, bytes_seq(*old(bytes)));
            &&& bytes_seq(*final(bytes)) == rest
            &&& match (r, sr) {
                (Ok(None), Ok(None)) => true,
                (Ok(Some(l)), Ok(Some(sl))) => l@ == sl,
                (Err(e), Err(se)) => e == se,
                _ => false,
            }
        }),
{
    proof {
        reveal(spec_login_read);
    }
    // if username is zero and password is not zero, return incorrect packet format
    if (connect_flags & 0b1000_0000) == 0 && (connect_flags & 0b0100_0000) != 0 {
        return Err(MQTTProtocolError::IncorrectPacketFormat);
    }
    let username = match read_optional_string((connect_flags & 0b1000_0000) != 0, bytes) {
        Ok(u) => u,
        Err(e) => return Err(e),
    };
    let password = match read_optional_string((connect_flags & 0b0100_0000) != 0, bytes) {
        Ok(p) => p,
        Err(e) => return Err(e),
    };
    if username.as_str().is_empty() && password.as_str().is_empty() {
        Ok(None)
    } else {
        Ok(Some(Login { username, password }))
    }
}

pub fn len(login: &Login) -> (r: usize)
    requires
        login_len(login@) <= usize::MAX,
    ensures
        r == login_len(login@),
{
    let mut len: usize = 0;
    if !login.username.as_str().is_empty() {
        len = len + 2;
        len = len + login.username.as_str().len();
    }
    if !login.password.as_str().is_empty() {
        len = len + 2;
        len = len + login.password.as_str().len();
    }
    len
}

pub fn write(login: &Login, buffer: &mut BytesMut) -> (r: u8)
    requires
        bytes_mut_seq(*old(buffer)).len() + login_len(login@) <= usize::MAX,
    ensures
        r == login_flags(login@),
        bytes_mut_seq(*final(buffer)) == bytes_mut_seq(*old(buffer)) + login_encoding(login@),
{
    let mut connect_flags: u8 = 0;
    if !login.username.as_str().is_empty() {
        connect_flags = 0x80;
        write_mqtt_string(buffer, login.username.as_str());
    }
    if !login.password.as_str().is_empty() {
        connect_flags = connect_flags | 0x40;
        write_mqtt_string(buffer, login.password.as_str());
    }
    assert(0x80u8 | 0x40u8 == 0xC0u8) by (bit_vector);
    assert(0u8 | 0x40u8 == 0x40u8) by (bit_vector);
    assert(bytes_mut_seq(*buffer) =~= bytes_mut_seq(*old(buffer)) + login_encoding(login@));
    connect_flags
}

/// A string that is written only when it is not empty reads back, given
/// the flag that says whether it was written.
proof fn lemma_optional_string_roundtrip(t: Seq<char>, rest: Seq<u8>)
    requires
        encode_utf8(t).len() <= 65535,
    ensures
        spec_read_optional_string(t.len() != 0, optional_string_encoding(t) + rest) == (
            Ok::<Seq<char>, MQTTProtocolError>(t),
            rest,
        ),
{
    if t.len() == 0 {
        assert(Seq::<u8>::empty() + rest =~= rest);
        assert(t =~= Seq::<char>::empty());
    } else {
        crate::mqtt::common::lemma_mqtt_bytes_roundtrip(encode_utf8(t), rest);
        encode_utf8_valid_utf8(t);
        encode_utf8_decode_utf8(t);
    }
}

/// A login reads back as written, given flags that announce its user name
/// and password as they are; a login with neither reads back as none, and
/// so does no login.
pub proof fn lemma_login_roundtrip(connect_flags: u8, l: Option<LoginView>, rest: Seq<u8>)
    requires
        match l {
            None => connect_flags & 0b1000_0000 == 0 && connect_flags & 0b0100_0000 == 0,
            Some(l) => {
                &&& (connect_flags & 0b1000_0000 != 0) == (l.username.len() != 0)
                &&& (connect_flags & 0b0100_0000 != 0) == (l.password.len() != 0)
                &&& l.username.len() == 0 ==> l.password.len() == 0
                &&& encode_utf8(l.username).len() <= 65535
                &&& encode_utf8(l.password).len() <= 65535
            },
        },
    ensures
        spec_login_read(connect_flags, match l {
            Some(l) => login_encoding(l),
            None => Seq::empty(),
        } + rest) == (Ok::<Option<LoginView>, MQTTProtocolError>(match l {
            Some(lv) => if lv.username.len() == 0 && lv.password.len() == 0 {
                None
            } else {
                Some(lv)
            },
            None => None,
        }), rest),
{
    reveal(spec_login_read);
    match l {
        None => {
            assert(Seq::<u8>::empty() + rest =~= rest);
            assert(spec_read_optional_string(false, rest) == (Ok::<Seq<char>, MQTTProtocolError>(Seq::empty()), rest));
        },
        Some(lv) => {
            let tail = optional_string_encoding(lv.password) + rest;
            assert(login_encoding(lv) + rest =~= optional_string_encoding(lv.username) + tail);
            lemma_optional_string_roundtrip(lv.username, tail);
            lemma_optional_string_roundtrip(lv.password, rest);
        },
    }
}

/// A login is written user name first, then password: two bytes of length
/// and the UTF-8 bytes of the user name, then the same for the password,
/// each string only when it is not empty. Read with the flags of what is
/// there, such bytes give the user name from the first string and the
/// password from the second, and leave what follows. A password flag
/// without a user-name flag is refused.
pub proof fn lemma_login_wire_order(u: Seq<char>, p: Seq<char>, rest: Seq<u8>)
    requires
        encode_utf8(u).len() <= 65535,
        encode_utf8(p).len() <= 65535,
        u.len() > 0,
    ensures
        ({
            let ub = encode_utf8(u);
            let pb = encode_utf8(p);
            let us = seq![(ub.len() / 256) as u8, (ub.len() % 256) as u8] + ub;
            let ps = seq![(pb.len() / 256) as u8, (pb.len() % 256) as u8] + pb;
            let l = LoginView { username: u, password: p };
            &&& p.len() > 0 ==> login_encoding(l) == us + ps && login_flags(l) == 0xC0u8
            &&& p.len() > 0 ==> spec_login_read(0xC0u8, us + ps + rest) == (
                Ok::<Option<LoginView>, MQTTProtocolError>(Some(l)),
                rest,
            )
            &&& p.len() == 0 ==> login_encoding(l) == us && login_flags(l) == 0x80u8
            &&& p.len() == 0 ==> spec_login_read(0x80u8, us + rest) == (
                Ok::<Option<LoginView>, MQTTProtocolError>(Some(l)),
                rest,
            )
            &&& spec_login_read(0x40u8, rest).0 == Err::<Option<LoginView>, MQTTProtocolError>(
                MQTTProtocolError::IncorrectPacketFormat,
            )
        }),
{
    let ub = encode_utf8(u);
    let pb = encode_utf8(p);
    let us = seq![(ub.len() / 256) as u8, (ub.len() % 256) as u8] + ub;
    let ps = seq![(pb.len() / 256) as u8, (pb.len() % 256) as u8] + pb;
    let l = LoginView { username: u, password: p };
    assert(mqtt_string_encoding(u) =~= us);
    assert(mqtt_string_encoding(p) =~= ps);
    assert(0xC0u8 & 0b1000_0000 != 0 && 0xC0u8 & 0b0100_0000 != 0) by (bit_vector);
    assert(0x80u8 & 0b1000_0000 != 0 && 0x80u8 & 0b0100_0000 == 0) by (bit_vector);
    assert(0x40u8 & 0b1000_0000 == 0 && 0x40u8 & 0b0100_0000 != 0) by (bit_vector);
    if p.len() > 0 {
        assert(login_encoding(l) =~= us + ps);
        lemma_login_roundtrip(0xC0u8, Some(l), rest);
    } else {
        assert(login_encoding(l) =~= us);
        lemma_login_roundtrip(0x80u8, Some(l), rest);
    }
    reveal(spec_login_read);
}

/// Whether two byte strings are equal.
pub fn bytes_equal(a: &[u8], b: &[u8]) -> (r: bool)
    ensures
        r == (a@ == b@),
{
    if a.len() != b.len() {
        return false;
    }
    let mut i: usize = 0;
    while i < a.len()
        invariant
            a@.len() == b@.len(),
            i <= a@.len(),
            forall|j: int| 0 <= j < i ==> a@[j] == b@[j],
        decreases a@.len() - i,
    {
        if a[i] != b[i] {
            return false;
        }
        i = i + 1;
    }
    assert(a@ =~= b@);
    true
}

/// Whether the login carries exactly the given user name and password.
pub fn validate(login: &Login, username: &str, password: &str) -> (r: bool)
    ensures
        r == (login.username@ == username@ && login.password@ == password@),
{
    let same_user = bytes_equal(login.username.as_str().as_bytes(), username.as_bytes());
    let same_password = bytes_equal(login.password.as_str().as_bytes(), password.as_bytes());
    proof {
        encode_utf8_decode_utf8(login.username@);
        encode_utf8_decode_utf8(username@);
        encode_utf8_decode_utf8(login.password@);
        encode_utf8_decode_utf8(password@);
    }
    same_user && same_password
}

} // verus!
