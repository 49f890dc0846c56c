//! The topic filters of a SUBSCRIBE in MQTT 5.0: a length-prefixed path,
//! then the options byte with QoS, no local, retain as published and
//! retain handling.
use crate::buffer::bytes_mut_seq;
use crate::buffer::bytes_mut_put_u8;
use crate::mqtt::common::{
    mqtt_string_encoding, qos_number, qos_to_u8, retain_forward_rule_number, write_mqtt_string, Filter,
    FilterView, RetainForwardRule,
};
use bytes::BytesMut;
use vstd::prelude::*;
use vstd::utf8::*;

verus! {

/// The options byte of a filter.
pub open spec fn filter_options(f: FilterView) -> u8 {
    (qos_number(f.qos) + (if f.no_local {
        4int
    } else {
        0int
    }) + (if f.preserve_retain {
        8int
    } else {
        0int
    }) + 16 * retain_forward_rule_number(f.retain_handling)) as u8
}

/// The bytes of one filter: the path, then the options byte.
pub open spec fn filter5_encoding(f: FilterView) -> Seq<u8> {
    mqtt_string_encoding(f.path) + seq![filter_options(f)]
}

/// The number of bytes a filter takes.
pub open spec fn filter5_len(f: FilterView) -> nat {
    2 + encode_utf8(f.path).len() + 1
}

pub fn len(filter: &Filter) -> (r: usize)
    requires
        filter5_len(filter@) <= usize::MAX,
    ensures
        r == filter5_len(filter@),
{
    // filter len + filter + options
    2 + filter.path.as_str().len() + 1
}

proof fn lemma_options_bits(q: u8, nl: u8, pr: u8, rh: u8)
    by (bit_vector)
    requires
        q <= 2,
        nl == 0 || nl == 4,
        pr == 0 || pr == 8,
        rh == 0 || rh == 16 || rh == 32,
    ensures
        ((q | nl) | pr) | rh == q + nl + pr + rh,
{
}

pub fn write(filter: &Filter, buffer: &mut BytesMut)
    requires
        bytes_mut_seq(*old(buffer)).len() + filter5_len(filter@) <= usize::MAX,
    ensures
        bytes_mut_seq(*final(buffer)) == bytes_mut_seq(*old(buffer)) + filter5_encoding(filter@),
{
    let q: u8 = qos_to_u8(filter.qos);
    let nl: u8 = if filter.no_local {
        0b0000_0100
    } else {
        0
    };
    let pr: u8 = if filter.preserve_retain {
        0b0000_1000
    } else {
        0
    };
    let rh: u8 = match filter.retain_handling {
        RetainForwardRule::OnEverySubscribe => 0b0000_0000,
        RetainForwardRule::OnNewSubscribe => 0b0001_0000,
        RetainForwardRule::Never => 0b0010_0000,
    };
    proof {
        lemma_options_bits(q, nl, pr, rh);
    }
    let options: u8 = ((q | nl) | pr) | rh;
    write_mqtt_string(buffer, filter.path.as_str());
    bytes_mut_put_u8(buffer, options);
    assert(bytes_mut_seq(*buffer) =~= bytes_mut_seq(*old(buffer)) + filter5_encoding(filter@));
}

} // verus!
