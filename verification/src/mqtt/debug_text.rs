//! The text that `{:?}` writes for the values that packets and their
//! properties hold, from which their descriptions are built.
use crate::buffer::bytes_seq;
use crate::mqtt::common::pairs_view;
use crate::text::{concat, decimal, decimal_chars, string_from_chars};
use bytes::Bytes;
use vstd::prelude::*;

verus! {

/// The text that `{:?}` writes for a string: the string between double
/// quotes, with quotes, backslashes, control and unprintable characters
/// escaped.
pub uninterp spec fn str_debug_text(s: Seq<char>) -> Seq<char>;

/// `Debug` for `str`: the text that `format!("{:?}", s)` gives.
#[verifier::external_body]
pub(crate) fn debug_str(s: &str) -> (r: String)
    ensures
        r@ == str_debug_text(s@),
{
    format!("{:?}", s)
}

/// A lower-case hexadecimal digit.
pub open spec fn hex_digit(d: u8) -> char {
    if d < 10 {
        ('0' as u8 + d) as char
    } else {
        ('a' as u8 + d - 10) as char
    }
}

/// The text that `{:?}` writes for one byte of a `Bytes`: an escape for a
/// line feed, carriage return, tab, backslash, double quote or 0, the
/// character itself where it is printable ASCII, else `\x` and two
/// hexadecimal digits.
pub open spec fn byte_debug_text(b: u8) -> Seq<char> {
    if b == 10 {
        seq!['\\', 'n']
    } else if b == 13 {
        seq!['\\', 'r']
    } else if b == 9 {
        seq!['\\', 't']
    } else if b == 92 || b == 34 {
        seq!['\\', b as char]
    } else if b == 0 {
        seq!['\\', '0']
    } else if 0x20 <= b < 0x7f {
        seq![b as char]
    } else {
        seq!['\\', 'x', hex_digit(b / 16), hex_digit(b % 16)]
    }
}

/// The escaped bytes, in order.
pub open spec fn bytes_debug_items(s: Seq<u8>) -> Seq<char>
    decreases s.len(),
{
    if s.len() == 0 {
        Seq::empty()
    } else {
        bytes_debug_items(s.drop_last()) + byte_debug_text(s.last())
    }
}

/// The text that `{:?}` writes for a `Bytes`: `b"`, the escaped bytes,
/// then `"`.
pub open spec fn bytes_debug_text(s: Seq<u8>) -> Seq<char> {
    seq!['b', '"'] + bytes_debug_items(s) + seq!['"']
}

/// `Debug` for `Bytes`: the text that `format!("{:?}", b)` gives, as the
/// bytes crate writes it.
#[verifier::external_body]
pub(crate) fn debug_bytes(b: &Bytes) -> (r: String)
    ensures
        r@ == bytes_debug_text(bytes_seq(*b)),
{
    format!("{:?}", b)
}

/// `{:?}` of an optional string.
pub open spec fn opt_str_debug_text(o: Option<Seq<char>>) -> Seq<char> {
    match o {
        Some(s) => seq!['S', 'o', 'm', 'e', '('] + str_debug_text(s) + seq![')'],
        None => seq!['N', 'o', 'n', 'e'],
    }
}

/// `{:?}` of optional bytes.
pub open spec fn opt_bytes_debug_text(o: Option<Seq<u8>>) -> Seq<char> {
    match o {
        Some(s) => seq!['S', 'o', 'm', 'e', '('] + bytes_debug_text(s) + seq![')'],
        None => seq!['N', 'o', 'n', 'e'],
    }
}

/// `{:?}` of a pair of strings.
pub open spec fn pair_debug_text(kv: (Seq<char>, Seq<char>)) -> Seq<char> {
    seq!['('] + str_debug_text(kv.0) + seq![',', ' '] + str_debug_text(kv.1) + seq![')']
}

/// The pairs' texts, separated by `, `.
pub open spec fn pairs_debug_items(s: Seq<(Seq<char>, Seq<char>)>) -> Seq<char>
    decreases s.len(),
{
    if s.len() == 0 {
        Seq::empty()
    } else if s.len() == 1 {
        pair_debug_text(s[0])
    } else {
        pairs_debug_items(s.drop_last()) + seq![',', ' '] + pair_debug_text(s.last())
    }
}

/// `{:?}` of a list of pairs of strings.
pub open spec fn pairs_debug_text(s: Seq<(Seq<char>, Seq<char>)>) -> Seq<char> {
    seq!['['] + pairs_debug_items(s) + seq![']']
}

/// `{:?}` of an optional string.
pub fn debug_opt_string(o: &Option<String>) -> (r: String)
    ensures
        r@ == opt_str_debug_text(
            match *o {
                Some(s) => Some(s@),
                None => None,
            },
        ),
{
    match o {
        Some(s) => {
            let a = concat("Some(", debug_str(s.as_str()).as_str());
            let r = concat(a.as_str(), ")");
            proof {
                reveal_strlit("Some(");
                reveal_strlit(")");
            }
            assert(r@ =~= opt_str_debug_text(Some(s@)));
            r
        },
        None => {
            let r = concat("", "None");
            proof {
                reveal_strlit("");
                reveal_strlit("None");
            }
            assert(r@ =~= opt_str_debug_text(None));
            r
        },
    }
}

/// `{:?}` of optional bytes.
pub fn debug_opt_bytes(o: &Option<Bytes>) -> (r: String)
    ensures
        r@ == opt_bytes_debug_text(
            match *o {
                Some(b) => Some(bytes_seq(b)),
                None => None,
            },
        ),
{
    match o {
        Some(b) => {
            let a = concat("Some(", debug_bytes(b).as_str());
            let r = concat(a.as_str(), ")");
            proof {
                reveal_strlit("Some(");
                reveal_strlit(")");
            }
            assert(r@ =~= opt_bytes_debug_text(Some(bytes_seq(*b))));
            r
        },
        None => {
            let r = concat("", "None");
            proof {
                reveal_strlit("");
                reveal_strlit("None");
            }
            assert(r@ =~= opt_bytes_debug_text(None));
            r
        },
    }
}

/// `{:?}` of a pair of strings.
fn debug_pair(kv: &(String, String)) -> (r: String)
    ensures
        r@ == pair_debug_text((kv.0@, kv.1@)),
{
    let a = concat("(", debug_str(kv.0.as_str()).as_str());
    let b = concat(a.as_str(), ", ");
    let c = concat(b.as_str(), debug_str(kv.1.as_str()).as_str());
    let r = concat(c.as_str(), ")");
    proof {
        reveal_strlit("(");
        reveal_strlit(", ");
        reveal_strlit(")");
    }
    assert(r@ =~= pair_debug_text((kv.0@, kv.1@)));
    r
}

/// `{:?}` of a list of pairs of strings.
pub fn debug_pairs(v: &Vec<(String, String)>) -> (r: String)
    ensures
        r@ == pairs_debug_text(pairs_view(v@)),
{
    let ghost ps = pairs_view(v@);
    let mut text = concat("", "[");
    proof {
        reveal_strlit("");
        reveal_strlit("[");
        reveal_strlit(", ");
        reveal_strlit("]");
        assert(ps.take(0) =~= Seq::<(Seq<char>, Seq<char>)>::empty());
    }
    assert(text@ =~= seq!['['] + pairs_debug_items(ps.take(0)));
    let mut i: usize = 0;
    while i < v.len()
        invariant
            i <= v@.len(),
            ps == pairs_view(v@),
            ps.len() == v@.len(),
            text@ == seq!['['] + pairs_debug_items(ps.take(i as int)),
            ", "@ == seq![',', ' '],
        decreases v@.len() - i,
    {
        let item = debug_pair(&v[i]);
        let ghost t = ps.take(i + 1);
        assert(t.drop_last() =~= ps.take(i as int));
        assert(t.last() == ps[i as int]);
        if i > 0 {
            let sep = concat(text.as_str(), ", ");
            text = concat(sep.as_str(), item.as_str());
            assert(text@ =~= seq!['['] + pairs_debug_items(t));
        } else {
            assert(ps.take(i as int) =~= Seq::<(Seq<char>, Seq<char>)>::empty());
            text = concat(text.as_str(), item.as_str());
            assert(text@ =~= seq!['['] + pairs_debug_items(t));
        }
        i = i + 1;
    }
    assert(ps.take(i as int) =~= ps);
    let r = concat(text.as_str(), "]");
    proof {
        reveal_strlit("]");
    }
    assert(r@ =~= pairs_debug_text(ps));
    r
}

/// `{:?}` of an optional number.
pub open spec fn opt_num_debug_text(o: Option<nat>) -> Seq<char> {
    match o {
        Some(n) => "Some("@ + decimal_chars(n) + ")"@,
        None => "None"@,
    }
}

pub open spec fn nat_of_u8(o: Option<u8>) -> Option<nat> {
    match o {
        Some(v) => Some(v as nat),
        None => None,
    }
}

pub open spec fn nat_of_u16(o: Option<u16>) -> Option<nat> {
    match o {
        Some(v) => Some(v as nat),
        None => None,
    }
}

pub open spec fn nat_of_u32(o: Option<u32>) -> Option<nat> {
    match o {
        Some(v) => Some(v as nat),
        None => None,
    }
}

/// `{:?}` of an optional number.
fn debug_opt_num(o: Option<u64>) -> (r: String)
    ensures
        r@ == opt_num_debug_text(
            match o {
                Some(v) => Some(v as nat),
                None => None,
            },
        ),
{
    match o {
        Some(v) => {
            let a = concat("Some(", decimal(v).as_str());
            concat(a.as_str(), ")")
        },
        None => {
            proof {
                reveal_strlit("");
            }
            concat("", "None")
        },
    }
}

pub fn debug_opt_u8(o: Option<u8>) -> (r: String)
    ensures
        r@ == opt_num_debug_text(nat_of_u8(o)),
{
    debug_opt_num(
        match o {
            Some(v) => Some(v as u64),
            None => None,
        },
    )
}

pub fn debug_opt_u16(o: Option<u16>) -> (r: String)
    ensures
        r@ == opt_num_debug_text(nat_of_u16(o)),
{
    debug_opt_num(
        match o {
            Some(v) => Some(v as u64),
            None => None,
        },
    )
}

pub fn debug_opt_u32(o: Option<u32>) -> (r: String)
    ensures
        r@ == opt_num_debug_text(nat_of_u32(o)),
{
    debug_opt_num(
        match o {
            Some(v) => Some(v as u64),
            None => None,
        },
    )
}

/// `{}` of a boolean.
pub open spec fn bool_text(b: bool) -> Seq<char> {
    if b {
        "true"@
    } else {
        "false"@
    }
}

pub fn bool_str(b: bool) -> (r: &'static str)
    ensures
        r@ == bool_text(b),
{
    if b {
        "true"
    } else {
        "false"
    }
}

/// The numbers' texts, separated by `, `.
pub open spec fn nums_debug_items(s: Seq<usize>) -> Seq<char>
    decreases s.len(),
{
    if s.len() == 0 {
        Seq::empty()
    } else if s.len() == 1 {
        decimal_chars(s[0] as nat)
    } else {
        nums_debug_items(s.drop_last()) + ", "@ + decimal_chars(s.last() as nat)
    }
}

/// `{:?}` of a list of numbers.
pub open spec fn nums_debug_text(s: Seq<usize>) -> Seq<char> {
    "["@ + nums_debug_items(s) + "]"@
}

/// `{:?}` of a list of numbers.
pub fn debug_usizes(v: &Vec<usize>) -> (r: String)
    ensures
        r@ == nums_debug_text(v@),
{
    let mut text = concat("", "[");
    proof {
        reveal_strlit("");
        assert(v@.take(0) =~= Seq::<usize>::empty());
    }
    assert(text@ =~= "["@ + nums_debug_items(v@.take(0)));
    let mut i: usize = 0;
    while i < v.len()
        invariant
            i <= v@.len(),
            text@ == "["@ + nums_debug_items(v@.take(i as int)),
        decreases v@.len() - i,
    {
        let item = decimal(v[i] as u64);
        let ghost t = v@.take(i + 1);
        assert(t.drop_last() =~= v@.take(i as int));
        assert(t.last() == v@[i as int]);
        if i > 0 {
            let sep = concat(text.as_str(), ", ");
            text = concat(sep.as_str(), item.as_str());
            assert(text@ =~= "["@ + nums_debug_items(t));
        } else {
            assert(v@.take(i as int) =~= Seq::<usize>::empty());
            text = concat(text.as_str(), item.as_str());
            assert(text@ =~= "["@ + nums_debug_items(t));
        }
        i = i + 1;
    }
    assert(v@.take(i as int) =~= v@);
    concat(text.as_str(), "]")
}

/// The value of the binary digit at position `i` of a byte, from the most
/// significant.
pub open spec fn place_value(i: int) -> int {
    if i <= 0 {
        128
    } else if i == 1 {
        64
    } else if i == 2 {
        32
    } else if i == 3 {
        16
    } else if i == 4 {
        8
    } else if i == 5 {
        4
    } else if i == 6 {
        2
    } else {
        1
    }
}

/// The binary digit of `b` at position `i` from the most significant.
pub open spec fn bit_char(b: u8, i: int) -> char {
    if (b as int / place_value(i)) % 2 == 1 {
        '1'
    } else {
        '0'
    }
}

/// `{:#010b}` of a byte: `0b`, then its eight binary digits.
pub open spec fn byte_binary_text(b: u8) -> Seq<char> {
    "0b"@ + Seq::new(8, |i: int| bit_char(b, i))
}

/// `{:#010b}` of a byte.
pub fn binary_byte(b: u8) -> (r: String)
    ensures
        r@ == byte_binary_text(b),
{
    let mut digits: Vec<char> = Vec::new();
    let mut div: u8 = 128;
    let mut i: usize = 0;
    while i < 8
        invariant
            i <= 8,
            digits@.len() == i,
            i < 8 ==> div as int == place_value(i as int),
            forall|j: int| 0 <= j < i ==> digits@[j] == bit_char(b, j),
        decreases 8 - i,
    {
        let c = if (b / div) % 2 == 1 {
            '1'
        } else {
            '0'
        };
        digits.push(c);
        div = div / 2;
        i = i + 1;
    }
    let d = string_from_chars(digits.as_slice());
    let r = concat("0b", d.as_str());
    assert(r@ =~= byte_binary_text(b));
    r
}

} // verus!
