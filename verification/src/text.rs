//! Building text from pieces: joining strings and writing numbers in
//! decimal.
use crate::buffer::string_from_utf8;
use vstd::prelude::*;
use vstd::std_specs::iter::IteratorSpec;
use vstd::slice::slice_to_vec;
use vstd::utf8::*;

verus! {

/// Encoding a concatenation encodes each part in turn.
pub proof fn lemma_encode_utf8_concat(a: Seq<char>, b: Seq<char>)
    ensures
        encode_utf8(a + b) == encode_utf8(a) + encode_utf8(b),
    decreases a.len(),
{
    if a.len() == 0 {
        assert(a + b =~= b);
        assert(encode_utf8(a) =~= Seq::<u8>::empty());
        assert(encode_utf8(a) + encode_utf8(b) =~= encode_utf8(b));
    } else {
        assert((a + b)[0] == a[0]);
        assert((a + b).drop_first() =~= a.drop_first() + b);
        lemma_encode_utf8_concat(a.drop_first(), b);
        assert(encode_utf8(a + b) =~= encode_utf8(a) + encode_utf8(b));
    }
}

/// The characters of a text, in order.
pub fn chars_of(s: &str) -> (r: Vec<char>)
    ensures
        r@ == s@,
{
    broadcast use vstd::string::axiom_spec_iter, vstd::string::next_postcondition;

    let ghost all = s@;
    let mut out: Vec<char> = Vec::new();
    let mut chars = s.chars();
    assert(chars.remaining() == all);
    loop
        invariant
            all == s@,
            out@ + chars.remaining() == all,
            chars.decrease() is Some,
        ensures
            out@ == all,
        decreases chars.decrease()->0,
    {
        let ghost before = chars.remaining();
        match chars.next() {
            None => {
                assert(out@ =~= all);
                break;
            },
            Some(c) => {
                out.push(c);
                assert(out@ + chars.remaining() =~= all);
            },
        }
    }
    out
}

/// `FromIterator<char>` for `String`: the text made of the given
/// characters, in order.
#[verifier::external_body]
pub(crate) fn string_from_chars(cs: &[char]) -> (r: String)
    ensures
        r@ == cs@,
{
    cs.iter().collect()
}

/// Whether two texts are the same, compared by their UTF-8 bytes.
pub fn str_eq(a: &str, b: &str) -> (r: bool)
    ensures
        r == (a@ == b@),
{
    proof {
        encode_utf8_decode_utf8(a@);
        encode_utf8_decode_utf8(b@);
    }
    let x = a.as_bytes();
    let y = b.as_bytes();
    if x.len() != y.len() {
        return false;
    }
    let mut i: usize = 0;
    while i < x.len()
        invariant
            x@ == encode_utf8(a@),
            y@ == encode_utf8(b@),
            x@.len() == y@.len(),
            i <= x@.len(),
            forall|j: int| 0 <= j < i ==> x@[j] == y@[j],
        decreases x@.len() - i,
    {
        if x[i] != y[i] {
            return false;
        }
        i = i + 1;
    }
    assert(x@ =~= y@);
    true
}

/// The text of `a` followed by that of `b`.
pub fn concat(a: &str, b: &str) -> (r: String)
    ensures
        r@ == a@ + b@,
{
    let mut v: Vec<u8> = slice_to_vec(a.as_bytes());
    let bb = b.as_bytes();
    let ghost start = v@;
    let mut i: usize = 0;
    while i < bb.len()
        invariant
            i <= bb@.len(),
            v@ == start + bb@.take(i as int),
        decreases bb@.len() - i,
    {
        v.push(bb[i]);
        assert(bb@.take(i + 1) =~= bb@.take(i as int).push(bb@[i as int]));
        i = i + 1;
    }
    proof {
        assert(bb@.take(i as int) =~= bb@);
        lemma_encode_utf8_concat(a@, b@);
        encode_utf8_valid_utf8(a@ + b@);
        encode_utf8_decode_utf8(a@ + b@);
    }
    match string_from_utf8(v) {
        Some(s) => s,
        None => String::new(),
    }
}

/// The character of a decimal digit.
pub open spec fn digit_char(d: nat) -> char {
    if d == 0 {
        '0'
    } else if d == 1 {
        '1'
    } else if d == 2 {
        '2'
    } else if d == 3 {
        '3'
    } else if d == 4 {
        '4'
    } else if d == 5 {
        '5'
    } else if d == 6 {
        '6'
    } else if d == 7 {
        '7'
    } else if d == 8 {
        '8'
    } else {
        '9'
    }
}

/// The decimal digits of `n`, most significant first.
pub open spec fn decimal_chars(n: nat) -> Seq<char>
    decreases n,
{
    if n < 10 {
        seq![digit_char(n)]
    } else {
        decimal_chars(n / 10).push(digit_char(n % 10))
    }
}

/// The ASCII bytes of the decimal digits of `n`.
pub open spec fn decimal_bytes(n: nat) -> Seq<u8>
    decreases n,
{
    if n < 10 {
        seq![(48 + n) as u8]
    } else {
        decimal_bytes(n / 10).push((48 + n % 10) as u8)
    }
}

proof fn lemma_decimal_encoding(n: nat)
    ensures
        is_ascii_chars(decimal_chars(n)),
        encode_utf8(decimal_chars(n)) == decimal_bytes(n),
    decreases n,
{
    let c = digit_char(n % 10);
    assert(c as u32 == 48 + n % 10);
    if n < 10 {
        assert(decimal_chars(n) == seq![c]);
        assert(is_ascii_chars(decimal_chars(n)));
        is_ascii_chars_encode_utf8(decimal_chars(n));
        assert(encode_utf8(decimal_chars(n)) =~= decimal_bytes(n));
    } else {
        lemma_decimal_encoding(n / 10);
        let d = decimal_chars(n / 10);
        assert(decimal_chars(n) =~= d + seq![c]);
        assert(is_ascii_chars(decimal_chars(n)));
        lemma_encode_utf8_concat(d, seq![c]);
        is_ascii_chars_encode_utf8(seq![c]);
        assert(encode_utf8(seq![c]) =~= seq![(48 + n % 10) as u8]);
        assert(encode_utf8(decimal_chars(n)) =~= decimal_bytes(n));
    }
}

fn decimal_digits(n: u64) -> (r: Vec<u8>)
    ensures
        r@ == decimal_bytes(n as nat),
    decreases n,
{
    if n < 10 {
        let mut v: Vec<u8> = Vec::new();
        v.push((48 + n) as u8);
        v
    } else {
        let mut v = decimal_digits(n / 10);
        v.push((48 + n % 10) as u8);
        v
    }
}

/// `n` written in decimal.
pub fn decimal(n: u64) -> (r: String)
    ensures
        r@ == decimal_chars(n as nat),
{
    let v = decimal_digits(n);
    proof {
        lemma_decimal_encoding(n as nat);
        encode_utf8_valid_utf8(decimal_chars(n as nat));
        encode_utf8_decode_utf8(decimal_chars(n as nat));
    }
    match string_from_utf8(v) {
        Some(s) => s,
        None => String::new(),
    }
}

} // verus!
