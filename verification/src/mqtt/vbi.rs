//! The variable byte integer in closed form: the sum of its seven-bit
//! groups times powers of 128, as the scan in `common` reads it.
use crate::mqtt::common::{spec_parse_fixed_header, vbi_decode, vbi_scan, Error};
use vstd::arithmetic::power::pow;
use vstd::prelude::*;

verus! {

/// The value of the first `k` bytes of `s` read as seven-bit groups, least
/// significant first: the sum of `(s[i] & 0x7F) * 128^i` for `i < k`.
pub open spec fn vbi_groups_value(s: Seq<u8>, k: nat) -> int
    decreases k,
{
    if k == 0 {
        0
    } else {
        vbi_groups_value(s, (k - 1) as nat) + (s[k - 1] % 128) * pow(128, (k - 1) as nat)
    }
}

/// Whether the variable byte integer at the start of `s` ends with its
/// `k`-th byte: that byte is among the first four, and it is the first
/// with its high bit clear.
pub open spec fn vbi_ends_at(s: Seq<u8>, k: nat) -> bool {
    &&& 1 <= k <= 4
    &&& k <= s.len()
    &&& s[k - 1] < 128
    &&& forall|j: int| 0 <= j < k - 1 ==> s[j] >= 128
}

/// Whether none of the first four bytes of `s` has its high bit clear.
pub open spec fn vbi_unterminated(s: Seq<u8>) -> bool {
    forall|j: int| 0 <= j < s.len() && j < 4 ==> s[j] >= 128
}

proof fn lemma_groups_value_bounds(s: Seq<u8>, k: nat)
    ensures
        0 <= vbi_groups_value(s, k) < pow(128, k),
    decreases k,
{
    reveal(pow);
    if k > 0 {
        let k1 = (k - 1) as nat;
        lemma_groups_value_bounds(s, k1);
        vstd::arithmetic::power::lemma_pow_positive(128, k1);
        let p = pow(128, k1);
        let d = (s[k - 1] % 128) as int;
        assert(0 <= d * p <= 127 * p) by (nonlinear_arith)
            requires
                0 <= d <= 127,
                p > 0,
        ;
        assert(pow(128, k) == 128 * p);
    }
}

proof fn lemma_scan_ends(s: Seq<u8>, k: nat, i: nat, acc: nat, weight: nat)
    requires
        vbi_ends_at(s, k),
        i < k,
        acc == vbi_groups_value(s, i),
        weight == pow(128, i),
    ensures
        (vbi_scan(s, i, acc, weight) matches Ok((c, v)) && c == k && v == vbi_groups_value(s, k)),
    decreases k - i,
{
    reveal(pow);
    let b = s[i as int];
    assert(vbi_groups_value(s, i + 1) == acc + (b % 128) * weight);
    if i + 1 == k {
        assert(b % 128 == b);
    } else {
        assert(b >= 128);
        assert(pow(128, i + 1) == 128 * pow(128, i));
        lemma_scan_ends(s, k, i + 1, acc + ((b % 128) as nat) * weight, weight * 128);
    }
}

proof fn lemma_scan_unterminated(s: Seq<u8>, i: nat, acc: nat, weight: nat)
    requires
        vbi_unterminated(s),
        i <= 3,
    ensures
        vbi_scan(s, i, acc, weight) == if s.len() < 4 {
            Err::<(nat, nat), Error>(Error::InsufficientBytes(1))
        } else {
            Err::<(nat, nat), Error>(Error::MalformedRemainingLength)
        },
    decreases 4 - i,
{
    if i < s.len() && i < 3 {
        let b = s[i as int];
        lemma_scan_unterminated(s, i + 1, acc + ((b % 128) as nat) * weight, weight * 128);
    }
}

/// The variable byte integer at the start of `s`, in closed form. Where its
/// `k`-th byte ends it, `k` bytes are read and its value is the sum of their
/// seven-bit groups times powers of 128, below `128^k`. Where none of the
/// first four bytes ends it, fewer than four bytes ask for one more and four
/// or more are malformed.
pub proof fn lemma_vbi_decode_closed_form(s: Seq<u8>, k: nat)
    ensures
        vbi_ends_at(s, k) ==> (vbi_decode(s) matches Ok((c, v)) && c == k && v == vbi_groups_value(s, k) && v
            < pow(128, k)),
        vbi_unterminated(s) ==> vbi_decode(s) == if s.len() < 4 {
            Err::<(nat, nat), Error>(Error::InsufficientBytes(1))
        } else {
            Err::<(nat, nat), Error>(Error::MalformedRemainingLength)
        },
        vbi_ends_at(s, k) || vbi_unterminated(s) || exists|m: nat| #[trigger] vbi_ends_at(s, m),
{
    reveal(pow);
    if vbi_ends_at(s, k) {
        lemma_scan_ends(s, k, 0, 0, 1);
        lemma_groups_value_bounds(s, k);
    }
    if vbi_unterminated(s) {
        lemma_scan_unterminated(s, 0, 0, 1);
    } else {
        let j = choose|j: int| 0 <= j < s.len() && j < 4 && s[j] < 128;
        lemma_first_end(s, j);
    }
}

proof fn lemma_first_end(s: Seq<u8>, j: int)
    requires
        0 <= j < s.len(),
        j < 4,
        s[j] < 128,
    ensures
        exists|m: nat| #[trigger] vbi_ends_at(s, m),
    decreases j,
{
    if forall|i: int| 0 <= i < j ==> s[i] >= 128 {
        assert(vbi_ends_at(s, (j + 1) as nat));
    } else {
        let i = choose|i: int| 0 <= i < j && s[i] < 128;
        lemma_first_end(s, i);
    }
}

/// The fixed header of `s` in closed form: fewer than two bytes ask for
/// the rest; where the remaining length ends at byte `k` after the first,
/// the header is `k + 1` bytes long and the remaining length is the sum of
/// the groups of those `k` bytes times powers of 128; where none of the
/// four bytes after the first ends it, fewer than five bytes ask for one
/// more and five or more are malformed.
pub proof fn lemma_parse_fixed_header_closed_form(s: Seq<u8>, k: nat)
    ensures
        s.len() < 2 ==> spec_parse_fixed_header(s) == Err::<crate::mqtt::common::FixedHeader, Error>(
            Error::InsufficientBytes((2 - s.len()) as usize),
        ),
        s.len() >= 2 && vbi_ends_at(s.skip(1), k) ==> (spec_parse_fixed_header(s) matches Ok(h) && h.byte1
            == s[0] && h.fixed_header_len == k + 1 && h.remaining_len == vbi_groups_value(s.skip(1), k)),
        s.len() >= 2 && vbi_unterminated(s.skip(1)) ==> spec_parse_fixed_header(s) == if s.len() < 5 {
            Err::<crate::mqtt::common::FixedHeader, Error>(Error::InsufficientBytes(1))
        } else {
            Err::<crate::mqtt::common::FixedHeader, Error>(Error::MalformedRemainingLength)
        },
{
    lemma_vbi_decode_closed_form(s.skip(1), k);
    if s.len() >= 2 && vbi_ends_at(s.skip(1), k) {
        reveal_with_fuel(pow, 5);
        assert(pow(128, 4) == 268435456);
        vstd::arithmetic::power::lemma_pow_increases(128, k, 4);
    }
}

} // verus!
