//! The directory payload: a known-port list rendered as a JSON array of
//! decimal integers, e.g. `[7000,8000]`.

use vstd::prelude::*;

verus! {

/// The character for one decimal digit.
pub open spec fn digit_char(d: nat) -> char {
    if d == 0 {
        '0'
    } else if d == 1 {
        '1'
    } else if d == 2 {
        '2'
    } else if d == 3 {
        '3'
    } else if d == 4 {
        '4'
    } else if d == 5 {
        '5'
    } else if d == 6 {
        '6'
    } else if d == 7 {
        '7'
    } else if d == 8 {
        '8'
    } else {
        '9'
    }
}

/// The decimal digits of `n`, most significant first, without leading
/// zeros (`0` is rendered as the single digit `0`).
pub open spec fn dec_digits(n: nat) -> Seq<char>
    decreases n,
{
    if n < 10 {
        seq![digit_char(n)]
    } else {
        dec_digits(n / 10).push(digit_char(n % 10))
    }
}

/// The elements of `s` in decimal, separated by commas.
pub open spec fn json_items(s: Seq<u16>) -> Seq<char>
    decreases s.len(),
{
    if s.len() == 0 {
        Seq::empty()
    } else if s.len() == 1 {
        dec_digits(s[0] as nat)
    } else {
        dec_digits(s[0] as nat) + seq![','] + json_items(s.drop_first())
    }
}

/// The JSON array holding the elements of `s`, in order, in the compact
/// form: no whitespace, decimal integers.
pub open spec fn json_u16_list(s: Seq<u16>) -> Seq<char> {
    seq!['['] + json_items(s) + seq![']']
}

/// Relies on serde_json::to_string for a vector of unsigned integers: the
/// compact form is the bracketed comma-separated decimal list, and for this
/// type serialization cannot fail (no map keys, no fallible Serialize).
#[verifier::external_body]
pub(crate) fn ports_json(v: &Vec<u16>) -> (r: String)
    ensures
        r@ == json_u16_list(v@),
{
    serde_json::to_string(v).unwrap_or_default()
}

} // verus!
