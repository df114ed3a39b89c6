//! Base64 encoding, through the `base64` crate.

use base64::Engine;
use vstd::prelude::*;

verus! {

/// The character of the standard Base64 alphabet for the 6-bit value `v`.
pub open spec fn base64_digit(v: int) -> char {
    if v < 26 {
        (65 + v) as char
    } else if v < 52 {
        (97 + v - 26) as char
    } else if v < 62 {
        (48 + v - 52) as char
    } else if v == 62 {
        '+'
    } else {
        '/'
    }
}

/// The standard Base64 encoding of `d` (RFC 4648, section 4): each group of
/// three bytes becomes four characters, and a last group of one or two
/// bytes is padded with `=`.
pub open spec fn base64_of(d: Seq<u8>) -> Seq<char>
    decreases d.len(),
{
    if d.len() == 0 {
        seq![]
    } else {
        let a = d[0] as int;
        let b = if d.len() > 1 { d[1] as int } else { 0 };
        let c = if d.len() > 2 { d[2] as int } else { 0 };
        if d.len() == 1 {
            seq![base64_digit(a / 4), base64_digit((a % 4) * 16), '=', '=']
        } else if d.len() == 2 {
            seq![base64_digit(a / 4), base64_digit((a % 4) * 16 + b / 16), base64_digit((b % 16) * 4), '=']
        } else {
            seq![
                base64_digit(a / 4),
                base64_digit((a % 4) * 16 + b / 16),
                base64_digit((b % 16) * 4 + c / 64),
                base64_digit(c % 64),
            ] + base64_of(d.skip(3))
        }
    }
}

/// Encodes `data` with the `STANDARD` engine of the `base64` crate, which
/// uses the standard alphabet and pads with `=`.
#[verifier::external_body]
pub(crate) fn base64_encode(data: &[u8]) -> (s: String)
    ensures
        s@ == base64_of(data@),
{
    base64::engine::general_purpose::STANDARD.encode(data)
}

} // verus!
