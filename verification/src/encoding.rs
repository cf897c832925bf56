//! Text encodings of bytes: hexadecimal, URL percent-encoding and base64.

use base64::Engine;
use base64::engine::general_purpose;

use vstd::prelude::*;

use crate::text::{digit_char, push_char};

verus! {

/// The hexadecimal digit `d` (0 to 15), in upper or lower case.
pub open spec fn hex_digit(d: nat, upper: bool) -> char {
    if d < 10 {
        digit_char(d)
    } else if upper {
        ((d - 10 + 65) as u8) as char
    } else {
        ((d - 10 + 97) as u8) as char
    }
}

/// Each byte as two hexadecimal digits, high digit first.
pub open spec fn hex_text(bytes: Seq<u8>, upper: bool) -> Seq<char>
    decreases bytes.len(),
{
    if bytes.len() == 0 {
        Seq::empty()
    } else {
        let b = bytes.last();
        hex_text(bytes.drop_last(), upper).push(hex_digit((b / 16) as nat, upper)).push(
            hex_digit((b % 16) as nat, upper),
        )
    }
}

fn hex_digit_of(d: u8, upper: bool) -> (c: char)
    requires
        d < 16,
    ensures
        c == hex_digit(d as nat, upper),
{
    if d < 10 {
        (d + 48u8) as char
    } else if upper {
        (d - 10 + 65u8) as char
    } else {
        (d - 10 + 97u8) as char
    }
}

/// Appends the two hexadecimal digits of `b` to `s`.
pub fn push_hex_byte(s: &mut String, b: u8, upper: bool)
    ensures
        final(s)@ == old(s)@.push(hex_digit((b / 16) as nat, upper)).push(
            hex_digit((b % 16) as nat, upper),
        ),
{
    push_char(s, hex_digit_of(b / 16, upper));
    push_char(s, hex_digit_of(b % 16, upper));
}

/// `bytes` in hexadecimal, two digits per byte.
pub fn hex_encode(bytes: &[u8], upper: bool) -> (r: String)
    ensures
        r@ == hex_text(bytes@, upper),
{
    let mut r = String::new();
    let mut i: usize = 0;
    while i < bytes.len()
        invariant
            i <= bytes@.len(),
            r@ == hex_text(bytes@.take(i as int), upper),
        decreases bytes@.len() - i,
    {
        assert(bytes@.take(i as int + 1).drop_last() == bytes@.take(i as int));
        push_hex_byte(&mut r, bytes[i], upper);
        i = i + 1;
    }
    assert(bytes@.take(bytes@.len() as int) == bytes@);
    r
}

/// The bytes that URL percent-encoding keeps as they are: ASCII letters and
/// digits and `-`, `_`, `.`, `~`.
pub open spec fn is_unreserved(b: u8) -> bool {
    ||| (48 <= b && b <= 57)
    ||| (65 <= b && b <= 90)
    ||| (97 <= b && b <= 122)
    ||| b == 45
    ||| b == 95
    ||| b == 46
    ||| b == 126
}

/// Each unreserved byte as its character, every other byte as `%` and two
/// upper-case hexadecimal digits.
pub open spec fn percent_text(bytes: Seq<u8>) -> Seq<char>
    decreases bytes.len(),
{
    if bytes.len() == 0 {
        Seq::empty()
    } else {
        let b = bytes.last();
        let head = percent_text(bytes.drop_last());
        if is_unreserved(b) {
            head.push(b as char)
        } else {
            head.push('%').push(hex_digit((b / 16) as nat, true)).push(hex_digit((b % 16) as nat, true))
        }
    }
}

pub fn percent_encode(bytes: &[u8]) -> (r: String)
    ensures
        r@ == percent_text(bytes@),
{
    let mut r = String::new();
    let mut i: usize = 0;
    while i < bytes.len()
        invariant
            i <= bytes@.len(),
            r@ == percent_text(bytes@.take(i as int)),
        decreases bytes@.len() - i,
    {
        assert(bytes@.take(i as int + 1).drop_last() == bytes@.take(i as int));
        let b = bytes[i];
        if (48u8 <= b && b <= 57u8) || (65u8 <= b && b <= 90u8) || (97u8 <= b && b <= 122u8) || b
            == 45u8 || b == 95u8 || b == 46u8 || b == 126u8 {
            push_char(&mut r, b as char);
        } else {
            push_char(&mut r, '%');
            push_hex_byte(&mut r, b, true);
        }
        i = i + 1;
    }
    assert(bytes@.take(bytes@.len() as int) == bytes@);
    r
}

/// The base64 digit for the six-bit value `v`: `A`..`Z`, `a`..`z`, `0`..`9`,
/// then `+` and `/`, or `-` and `_` in the URL-safe alphabet.
pub open spec fn base64_digit(v: nat, url_safe: bool) -> char {
    if v < 26 {
        ((v + 65) as u8) as char
    } else if v < 52 {
        ((v - 26 + 97) as u8) as char
    } else if v < 62 {
        ((v - 52 + 48) as u8) as char
    } else if v == 62 {
        if url_safe {
            '-'
        } else {
            '+'
        }
    } else if url_safe {
        '_'
    } else {
        '/'
    }
}

/// Base64 (RFC 4648): every three bytes become four digits; a final one or
/// two bytes become two or three digits, followed by `=` padding to four
/// when `padded`.
pub open spec fn base64_text(bytes: Seq<u8>, url_safe: bool, padded: bool) -> Seq<char>
    decreases bytes.len(),
{
    if bytes.len() >= 3 {
        let (a, b, c) = (bytes[0] as nat, bytes[1] as nat, bytes[2] as nat);
        seq![
            base64_digit(a / 4, url_safe),
            base64_digit((a % 4) * 16 + b / 16, url_safe),
            base64_digit((b % 16) * 4 + c / 64, url_safe),
            base64_digit(c % 64, url_safe),
        ] + base64_text(bytes.subrange(3, bytes.len() as int), url_safe, padded)
    } else if bytes.len() == 2 {
        let (a, b) = (bytes[0] as nat, bytes[1] as nat);
        let digits = seq![
            base64_digit(a / 4, url_safe),
            base64_digit((a % 4) * 16 + b / 16, url_safe),
            base64_digit((b % 16) * 4, url_safe),
        ];
        if padded {
            digits.push('=')
        } else {
            digits
        }
    } else if bytes.len() == 1 {
        let a = bytes[0] as nat;
        let digits = seq![base64_digit(a / 4, url_safe), base64_digit((a % 4) * 16, url_safe)];
        if padded {
            digits.push('=').push('=')
        } else {
            digits
        }
    } else {
        Seq::empty()
    }
}

/// `general_purpose::STANDARD.encode`: the standard alphabet, padded.
#[verifier::external_body]
pub(crate) fn base64_standard(bytes: &[u8]) -> (r: String)
    requires
        bytes@.len() <= usize::MAX / 2,
    ensures
        r@ == base64_text(bytes@, false, true),
{
    general_purpose::STANDARD.encode(bytes)
}

/// `general_purpose::STANDARD_NO_PAD.encode`: the standard alphabet, no padding.
#[verifier::external_body]
pub(crate) fn base64_standard_unpadded(bytes: &[u8]) -> (r: String)
    requires
        bytes@.len() <= usize::MAX / 2,
    ensures
        r@ == base64_text(bytes@, false, false),
{
    general_purpose::STANDARD_NO_PAD.encode(bytes)
}

/// `general_purpose::URL_SAFE.encode`: the URL-safe alphabet, padded.
#[verifier::external_body]
pub(crate) fn base64_url_safe(bytes: &[u8]) -> (r: String)
    requires
        bytes@.len() <= usize::MAX / 2,
    ensures
        r@ == base64_text(bytes@, true, true),
{
    general_purpose::URL_SAFE.encode(bytes)
}

/// `general_purpose::URL_SAFE_NO_PAD.encode`: the URL-safe alphabet, no padding.
#[verifier::external_body]
pub(crate) fn base64_url_safe_unpadded(bytes: &[u8]) -> (r: String)
    requires
        bytes@.len() <= usize::MAX / 2,
    ensures
        r@ == base64_text(bytes@, true, false),
{
    general_purpose::URL_SAFE_NO_PAD.encode(bytes)
}

} // verus!
