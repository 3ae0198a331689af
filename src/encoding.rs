//! Hexadecimal text forms of byte strings, plain and with a `0x` prefix.
use vstd::prelude::*;

verus! {

/// The value of one hexadecimal digit, either case.
pub open spec fn hex_digit_value(c: char) -> Option<u8> {
    let n = c as u32;
    if 48 <= n <= 57 {
        Some((n - 48) as u8)
    } else if 97 <= n <= 102 {
        Some((n - 87) as u8)
    } else if 65 <= n <= 70 {
        Some((n - 55) as u8)
    } else {
        None
    }
}

/// The bytes that a hexadecimal text stands for, two digits per byte, high digit first.
pub open spec fn hex_decoded(s: Seq<char>) -> Option<Seq<u8>> {
    if s.len() % 2 == 0 && forall|i: int| 0 <= i < s.len() ==> #[trigger] hex_digit_value(s[i]).is_some() {
        Some(
            Seq::new(
                (s.len() / 2) as nat,
                |i: int|
                    (16 * hex_digit_value(s[2 * i]).unwrap() + hex_digit_value(s[2 * i + 1]).unwrap()) as u8,
            ),
        )
    } else {
        None
    }
}

/// The lower-case digit for a value below 16.
pub open spec fn hex_digit_lower(n: u8) -> char {
    if n < 10 {
        ((n + 48) as u32) as char
    } else {
        ((n + 87) as u32) as char
    }
}

/// The lower-case hexadecimal text of a byte string.
pub open spec fn hex_encoded(b: Seq<u8>) -> Seq<char> {
    Seq::new(
        2 * b.len(),
        |i: int|
            if i % 2 == 0 {
                hex_digit_lower(b[i / 2] / 16)
            } else {
                hex_digit_lower(b[i / 2] % 16)
            },
    )
}

/// Whether a text starts with the `0x` prefix.
pub open spec fn has_hex_prefix(s: Seq<char>) -> bool {
    s.len() >= 2 && s[0] == '0' && s[1] == 'x'
}

/// The bytes of a `0x`-prefixed hexadecimal text.
pub open spec fn prefixed_hex_decoded(s: Seq<char>) -> Option<Seq<u8>> {
    if has_hex_prefix(s) {
        hex_decoded(s.subrange(2, s.len() as int))
    } else {
        None
    }
}

/// The `0x`-prefixed lower-case hexadecimal text of a byte string.
pub open spec fn prefixed_hex(b: Seq<u8>) -> Seq<char> {
    seq!['0', 'x'] + hex_encoded(b)
}

/// Relies on hex::decode: digits of either case, two per byte, even length.
#[verifier::external_body]
pub(crate) fn decode_hex(s: &str) -> (r: Option<Vec<u8>>)
    ensures
        match r {
            Some(b) => hex_decoded(s@) == Some(b@),
            None => hex_decoded(s@).is_none(),
        },
{
    hex::decode(s).ok()
}

/// A text of one character outside ASCII, on which prefix_hex::decode panics.
pub open spec fn is_single_wide_char(s: Seq<char>) -> bool {
    s.len() == 1 && (s[0] as u32) >= 0x80
}

/// Relies on prefix_hex::decode into `Vec<u8>`: strips `0x`, then decodes as hex::decode does.
#[verifier::external_body]
pub(crate) fn decode_prefixed_hex(s: &str) -> (r: Option<Vec<u8>>)
    requires
        !is_single_wide_char(s@),
    ensures
        match r {
            Some(b) => prefixed_hex_decoded(s@) == Some(b@),
            None => prefixed_hex_decoded(s@).is_none(),
        },
{
    prefix_hex::decode::<Vec<u8>>(s).ok()
}

/// Relies on prefix_hex::encode: `0x` followed by hex::encode's lower-case digits.
#[verifier::external_body]
pub(crate) fn encode_prefixed_hex(b: &[u8; 32]) -> (r: String)
    ensures
        r@ == prefixed_hex(b@),
{
    prefix_hex::encode(b)
}

} // verus!
