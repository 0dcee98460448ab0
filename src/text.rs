//! Decimal and hexadecimal renderings of integers.

use vstd::prelude::*;
use vstd::string::*;

verus! {

/// The digit character for a value below sixteen (upper-case letters).
pub open spec fn digit_char(d: nat) -> char {
    if d < 10 {
        (d + 48) as char
    } else {
        (d + 55) as char
    }
}

/// Decimal digits of `n`, most significant first, without padding.
pub open spec fn decimal(n: nat) -> Seq<char>
    decreases n,
{
    if n < 10 {
        seq![digit_char(n)]
    } else {
        decimal(n / 10).push(digit_char(n % 10))
    }
}

/// Upper-case hexadecimal digits of `n`, most significant first, without
/// padding.
pub open spec fn hex_digits(n: nat) -> Seq<char>
    decreases n,
{
    if n < 16 {
        seq![digit_char(n)]
    } else {
        hex_digits(n / 16).push(digit_char(n % 16))
    }
}

/// Upper-case hexadecimal digits of `n`, padded with leading zeros to at
/// least `width` characters.
pub open spec fn hex_padded(n: nat, width: nat) -> Seq<char> {
    let d = hex_digits(n);
    if d.len() < width {
        Seq::new((width - d.len()) as nat, |i: int| '0') + d
    } else {
        d
    }
}

/// `0x` followed by `hex_padded(n, width)`.
pub open spec fn hex_literal(n: nat, width: nat) -> Seq<char> {
    "0x"@ + hex_padded(n, width)
}

/// Relies on std's `Display` for `u64`: the decimal digits of the value.
#[verifier::external_body]
pub(crate) fn dec_text(n: u64) -> (r: String)
    ensures
        r@ == decimal(n as nat),
{
    n.to_string()
}

/// Relies on std's `UpperHex` formatting with a zero-padded width: upper-case
/// hexadecimal digits, at least `width` of them. The width is a `u8`, well
/// inside the 16-bit range that std accepts for a width given at run time.
#[verifier::external_body]
pub(crate) fn hex_text(n: u64, width: u8) -> (r: String)
    ensures
        r@ == hex_padded(n as nat, width as nat),
{
    format!("{:01$X}", n, width as usize)
}

/// Text of `n` in hexadecimal with a `0x` prefix, zero-padded to `width`
/// digits.
pub fn hex_literal_text(n: u64, width: u8) -> (r: String)
    ensures
        r@ == hex_literal(n as nat, width as nat),
{
    let mut s = String::from_str("0x");
    let digits = hex_text(n, width);
    s.append(digits.as_str());
    s
}

/// Decimal text of `n` followed by `unit` (for instance `"16 MB"`).
pub fn with_unit(n: u64, unit: &str) -> (r: String)
    ensures
        r@ == decimal(n as nat) + unit@,
{
    let mut s = dec_text(n);
    s.append(unit);
    s
}

/// Two upper-case hexadecimal digits of a byte.
pub open spec fn hex_byte(b: u8) -> Seq<char> {
    seq![digit_char((b / 16) as nat), digit_char((b % 16) as nat)]
}

/// Upper-case hexadecimal digits of each byte in turn.
pub open spec fn hex_bytes(s: Seq<u8>) -> Seq<char>
    decreases s.len(),
{
    if s.len() == 0 {
        seq![]
    } else {
        hex_byte(s[0]) + hex_bytes(s.drop_first())
    }
}

/// Upper-case hyphenated text of a UUID stored with its first three fields
/// little-endian: the bytes of each of those fields are reversed, the last
/// eight bytes are kept in order.
pub open spec fn uuid_text(b: Seq<u8>) -> Seq<char> {
    hex_bytes(seq![b[3], b[2], b[1], b[0]]) + "-"@ + hex_bytes(seq![b[5], b[4]]) + "-"@
        + hex_bytes(seq![b[7], b[6]]) + "-"@ + hex_bytes(b.subrange(8, 10)) + "-"@
        + hex_bytes(b.subrange(10, 16))
}

/// Relies on hex's `encode_upper`: two upper-case digits per byte.
#[verifier::external_body]
pub(crate) fn hex_upper_bytes(b: &[u8]) -> (r: String)
    ensures
        r@ == hex_bytes(b@),
{
    hex::encode_upper(b)
}

/// Relies on uuid's `Uuid::from_slice_le`, which accepts exactly sixteen
/// bytes and reverses the byte order of the first three fields, and on the
/// `UpperHex` form of `Uuid`: upper-case hyphenated 8-4-4-4-12 digits.
#[verifier::external_body]
pub(crate) fn uuid_le_text(b: &[u8]) -> (r: Option<String>)
    ensures
        r is Some <==> b@.len() == 16,
        r matches Some(s) ==> s@ == uuid_text(b@),
{
    match uuid::Uuid::from_slice_le(b) {
        Ok(u) => Some(format!("{:X}", u)),
        Err(_) => None,
    }
}

} // verus!
