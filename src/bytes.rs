//! Little-endian integer reads and NUL-padded text fields of raw buffers.

use vstd::prelude::*;
use vstd::utf8::*;
use byteorder::{ByteOrder, LittleEndian};

verus! {

/// The 16-bit little-endian value stored at `off`.
pub open spec fn le16(s: Seq<u8>, off: int) -> int {
    s[off] as int + 256 * (s[off + 1] as int)
}

/// The 32-bit little-endian value stored at `off`.
pub open spec fn le32(s: Seq<u8>, off: int) -> int {
    le16(s, off) + 65536 * le16(s, off + 2)
}

/// The 64-bit little-endian value stored at `off`.
pub open spec fn le64(s: Seq<u8>, off: int) -> int {
    le32(s, off) + 0x1_0000_0000 * le32(s, off + 4)
}

/// Relies on byteorder's `LittleEndian::read_u16`: the first two bytes of
/// the slice, least significant first.
#[verifier::external_body]
pub(crate) fn read_u16_at(data: &[u8], off: usize) -> (r: u16)
    requires
        off + 2 <= data@.len(),
    ensures
        r as int == le16(data@, off as int),
{
    LittleEndian::read_u16(&data[off..])
}

/// Relies on byteorder's `LittleEndian::read_u32`: the first four bytes of
/// the slice, least significant first.
#[verifier::external_body]
pub(crate) fn read_u32_at(data: &[u8], off: usize) -> (r: u32)
    requires
        off + 4 <= data@.len(),
    ensures
        r as int == le32(data@, off as int),
{
    LittleEndian::read_u32(&data[off..])
}

/// Relies on byteorder's `LittleEndian::read_u64`: the first eight bytes of
/// the slice, least significant first.
#[verifier::external_body]
pub(crate) fn read_u64_at(data: &[u8], off: usize) -> (r: u64)
    requires
        off + 8 <= data@.len(),
    ensures
        r as int == le64(data@, off as int),
{
    LittleEndian::read_u64(&data[off..])
}

/// The bytes with leading zero bytes removed.
pub open spec fn strip_leading_zeros(s: Seq<u8>) -> Seq<u8>
    decreases s.len(),
{
    if s.len() > 0 && s[0] == 0 {
        strip_leading_zeros(s.drop_first())
    } else {
        s
    }
}

/// The bytes with trailing zero bytes removed.
pub open spec fn strip_trailing_zeros(s: Seq<u8>) -> Seq<u8>
    decreases s.len(),
{
    if s.len() > 0 && s.last() == 0 {
        strip_trailing_zeros(s.drop_last())
    } else {
        s
    }
}

/// The bytes with NUL padding removed from both ends.
pub open spec fn trim_zeros(s: Seq<u8>) -> Seq<u8> {
    strip_trailing_zeros(strip_leading_zeros(s))
}

/// What `String::from_utf8_lossy` makes of bytes that are not valid UTF-8:
/// each invalid sequence replaced by U+FFFD, the rest decoded.
pub uninterp spec fn utf8_lossy(b: Seq<u8>) -> Seq<char>;

/// Bytes decoded permissively: valid UTF-8 decodes to its own characters,
/// anything else as `String::from_utf8_lossy` replaces it.
pub open spec fn lossy_decode(b: Seq<u8>) -> Seq<char> {
    if valid_utf8(b) {
        decode_utf8(b)
    } else {
        utf8_lossy(b)
    }
}

/// What `std::str::from_utf8` makes of the bytes: their text when they are
/// valid UTF-8.
pub open spec fn utf8_strict(b: Seq<u8>) -> Option<Seq<char>> {
    if valid_utf8(b) {
        Some(decode_utf8(b))
    } else {
        None
    }
}

/// A text field as firmware stores it: NUL padding trimmed, decoded
/// permissively.
pub open spec fn clean_text(b: Seq<u8>) -> Seq<char> {
    lossy_decode(trim_zeros(b))
}

/// Relies on `String::from_utf8_lossy`: valid UTF-8 decodes to its own
/// characters, invalid sequences are replaced.
#[verifier::external_body]
pub(crate) fn lossy_text(b: &[u8]) -> (r: String)
    ensures
        valid_utf8(b@) ==> r@ == decode_utf8(b@),
        !valid_utf8(b@) ==> r@ == utf8_lossy(b@),
{
    String::from_utf8_lossy(b).into_owned()
}

/// Relies on `std::str::from_utf8`: the text of the bytes if and only if they
/// are valid UTF-8.
#[verifier::external_body]
pub(crate) fn strict_text(b: &[u8]) -> (r: Option<String>)
    ensures
        r is Some <==> valid_utf8(b@),
        r is Some ==> r->0@ == decode_utf8(b@),
{
    match std::str::from_utf8(b) {
        Ok(s) => Some(s.to_string()),
        Err(_) => None,
    }
}

proof fn lemma_strip_leading_step(s: Seq<u8>, lo: int, hi: int)
    requires
        0 <= lo < hi <= s.len(),
        s[lo] == 0,
    ensures
        strip_leading_zeros(s.subrange(lo, hi)) == strip_leading_zeros(s.subrange(lo + 1, hi)),
{
    assert(s.subrange(lo, hi).drop_first() =~= s.subrange(lo + 1, hi));
}

proof fn lemma_strip_trailing_step(s: Seq<u8>, lo: int, hi: int)
    requires
        0 <= lo < hi <= s.len(),
        s[hi - 1] == 0,
    ensures
        strip_trailing_zeros(s.subrange(lo, hi)) == strip_trailing_zeros(s.subrange(lo, hi - 1)),
{
    assert(s.subrange(lo, hi).drop_last() =~= s.subrange(lo, hi - 1));
}

/// Bounds `[lo, hi)` of `data[start..end]` once NUL padding is trimmed from
/// both ends.
pub fn trimmed_bounds(data: &[u8], start: usize, end: usize) -> (r: (usize, usize))
    requires
        start <= end <= data@.len(),
    ensures
        start <= r.0 <= r.1 <= end,
        data@.subrange(r.0 as int, r.1 as int) == trim_zeros(data@.subrange(start as int, end as int)),
{
    let mut lo: usize = start;
    while lo < end && data[lo] == 0
        invariant
            start <= lo <= end <= data@.len(),
            strip_leading_zeros(data@.subrange(start as int, end as int))
                == strip_leading_zeros(data@.subrange(lo as int, end as int)),
        decreases end - lo,
    {
        proof {
            lemma_strip_leading_step(data@, lo as int, end as int);
        }
        lo = lo + 1;
    }
    assert(strip_leading_zeros(data@.subrange(lo as int, end as int))
        == data@.subrange(lo as int, end as int));
    let mut hi: usize = end;
    while hi > lo && data[hi - 1] == 0
        invariant
            start <= lo <= hi <= end <= data@.len(),
            trim_zeros(data@.subrange(start as int, end as int))
                == strip_trailing_zeros(data@.subrange(lo as int, hi as int)),
        decreases hi - lo,
    {
        proof {
            lemma_strip_trailing_step(data@, lo as int, hi as int);
        }
        hi = hi - 1;
    }
    (lo, hi)
}

/// A NUL-padded text field `data[start..end]`: padding trimmed from both ends,
/// decoded permissively.
pub fn clean_str(data: &[u8], start: usize, end: usize) -> (r: String)
    requires
        start <= end <= data@.len(),
    ensures
        r@ == clean_text(data@.subrange(start as int, end as int)),
{
    let (lo, hi) = trimmed_bounds(data, start, end);
    lossy_text(&data[lo..hi])
}

/// Whether `field` holds the ASCII text `text` followed by NUL padding, the
/// text neither starting nor ending with NUL.
pub open spec fn padded_ascii(field: Seq<u8>, text: Seq<char>) -> bool {
    &&& is_ascii_chars(text)
    &&& text.len() <= field.len()
    &&& text.len() == 0 || (text[0] != '\0' && text.last() != '\0')
    &&& forall|i: int| 0 <= i < text.len() ==> field[i] == text[i] as u8
    &&& forall|i: int| text.len() <= i < field.len() ==> field[i] == 0
}

proof fn lemma_strip_trailing_padding(field: Seq<u8>, n: int)
    requires
        0 <= n <= field.len(),
        n == 0 || field[n - 1] != 0,
        forall|i: int| n <= i < field.len() ==> field[i] == 0,
    ensures
        strip_trailing_zeros(field) == field.subrange(0, n),
    decreases field.len(),
{
    if field.len() > n {
        lemma_strip_trailing_padding(field.drop_last(), n);
        assert(field.drop_last().subrange(0, n) =~= field.subrange(0, n));
    } else {
        assert(field.subrange(0, n) =~= field);
    }
}

proof fn lemma_strip_leading_all_zero(field: Seq<u8>)
    requires
        forall|i: int| 0 <= i < field.len() ==> field[i] == 0,
    ensures
        strip_leading_zeros(field) == Seq::<u8>::empty(),
    decreases field.len(),
{
    if field.len() > 0 {
        lemma_strip_leading_all_zero(field.drop_first());
    } else {
        assert(field =~= Seq::<u8>::empty());
    }
}

/// A text field written as ASCII text followed by NUL padding decodes back
/// to exactly that text.
pub proof fn lemma_padded_text_round_trip(field: Seq<u8>, text: Seq<char>)
    requires
        padded_ascii(field, text),
    ensures
        clean_text(field) == text,
{
    let n = text.len() as int;
    is_ascii_chars_encode_utf8(text);
    is_ascii_chars_nat_bound(text);
    if n == 0 {
        lemma_strip_leading_all_zero(field);
        assert(strip_trailing_zeros(Seq::<u8>::empty()) == Seq::<u8>::empty());
    } else {
        assert(field[0] != 0) by {
            assert(text[0] as u32 != 0);
            assert((text[0] as u32) < 128);
        }
        assert(field[n - 1] != 0) by {
            assert(text[n - 1] as u32 != 0);
            assert((text[n - 1] as u32) < 128);
        }
        lemma_strip_trailing_padding(field, n);
    }
    assert(trim_zeros(field) =~= encode_utf8(text));
    encode_utf8_valid_utf8(text);
    encode_utf8_decode_utf8(text);
}

} // verus!
