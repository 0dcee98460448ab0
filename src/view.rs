//! Text renderings of decoded data for display: the classic hex dump and
//! the one-line label of an SMBIOS structure.

use vstd::prelude::*;
use vstd::string::*;
use vstd::utf8::*;
use crate::bytes::lossy_text;
use crate::text::{hex_padded, hex_text, decimal, dec_text, hex_literal_text, hex_literal};

verus! {

/// The bytes as two-digit upper-case hexadecimal numbers separated by single
/// spaces.
pub open spec fn hex_pairs(c: Seq<u8>) -> Seq<char>
    decreases c.len(),
{
    if c.len() == 0 {
        seq![]
    } else if c.len() == 1 {
        hex_padded(c[0] as nat, 2)
    } else {
        hex_pairs(c.drop_last()) + " "@ + hex_padded(c.last() as nat, 2)
    }
}

/// The text padded on the right with spaces to at least `w` characters.
pub open spec fn pad_right(s: Seq<char>, w: nat) -> Seq<char> {
    if s.len() < w {
        s + Seq::new((w - s.len()) as nat, |i: int| ' ')
    } else {
        s
    }
}

/// Whether a byte is shown as itself in the dump's text column.
pub open spec fn is_printable(b: u8) -> bool {
    32 <= b && b < 127
}

/// The byte shown in the dump's text column: itself when printable, else a dot.
pub open spec fn shown_byte(b: u8) -> u8 {
    if is_printable(b) {
        b
    } else {
        46u8
    }
}

/// The dump's text column for the bytes.
pub open spec fn printable_text(c: Seq<u8>) -> Seq<char> {
    Seq::new(c.len(), |j: int| shown_byte(c[j]) as char)
}

/// One dump line: offset, the hexadecimal bytes padded to 48 columns, and
/// the text column.
pub open spec fn dump_line(off: nat, c: Seq<u8>) -> Seq<char> {
    hex_padded(off, 4) + "  "@ + pad_right(hex_pairs(c), 48) + "  "@ + printable_text(c) + "\n"@
}

/// The dump lines from offset `start` on, sixteen bytes each, the last one
/// possibly shorter.
pub open spec fn dump_from(d: Seq<u8>, start: int) -> Seq<char>
    decreases d.len() - start,
{
    if start < 0 || start >= d.len() {
        seq![]
    } else if start + 16 >= d.len() {
        dump_line(start as nat, d.subrange(start, d.len() as int))
    } else {
        dump_line(start as nat, d.subrange(start, start + 16)) + dump_from(d, start + 16)
    }
}

fn hex_pairs_str(c: &[u8]) -> (r: String)
    ensures
        r@ == hex_pairs(c@),
{
    let mut s = String::new();
    let mut j: usize = 0;
    while j < c.len()
        invariant
            j <= c@.len(),
            s@ == hex_pairs(c@.subrange(0, j as int)),
        decreases c@.len() - j,
    {
        proof {
            assert(c@.subrange(0, j + 1).drop_last() =~= c@.subrange(0, j as int));
        }
        if j > 0 {
            s.append(" ");
        }
        let digits = hex_text(c[j] as u64, 2);
        proof {
            if j == 0 {
                assert(s@ + digits@ =~= digits@);
            }
        }
        s.append(digits.as_str());
        j = j + 1;
    }
    proof {
        assert(c@.subrange(0, c@.len() as int) =~= c@);
    }
    s
}

fn pad_right_str(s: &mut String, w: usize)
    ensures
        final(s)@ == pad_right(old(s)@, w as nat),
{
    let n = s.unicode_len();
    if n < w {
        let ghost start = s@;
        let mut k: usize = n;
        while k < w
            invariant
                n <= k <= w,
                n == start.len(),
                s@ =~= start + Seq::new((k - n) as nat, |i: int| ' '),
            decreases w - k,
        {
            proof {
                reveal_strlit(" ");
            }
            s.append(" ");
            k = k + 1;
        }
    }
}

fn printable_str(c: &[u8]) -> (r: String)
    ensures
        r@ == printable_text(c@),
{
    let mut shown: Vec<u8> = Vec::new();
    let mut j: usize = 0;
    while j < c.len()
        invariant
            j <= c@.len(),
            shown@ == c@.subrange(0, j as int).map_values(|b: u8| shown_byte(b)),
        decreases c@.len() - j,
    {
        let b = c[j];
        let v: u8 = if 32 <= b && b < 127 { b } else { 46 };
        let ghost before = shown@;
        shown.push(v);
        proof {
            assert(shown@ =~= c@.subrange(0, j + 1).map_values(|b: u8| shown_byte(b)));
        }
        j = j + 1;
    }
    let ghost chars = printable_text(c@);
    proof {
        assert forall|i: int| 0 <= i < chars.len() implies (chars[i] as u32) < 128 by {
            assert(shown_byte(c@[i]) < 127);
        }
        assert(is_ascii_chars(chars));
        is_ascii_chars_encode_utf8(chars);
        assert(encode_utf8(chars) =~= shown@);
        encode_utf8_valid_utf8(chars);
        encode_utf8_decode_utf8(chars);
    }
    lossy_text(shown.as_slice())
}

/// Renders the bytes as a hex dump: one line per sixteen bytes with the
/// offset, the bytes in hexadecimal and their printable characters.
pub fn hex_dump_str(data: &[u8]) -> (r: String)
    ensures
        r@ == dump_from(data@, 0),
{
    let mut out = String::new();
    let mut pos: usize = 0;
    proof {
        assert(out@ + dump_from(data@, 0) =~= dump_from(data@, 0));
    }
    while pos < data.len()
        invariant
            pos <= data@.len(),
            out@ + dump_from(data@, pos as int) == dump_from(data@, 0),
        decreases data@.len() - pos,
    {
        let last = data.len() - pos <= 16;
        let end: usize = if last { data.len() } else { pos + 16 };
        let chunk = &data[pos..end];
        let mut line = hex_text(pos as u64, 4);
        line.append("  ");
        let mut pairs = hex_pairs_str(chunk);
        pad_right_str(&mut pairs, 48);
        line.append(pairs.as_str());
        line.append("  ");
        let text = printable_str(chunk);
        line.append(text.as_str());
        line.append("\n");
        let ghost before = out@;
        out.append(line.as_str());
        if last {
            proof {
                assert(dump_from(data@, pos as int) == line@);
                assert(before + line@ =~= out@);
            }
            pos = data.len();
            proof {
                assert(out@ + dump_from(data@, pos as int) =~= out@);
            }
        } else {
            proof {
                assert(before + dump_from(data@, pos as int) =~= out@ + dump_from(data@, pos + 16));
            }
            pos = pos + 16;
        }
    }
    proof {
        assert(out@ + dump_from(data@, pos as int) =~= out@);
    }
    out
}

/// Short name of an SMBIOS structure type, empty for types without one.
pub open spec fn type_short_name(t: u8) -> Seq<char> {
    match t {
        0 => "BIOS Info"@,
        1 => "System Info"@,
        2 => "Baseboard"@,
        3 => "Chassis"@,
        4 => "Processor"@,
        7 => "Cache Info"@,
        8 => "Port Connector"@,
        9 => "System Slots"@,
        11 => "OEM Strings"@,
        13 => "BIOS Language"@,
        16 => "Memory Array"@,
        17 => "Memory Device"@,
        19 => "Memory Mapped"@,
        32 => "Boot Info"@,
        127 => "End-of-Table"@,
        _ => seq![],
    }
}

fn type_short_name_str(t: u8) -> (r: String)
    ensures
        r@ == type_short_name(t),
{
    match t {
        0 => String::from_str("BIOS Info"),
        1 => String::from_str("System Info"),
        2 => String::from_str("Baseboard"),
        3 => String::from_str("Chassis"),
        4 => String::from_str("Processor"),
        7 => String::from_str("Cache Info"),
        8 => String::from_str("Port Connector"),
        9 => String::from_str("System Slots"),
        11 => String::from_str("OEM Strings"),
        13 => String::from_str("BIOS Language"),
        16 => String::from_str("Memory Array"),
        17 => String::from_str("Memory Device"),
        19 => String::from_str("Memory Mapped"),
        32 => String::from_str("Boot Info"),
        127 => String::from_str("End-of-Table"),
        _ => String::new(),
    }
}

/// The label of a structure: its type and handle, then the type's short
/// name when it has one.
pub open spec fn structure_label(t: u8, handle: u16) -> Seq<char> {
    let base = "Type "@ + decimal(t as nat) + " (Handle "@ + hex_literal(handle as nat, 4) + ")"@;
    if type_short_name(t).len() > 0 {
        base + " - "@ + type_short_name(t)
    } else {
        base
    }
}

/// Builds the one-line label of an SMBIOS structure.
pub fn smbios_structure_label(type_id: u8, handle: u16) -> (r: String)
    ensures
        r@ == structure_label(type_id, handle),
{
    let mut label = String::from_str("Type ");
    let number = dec_text(type_id as u64);
    label.append(number.as_str());
    label.append(" (Handle ");
    let h = hex_literal_text(handle as u64, 4);
    label.append(h.as_str());
    label.append(")");
    let name = type_short_name_str(type_id);
    if name.unicode_len() > 0 {
        label.append(" - ");
        label.append(name.as_str());
    }
    label
}

} // verus!
