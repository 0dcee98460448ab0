//! The SMBIOS structure stream: its vendor header, the per-structure headers,
//! the string pool that trails each structure, and the walk over the stream.

use vstd::prelude::*;
use vstd::string::*;
use crate::bytes::{le16, le32, read_u16_at, read_u32_at, lossy_text, lossy_decode};
use crate::text::{decimal, dec_text};

verus! {

/// The vendor header in front of the SMBIOS structure stream.
#[derive(Debug, Clone, Copy, PartialEq, Eq, Structural)]
pub struct RawSMBIOSData {
    pub major_version: u8,
    pub minor_version: u8,
    pub dmi_revision: u8,
    /// Size of the structure stream that follows the 8-byte prefix.
    pub length: u32,
}

/// Size of the vendor header in front of the structure stream.
pub const SMBIOS_PREFIX_LEN: usize = 8;

/// The vendor header as stored in the first eight bytes.
pub open spec fn raw_header_of(d: Seq<u8>) -> RawSMBIOSData {
    RawSMBIOSData {
        major_version: d[1],
        minor_version: d[2],
        dmi_revision: d[3],
        length: le32(d, 4) as u32,
    }
}

/// Decodes the 8-byte vendor header (a reserved byte, major and minor
/// version, DMI revision, little-endian stream length) and returns it with
/// the offset at which the structure stream starts.
pub fn parse_raw_smbios_data_header(data: &[u8]) -> (r: Option<(RawSMBIOSData, usize)>)
    ensures
        r is None <==> data@.len() < 8,
        r matches Some((h, off)) ==> h == raw_header_of(data@) && off == 8,
{
    if data.len() < 8 {
        return None;
    }
    let length = read_u32_at(data, 4);
    Some((
        RawSMBIOSData {
            major_version: data[1],
            minor_version: data[2],
            dmi_revision: data[3],
            length,
        },
        SMBIOS_PREFIX_LEN,
    ))
}

/// Header of one SMBIOS structure.
#[derive(Debug, Clone, Copy, PartialEq, Eq, Structural)]
pub struct SmbiosStructureHeader {
    /// The structure type (0 for BIOS, 1 for system, ...).
    pub type_id: u8,
    /// Size of the formatted region, this header included.
    pub length: u8,
    /// Identifier of this structure instance.
    pub handle: u16,
}

/// The structure header stored at `off`.
pub open spec fn structure_header_at(d: Seq<u8>, off: int) -> SmbiosStructureHeader {
    SmbiosStructureHeader { type_id: d[off], length: d[off + 1], handle: le16(d, off + 2) as u16 }
}

/// Whether a structure can be decoded at `off`: four header bytes are
/// there and the formatted length covers the header.
pub open spec fn structure_ok(d: Seq<u8>, off: int) -> bool {
    0 <= off && off + 4 <= d.len() && d[off + 1] >= 4
}

/// End of a structure whose string pool is scanned from `cur`: just past the
/// first pair of NUL bytes at or after `cur`, or the end of the buffer when
/// there is no such pair.
pub open spec fn record_end(d: Seq<u8>, cur: int) -> int
    decreases d.len() - cur,
{
    if 0 <= cur && cur + 1 < d.len() {
        if d[cur] == 0 && d[cur + 1] == 0 {
            cur + 2
        } else {
            record_end(d, cur + 1)
        }
    } else {
        d.len() as int
    }
}

/// End of the structure at `off`, string pool included.
pub open spec fn structure_end(d: Seq<u8>, off: int) -> int {
    record_end(d, off + d[off + 1])
}

proof fn lemma_record_end_bounds(d: Seq<u8>, cur: int)
    requires
        0 <= cur,
    ensures
        cur < record_end(d, cur) <= d.len() || (cur + 1 >= d.len() && record_end(d, cur) == d.len()),
    decreases d.len() - cur,
{
    if cur + 1 < d.len() && !(d[cur] == 0 && d[cur + 1] == 0) {
        lemma_record_end_bounds(d, cur + 1);
    }
}

/// Decodes the structure header at `offset` and finds where the structure
/// ends: just past the double NUL that closes its string pool, or at the end
/// of the buffer when the pool is not closed.
pub fn parse_smbios_structure(data: &[u8], offset: usize) -> (r: Result<(SmbiosStructureHeader, usize), ()>)
    ensures
        r is Ok <==> structure_ok(data@, offset as int),
        r matches Ok((h, end)) ==> {
            &&& h == structure_header_at(data@, offset as int)
            &&& end == structure_end(data@, offset as int)
            &&& offset < end <= data@.len()
        },
{
    if offset > data.len() || data.len() - offset < 4 {
        return Err(());
    }
    let type_id = data[offset];
    let length = data[offset + 1];
    let handle = read_u16_at(data, offset + 2);
    if length < 4 {
        return Err(());
    }
    let header = SmbiosStructureHeader { type_id, length, handle };
    proof {
        lemma_record_end_bounds(data@, offset + length as int);
    }
    if data.len() - offset <= length as usize {
        return Ok((header, data.len()));
    }
    let mut current: usize = offset + length as usize;
    while current < data.len() - 1
        invariant
            offset + 4 <= current < data@.len(),
            structure_ok(data@, offset as int),
            header == structure_header_at(data@, offset as int),
            record_end(data@, current as int) == structure_end(data@, offset as int),
        decreases data@.len() - current,
    {
        if data[current] == 0 && data[current + 1] == 0 {
            return Ok((header, current + 2));
        }
        current = current + 1;
    }
    Ok((header, data.len()))
}

/// First NUL byte at or after `cur`, or the end of the buffer.
pub open spec fn first_nul(d: Seq<u8>, cur: int) -> int
    decreases d.len() - cur,
{
    if 0 <= cur < d.len() {
        if d[cur] == 0 {
            cur
        } else {
            first_nul(d, cur + 1)
        }
    } else {
        d.len() as int
    }
}

/// The raw strings of a pool scanned from `cur`: each non-empty run of bytes
/// closed by a NUL, until an empty string (a NUL right at the scan
/// position), a NUL that follows a closing NUL, or the end of the buffer.
/// Bytes not closed by a NUL are not a string.
pub open spec fn pool_from(d: Seq<u8>, cur: int) -> Seq<Seq<u8>>
    decreases d.len() - cur,
{
    if cur < 0 || cur >= d.len() {
        seq![]
    } else {
        let n = first_nul(d, cur);
        if n >= d.len() || n <= cur {
            seq![]
        } else if n + 1 < d.len() && d[n + 1] == 0 {
            seq![d.subrange(cur, n)]
        } else {
            seq![d.subrange(cur, n)] + pool_from(d, n + 1)
        }
    }
}

/// Each raw string decoded permissively.
pub open spec fn lossy_all(s: Seq<Seq<u8>>) -> Seq<Seq<char>> {
    s.map_values(|b: Seq<u8>| lossy_decode(b))
}

/// The texts of a string pool.
pub open spec fn pool_view(strings: Seq<String>) -> Seq<Seq<char>> {
    strings.map_values(|s: String| s@)
}

/// The string pool of the structure whose formatted region is
/// `[offset, offset + length)`.
pub open spec fn structure_pool(d: Seq<u8>, offset: int, length: int) -> Seq<Seq<char>> {
    lossy_all(pool_from(d, offset + length))
}

proof fn lemma_first_nul_bounds(d: Seq<u8>, cur: int)
    requires
        0 <= cur <= d.len(),
    ensures
        cur <= first_nul(d, cur) <= d.len(),
    decreases d.len() - cur,
{
    if cur < d.len() && d[cur] != 0 {
        lemma_first_nul_bounds(d, cur + 1);
    }
}

/// Extracts the string pool that starts right after the formatted region
/// `[offset, offset + length)`. A start beyond the buffer gives an empty pool.
pub fn get_smbios_strings(data: &[u8], offset: usize, length: u8) -> (r: Vec<String>)
    ensures
        pool_view(r@) == structure_pool(data@, offset as int, length as int),
{
    let mut strings: Vec<String> = Vec::new();
    if offset >= data.len() || data.len() - offset <= length as usize {
        proof {
            assert(pool_view(strings@) =~= lossy_all(pool_from(data@, offset + length)));
        }
        return strings;
    }
    let start: usize = offset + length as usize;
    let ghost whole = lossy_all(pool_from(data@, start as int));
    let mut cur: usize = start;
    let mut done = false;
    proof {
        assert(pool_view(strings@) + whole =~= whole);
    }
    while !done && cur < data.len()
        invariant
            start <= cur <= data@.len(),
            whole == lossy_all(pool_from(data@, start as int)),
            done ==> pool_view(strings@) == whole,
            !done ==> pool_view(strings@) + lossy_all(pool_from(data@, cur as int)) == whole,
        decreases data@.len() - cur + (if done { 0int } else { 1int }),
    {
        let mut n: usize = cur;
        while n < data.len() && data[n] != 0
            invariant
                cur <= n <= data@.len(),
                first_nul(data@, cur as int) == first_nul(data@, n as int),
            decreases data@.len() - n,
        {
            n = n + 1;
        }
        proof {
            lemma_first_nul_bounds(data@, cur as int);
        }
        if n == data.len() || n == cur {
            proof {
                assert(pool_view(strings@) + lossy_all(pool_from(data@, cur as int)) =~= pool_view(strings@));
            }
            done = true;
        } else {
            let s = lossy_text(&data[cur..n]);
            let ghost before = strings@;
            strings.push(s);
            let ghost piece = data@.subrange(cur as int, n as int);
            proof {
                assert(pool_view(strings@) =~= pool_view(before).push(lossy_decode(piece)));
            }
            cur = n + 1;
            if cur < data.len() && data[cur] == 0 {
                proof {
                    assert(lossy_all(seq![piece]) =~= seq![lossy_decode(piece)]);
                    assert(pool_view(strings@) =~= pool_view(before) + lossy_all(seq![piece]));
                }
                done = true;
            } else {
                proof {
                    let rest = pool_from(data@, cur as int);
                    assert(lossy_all(seq![piece] + rest) =~= seq![lossy_decode(piece)] + lossy_all(rest));
                    assert(pool_view(strings@) + lossy_all(rest) =~= pool_view(before) + lossy_all(seq![piece] + rest));
                }
            }
        }
    }
    proof {
        if !done {
            assert(pool_view(strings@) + lossy_all(pool_from(data@, cur as int)) =~= pool_view(strings@));
        }
    }
    strings
}

/// The structures of the stream from `cur` on, each with its offset: one
/// structure after another until the buffer is exhausted, a structure
/// cannot be decoded, or a structure makes no progress.
pub open spec fn structures_from(d: Seq<u8>, cur: int) -> Seq<(usize, SmbiosStructureHeader)>
    decreases d.len() - cur,
{
    if cur < 0 || cur >= d.len() || !structure_ok(d, cur) {
        seq![]
    } else {
        let end = structure_end(d, cur);
        let here = seq![(cur as usize, structure_header_at(d, cur))];
        if end <= cur || end > d.len() {
            here
        } else {
            here + structures_from(d, end)
        }
    }
}

/// Walks the structure stream from `start`, listing each structure's offset
/// and header.
pub fn walk_structures(data: &[u8], start: usize) -> (r: Vec<(usize, SmbiosStructureHeader)>)
    ensures
        r@ == structures_from(data@, start as int),
{
    let mut list: Vec<(usize, SmbiosStructureHeader)> = Vec::new();
    let mut cur: usize = start;
    let mut done = false;
    let ghost whole = structures_from(data@, start as int);
    proof {
        assert(list@ + whole =~= whole);
    }
    while !done && cur < data.len()
        invariant
            whole == structures_from(data@, start as int),
            done ==> list@ == whole,
            !done ==> list@ + structures_from(data@, cur as int) == whole,
        decreases data@.len() - cur + (if done { 0int } else { 1int }),
    {
        match parse_smbios_structure(data, cur) {
            Ok((header, next)) => {
                let ghost before = list@;
                list.push((cur, header));
                let ghost here = seq![(cur, header)];
                if next <= cur {
                    done = true;
                } else {
                    proof {
                        assert(before + structures_from(data@, cur as int) =~= before + (here + structures_from(data@, next as int)));
                        assert(list@ + structures_from(data@, next as int) =~= before + (here + structures_from(data@, next as int)));
                    }
                    cur = next;
                }
            },
            Err(_) => {
                proof {
                    assert(list@ + structures_from(data@, cur as int) =~= list@);
                }
                done = true;
            },
        }
    }
    proof {
        if !done {
            assert(list@ + structures_from(data@, cur as int) =~= list@);
        }
    }
    list
}

/// Decodes an SMBIOS blob: its vendor header and the structures of the
/// stream that follows it. Fails only when the vendor header is incomplete.
pub fn decode_smbios_stream(data: &[u8]) -> (r: Option<(RawSMBIOSData, Vec<(usize, SmbiosStructureHeader)>)>)
    ensures
        r is None <==> data@.len() < 8,
        r matches Some((h, list)) ==> h == raw_header_of(data@) && list@ == structures_from(data@, 8),
{
    match parse_raw_smbios_data_header(data) {
        Some((header, off)) => Some((header, walk_structures(data, off))),
        None => None,
    }
}

/// The text that a 1-based string index resolves to: index 0 means "None",
/// an index past the pool gives a placeholder that names it.
pub open spec fn string_at(pool: Seq<Seq<char>>, index: u8) -> Seq<char> {
    if index == 0 {
        "None"@
    } else if index as int <= pool.len() {
        pool[index - 1]
    } else {
        "<Bad String Index: "@ + decimal(index as nat) + ">"@
    }
}

/// Looks up a string of the pool by its 1-based index.
pub fn get_string_by_index(strings: &[String], index: u8) -> (r: String)
    ensures
        r@ == string_at(pool_view(strings@), index),
{
    if index == 0 {
        return String::from_str("None");
    }
    let idx = index as usize;
    if idx <= strings.len() {
        strings[idx - 1].clone()
    } else {
        let mut s = String::from_str("<Bad String Index: ");
        let digits = dec_text(index as u64);
        s.append(digits.as_str());
        s.append(">");
        s
    }
}

/// For every pool, index 0 resolves to "None", an index within the pool to
/// its string, and an index past the pool to a placeholder that names the
/// index.
pub proof fn lemma_string_index_resolution(pool: Seq<Seq<char>>, index: u8)
    ensures
        index == 0 ==> string_at(pool, index) == "None"@,
        1 <= index <= pool.len() ==> string_at(pool, index) == pool[index - 1],
        index as int > pool.len() ==> string_at(pool, index) == "<Bad String Index: "@ + decimal(
            index as nat,
        ) + ">"@,
{
}

} // verus!
