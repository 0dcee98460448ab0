//! Per-type interpretation of SMBIOS structures: each interpreter reads
//! fixed-offset fields of the formatted region and the string pool, and
//! turns them into labelled (name, value) pairs.

use vstd::prelude::*;
use vstd::string::*;
use crate::bytes::{le16, le32, le64, read_u16_at, read_u32_at, read_u64_at};
use crate::smbios::{pool_view, string_at, get_string_by_index};
use crate::text::{decimal, hex_literal, dec_text, hex_literal_text, with_unit, uuid_text, hex_upper_bytes, uuid_le_text};
use crate::names::{connector_name, port_name, array_location_name, array_use_name, error_correction_name, connector_type_str, port_type_str, memory_array_location_str, memory_array_use_str, memory_error_correction_str};

verus! {

/// Names and texts of a list of fields.
pub open spec fn fields_view(v: Seq<(String, String)>) -> Seq<(Seq<char>, Seq<char>)> {
    v.map_values(|p: (String, String)| (p.0@, p.1@))
}

fn push_field(info: &mut Vec<(String, String)>, name: &str, value: String)
    ensures
        fields_view(final(info)@) == fields_view(old(info)@).push((name@, value@)),
{
    let ghost before = info@;
    info.push((String::from_str(name), value));
    proof {
        assert(fields_view(info@) =~= fields_view(before).push((name@, value@)));
    }
}

/// Whether `[off, off + n)` lies inside a buffer of `len` bytes.
pub open spec fn fits(off: int, n: int, len: int) -> bool {
    off + n <= len
}

fn fits_exec(data: &[u8], offset: usize, n: usize) -> (r: bool)
    ensures
        r == fits(offset as int, n as int, data@.len() as int),
        r ==> offset + n <= usize::MAX,
{
    offset <= data.len() && data.len() - offset >= n
}

/// The string that the index byte at `off + k` selects.
pub open spec fn pooled(d: Seq<u8>, off: int, k: int, pool: Seq<Seq<char>>) -> Seq<char> {
    string_at(pool, d[off + k])
}

/// `0xNN` text of the byte at `off + k`.
pub open spec fn byte_hex(d: Seq<u8>, off: int, k: int) -> Seq<char> {
    hex_literal(d[off + k] as nat, 2)
}

/// BIOS ROM size: 0xFF defers to the extended field, else (code + 1) * 64 KB.
pub open spec fn rom_size_text(code: u8) -> Seq<char> {
    if code == 0xFF {
        "Extended"@
    } else {
        decimal(((code + 1) * 64) as nat) + " KB"@
    }
}

/// Fields of a BIOS information structure (type 0).
pub open spec fn bios_fields(d: Seq<u8>, off: int, pool: Seq<Seq<char>>) -> Seq<(Seq<char>, Seq<char>)> {
    if fits(off, 10, d.len() as int) {
        seq![
            ("Vendor"@, pooled(d, off, 4, pool)),
            ("Version"@, pooled(d, off, 5, pool)),
            ("Release Date"@, pooled(d, off, 8, pool)),
            ("ROM Size"@, rom_size_text(d[off + 9])),
        ]
    } else {
        seq![]
    }
}

fn parse_type_0(data: &[u8], offset: usize, strings: &[String]) -> (r: Vec<(String, String)>)
    ensures
        fields_view(r@) == bios_fields(data@, offset as int, pool_view(strings@)),
{
    let mut info: Vec<(String, String)> = Vec::new();
    if !fits_exec(data, offset, 10) {
        proof {
            assert(fields_view(info@) =~= seq![]);
        }
        return info;
    }
    push_field(&mut info, "Vendor", get_string_by_index(strings, data[offset + 4]));
    push_field(&mut info, "Version", get_string_by_index(strings, data[offset + 5]));
    push_field(&mut info, "Release Date", get_string_by_index(strings, data[offset + 8]));
    let rom = data[offset + 9];
    let size = if rom == 0xFF {
        String::from_str("Extended")
    } else {
        with_unit((rom as u64 + 1) * 64, " KB")
    };
    push_field(&mut info, "ROM Size", size);
    proof {
        assert(fields_view(info@) =~= bios_fields(data@, offset as int, pool_view(strings@)));
    }
    info
}

/// Fields of a system information structure (type 1); the UUID is read
/// from the sixteen bytes at offset 8.
pub open spec fn system_fields(d: Seq<u8>, off: int, pool: Seq<Seq<char>>) -> Seq<(Seq<char>, Seq<char>)> {
    if fits(off, 0x18, d.len() as int) {
        seq![
            ("Manufacturer"@, pooled(d, off, 4, pool)),
            ("Product Name"@, pooled(d, off, 5, pool)),
            ("Version"@, pooled(d, off, 6, pool)),
            ("Serial Number"@, pooled(d, off, 7, pool)),
            ("UUID"@, uuid_text(d.subrange(off + 8, off + 0x18))),
        ]
    } else {
        seq![]
    }
}

fn parse_type_1(data: &[u8], offset: usize, strings: &[String]) -> (r: Vec<(String, String)>)
    ensures
        fields_view(r@) == system_fields(data@, offset as int, pool_view(strings@)),
{
    let mut info: Vec<(String, String)> = Vec::new();
    if !fits_exec(data, offset, 0x18) {
        proof {
            assert(fields_view(info@) =~= seq![]);
        }
        return info;
    }
    push_field(&mut info, "Manufacturer", get_string_by_index(strings, data[offset + 4]));
    push_field(&mut info, "Product Name", get_string_by_index(strings, data[offset + 5]));
    push_field(&mut info, "Version", get_string_by_index(strings, data[offset + 6]));
    push_field(&mut info, "Serial Number", get_string_by_index(strings, data[offset + 7]));
    let uuid_bytes = &data[offset + 8..offset + 0x18];
    let uuid = match uuid_le_text(uuid_bytes) {
        Some(s) => s,
        None => hex_upper_bytes(uuid_bytes),
    };
    push_field(&mut info, "UUID", uuid);
    proof {
        assert(fields_view(info@) =~= system_fields(data@, offset as int, pool_view(strings@)));
    }
    info
}

/// Fields of a baseboard information structure (type 2).
pub open spec fn baseboard_fields(d: Seq<u8>, off: int, pool: Seq<Seq<char>>) -> Seq<(Seq<char>, Seq<char>)> {
    if fits(off, 9, d.len() as int) {
        seq![
            ("Manufacturer"@, pooled(d, off, 4, pool)),
            ("Product Name"@, pooled(d, off, 5, pool)),
            ("Version"@, pooled(d, off, 6, pool)),
            ("Serial Number"@, pooled(d, off, 7, pool)),
            ("Asset Tag"@, pooled(d, off, 8, pool)),
        ]
    } else {
        seq![]
    }
}

fn parse_type_2(data: &[u8], offset: usize, strings: &[String]) -> (r: Vec<(String, String)>)
    ensures
        fields_view(r@) == baseboard_fields(data@, offset as int, pool_view(strings@)),
{
    let mut info: Vec<(String, String)> = Vec::new();
    if !fits_exec(data, offset, 9) {
        proof {
            assert(fields_view(info@) =~= seq![]);
        }
        return info;
    }
    push_field(&mut info, "Manufacturer", get_string_by_index(strings, data[offset + 4]));
    push_field(&mut info, "Product Name", get_string_by_index(strings, data[offset + 5]));
    push_field(&mut info, "Version", get_string_by_index(strings, data[offset + 6]));
    push_field(&mut info, "Serial Number", get_string_by_index(strings, data[offset + 7]));
    push_field(&mut info, "Asset Tag", get_string_by_index(strings, data[offset + 8]));
    proof {
        assert(fields_view(info@) =~= baseboard_fields(data@, offset as int, pool_view(strings@)));
    }
    info
}

/// Fields of a chassis information structure (type 3).
pub open spec fn chassis_fields(d: Seq<u8>, off: int, pool: Seq<Seq<char>>) -> Seq<(Seq<char>, Seq<char>)> {
    if fits(off, 8, d.len() as int) {
        seq![
            ("Manufacturer"@, pooled(d, off, 4, pool)),
            ("Type"@, byte_hex(d, off, 5)),
            ("Version"@, pooled(d, off, 6, pool)),
            ("Serial Number"@, pooled(d, off, 7, pool)),
        ]
    } else {
        seq![]
    }
}

fn parse_type_3(data: &[u8], offset: usize, strings: &[String]) -> (r: Vec<(String, String)>)
    ensures
        fields_view(r@) == chassis_fields(data@, offset as int, pool_view(strings@)),
{
    let mut info: Vec<(String, String)> = Vec::new();
    if !fits_exec(data, offset, 8) {
        proof {
            assert(fields_view(info@) =~= seq![]);
        }
        return info;
    }
    push_field(&mut info, "Manufacturer", get_string_by_index(strings, data[offset + 4]));
    push_field(&mut info, "Type", hex_literal_text(data[offset + 5] as u64, 2));
    push_field(&mut info, "Version", get_string_by_index(strings, data[offset + 6]));
    push_field(&mut info, "Serial Number", get_string_by_index(strings, data[offset + 7]));
    proof {
        assert(fields_view(info@) =~= chassis_fields(data@, offset as int, pool_view(strings@)));
    }
    info
}

/// Fields of a processor information structure (type 4); core and thread
/// counts only when the structure reaches offset 0x25.
pub open spec fn processor_fields(d: Seq<u8>, off: int, pool: Seq<Seq<char>>) -> Seq<(Seq<char>, Seq<char>)> {
    if fits(off, 0x11, d.len() as int) {
        seq![
            ("Socket Designator"@, pooled(d, off, 4, pool)),
            ("Processor Type"@, byte_hex(d, off, 5)),
            ("Manufacturer"@, pooled(d, off, 7, pool)),
            ("Version"@, pooled(d, off, 0x10, pool)),
        ] + if fits(off, 0x26, d.len() as int) {
            seq![
                ("Core Count"@, decimal(d[off + 0x23] as nat)),
                ("Thread Count"@, decimal(d[off + 0x25] as nat)),
            ]
        } else {
            seq![]
        }
    } else {
        seq![]
    }
}

fn parse_type_4(data: &[u8], offset: usize, strings: &[String]) -> (r: Vec<(String, String)>)
    ensures
        fields_view(r@) == processor_fields(data@, offset as int, pool_view(strings@)),
{
    let mut info: Vec<(String, String)> = Vec::new();
    if !fits_exec(data, offset, 0x11) {
        proof {
            assert(fields_view(info@) =~= seq![]);
        }
        return info;
    }
    push_field(&mut info, "Socket Designator", get_string_by_index(strings, data[offset + 4]));
    push_field(&mut info, "Processor Type", hex_literal_text(data[offset + 5] as u64, 2));
    push_field(&mut info, "Manufacturer", get_string_by_index(strings, data[offset + 7]));
    push_field(&mut info, "Version", get_string_by_index(strings, data[offset + 0x10]));
    if fits_exec(data, offset, 0x26) {
        push_field(&mut info, "Core Count", dec_text(data[offset + 0x23] as u64));
        push_field(&mut info, "Thread Count", dec_text(data[offset + 0x25] as u64));
    }
    proof {
        assert(fields_view(info@) =~= processor_fields(data@, offset as int, pool_view(strings@)));
    }
    info
}

/// A cache size: 0 means none installed; the high bit selects 64 KB units
/// instead of 1 KB units for the 15-bit magnitude.
pub open spec fn cache_size_text(s: u16) -> Seq<char> {
    if s == 0 {
        "None"@
    } else if s >= 0x8000 {
        decimal(((s - 0x8000) * 64) as nat) + " KB"@
    } else {
        decimal(s as nat) + " KB"@
    }
}

fn cache_size_str(s: u16) -> (r: String)
    ensures
        r@ == cache_size_text(s),
{
    if s == 0 {
        String::from_str("None")
    } else if s >= 0x8000 {
        with_unit((s - 0x8000) as u64 * 64, " KB")
    } else {
        with_unit(s as u64, " KB")
    }
}

/// A speed, or "Unknown" when zero.
pub open spec fn speed_text(v: nat, unit: Seq<char>) -> Seq<char> {
    if v != 0 {
        decimal(v) + unit
    } else {
        "Unknown"@
    }
}

fn speed_str(v: u64, unit: &str) -> (r: String)
    ensures
        r@ == speed_text(v as nat, unit@),
{
    if v != 0 {
        with_unit(v, unit)
    } else {
        String::from_str("Unknown")
    }
}

/// Fields of a cache information structure (type 7); error correction,
/// cache type and associativity only when the structure reaches offset 0x12.
pub open spec fn cache_fields(d: Seq<u8>, off: int, pool: Seq<Seq<char>>) -> Seq<(Seq<char>, Seq<char>)> {
    if fits(off, 0x10, d.len() as int) {
        seq![
            ("Socket Designator"@, pooled(d, off, 4, pool)),
            ("Configuration"@, hex_literal(le16(d, off + 5) as nat, 4)),
            ("Maximum Cache Size"@, cache_size_text(le16(d, off + 7) as u16)),
            ("Installed Size"@, cache_size_text(le16(d, off + 9) as u16)),
            ("Speed"@, speed_text(d[off + 0x0F] as nat, " ns"@)),
        ] + if fits(off, 0x13, d.len() as int) {
            seq![
                ("Error Correction"@, byte_hex(d, off, 0x10)),
                ("System Cache Type"@, byte_hex(d, off, 0x11)),
                ("Associativity"@, byte_hex(d, off, 0x12)),
            ]
        } else {
            seq![]
        }
    } else {
        seq![]
    }
}

fn parse_type_7(data: &[u8], offset: usize, strings: &[String]) -> (r: Vec<(String, String)>)
    ensures
        fields_view(r@) == cache_fields(data@, offset as int, pool_view(strings@)),
{
    let mut info: Vec<(String, String)> = Vec::new();
    if !fits_exec(data, offset, 0x10) {
        proof {
            assert(fields_view(info@) =~= seq![]);
        }
        return info;
    }
    let cfg = read_u16_at(data, offset + 5);
    let max_size = read_u16_at(data, offset + 7);
    let inst_size = read_u16_at(data, offset + 9);
    push_field(&mut info, "Socket Designator", get_string_by_index(strings, data[offset + 4]));
    push_field(&mut info, "Configuration", hex_literal_text(cfg as u64, 4));
    push_field(&mut info, "Maximum Cache Size", cache_size_str(max_size));
    push_field(&mut info, "Installed Size", cache_size_str(inst_size));
    push_field(&mut info, "Speed", speed_str(data[offset + 0x0F] as u64, " ns"));
    if fits_exec(data, offset, 0x13) {
        push_field(&mut info, "Error Correction", hex_literal_text(data[offset + 0x10] as u64, 2));
        push_field(&mut info, "System Cache Type", hex_literal_text(data[offset + 0x11] as u64, 2));
        push_field(&mut info, "Associativity", hex_literal_text(data[offset + 0x12] as u64, 2));
    }
    proof {
        assert(fields_view(info@) =~= cache_fields(data@, offset as int, pool_view(strings@)));
    }
    info
}

/// Fields of a port connector structure (type 8).
pub open spec fn port_fields(d: Seq<u8>, off: int, pool: Seq<Seq<char>>) -> Seq<(Seq<char>, Seq<char>)> {
    if fits(off, 9, d.len() as int) {
        seq![
            ("Internal Reference"@, pooled(d, off, 4, pool)),
            ("Internal Connector Type"@, connector_name(d[off + 5])),
            ("External Reference"@, pooled(d, off, 6, pool)),
            ("External Connector Type"@, connector_name(d[off + 7])),
            ("Port Type"@, port_name(d[off + 8])),
        ]
    } else {
        seq![]
    }
}

fn parse_type_8(data: &[u8], offset: usize, strings: &[String]) -> (r: Vec<(String, String)>)
    ensures
        fields_view(r@) == port_fields(data@, offset as int, pool_view(strings@)),
{
    let mut info: Vec<(String, String)> = Vec::new();
    if !fits_exec(data, offset, 9) {
        proof {
            assert(fields_view(info@) =~= seq![]);
        }
        return info;
    }
    push_field(&mut info, "Internal Reference", get_string_by_index(strings, data[offset + 4]));
    push_field(&mut info, "Internal Connector Type", connector_type_str(data[offset + 5]));
    push_field(&mut info, "External Reference", get_string_by_index(strings, data[offset + 6]));
    push_field(&mut info, "External Connector Type", connector_type_str(data[offset + 7]));
    push_field(&mut info, "Port Type", port_type_str(data[offset + 8]));
    proof {
        assert(fields_view(info@) =~= port_fields(data@, offset as int, pool_view(strings@)));
    }
    info
}

/// Fields of a system slot structure (type 9).
pub open spec fn slot_fields(d: Seq<u8>, off: int, pool: Seq<Seq<char>>) -> Seq<(Seq<char>, Seq<char>)> {
    if fits(off, 0x0B, d.len() as int) {
        seq![
            ("Slot Designator"@, pooled(d, off, 4, pool)),
            ("Slot Type"@, byte_hex(d, off, 5)),
            ("Data Bus Width"@, byte_hex(d, off, 6)),
            ("Current Usage"@, byte_hex(d, off, 7)),
            ("Slot Length"@, byte_hex(d, off, 8)),
            ("Slot ID"@, hex_literal(le16(d, off + 9) as nat, 4)),
        ]
    } else {
        seq![]
    }
}

fn parse_type_9(data: &[u8], offset: usize, strings: &[String]) -> (r: Vec<(String, String)>)
    ensures
        fields_view(r@) == slot_fields(data@, offset as int, pool_view(strings@)),
{
    let mut info: Vec<(String, String)> = Vec::new();
    if !fits_exec(data, offset, 0x0B) {
        proof {
            assert(fields_view(info@) =~= seq![]);
        }
        return info;
    }
    let id = read_u16_at(data, offset + 9);
    push_field(&mut info, "Slot Designator", get_string_by_index(strings, data[offset + 4]));
    push_field(&mut info, "Slot Type", hex_literal_text(data[offset + 5] as u64, 2));
    push_field(&mut info, "Data Bus Width", hex_literal_text(data[offset + 6] as u64, 2));
    push_field(&mut info, "Current Usage", hex_literal_text(data[offset + 7] as u64, 2));
    push_field(&mut info, "Slot Length", hex_literal_text(data[offset + 8] as u64, 2));
    push_field(&mut info, "Slot ID", hex_literal_text(id as u64, 4));
    proof {
        assert(fields_view(info@) =~= slot_fields(data@, offset as int, pool_view(strings@)));
    }
    info
}

/// Fields of an OEM strings structure (type 11): every string of the pool,
/// numbered from 1.
pub open spec fn oem_fields(pool: Seq<Seq<char>>) -> Seq<(Seq<char>, Seq<char>)> {
    Seq::new(pool.len(), |i: int| ("String "@ + decimal((i + 1) as nat), pool[i]))
}

fn parse_type_11(strings: &[String]) -> (r: Vec<(String, String)>)
    ensures
        fields_view(r@) == oem_fields(pool_view(strings@)),
{
    let mut info: Vec<(String, String)> = Vec::new();
    let mut i: usize = 0;
    while i < strings.len()
        invariant
            i <= strings@.len(),
            fields_view(info@) =~= oem_fields(pool_view(strings@)).subrange(0, i as int),
        decreases strings@.len() - i,
    {
        let mut name = String::from_str("String ");
        let number = dec_text(i as u64 + 1);
        name.append(number.as_str());
        let value = strings[i].clone();
        let ghost before = info@;
        let ghost entry = (name@, value@);
        info.push((name, value));
        proof {
            assert(fields_view(info@) =~= fields_view(before).push(entry));
            assert(entry == oem_fields(pool_view(strings@))[i as int]);
            assert(fields_view(info@) =~= oem_fields(pool_view(strings@)).subrange(0, i + 1));
        }
        i = i + 1;
    }
    info
}

/// The pool's strings separated by ", ".
pub open spec fn joined(pool: Seq<Seq<char>>) -> Seq<char>
    decreases pool.len(),
{
    if pool.len() == 0 {
        seq![]
    } else if pool.len() == 1 {
        pool[0]
    } else {
        joined(pool.drop_last()) + ", "@ + pool.last()
    }
}

fn join_strings(strings: &[String]) -> (r: String)
    ensures
        r@ == joined(pool_view(strings@)),
{
    let mut all = String::new();
    let mut i: usize = 0;
    while i < strings.len()
        invariant
            i <= strings@.len(),
            all@ == joined(pool_view(strings@).subrange(0, i as int)),
        decreases strings@.len() - i,
    {
        let ghost pool = pool_view(strings@);
        proof {
            assert(pool.subrange(0, i + 1).drop_last() =~= pool.subrange(0, i as int));
        }
        if i > 0 {
            all.append(", ");
        } else {
            assert(all@ + pool[0] =~= pool[0]);
        }
        all.append(strings[i].as_str());
        i = i + 1;
    }
    proof {
        assert(pool_view(strings@).subrange(0, strings@.len() as int) =~= pool_view(strings@));
    }
    all
}

/// Fields of a BIOS language structure (type 13); the available languages
/// only when the pool holds any.
pub open spec fn language_fields(d: Seq<u8>, off: int, pool: Seq<Seq<char>>) -> Seq<(Seq<char>, Seq<char>)> {
    if fits(off, 0x16, d.len() as int) {
        seq![
            ("Installable Languages"@, decimal(d[off + 4] as nat)),
            ("Format"@, if d[off + 5] % 2 == 1 { "Abbreviated"@ } else { "Long"@ }),
            ("Current Language"@, pooled(d, off, 0x15, pool)),
        ] + if pool.len() > 0 {
            seq![("Available Languages"@, joined(pool))]
        } else {
            seq![]
        }
    } else {
        seq![]
    }
}

fn parse_type_13(data: &[u8], offset: usize, strings: &[String]) -> (r: Vec<(String, String)>)
    ensures
        fields_view(r@) == language_fields(data@, offset as int, pool_view(strings@)),
{
    let mut info: Vec<(String, String)> = Vec::new();
    if !fits_exec(data, offset, 0x16) {
        proof {
            assert(fields_view(info@) =~= seq![]);
        }
        return info;
    }
    push_field(&mut info, "Installable Languages", dec_text(data[offset + 4] as u64));
    let format = if data[offset + 5] % 2 == 1 {
        String::from_str("Abbreviated")
    } else {
        String::from_str("Long")
    };
    push_field(&mut info, "Format", format);
    push_field(&mut info, "Current Language", get_string_by_index(strings, data[offset + 0x15]));
    if strings.len() > 0 {
        push_field(&mut info, "Available Languages", join_strings(strings));
    }
    proof {
        assert(fields_view(info@) =~= language_fields(data@, offset as int, pool_view(strings@)));
    }
    info
}

/// Maximum capacity of a physical memory array: the sentinel 0x80000000
/// defers to the 64-bit extended field at offset 0x0F (in KB, shown in GB)
/// when the structure holds it.
pub open spec fn capacity_text(d: Seq<u8>, off: int) -> Seq<char> {
    if le32(d, off + 7) == 0x8000_0000 {
        if fits(off, 0x17, d.len() as int) {
            decimal((le64(d, off + 0x0F) / 1048576int) as nat) + " GB"@
        } else {
            "Extended (>2TB)"@
        }
    } else {
        decimal(le32(d, off + 7) as nat) + " KB"@
    }
}

/// An error information handle, unless it is one of the two "none" values.
pub open spec fn error_handle_text(h: u16) -> Seq<char> {
    if h != 0xFFFE && h != 0xFFFF {
        hex_literal(h as nat, 4)
    } else {
        "Not Provided"@
    }
}

/// Fields of a physical memory array structure (type 16).
pub open spec fn memory_array_fields(d: Seq<u8>, off: int) -> Seq<(Seq<char>, Seq<char>)> {
    if fits(off, 0x0F, d.len() as int) {
        seq![
            ("Location"@, array_location_name(d[off + 4])),
            ("Use"@, array_use_name(d[off + 5])),
            ("Error Correction"@, error_correction_name(d[off + 6])),
            ("Maximum Capacity"@, capacity_text(d, off)),
            ("Error Info Handle"@, error_handle_text(le16(d, off + 0x0B) as u16)),
            ("Number of Devices"@, decimal(le16(d, off + 0x0D) as nat)),
        ]
    } else {
        seq![]
    }
}

fn parse_type_16(data: &[u8], offset: usize) -> (r: Vec<(String, String)>)
    ensures
        fields_view(r@) == memory_array_fields(data@, offset as int),
{
    let mut info: Vec<(String, String)> = Vec::new();
    if !fits_exec(data, offset, 0x0F) {
        proof {
            assert(fields_view(info@) =~= seq![]);
        }
        return info;
    }
    let max_capacity = read_u32_at(data, offset + 7);
    let err_info_handle = read_u16_at(data, offset + 0x0B);
    let num_devices = read_u16_at(data, offset + 0x0D);
    push_field(&mut info, "Location", memory_array_location_str(data[offset + 4]));
    push_field(&mut info, "Use", memory_array_use_str(data[offset + 5]));
    push_field(&mut info, "Error Correction", memory_error_correction_str(data[offset + 6]));
    let capacity = if max_capacity == 0x8000_0000 {
        if fits_exec(data, offset, 0x17) {
            let ext_max = read_u64_at(data, offset + 0x0F);
            with_unit(ext_max / (1024 * 1024), " GB")
        } else {
            String::from_str("Extended (>2TB)")
        }
    } else {
        with_unit(max_capacity as u64, " KB")
    };
    push_field(&mut info, "Maximum Capacity", capacity);
    let handle = if err_info_handle != 0xFFFE && err_info_handle != 0xFFFF {
        hex_literal_text(err_info_handle as u64, 4)
    } else {
        String::from_str("Not Provided")
    };
    push_field(&mut info, "Error Info Handle", handle);
    push_field(&mut info, "Number of Devices", dec_text(num_devices as u64));
    proof {
        assert(fields_view(info@) =~= memory_array_fields(data@, offset as int));
    }
    info
}

/// Size of a memory device: 0xFFFF is unknown or extended, 0 is an empty
/// socket, the high bit gives the 15-bit remainder in KB, else the value is
/// in MB.
pub open spec fn memory_size_text(s: u16) -> Seq<char> {
    if s == 0xFFFF {
        "Unknown / Extended"@
    } else if s == 0 {
        "No Module Installed"@
    } else if s >= 0x8000 {
        decimal((s - 0x8000) as nat) + " KB"@
    } else {
        decimal(s as nat) + " MB"@
    }
}

/// Renders the size field of a memory device.
pub fn memory_size_str(s: u16) -> (r: String)
    ensures
        r@ == memory_size_text(s),
{
    if s == 0xFFFF {
        String::from_str("Unknown / Extended")
    } else if s == 0 {
        String::from_str("No Module Installed")
    } else if s >= 0x8000 {
        with_unit((s - 0x8000) as u64, " KB")
    } else {
        with_unit(s as u64, " MB")
    }
}

/// Fields of a memory device structure (type 17).
pub open spec fn memory_device_fields(d: Seq<u8>, off: int, pool: Seq<Seq<char>>) -> Seq<(Seq<char>, Seq<char>)> {
    if fits(off, 0x1C, d.len() as int) {
        seq![
            ("Device Locator"@, pooled(d, off, 0x10, pool)),
            ("Bank Locator"@, pooled(d, off, 0x11, pool)),
            ("Size"@, memory_size_text(le16(d, off + 0x0C) as u16)),
            ("Speed"@, speed_text(le16(d, off + 0x15) as nat, " MT/s"@)),
            ("Manufacturer"@, pooled(d, off, 0x17, pool)),
            ("Serial Number"@, pooled(d, off, 0x18, pool)),
            ("Asset Tag"@, pooled(d, off, 0x19, pool)),
            ("Part Number"@, pooled(d, off, 0x1A, pool)),
            ("Total Width"@, decimal(le16(d, off + 8) as nat) + " bits"@),
            ("Data Width"@, decimal(le16(d, off + 0x0A) as nat) + " bits"@),
        ]
    } else {
        seq![]
    }
}

fn parse_type_17(data: &[u8], offset: usize, strings: &[String]) -> (r: Vec<(String, String)>)
    ensures
        fields_view(r@) == memory_device_fields(data@, offset as int, pool_view(strings@)),
{
    let mut info: Vec<(String, String)> = Vec::new();
    if !fits_exec(data, offset, 0x1C) {
        proof {
            assert(fields_view(info@) =~= seq![]);
        }
        return info;
    }
    let total_width = read_u16_at(data, offset + 8);
    let data_width = read_u16_at(data, offset + 0x0A);
    let size = read_u16_at(data, offset + 0x0C);
    let speed = read_u16_at(data, offset + 0x15);
    push_field(&mut info, "Device Locator", get_string_by_index(strings, data[offset + 0x10]));
    push_field(&mut info, "Bank Locator", get_string_by_index(strings, data[offset + 0x11]));
    push_field(&mut info, "Size", memory_size_str(size));
    push_field(&mut info, "Speed", speed_str(speed as u64, " MT/s"));
    push_field(&mut info, "Manufacturer", get_string_by_index(strings, data[offset + 0x17]));
    push_field(&mut info, "Serial Number", get_string_by_index(strings, data[offset + 0x18]));
    push_field(&mut info, "Asset Tag", get_string_by_index(strings, data[offset + 0x19]));
    push_field(&mut info, "Part Number", get_string_by_index(strings, data[offset + 0x1A]));
    push_field(&mut info, "Total Width", with_unit(total_width as u64, " bits"));
    push_field(&mut info, "Data Width", with_unit(data_width as u64, " bits"));
    proof {
        assert(fields_view(info@) =~= memory_device_fields(data@, offset as int, pool_view(strings@)));
    }
    info
}

/// Size in whole MB of the inclusive range `[start, end]` measured in units
/// of `1 / per_mb` MB; an inverted range (end below start) is empty.
pub open spec fn range_mb(start: int, end: int, per_mb: int) -> int {
    if end >= start {
        (end - start + 1) / per_mb
    } else {
        0
    }
}

/// A 32-bit address in KB: `0xNNNNNNNN (N KB)`.
pub open spec fn kb_address_text(a: int) -> Seq<char> {
    hex_literal(a as nat, 8) + " ("@ + decimal(a as nat) + " KB)"@
}

fn kb_address_str(a: u32) -> (r: String)
    ensures
        r@ == kb_address_text(a as int),
{
    let mut s = hex_literal_text(a as u64, 8);
    s.append(" (");
    let digits = dec_text(a as u64);
    s.append(digits.as_str());
    s.append(" KB)");
    s
}

/// The address fields of a memory array mapped address structure: the
/// sentinel pair 0xFFFFFFFF / 0xFFFFFFFF defers to the 64-bit extended pair
/// at offsets 0x0F and 0x17 when the structure holds it.
pub open spec fn mapped_range_fields(d: Seq<u8>, off: int) -> Seq<(Seq<char>, Seq<char>)> {
    let start = le32(d, off + 4);
    let end = le32(d, off + 8);
    if start == 0xFFFF_FFFF && end == 0xFFFF_FFFF {
        if fits(off, 0x1F, d.len() as int) {
            let ext_start = le64(d, off + 0x0F);
            let ext_end = le64(d, off + 0x17);
            seq![
                ("Starting Address"@, hex_literal(ext_start as nat, 16)),
                ("Ending Address"@, hex_literal(ext_end as nat, 16)),
                ("Range Size"@, decimal(range_mb(ext_start, ext_end, 1048576) as nat) + " MB"@),
            ]
        } else {
            seq![
                ("Starting Address"@, "Extended (>4GB)"@),
                ("Ending Address"@, "Extended (>4GB)"@),
            ]
        }
    } else {
        seq![
            ("Starting Address"@, kb_address_text(start)),
            ("Ending Address"@, kb_address_text(end)),
            ("Range Size"@, decimal(range_mb(start, end, 1024) as nat) + " MB"@),
        ]
    }
}

/// Fields of a memory array mapped address structure (type 19).
pub open spec fn mapped_address_fields(d: Seq<u8>, off: int) -> Seq<(Seq<char>, Seq<char>)> {
    if fits(off, 0x0F, d.len() as int) {
        mapped_range_fields(d, off) + seq![
            ("Physical Array Handle"@, hex_literal(le16(d, off + 0x0C) as nat, 4)),
            ("Partition Width"@, decimal(d[off + 0x0E] as nat)),
        ]
    } else {
        seq![]
    }
}

fn parse_type_19(data: &[u8], offset: usize) -> (r: Vec<(String, String)>)
    ensures
        fields_view(r@) == mapped_address_fields(data@, offset as int),
{
    let mut info: Vec<(String, String)> = Vec::new();
    if !fits_exec(data, offset, 0x0F) {
        proof {
            assert(fields_view(info@) =~= seq![]);
        }
        return info;
    }
    let start_addr = read_u32_at(data, offset + 4);
    let end_addr = read_u32_at(data, offset + 8);
    let array_handle = read_u16_at(data, offset + 0x0C);
    let partition_width = data[offset + 0x0E];
    if start_addr == 0xFFFF_FFFF && end_addr == 0xFFFF_FFFF {
        if fits_exec(data, offset, 0x1F) {
            let ext_start = read_u64_at(data, offset + 0x0F);
            let ext_end = read_u64_at(data, offset + 0x17);
            push_field(&mut info, "Starting Address", hex_literal_text(ext_start, 16));
            push_field(&mut info, "Ending Address", hex_literal_text(ext_end, 16));
            let span: u128 = if ext_end >= ext_start {
                ext_end as u128 - ext_start as u128 + 1
            } else {
                0
            };
            push_field(&mut info, "Range Size", with_unit((span / 1048576) as u64, " MB"));
        } else {
            push_field(&mut info, "Starting Address", String::from_str("Extended (>4GB)"));
            push_field(&mut info, "Ending Address", String::from_str("Extended (>4GB)"));
        }
    } else {
        push_field(&mut info, "Starting Address", kb_address_str(start_addr));
        push_field(&mut info, "Ending Address", kb_address_str(end_addr));
        let span: u64 = if end_addr >= start_addr {
            end_addr as u64 - start_addr as u64 + 1
        } else {
            0
        };
        push_field(&mut info, "Range Size", with_unit(span / 1024, " MB"));
    }
    push_field(&mut info, "Physical Array Handle", hex_literal_text(array_handle as u64, 4));
    push_field(&mut info, "Partition Width", dec_text(partition_width as u64));
    proof {
        assert(fields_view(info@) =~= mapped_address_fields(data@, offset as int));
    }
    info
}

/// Description of a system boot status code.
pub open spec fn boot_status_name(code: u8) -> Seq<char> {
    match code {
        0 => "No errors detected"@,
        1 => "No bootable media"@,
        2 => "Normal boot"@,
        3 => "User-requested boot"@,
        4 => "System-requested boot"@,
        5 => "Kernel panic"@,
        6 => "Recovery mode"@,
        _ => "Other / Unknown"@,
    }
}

fn boot_status_str(code: u8) -> (r: String)
    ensures
        r@ == boot_status_name(code),
{
    match code {
        0 => String::from_str("No errors detected"),
        1 => String::from_str("No bootable media"),
        2 => String::from_str("Normal boot"),
        3 => String::from_str("User-requested boot"),
        4 => String::from_str("System-requested boot"),
        5 => String::from_str("Kernel panic"),
        6 => String::from_str("Recovery mode"),
        _ => String::from_str("Other / Unknown"),
    }
}

/// Fields of a system boot information structure (type 32).
pub open spec fn boot_fields(d: Seq<u8>, off: int) -> Seq<(Seq<char>, Seq<char>)> {
    if fits(off, 0x0B, d.len() as int) {
        seq![
            ("Boot Status"@, byte_hex(d, off, 0x0A)),
            ("Status Description"@, boot_status_name(d[off + 0x0A])),
        ]
    } else {
        seq![]
    }
}

fn parse_type_32(data: &[u8], offset: usize) -> (r: Vec<(String, String)>)
    ensures
        fields_view(r@) == boot_fields(data@, offset as int),
{
    let mut info: Vec<(String, String)> = Vec::new();
    if !fits_exec(data, offset, 0x0B) {
        proof {
            assert(fields_view(info@) =~= seq![]);
        }
        return info;
    }
    let status = data[offset + 0x0A];
    push_field(&mut info, "Boot Status", hex_literal_text(status as u64, 2));
    push_field(&mut info, "Status Description", boot_status_str(status));
    proof {
        assert(fields_view(info@) =~= boot_fields(data@, offset as int));
    }
    info
}

/// The single field of an end-of-table structure (type 127).
pub open spec fn end_of_table_fields() -> Seq<(Seq<char>, Seq<char>)> {
    seq![("Description"@, "End of SMBIOS structure table"@)]
}

fn parse_type_127() -> (r: Vec<(String, String)>)
    ensures
        fields_view(r@) == end_of_table_fields(),
{
    let mut info: Vec<(String, String)> = Vec::new();
    push_field(&mut info, "Description", String::from_str("End of SMBIOS structure table"));
    proof {
        assert(fields_view(info@) =~= end_of_table_fields());
    }
    info
}

/// The fields that the interpreter for `type_id` gives, or `None` when no
/// interpreter exists for that type.
pub open spec fn details_of(type_id: u8, d: Seq<u8>, off: int, pool: Seq<Seq<char>>) -> Option<Seq<(Seq<char>, Seq<char>)>> {
    match type_id {
        0 => Some(bios_fields(d, off, pool)),
        1 => Some(system_fields(d, off, pool)),
        2 => Some(baseboard_fields(d, off, pool)),
        3 => Some(chassis_fields(d, off, pool)),
        4 => Some(processor_fields(d, off, pool)),
        7 => Some(cache_fields(d, off, pool)),
        8 => Some(port_fields(d, off, pool)),
        9 => Some(slot_fields(d, off, pool)),
        11 => Some(oem_fields(pool)),
        13 => Some(language_fields(d, off, pool)),
        16 => Some(memory_array_fields(d, off)),
        17 => Some(memory_device_fields(d, off, pool)),
        19 => Some(mapped_address_fields(d, off)),
        32 => Some(boot_fields(d, off)),
        127 => Some(end_of_table_fields()),
        _ => None,
    }
}

/// Interprets the structure of type `type_id` whose formatted region starts
/// at `offset`, with its string pool `strings`. Returns `None` for a type
/// with no interpreter; a structure too short for its fields gives a
/// partial or empty list.
pub fn parse_smbios_details(
    type_id: u8,
    data: &[u8],
    offset: usize,
    _header_len: u8,
    strings: &[String],
) -> (r: Option<Vec<(String, String)>>)
    ensures
        r is Some <==> details_of(type_id, data@, offset as int, pool_view(strings@)) is Some,
        r matches Some(v) ==> details_of(type_id, data@, offset as int, pool_view(strings@)) == Some(fields_view(v@)),
{
    match type_id {
        0 => Some(parse_type_0(data, offset, strings)),
        1 => Some(parse_type_1(data, offset, strings)),
        2 => Some(parse_type_2(data, offset, strings)),
        3 => Some(parse_type_3(data, offset, strings)),
        4 => Some(parse_type_4(data, offset, strings)),
        7 => Some(parse_type_7(data, offset, strings)),
        8 => Some(parse_type_8(data, offset, strings)),
        9 => Some(parse_type_9(data, offset, strings)),
        11 => Some(parse_type_11(strings)),
        13 => Some(parse_type_13(data, offset, strings)),
        16 => Some(parse_type_16(data, offset)),
        17 => Some(parse_type_17(data, offset, strings)),
        19 => Some(parse_type_19(data, offset)),
        32 => Some(parse_type_32(data, offset)),
        127 => Some(parse_type_127()),
        _ => None,
    }
}

} // verus!
