//! The common 36-byte ACPI table header and the references between tables:
//! the FADT's pointers to the FACS and the DSDT, and the XSDT's array of
//! pointers to all other tables.

use vstd::prelude::*;
use vstd::string::*;
use vstd::std_specs::hash::*;
use std::collections::HashMap;
use crate::bytes::{le32, le64, clean_text, clean_str, read_u32_at, read_u64_at, padded_ascii, lemma_padded_text_round_trip};
use crate::text::{decimal, dec_text};

verus! {

broadcast use group_hash_axioms;

/// Size of the header that every ACPI table starts with.
pub const ACPI_HEADER_LEN: usize = 36;

/// The common header of an ACPI table.
#[derive(Debug)]
pub struct AcpiTableHeader {
    /// The 4-character signature (for instance "FACP" or "APIC").
    pub signature: String,
    /// Total size of the table, header included.
    pub length: u32,
    pub revision: u8,
    /// Captured for display; never checked.
    pub checksum: u8,
    pub oem_id: String,
    pub oem_table_id: String,
    pub oem_revision: u32,
    pub creator_id: String,
    pub creator_revision: u32,
}

/// The header fields of a buffer of at least 36 bytes, as stored: integers
/// little-endian, text fields NUL-trimmed and decoded permissively.
pub open spec fn header_matches(h: AcpiTableHeader, d: Seq<u8>) -> bool {
    &&& h.signature@ == clean_text(d.subrange(0, 4))
    &&& h.length as int == le32(d, 4)
    &&& h.revision == d[8]
    &&& h.checksum == d[9]
    &&& h.oem_id@ == clean_text(d.subrange(10, 16))
    &&& h.oem_table_id@ == clean_text(d.subrange(16, 24))
    &&& h.oem_revision as int == le32(d, 24)
    &&& h.creator_id@ == clean_text(d.subrange(28, 32))
    &&& h.creator_revision as int == le32(d, 32)
}

/// Decodes the common header; fails when fewer than 36 bytes are given.
/// The checksum is not validated.
pub fn parse_acpi_header(data: &[u8]) -> (r: Result<AcpiTableHeader, String>)
    ensures
        r is Err <==> data@.len() < 36,
        r matches Ok(h) ==> header_matches(h, data@),
{
    if data.len() < ACPI_HEADER_LEN {
        return Err(String::from_str("Data too short for ACPI header"));
    }
    let signature = clean_str(data, 0, 4);
    let length = read_u32_at(data, 4);
    let revision = data[8];
    let checksum = data[9];
    let oem_id = clean_str(data, 10, 16);
    let oem_table_id = clean_str(data, 16, 24);
    let oem_revision = read_u32_at(data, 24);
    let creator_id = clean_str(data, 28, 32);
    let creator_revision = read_u32_at(data, 32);
    Ok(AcpiTableHeader {
        signature,
        length,
        revision,
        checksum,
        oem_id,
        oem_table_id,
        oem_revision,
        creator_id,
        creator_revision,
    })
}

/// Whether the buffer holds a header whose signature reads `sig`.
pub open spec fn signature_is(d: Seq<u8>, sig: Seq<char>) -> bool {
    d.len() >= 36 && clean_text(d.subrange(0, 4)) == sig
}

/// Whether the signature field of `data` reads `sig`.
fn has_signature(data: &[u8], sig: &str) -> (r: bool)
    ensures
        r == signature_is(data@, sig@),
{
    if data.len() < ACPI_HEADER_LEN {
        return false;
    }
    let found = clean_str(data, 0, 4);
    let wanted = String::from_str(sig);
    found == wanted
}

/// A pointer of the FADT: the 64-bit field when the table reaches it and it
/// is non-zero, else the 32-bit field.
pub open spec fn fadt_pointer(d: Seq<u8>, off32: int, off64: int) -> int {
    if d.len() >= 148 && le64(d, off64) != 0 {
        le64(d, off64)
    } else {
        le32(d, off32)
    }
}

/// A labelled reference, left out when its address is zero.
pub open spec fn labelled(addr: int, label: Seq<char>) -> Seq<(u64, Seq<char>)> {
    if addr != 0 {
        seq![(addr as u64, label)]
    } else {
        seq![]
    }
}

/// The references of a FADT ("FACP"): the FACS pointer (offsets 36 and 132)
/// and the DSDT pointer (offsets 40 and 140), each omitted when zero. Any
/// other table, or one too short to hold the 32-bit pointers, has none.
pub open spec fn fadt_refs(d: Seq<u8>) -> Seq<(u64, Seq<char>)> {
    if !signature_is(d, "FACP"@) || d.len() < 44 {
        seq![]
    } else {
        labelled(fadt_pointer(d, 36, 132), "FACS"@) + labelled(fadt_pointer(d, 40, 140), "DSDT"@)
    }
}

/// The addresses and texts of a list of labelled references.
pub open spec fn refs_view(v: Seq<(u64, String)>) -> Seq<(u64, Seq<char>)> {
    v.map_values(|p: (u64, String)| (p.0, p.1@))
}

fn push_ref(refs: &mut Vec<(u64, String)>, addr: u64, label: &str)
    ensures
        refs_view(final(refs)@) == refs_view(old(refs)@) + labelled(addr as int, label@),
{
    if addr != 0 {
        let ghost before = refs@;
        refs.push((addr, String::from_str(label)));
        proof {
            assert(refs_view(refs@) =~= refs_view(before) + labelled(addr as int, label@));
        }
    } else {
        proof {
            assert(refs_view(refs@) =~= refs_view(refs@) + labelled(addr as int, label@));
        }
    }
}

/// Extracts the FACS and DSDT addresses that a FADT points to, preferring the
/// 64-bit pointers where present and non-zero.
pub fn parse_fadt_references(data: &[u8]) -> (r: Vec<(u64, String)>)
    ensures
        refs_view(r@) == fadt_refs(data@),
{
    let mut refs: Vec<(u64, String)> = Vec::new();
    if !has_signature(data, "FACP") || data.len() < 44 {
        proof {
            assert(refs_view(refs@) =~= fadt_refs(data@));
        }
        return refs;
    }
    let facs_32 = read_u32_at(data, 36) as u64;
    let dsdt_32 = read_u32_at(data, 40) as u64;
    let mut facs = facs_32;
    let mut dsdt = dsdt_32;
    if data.len() >= 148 {
        let facs_64 = read_u64_at(data, 132);
        let dsdt_64 = read_u64_at(data, 140);
        if facs_64 != 0 {
            facs = facs_64;
        }
        if dsdt_64 != 0 {
            dsdt = dsdt_64;
        }
    }
    proof {
        assert(refs_view(refs@) =~= seq![]);
    }
    push_ref(&mut refs, facs, "FACS");
    push_ref(&mut refs, dsdt, "DSDT");
    proof {
        assert(refs_view(refs@) =~= fadt_refs(data@));
    }
    refs
}

/// Whether the buffer is an XSDT whose declared length lies between the
/// header size and the buffer size.
pub open spec fn xsdt_ok(d: Seq<u8>) -> bool {
    signature_is(d, "XSDT"@) && 36 <= le32(d, 4) <= d.len()
}

/// Number of complete 8-byte entries of an XSDT; a trailing partial entry
/// does not count.
pub open spec fn xsdt_count(d: Seq<u8>) -> int {
    (le32(d, 4) - 36) / 8
}

/// The physical address of entry `i` of an XSDT.
pub open spec fn xsdt_address(d: Seq<u8>, i: int) -> u64 {
    le64(d, 36 + 8 * i) as u64
}

/// The label of an address: the one the map gives, else `Entry{i}`.
pub open spec fn entry_label(m: Map<u64, String>, addr: u64, i: int) -> Seq<char> {
    if m.contains_key(addr) {
        m[addr]@
    } else {
        "Entry"@ + decimal(i as nat)
    }
}

/// Decodes the entries of an XSDT: for each complete 8-byte pointer after
/// the header, its index, its address and its label. Fails when the buffer
/// is not an XSDT or its declared length is below 36 or beyond the buffer.
pub fn parse_xsdt_entries(data: &[u8], addr_map: &HashMap<u64, String>) -> (r: Option<Vec<(usize, u64, String)>>)
    ensures
        r is Some <==> xsdt_ok(data@),
        r matches Some(v) ==> {
            &&& v@.len() == xsdt_count(data@)
            &&& forall|i: int| 0 <= i < v@.len() ==> {
                &&& (#[trigger] v@[i]).0 == i
                &&& v@[i].1 == xsdt_address(data@, i)
                &&& v@[i].2@ == entry_label(addr_map@, v@[i].1, i)
            }
        },
{
    if !has_signature(data, "XSDT") {
        return None;
    }
    let table_len = read_u32_at(data, 4) as usize;
    if table_len > data.len() || table_len < ACPI_HEADER_LEN {
        return None;
    }
    let entry_count: usize = (table_len - ACPI_HEADER_LEN) / 8;
    proof {
        assert(8 * entry_count <= table_len - 36) by (nonlinear_arith)
            requires entry_count == (table_len - 36) / 8, table_len >= 36;
    }
    let mut entries: Vec<(usize, u64, String)> = Vec::new();
    let mut i: usize = 0;
    while i < entry_count
        invariant
            0 <= i <= entry_count,
            entry_count == xsdt_count(data@),
            36 + 8 * entry_count <= table_len <= data@.len(),
            entries@.len() == i,
            forall|j: int| 0 <= j < i ==> {
                &&& (#[trigger] entries@[j]).0 == j
                &&& entries@[j].1 == xsdt_address(data@, j)
                &&& entries@[j].2@ == entry_label(addr_map@, entries@[j].1, j)
            },
        decreases entry_count - i,
    {
        let offset: usize = ACPI_HEADER_LEN + 8 * i;
        let addr = read_u64_at(data, offset);
        let label = match addr_map.get(&addr) {
            Some(s) => s.clone(),
            None => {
                let mut s = String::from_str("Entry");
                let digits = dec_text(i as u64);
                s.append(digits.as_str());
                s
            },
        };
        entries.push((i, addr, label));
        i = i + 1;
    }
    Some(entries)
}

/// A header whose signature, OEM id and OEM table id fields hold ASCII texts
/// padded with NULs decodes those texts exactly.
pub proof fn lemma_header_text_round_trip(d: Seq<u8>, sig: Seq<char>, oem: Seq<char>, table: Seq<char>)
    requires
        d.len() >= 36,
        padded_ascii(d.subrange(0, 4), sig),
        padded_ascii(d.subrange(10, 16), oem),
        padded_ascii(d.subrange(16, 24), table),
    ensures
        forall|h: AcpiTableHeader| #[trigger] header_matches(h, d) ==> {
            &&& h.signature@ == sig
            &&& h.oem_id@ == oem
            &&& h.oem_table_id@ == table
        },
{
    lemma_padded_text_round_trip(d.subrange(0, 4), sig);
    lemma_padded_text_round_trip(d.subrange(10, 16), oem);
    lemma_padded_text_round_trip(d.subrange(16, 24), table);
}

/// The DSDT reference of a FADT long enough for the 64-bit pointers falls
/// back to the 32-bit pointer when the 64-bit one is zero, and takes the
/// 64-bit one otherwise; a non-zero result is the last reference listed.
pub proof fn lemma_fadt_dsdt_fallback(d: Seq<u8>)
    requires
        signature_is(d, "FACP"@),
        d.len() >= 148,
    ensures
        le64(d, 140) == 0 ==> fadt_pointer(d, 40, 140) == le32(d, 40),
        le64(d, 140) != 0 ==> fadt_pointer(d, 40, 140) == le64(d, 140),
        fadt_pointer(d, 40, 140) != 0 ==> fadt_refs(d).last() == (fadt_pointer(d, 40, 140) as u64, "DSDT"@),
{
}

/// An XSDT whose declared length is 36 + 8k has exactly k entries; one whose
/// length falls short of the next 8-byte boundary drops the incomplete entry.
pub proof fn lemma_xsdt_entry_count(d: Seq<u8>, k: int, extra: int)
    requires
        0 <= k,
        0 <= extra < 8,
        le32(d, 4) == 36 + 8 * k + extra,
    ensures
        xsdt_count(d) == k,
{
    assert((8 * k + extra) / 8 == k) by (nonlinear_arith)
        requires 0 <= k, 0 <= extra < 8;
}

} // verus!
