//! Discovery of ACPI tables from two sources: a configuration store walked
//! four levels deep (signature, OEM id, table id, revision), and a firmware
//! enumeration interface. The walk and the reads are done by the caller;
//! this module decides what each source contributes and merges the two.

use vstd::prelude::*;
use vstd::string::*;
use crate::bytes::{clean_text, clean_str, utf8_strict, strict_text};
use crate::text::{hex_bytes, hex_upper_bytes};

verus! {

/// Provider code of the ACPI tables for the firmware table interface.
pub const SIG_ACPI: u32 = 0x4143_5049;

/// Provider code of the raw SMBIOS data for the firmware table interface.
pub const SIG_RSMB: u32 = 0x5253_4D42;

/// One discovered ACPI table instance.
#[derive(Debug, Clone, PartialEq)]
pub struct AcpiTableInfo {
    /// The signature read from the table's own header (for instance "SSDT").
    pub signature: String,
    /// The signature under which the store indexes the table (for instance
    /// "SSD1" for a second SSDT).
    pub registry_sig: String,
    pub oem_id: String,
    pub table_id: String,
    pub revision: u32,
    /// Where the store keeps the table; `None` for a table to be read by
    /// signature through the firmware interface.
    pub registry_path: Option<String>,
    pub physical_address: Option<u64>,
}

/// The contents of an `AcpiTableInfo`, texts as character sequences.
pub ghost struct AcpiTableView {
    pub signature: Seq<char>,
    pub registry_sig: Seq<char>,
    pub oem_id: Seq<char>,
    pub table_id: Seq<char>,
    pub revision: u32,
    pub registry_path: Option<Seq<char>>,
    pub physical_address: Option<u64>,
}

impl View for AcpiTableInfo {
    type V = AcpiTableView;

    open spec fn view(&self) -> AcpiTableView {
        AcpiTableView {
            signature: self.signature@,
            registry_sig: self.registry_sig@,
            oem_id: self.oem_id@,
            table_id: self.table_id@,
            revision: self.revision,
            registry_path: match self.registry_path {
                Some(p) => Some(p@),
                None => None,
            },
            physical_address: self.physical_address,
        }
    }
}

/// The views of a list of tables.
pub open spec fn tables_view(v: Seq<AcpiTableInfo>) -> Seq<AcpiTableView> {
    v.map_values(|t: AcpiTableInfo| t@)
}

/// Whether some table of the list has the signature `sig`.
pub open spec fn lists_signature(tables: Seq<AcpiTableView>, sig: Seq<char>) -> bool {
    exists|i: int| 0 <= i < tables.len() && (#[trigger] tables[i]).signature == sig
}

/// Whether some table of the list has the signature `sig`.
pub fn contains_signature(tables: &Vec<AcpiTableInfo>, sig: &String) -> (r: bool)
    ensures
        r == lists_signature(tables_view(tables@), sig@),
{
    let mut i: usize = 0;
    while i < tables.len()
        invariant
            i <= tables@.len(),
            forall|j: int| 0 <= j < i ==> (#[trigger] tables@[j]).signature@ != sig@,
        decreases tables@.len() - i,
    {
        if tables[i].signature == *sig {
            proof {
                assert(tables_view(tables@)[i as int].signature == sig@);
            }
            return true;
        }
        i = i + 1;
    }
    proof {
        assert forall|j: int| 0 <= j < tables_view(tables@).len()
            implies (#[trigger] tables_view(tables@)[j]).signature != sig@ by {
            assert(tables@[j].signature@ != sig@);
        }
    }
    false
}


/// The entry for a table that the firmware interface lists under `sig` and
/// whose content is `d`: no store path; revision, OEM id and table id read
/// from the content's header, the ids NUL-trimmed as in the header.
pub open spec fn api_table_view(sig: Seq<char>, d: Seq<u8>) -> AcpiTableView {
    AcpiTableView {
        signature: sig,
        registry_sig: sig,
        oem_id: clean_text(d.subrange(10, 16)),
        table_id: clean_text(d.subrange(16, 24)),
        revision: d[8] as u32,
        registry_path: None,
        physical_address: None,
    }
}

/// Builds the entry for a table listed by the firmware interface under
/// `sig`, from its content; `None` when the content is shorter than a
/// header.
pub fn api_table_info(sig: &String, data: &[u8]) -> (r: Option<AcpiTableInfo>)
    ensures
        r is Some <==> data@.len() >= 36,
        r matches Some(t) ==> t@ == api_table_view(sig@, data@),
{
    if data.len() < 36 {
        return None;
    }
    Some(AcpiTableInfo {
        signature: sig.clone(),
        registry_sig: sig.clone(),
        oem_id: clean_str(data, 10, 16),
        table_id: clean_str(data, 16, 24),
        revision: data[8] as u32,
        registry_path: None,
        physical_address: None,
    })
}

/// A firmware-listed signature with the content read for it, if any.
pub open spec fn candidate_view(c: (String, Option<Vec<u8>>)) -> (Seq<char>, Option<Seq<u8>>) {
    (c.0@, match c.1 {
        Some(d) => Some(d@),
        None => None,
    })
}

/// The views of a list of firmware-listed candidates.
pub open spec fn candidates_view(v: Seq<(String, Option<Vec<u8>>)>) -> Seq<(Seq<char>, Option<Seq<u8>>)> {
    v.map_values(|c: (String, Option<Vec<u8>>)| candidate_view(c))
}

/// The merge of store entries `base` with the firmware candidates `api`,
/// taken in order: a candidate is added only when no entry merged so far
/// has its signature and its content holds a header.
pub open spec fn merged(base: Seq<AcpiTableView>, api: Seq<(Seq<char>, Option<Seq<u8>>)>) -> Seq<AcpiTableView>
    decreases api.len(),
{
    if api.len() == 0 {
        base
    } else {
        let prev = merged(base, api.drop_last());
        let c = api.last();
        if lists_signature(prev, c.0) {
            prev
        } else {
            match c.1 {
                Some(d) => if d.len() >= 36 {
                    prev.push(api_table_view(c.0, d))
                } else {
                    prev
                },
                None => prev,
            }
        }
    }
}

/// The store entries, or none when the store could not be read.
pub open spec fn store_entries(store: Result<Vec<AcpiTableInfo>, String>) -> Seq<AcpiTableView> {
    match store {
        Ok(v) => tables_view(v@),
        Err(_) => seq![],
    }
}

/// The firmware candidates, or none when the enumeration failed.
pub open spec fn firmware_candidates(
    api: Result<Vec<(String, Option<Vec<u8>>)>, String>,
) -> Seq<(Seq<char>, Option<Seq<u8>>)> {
    match api {
        Ok(v) => candidates_view(v@),
        Err(_) => seq![],
    }
}

/// The message of a source that could not be used.
pub open spec fn failure_of<T>(r: Result<T, String>) -> Option<Seq<char>> {
    match r {
        Ok(_) => None,
        Err(e) => Some(e@),
    }
}

/// The outcome of discovery: the merged tables, and for each source the
/// reason it could not be used, if it could not.
pub struct AcpiDiscovery {
    pub tables: Vec<AcpiTableInfo>,
    /// Why the configuration store could not be read.
    pub store_error: Option<String>,
    /// Why the firmware interface could not enumerate its tables.
    pub firmware_error: Option<String>,
}

/// The text of an optional message.
pub open spec fn message_view(m: Option<String>) -> Option<Seq<char>> {
    match m {
        Some(e) => Some(e@),
        None => None,
    }
}

/// Merges the tables found in the store with those that the firmware
/// interface lists. Every store entry is kept, duplicates included; a
/// firmware-listed table is added only when no entry merged before it has
/// the same signature and its content could be read and holds a header.
/// A source that could not be used contributes nothing, and its reason is
/// handed back; discovery itself never fails.
pub fn load_acpi_tables_combined(
    store: Result<Vec<AcpiTableInfo>, String>,
    api: Result<Vec<(String, Option<Vec<u8>>)>, String>,
) -> (r: AcpiDiscovery)
    ensures
        tables_view(r.tables@) == merged(store_entries(store), firmware_candidates(api)),
        message_view(r.store_error) == failure_of(store),
        message_view(r.firmware_error) == failure_of(api),
{
    let ghost base = store_entries(store);
    let ghost cands = firmware_candidates(api);
    let (tables, store_error) = match store {
        Ok(v) => (v, None),
        Err(e) => (Vec::new(), Some(e)),
    };
    proof {
        assert(tables_view(tables@) =~= base);
    }
    let (list, firmware_error) = match api {
        Ok(v) => (v, None),
        Err(e) => (Vec::new(), Some(e)),
    };
    proof {
        assert(candidates_view(list@) =~= cands);
    }
    AcpiDiscovery { tables: merge_sources(tables, &list), store_error, firmware_error }
}

/// Adds the firmware candidates to the store entries as
/// `load_acpi_tables_combined` describes.
fn merge_sources(store: Vec<AcpiTableInfo>, api: &Vec<(String, Option<Vec<u8>>)>) -> (r: Vec<AcpiTableInfo>)
    ensures
        tables_view(r@) == merged(tables_view(store@), candidates_view(api@)),
{
    let ghost base = tables_view(store@);
    let mut combined = store;
    proof {
        assert(candidates_view(api@).subrange(0, 0) =~= seq![]);
    }
    let mut i: usize = 0;
    while i < api.len()
        invariant
            i <= api@.len(),
            tables_view(combined@) == merged(base, candidates_view(api@).subrange(0, i as int)),
        decreases api@.len() - i,
    {
        let ghost prefix = candidates_view(api@).subrange(0, i as int);
        proof {
            assert(candidates_view(api@).subrange(0, i + 1).drop_last() =~= prefix);
        }
        let sig = &api[i].0;
        if !contains_signature(&combined, sig) {
            match &api[i].1 {
                Some(data) => {
                    match api_table_info(sig, data.as_slice()) {
                        Some(info) => {
                            let ghost before = combined@;
                            combined.push(info);
                            proof {
                                assert(tables_view(combined@) =~= tables_view(before).push(info@));
                            }
                        },
                        None => {},
                    }
                },
                None => {},
            }
        }
        i = i + 1;
    }
    proof {
        assert(candidates_view(api@).subrange(0, api@.len() as int) =~= candidates_view(api@));
    }
    combined
}

/// The signature in the first four bytes of a table's content, when there
/// are four bytes and they are valid UTF-8.
pub open spec fn real_signature(d: Seq<u8>) -> Option<Seq<char>> {
    if d.len() >= 4 {
        utf8_strict(d.subrange(0, 4))
    } else {
        None
    }
}

/// Reads the signature from the first four bytes of a table's content.
pub fn read_real_signature(data: &[u8]) -> (r: Option<String>)
    ensures
        r is Some <==> real_signature(data@) is Some,
        r matches Some(s) ==> real_signature(data@) == Some(s@),
{
    if data.len() >= 4 {
        strict_text(&data[0..4])
    } else {
        None
    }
}

/// Value of a hexadecimal digit, or -1 for any other character.
pub open spec fn hex_digit_value(c: char) -> int {
    if '0' <= c && c <= '9' {
        c as int - '0' as int
    } else if 'a' <= c && c <= 'f' {
        c as int - 'a' as int + 10
    } else if 'A' <= c && c <= 'F' {
        c as int - 'A' as int + 10
    } else {
        -1
    }
}

/// Value of a sequence of hexadecimal digits, most significant first.
pub open spec fn hex_digits_value(s: Seq<char>) -> int
    decreases s.len(),
{
    if s.len() == 0 {
        0
    } else {
        hex_digits_value(s.drop_last()) * 16 + hex_digit_value(s.last())
    }
}

/// The 32-bit value that a hexadecimal text denotes: an optional `+` and
/// then one or more digits, none other, with a value that fits.
pub open spec fn hex_u32_value(s: Seq<char>) -> Option<u32> {
    let digits = if s.len() > 0 && s[0] == '+' { s.drop_first() } else { s };
    if digits.len() > 0 && (forall|i: int| 0 <= i < digits.len() ==> hex_digit_value(#[trigger] digits[i]) >= 0)
        && hex_digits_value(digits) <= u32::MAX {
        Some(hex_digits_value(digits) as u32)
    } else {
        None
    }
}

/// Relies on `u32::from_str_radix` with radix 16: an optional `+`, then
/// digits only; empty text, other characters and overflow are errors.
#[verifier::external_body]
fn parse_hex_u32(s: &str) -> (r: Option<u32>)
    ensures
        r == hex_u32_value(s@),
{
    u32::from_str_radix(s, 16).ok()
}

/// The revision that the name of a store leaf gives: its hexadecimal
/// value, or 0 when it is not one.
pub open spec fn revision_of(name: Seq<char>) -> u32 {
    match hex_u32_value(name) {
        Some(v) => v,
        None => 0,
    }
}

/// Path of a store leaf below the ACPI root.
pub open spec fn leaf_path(sig: Seq<char>, oem: Seq<char>, table: Seq<char>, rev: Seq<char>) -> Seq<char> {
    "HARDWARE\\ACPI\\"@ + sig + "\\"@ + oem + "\\"@ + table + "\\"@ + rev
}

/// Builds the store path of the leaf `sig / oem / table / rev`.
pub fn registry_leaf_path(sig: &str, oem: &str, table: &str, rev: &str) -> (r: String)
    ensures
        r@ == leaf_path(sig@, oem@, table@, rev@),
{
    let mut p = String::from_str("HARDWARE\\ACPI\\");
    p.append(sig);
    p.append("\\");
    p.append(oem);
    p.append("\\");
    p.append(table);
    p.append("\\");
    p.append(rev);
    p
}

/// The entry for a store leaf: the signature comes from the content's own
/// header when the content was read and its first four bytes are valid
/// text, else from the store's name; the revision from the leaf's
/// hexadecimal name, 0 when unparseable.
pub open spec fn store_table_view(
    sig: Seq<char>,
    oem: Seq<char>,
    table: Seq<char>,
    rev: Seq<char>,
    content: Option<Seq<u8>>,
) -> AcpiTableView {
    AcpiTableView {
        signature: match content {
            Some(d) => match real_signature(d) {
                Some(s) => s,
                None => sig,
            },
            None => sig,
        },
        registry_sig: sig,
        oem_id: oem,
        table_id: table,
        revision: revision_of(rev),
        registry_path: Some(leaf_path(sig, oem, table, rev)),
        physical_address: None,
    }
}

/// Builds the entry for the store leaf `sig / oem / table / rev` whose
/// binary content is `content` (`None` when it could not be read).
pub fn registry_table_info(
    sig: &str,
    oem: &str,
    table: &str,
    rev: &str,
    content: Option<&[u8]>,
) -> (r: AcpiTableInfo)
    ensures
        r@ == store_table_view(sig@, oem@, table@, rev@, match content {
            Some(d) => Some(d@),
            None => None,
        }),
{
    let from_content = match content {
        Some(d) => read_real_signature(d),
        None => None,
    };
    let signature = match from_content {
        Some(s) => s,
        None => String::from_str(sig),
    };
    let revision = match parse_hex_u32(rev) {
        Some(v) => v,
        None => 0,
    };
    AcpiTableInfo {
        signature,
        registry_sig: String::from_str(sig),
        oem_id: String::from_str(oem),
        table_id: String::from_str(table),
        revision,
        registry_path: Some(registry_leaf_path(sig, oem, table, rev)),
        physical_address: None,
    }
}

/// The name of a 4-byte identifier that the firmware enumeration returns:
/// its text when valid UTF-8, else its bytes in upper-case hexadecimal.
pub open spec fn identifier_name(c: Seq<u8>) -> Seq<char> {
    match utf8_strict(c) {
        Some(t) => t,
        None => hex_bytes(c),
    }
}

/// The names of the complete 4-byte identifiers of an enumeration buffer.
pub open spec fn enumerated_names(b: Seq<u8>) -> Seq<Seq<char>> {
    Seq::new((b.len() / 4) as nat, |i: int| identifier_name(b.subrange(4 * i, 4 * i + 4)))
}

/// The texts of a list of strings.
pub open spec fn texts_view(v: Seq<String>) -> Seq<Seq<char>> {
    v.map_values(|s: String| s@)
}

/// Names the identifiers of a firmware enumeration buffer, four bytes each;
/// trailing bytes that do not make a whole identifier are ignored.
pub fn signatures_from_enum_buffer(buf: &[u8]) -> (r: Vec<String>)
    ensures
        texts_view(r@) == enumerated_names(buf@),
{
    let len = buf.len();
    let count: usize = len / 4;
    proof {
        assert(4 * count <= len) by (nonlinear_arith)
            requires count == len / 4;
    }
    let mut names: Vec<String> = Vec::new();
    let mut i: usize = 0;
    while i < count
        invariant
            count == buf@.len() / 4,
            4 * count <= len == buf@.len(),
            i <= count,
            texts_view(names@) =~= enumerated_names(buf@).subrange(0, i as int),
        decreases count - i,
    {
        let chunk = &buf[4 * i..4 * i + 4];
        let name = match strict_text(chunk) {
            Some(s) => s,
            None => hex_upper_bytes(chunk),
        };
        let ghost before = names@;
        names.push(name);
        proof {
            assert(texts_view(names@) =~= texts_view(before).push(name@));
        }
        i = i + 1;
    }
    names
}

/// Whether the list holds the text `s`.
pub open spec fn lists_text(v: Seq<Seq<char>>, s: Seq<char>) -> bool {
    exists|i: int| 0 <= i < v.len() && v[i] == s
}

fn contains_text(names: &Vec<String>, s: &str) -> (r: bool)
    ensures
        r == lists_text(texts_view(names@), s@),
{
    let wanted = String::from_str(s);
    let mut i: usize = 0;
    while i < names.len()
        invariant
            i <= names@.len(),
            wanted@ == s@,
            forall|j: int| 0 <= j < i ==> (#[trigger] names@[j])@ != s@,
        decreases names@.len() - i,
    {
        if names[i] == wanted {
            proof {
                assert(texts_view(names@)[i as int] == s@);
            }
            return true;
        }
        i = i + 1;
    }
    proof {
        assert forall|j: int| 0 <= j < texts_view(names@).len()
            implies texts_view(names@)[j] != s@ by {
            assert(names@[j]@ != s@);
        }
    }
    false
}

/// `seq![s]` when the list does not hold `s`, else nothing.
pub open spec fn if_missing(names: Seq<Seq<char>>, s: Seq<char>) -> Seq<Seq<char>> {
    if lists_text(names, s) {
        seq![]
    } else {
        seq![s]
    }
}

/// The tables that are often reachable by direct lookup though the
/// enumeration leaves them out, in probing order, without those already
/// listed.
pub open spec fn hidden_to_probe(names: Seq<Seq<char>>) -> Seq<Seq<char>> {
    if_missing(names, "DSDT"@) + if_missing(names, "RSDT"@) + if_missing(names, "XSDT"@)
        + if_missing(names, "RSDP"@) + if_missing(names, "UEFI"@)
}

fn push_if_missing(out: &mut Vec<String>, names: &Vec<String>, s: &str)
    ensures
        texts_view(final(out)@) == texts_view(old(out)@) + if_missing(texts_view(names@), s@),
{
    if !contains_text(names, s) {
        let ghost before = out@;
        out.push(String::from_str(s));
        proof {
            assert(texts_view(out@) =~= texts_view(before) + if_missing(texts_view(names@), s@));
        }
    } else {
        proof {
            assert(texts_view(out@) =~= texts_view(out@) + if_missing(texts_view(names@), s@));
        }
    }
}

/// The commonly hidden signatures (DSDT, RSDT, XSDT, RSDP, UEFI) that the
/// enumerated names do not hold, to be probed one by one.
pub fn hidden_signatures_to_probe(names: &Vec<String>) -> (r: Vec<String>)
    ensures
        texts_view(r@) == hidden_to_probe(texts_view(names@)),
{
    let mut out: Vec<String> = Vec::new();
    proof {
        assert(texts_view(out@) =~= seq![]);
    }
    push_if_missing(&mut out, names, "DSDT");
    push_if_missing(&mut out, names, "RSDT");
    push_if_missing(&mut out, names, "XSDT");
    push_if_missing(&mut out, names, "RSDP");
    push_if_missing(&mut out, names, "UEFI");
    proof {
        assert(texts_view(out@) =~= hidden_to_probe(texts_view(names@)));
    }
    out
}

/// The numeric identifier under which the firmware interface serves a
/// table: 0 for the SMBIOS provider; for other providers the four bytes of
/// the signature read little-endian, or 0 for the text "0"; any other
/// length is refused.
pub open spec fn firmware_id(provider: u32, b: Seq<u8>) -> Option<u32> {
    if provider == SIG_RSMB {
        Some(0)
    } else if b.len() != 4 {
        if b == seq![48u8] {
            Some(0)
        } else {
            None
        }
    } else {
        Some((b[0] as int + 256 * b[1] as int + 65536 * b[2] as int + 16777216 * b[3] as int) as u32)
    }
}

/// Computes the identifier of `table_id` for the firmware interface of
/// `provider`.
pub fn firmware_table_id(provider: u32, table_id: &str) -> (r: Result<u32, String>)
    ensures
        r is Ok <==> firmware_id(provider, table_id.spec_bytes()) is Some,
        r matches Ok(id) ==> firmware_id(provider, table_id.spec_bytes()) == Some(id),
        r matches Err(e) ==> e@ == "Table ID must be 4 characters for ACPI"@,
{
    if provider == SIG_RSMB {
        return Ok(0);
    }
    let b = table_id.as_bytes();
    if b.len() != 4 {
        if b.len() == 1 && b[0] == 48 {
            proof {
                assert(b@ =~= seq![48u8]);
            }
            return Ok(0);
        }
        return Err(String::from_str("Table ID must be 4 characters for ACPI"));
    }
    Ok(b[0] as u32 + 256 * b[1] as u32 + 65536 * b[2] as u32 + 16777216 * b[3] as u32)
}

/// Merging keeps every store entry, in order, ahead of the entries taken
/// from the firmware interface; each of those has no store path and a
/// signature that no entry before it has, so a signature present in the
/// store is never added again.
pub proof fn lemma_merge_priority(base: Seq<AcpiTableView>, api: Seq<(Seq<char>, Option<Seq<u8>>)>)
    ensures
        merged(base, api).len() >= base.len(),
        merged(base, api).subrange(0, base.len() as int) == base,
        forall|i: int| base.len() <= i < merged(base, api).len()
            ==> (#[trigger] merged(base, api)[i]).registry_path is None,
        forall|i: int, j: int| 0 <= j < i < merged(base, api).len() && base.len() <= i
            ==> (#[trigger] merged(base, api)[j]).signature != (#[trigger] merged(base, api)[i]).signature,
    decreases api.len(),
{
    if api.len() == 0 {
        assert(base.subrange(0, base.len() as int) =~= base);
    } else {
        let prev = merged(base, api.drop_last());
        lemma_merge_priority(base, api.drop_last());
        let m = merged(base, api);
        if m != prev {
            let c = api.last();
            assert(!lists_signature(prev, c.0));
            assert(m.len() == prev.len() + 1);
            assert(m.subrange(0, base.len() as int) =~= prev.subrange(0, base.len() as int));
            assert forall|i: int, j: int| 0 <= j < i < m.len() && base.len() <= i
                implies (#[trigger] m[j]).signature != (#[trigger] m[i]).signature by {
                if i == prev.len() {
                    assert(m[i].signature == c.0);
                    assert(m[j] == prev[j]);
                    if prev[j].signature == c.0 {
                        assert(lists_signature(prev, c.0));
                    }
                } else {
                    assert(m[i] == prev[i] && m[j] == prev[j]);
                }
            }
            assert forall|i: int| base.len() <= i < m.len()
                implies (#[trigger] m[i]).registry_path is None by {
                if i < prev.len() {
                    assert(m[i] == prev[i]);
                }
            }
        }
    }
}

} // verus!
