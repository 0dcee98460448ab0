use std::collections::HashMap;

use bios_dump::acpi::{parse_acpi_header, parse_fadt_references, parse_xsdt_entries};

fn header(sig: &[u8; 4], length: u32, oem: &[u8], table: &[u8]) -> Vec<u8> {
    let mut d = vec![0u8; 36];
    d[0..4].copy_from_slice(sig);
    d[4..8].copy_from_slice(&length.to_le_bytes());
    d[8] = 2;
    d[9] = 0xAB;
    d[10..10 + oem.len()].copy_from_slice(oem);
    d[16..16 + table.len()].copy_from_slice(table);
    d[24..28].copy_from_slice(&7u32.to_le_bytes());
    d[28..32].copy_from_slice(b"INTL");
    d[32..36].copy_from_slice(&0x2021_0101u32.to_le_bytes());
    d
}

#[test]
fn header_round_trips_padded_strings() {
    let d = header(b"APIC", 0x1234, b"ACME", b"BOARD1");
    let h = parse_acpi_header(&d).unwrap();
    assert_eq!(h.signature, "APIC");
    assert_eq!(h.length, 0x1234);
    assert_eq!(h.revision, 2);
    assert_eq!(h.checksum, 0xAB);
    assert_eq!(h.oem_id, "ACME");
    assert_eq!(h.oem_table_id, "BOARD1");
    assert_eq!(h.oem_revision, 7);
    assert_eq!(h.creator_id, "INTL");
    assert_eq!(h.creator_revision, 0x2021_0101);
}

#[test]
fn header_full_width_strings() {
    let d = header(b"SSDT", 36, b"ABCDEF", b"12345678");
    let h = parse_acpi_header(&d).unwrap();
    assert_eq!(h.signature, "SSDT");
    assert_eq!(h.oem_id, "ABCDEF");
    assert_eq!(h.oem_table_id, "12345678");
}

#[test]
fn header_invalid_utf8_is_replaced() {
    let mut d = header(b"SSDT", 36, b"AB", b"T");
    d[10] = 0xFF;
    let h = parse_acpi_header(&d).unwrap();
    assert_eq!(h.oem_id, "\u{FFFD}B");
}

#[test]
fn header_rejects_short_buffers() {
    for n in 0..36 {
        assert!(parse_acpi_header(&vec![0x41u8; n]).is_err());
    }
    assert!(parse_acpi_header(&vec![0u8; 36]).is_ok());
}

fn fadt(len: usize, facs32: u32, dsdt32: u32, facs64: u64, dsdt64: u64) -> Vec<u8> {
    let mut d = header(b"FACP", len as u32, b"OEM", b"TAB");
    d.resize(len, 0);
    d[36..40].copy_from_slice(&facs32.to_le_bytes());
    d[40..44].copy_from_slice(&dsdt32.to_le_bytes());
    if len >= 148 {
        d[132..140].copy_from_slice(&facs64.to_le_bytes());
        d[140..148].copy_from_slice(&dsdt64.to_le_bytes());
    }
    d
}

#[test]
fn fadt_dsdt_falls_back_to_32_bit() {
    let refs = parse_fadt_references(&fadt(244, 0x1000, 0xDEAD_0000, 0, 0));
    assert_eq!(refs, vec![(0x1000, "FACS".to_string()), (0xDEAD_0000, "DSDT".to_string())]);
}

#[test]
fn fadt_64_bit_pointer_wins() {
    let refs = parse_fadt_references(&fadt(244, 0x1000, 0x2000, 0x1_0000_1000, 0x1_0000_2000));
    assert_eq!(refs, vec![(0x1_0000_1000, "FACS".to_string()), (0x1_0000_2000, "DSDT".to_string())]);
}

#[test]
fn fadt_short_table_uses_32_bit_pointers() {
    let refs = parse_fadt_references(&fadt(116, 0, 0x3000, 0, 0));
    assert_eq!(refs, vec![(0x3000, "DSDT".to_string())]);
}

#[test]
fn fadt_zero_pointers_are_omitted() {
    assert!(parse_fadt_references(&fadt(244, 0, 0, 0, 0)).is_empty());
}

#[test]
fn non_fadt_has_no_references() {
    let mut d = fadt(244, 1, 2, 3, 4);
    d[0..4].copy_from_slice(b"APIC");
    assert!(parse_fadt_references(&d).is_empty());
    assert!(parse_fadt_references(&d[..20]).is_empty());
}

fn xsdt(entries: &[u64], declared: u32) -> Vec<u8> {
    let mut d = header(b"XSDT", declared, b"OEM", b"TAB");
    for e in entries {
        d.extend_from_slice(&e.to_le_bytes());
    }
    d
}

#[test]
fn xsdt_entry_count_follows_length() {
    let addrs = [0x1000u64, 0x2000, 0x3000];
    for k in 0..=3usize {
        let d = xsdt(&addrs, 36 + 8 * k as u32);
        let entries = parse_xsdt_entries(&d, &HashMap::new()).unwrap();
        assert_eq!(entries.len(), k);
    }
}

#[test]
fn xsdt_drops_incomplete_entry() {
    let d = xsdt(&[0x1000, 0x2000], 36 + 8 + 7);
    let entries = parse_xsdt_entries(&d, &HashMap::new()).unwrap();
    assert_eq!(entries, vec![(0, 0x1000, "Entry0".to_string())]);
}

#[test]
fn xsdt_labels_from_map() {
    let d = xsdt(&[0x1000, 0x2000], 36 + 16);
    let mut labels = HashMap::new();
    labels.insert(0x2000u64, "DSDT".to_string());
    let entries = parse_xsdt_entries(&d, &labels).unwrap();
    assert_eq!(
        entries,
        vec![(0, 0x1000, "Entry0".to_string()), (1, 0x2000, "DSDT".to_string())]
    );
}

#[test]
fn xsdt_rejects_bad_length_or_signature() {
    let d = xsdt(&[0x1000], 36 + 16);
    assert!(parse_xsdt_entries(&d, &HashMap::new()).is_none());
    let d = xsdt(&[0x1000], 35);
    assert!(parse_xsdt_entries(&d, &HashMap::new()).is_none());
    let mut d = xsdt(&[0x1000], 44);
    d[0..4].copy_from_slice(b"RSDT");
    assert!(parse_xsdt_entries(&d, &HashMap::new()).is_none());
}
