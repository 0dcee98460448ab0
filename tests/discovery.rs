use bios_dump::discovery::{
    api_table_info, contains_signature, firmware_table_id, hidden_signatures_to_probe,
    load_acpi_tables_combined, read_real_signature, registry_leaf_path, registry_table_info,
    signatures_from_enum_buffer, AcpiTableInfo, SIG_ACPI, SIG_RSMB,
};

fn table_bytes(sig: &[u8; 4], oem: &[u8; 6], table: &[u8; 8], revision: u8) -> Vec<u8> {
    let mut d = vec![0u8; 36];
    d[0..4].copy_from_slice(sig);
    d[4..8].copy_from_slice(&36u32.to_le_bytes());
    d[8] = revision;
    d[10..16].copy_from_slice(oem);
    d[16..24].copy_from_slice(table);
    d
}

fn store_entry(sig: &str, store_sig: &str) -> AcpiTableInfo {
    AcpiTableInfo {
        signature: sig.to_string(),
        registry_sig: store_sig.to_string(),
        oem_id: "OEM".to_string(),
        table_id: "TABLE".to_string(),
        revision: 1,
        registry_path: Some(format!("HARDWARE\\ACPI\\{}\\OEM\\TABLE\\00000001", store_sig)),
        physical_address: None,
    }
}

#[test]
fn merge_prefers_store_and_dedups_by_signature() {
    let store = vec![store_entry("SSDT", "SSDT")];
    let api = vec![
        ("SSDT".to_string(), Some(table_bytes(b"SSDT", b"API\0\0\0", b"APISSDT\0", 2))),
        ("FACP".to_string(), Some(table_bytes(b"FACP", b"ACME\0\0", b"FADTTBL\0", 6))),
    ];
    let found = load_acpi_tables_combined(Ok(store.clone()), Ok(api));
    assert_eq!(found.store_error, None);
    assert_eq!(found.firmware_error, None);
    let merged = found.tables;
    assert_eq!(merged.len(), 2);
    assert_eq!(merged.iter().filter(|t| t.signature == "SSDT").count(), 1);
    assert_eq!(merged[0], store[0]);
    assert_eq!(merged[1].signature, "FACP");
    assert_eq!(merged[1].registry_path, None);
    assert_eq!(merged[1].oem_id, "ACME");
    assert_eq!(merged[1].table_id, "FADTTBL");
    assert_eq!(merged[1].revision, 6);
}

#[test]
fn merge_keeps_store_duplicates() {
    let store = vec![store_entry("SSDT", "SSDT"), store_entry("SSDT", "SSD1")];
    let found = load_acpi_tables_combined(Ok(store.clone()), Err("enumeration failed".to_string()));
    assert_eq!(found.tables, store);
    assert_eq!(found.firmware_error, Some("enumeration failed".to_string()));
}

#[test]
fn merge_without_store_uses_firmware_only() {
    let api = vec![
        ("APIC".to_string(), Some(table_bytes(b"APIC", b"OEM\0\0\0", b"TAB\0\0\0\0\0", 3))),
        ("APIC".to_string(), Some(table_bytes(b"APIC", b"OTHER\0", b"TAB\0\0\0\0\0", 3))),
        ("UEFI".to_string(), None),
        ("BERT".to_string(), Some(vec![0u8; 20])),
    ];
    let found = load_acpi_tables_combined(Err("access denied".to_string()), Ok(api));
    assert_eq!(found.store_error, Some("access denied".to_string()));
    let merged = found.tables;
    assert_eq!(merged.len(), 1);
    assert_eq!(merged[0].signature, "APIC");
    assert_eq!(merged[0].oem_id, "OEM");
}

#[test]
fn api_entry_needs_full_header() {
    assert!(api_table_info(&"DSDT".to_string(), &[0u8; 35]).is_none());
    let t = api_table_info(&"DSDT".to_string(), &table_bytes(b"DSDT", b"\0AB\0\0\0", b"T1\0\0\0\0\0\0", 2)).unwrap();
    assert_eq!(t.oem_id, "AB");
    assert_eq!(t.table_id, "T1");
    assert_eq!(t.revision, 2);
    let t = api_table_info(&"DSDT".to_string(), &table_bytes(b"DSDT", b"AB    ", b"T1      ", 2)).unwrap();
    assert_eq!(t.oem_id, "AB    ");
    assert_eq!(t.registry_sig, "DSDT");
}

#[test]
fn store_leaf_uses_real_signature_and_hex_revision() {
    let content = table_bytes(b"SSDT", b"OEM   ", b"TABLE   ", 1);
    let t = registry_table_info("SSD1", "OEM", "TABLE", "0000001A", Some(&content));
    assert_eq!(t.signature, "SSDT");
    assert_eq!(t.registry_sig, "SSD1");
    assert_eq!(t.revision, 0x1A);
    assert_eq!(t.registry_path.as_deref(), Some("HARDWARE\\ACPI\\SSD1\\OEM\\TABLE\\0000001A"));
}

#[test]
fn store_leaf_falls_back_to_store_name() {
    let t = registry_table_info("DSDT", "OEM", "TAB", "zz", None);
    assert_eq!(t.signature, "DSDT");
    assert_eq!(t.revision, 0);
    let bad = [0xFFu8, 0xFE, 0x41, 0x42, 0];
    let t = registry_table_info("DSDT", "OEM", "TAB", "+10", Some(&bad));
    assert_eq!(t.signature, "DSDT");
    assert_eq!(t.revision, 16);
    let t = registry_table_info("DSDT", "OEM", "TAB", "100000000", Some(&bad[..3]));
    assert_eq!(t.revision, 0);
}

#[test]
fn real_signature_needs_four_valid_bytes() {
    assert_eq!(read_real_signature(b"FACP\x01\x02"), Some("FACP".to_string()));
    assert_eq!(read_real_signature(b"FAC"), None);
    assert_eq!(read_real_signature(&[0x80, 0x41, 0x42, 0x43]), None);
}

#[test]
fn leaf_path_layout() {
    assert_eq!(registry_leaf_path("A", "B", "C", "D"), "HARDWARE\\ACPI\\A\\B\\C\\D");
}

#[test]
fn enumeration_buffer_names() {
    let mut buf = b"FACPSSDT".to_vec();
    buf.extend_from_slice(&[0xFF, 0x00, 0x10, 0xAB]);
    buf.extend_from_slice(b"XY");
    let names = signatures_from_enum_buffer(&buf);
    assert_eq!(names, vec!["FACP".to_string(), "SSDT".to_string(), "FF0010AB".to_string()]);
}

#[test]
fn hidden_tables_not_yet_listed() {
    let names = vec!["FACP".to_string(), "XSDT".to_string()];
    let probe = hidden_signatures_to_probe(&names);
    assert_eq!(probe, vec!["DSDT".to_string(), "RSDT".to_string(), "RSDP".to_string(), "UEFI".to_string()]);
}

#[test]
fn contains_signature_checks_real_signature() {
    let tables = vec![store_entry("SSDT", "SSD1")];
    assert!(contains_signature(&tables, &"SSDT".to_string()));
    assert!(!contains_signature(&tables, &"SSD1".to_string()));
}

#[test]
fn firmware_identifiers() {
    assert_eq!(firmware_table_id(SIG_RSMB, "anything"), Ok(0));
    assert_eq!(firmware_table_id(SIG_ACPI, "0"), Ok(0));
    assert_eq!(firmware_table_id(SIG_ACPI, "FACP"), Ok(u32::from_le_bytes(*b"FACP")));
    assert_eq!(
        firmware_table_id(SIG_ACPI, "FAC"),
        Err("Table ID must be 4 characters for ACPI".to_string())
    );
    assert_eq!(SIG_ACPI, u32::from_be_bytes(*b"ACPI"));
    assert_eq!(SIG_RSMB, u32::from_be_bytes(*b"RSMB"));
}
