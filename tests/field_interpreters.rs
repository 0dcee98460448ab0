use bios_dump::fields::parse_smbios_details;

fn pairs(v: &[(&str, &str)]) -> Vec<(String, String)> {
    v.iter().map(|(a, b)| (a.to_string(), b.to_string())).collect()
}

fn strings(v: &[&str]) -> Vec<String> {
    v.iter().map(|s| s.to_string()).collect()
}

#[test]
fn bios_information_rom_size() {
    let d = [0u8, 0x12, 0, 0, 1, 2, 0, 0, 3, 0x0F];
    let s = strings(&["Vendor Inc", "1.0", "01/01/2024"]);
    let f = parse_smbios_details(0, &d, 0, 0x12, &s).unwrap();
    assert_eq!(
        f,
        pairs(&[
            ("Vendor", "Vendor Inc"),
            ("Version", "1.0"),
            ("Release Date", "01/01/2024"),
            ("ROM Size", "1024 KB"),
        ])
    );
    let d = [0u8, 0x12, 0, 0, 1, 2, 0, 0, 3, 0xFF];
    let f = parse_smbios_details(0, &d, 0, 0x12, &s).unwrap();
    assert_eq!(f[3].1, "Extended");
}

#[test]
fn short_structure_gives_empty_fields() {
    let d = [0u8, 4, 0, 0];
    assert_eq!(parse_smbios_details(0, &d, 0, 4, &[]), Some(vec![]));
    assert_eq!(parse_smbios_details(17, &d, 0, 4, &[]), Some(vec![]));
}

#[test]
fn unknown_type_has_no_interpreter() {
    let d = [200u8, 4, 0, 0];
    assert_eq!(parse_smbios_details(200, &d, 0, 4, &[]), None);
}

#[test]
fn chassis_type_in_hex() {
    let d = [3u8, 0x0D, 0, 0, 1, 0x17, 0, 5];
    let f = parse_smbios_details(3, &d, 0, 0x0D, &strings(&["Maker"])).unwrap();
    assert_eq!(
        f,
        pairs(&[
            ("Manufacturer", "Maker"),
            ("Type", "0x17"),
            ("Version", "None"),
            ("Serial Number", "<Bad String Index: 5>"),
        ])
    );
}

#[test]
fn processor_core_counts() {
    let mut d = vec![0u8; 0x30];
    d[0] = 4;
    d[5] = 3;
    d[0x23] = 8;
    d[0x25] = 16;
    let f = parse_smbios_details(4, &d, 0, 0x30, &[]).unwrap();
    assert_eq!(f[1], ("Processor Type".to_string(), "0x03".to_string()));
    assert_eq!(f[4], ("Core Count".to_string(), "8".to_string()));
    assert_eq!(f[5], ("Thread Count".to_string(), "16".to_string()));
}

#[test]
fn cache_size_granularity() {
    let mut d = vec![0u8; 0x12];
    d[0] = 7;
    d[5..7].copy_from_slice(&0x0180u16.to_le_bytes());
    d[7..9].copy_from_slice(&0x8010u16.to_le_bytes());
    d[9..11].copy_from_slice(&0x0100u16.to_le_bytes());
    d[0x0F] = 0;
    let f = parse_smbios_details(7, &d, 0, 0x13, &[]).unwrap();
    assert_eq!(
        f,
        pairs(&[
            ("Socket Designator", "None"),
            ("Configuration", "0x0180"),
            ("Maximum Cache Size", "1024 KB"),
            ("Installed Size", "256 KB"),
            ("Speed", "Unknown"),
        ])
    );
    d[7..9].copy_from_slice(&0u16.to_le_bytes());
    d.push(0);
    let f = parse_smbios_details(7, &d, 0, 0x13, &[]).unwrap();
    assert_eq!(f[2].1, "None");
    assert_eq!(f.len(), 8);
}

#[test]
fn port_connector_names() {
    let d = [8u8, 9, 0, 0, 0, 0x0B, 0, 0x99, 0x10];
    let f = parse_smbios_details(8, &d, 0, 9, &[]).unwrap();
    assert_eq!(f[1].1, "RJ-45");
    assert_eq!(f[3].1, "Unknown (0x99)");
    assert_eq!(f[4].1, "USB");
}

#[test]
fn slot_fields() {
    let d = [9u8, 0x11, 0, 0, 1, 0xA5, 0x08, 0x04, 0x03, 0x01, 0x02];
    let f = parse_smbios_details(9, &d, 0, 0x11, &strings(&["PCIE1"])).unwrap();
    assert_eq!(f[0].1, "PCIE1");
    assert_eq!(f[1].1, "0xA5");
    assert_eq!(f[5].1, "0x0201");
}

#[test]
fn oem_strings_are_numbered() {
    let d = [11u8, 5, 0, 0, 2];
    let f = parse_smbios_details(11, &d, 0, 5, &strings(&["a", "b"])).unwrap();
    assert_eq!(f, pairs(&[("String 1", "a"), ("String 2", "b")]));
}

#[test]
fn language_list_joined() {
    let mut d = vec![0u8; 0x16];
    d[4] = 2;
    d[5] = 1;
    d[0x15] = 1;
    let f = parse_smbios_details(13, &d, 0, 0x16, &strings(&["en|US|iso8859-1", "fr|FR|iso8859-1"])).unwrap();
    assert_eq!(
        f,
        pairs(&[
            ("Installable Languages", "2"),
            ("Format", "Abbreviated"),
            ("Current Language", "en|US|iso8859-1"),
            ("Available Languages", "en|US|iso8859-1, fr|FR|iso8859-1"),
        ])
    );
}

#[test]
fn memory_array_extended_capacity() {
    let mut d = vec![0u8; 0x17];
    d[4] = 3;
    d[5] = 3;
    d[6] = 6;
    d[7..11].copy_from_slice(&0x8000_0000u32.to_le_bytes());
    d[0x0B..0x0D].copy_from_slice(&0xFFFEu16.to_le_bytes());
    d[0x0D..0x0F].copy_from_slice(&4u16.to_le_bytes());
    d[0x0F..0x17].copy_from_slice(&(4u64 * 1024 * 1024 * 1024).to_le_bytes());
    let f = parse_smbios_details(16, &d, 0, 0x17, &[]).unwrap();
    assert_eq!(
        f,
        pairs(&[
            ("Location", "System board or motherboard"),
            ("Use", "System memory"),
            ("Error Correction", "Multi-bit ECC"),
            ("Maximum Capacity", "4096 GB"),
            ("Error Info Handle", "Not Provided"),
            ("Number of Devices", "4"),
        ])
    );
    let f = parse_smbios_details(16, &d[..0x0F], 0, 0x0F, &[]).unwrap();
    assert_eq!(f[3].1, "Extended (>2TB)");
}

#[test]
fn memory_array_plain_capacity() {
    let mut d = vec![0u8; 0x0F];
    d[4] = 0x42;
    d[7..11].copy_from_slice(&0x0100_0000u32.to_le_bytes());
    d[0x0B..0x0D].copy_from_slice(&0x0040u16.to_le_bytes());
    let f = parse_smbios_details(16, &d, 0, 0x0F, &[]).unwrap();
    assert_eq!(f[0].1, "Unknown (0x42)");
    assert_eq!(f[3].1, "16777216 KB");
    assert_eq!(f[4].1, "0x0040");
}

#[test]
fn memory_device_fields_in_order() {
    let mut d = vec![0u8; 0x1C];
    d[0] = 17;
    d[8..10].copy_from_slice(&72u16.to_le_bytes());
    d[0x0A..0x0C].copy_from_slice(&64u16.to_le_bytes());
    d[0x0C..0x0E].copy_from_slice(&0x8001u16.to_le_bytes());
    d[0x10] = 1;
    d[0x11] = 2;
    d[0x15..0x17].copy_from_slice(&3200u16.to_le_bytes());
    let f = parse_smbios_details(17, &d, 0, 0x1C, &strings(&["DIMM0", "BANK 0"])).unwrap();
    assert_eq!(
        f,
        pairs(&[
            ("Device Locator", "DIMM0"),
            ("Bank Locator", "BANK 0"),
            ("Size", "1 KB"),
            ("Speed", "3200 MT/s"),
            ("Manufacturer", "None"),
            ("Serial Number", "None"),
            ("Asset Tag", "None"),
            ("Part Number", "None"),
            ("Total Width", "72 bits"),
            ("Data Width", "64 bits"),
        ])
    );
    d[0x0C..0x0E].copy_from_slice(&0x0010u16.to_le_bytes());
    let f = parse_smbios_details(17, &d, 0, 0x1C, &[]).unwrap();
    assert_eq!(f[2].1, "16 MB");
}

#[test]
fn mapped_address_plain_range() {
    let mut d = vec![0u8; 0x0F];
    d[4..8].copy_from_slice(&0u32.to_le_bytes());
    d[8..12].copy_from_slice(&0x003F_FFFFu32.to_le_bytes());
    d[0x0C..0x0E].copy_from_slice(&0x0010u16.to_le_bytes());
    d[0x0E] = 2;
    let f = parse_smbios_details(19, &d, 0, 0x0F, &[]).unwrap();
    assert_eq!(
        f,
        pairs(&[
            ("Starting Address", "0x00000000 (0 KB)"),
            ("Ending Address", "0x003FFFFF (4194303 KB)"),
            ("Range Size", "4096 MB"),
            ("Physical Array Handle", "0x0010"),
            ("Partition Width", "2"),
        ])
    );
}

#[test]
fn mapped_address_extended_range() {
    let mut d = vec![0u8; 0x1F];
    d[4..8].copy_from_slice(&0xFFFF_FFFFu32.to_le_bytes());
    d[8..12].copy_from_slice(&0xFFFF_FFFFu32.to_le_bytes());
    d[0x0F..0x17].copy_from_slice(&0x1_0000_0000u64.to_le_bytes());
    d[0x17..0x1F].copy_from_slice(&0x1_3FFF_FFFFu64.to_le_bytes());
    let f = parse_smbios_details(19, &d, 0, 0x1F, &[]).unwrap();
    assert_eq!(f[0].1, "0x0000000100000000");
    assert_eq!(f[1].1, "0x000000013FFFFFFF");
    assert_eq!(f[2].1, "1024 MB");
    let f = parse_smbios_details(19, &d[..0x0F], 0, 0x0F, &[]).unwrap();
    assert_eq!(f[0].1, "Extended (>4GB)");
    assert_eq!(f[1].1, "Extended (>4GB)");
    assert_eq!(f.len(), 4);
}

#[test]
fn boot_status_and_end_of_table() {
    let mut d = vec![0u8; 0x0B];
    d[0x0A] = 5;
    let f = parse_smbios_details(32, &d, 0, 0x0B, &[]).unwrap();
    assert_eq!(f, pairs(&[("Boot Status", "0x05"), ("Status Description", "Kernel panic")]));
    let f = parse_smbios_details(127, &[127, 4, 0, 0], 0, 4, &[]).unwrap();
    assert_eq!(f, pairs(&[("Description", "End of SMBIOS structure table")]));
}

#[test]
fn mapped_address_full_and_inverted_ranges() {
    let mut d = vec![0u8; 0x0F];
    d[8..12].copy_from_slice(&0xFFFF_FFFFu32.to_le_bytes());
    let f = parse_smbios_details(19, &d, 0, 0x0F, &[]).unwrap();
    assert_eq!(f[2].1, "4194304 MB");
    d[4..8].copy_from_slice(&0x1000u32.to_le_bytes());
    d[8..12].copy_from_slice(&0x0FFFu32.to_le_bytes());
    let f = parse_smbios_details(19, &d, 0, 0x0F, &[]).unwrap();
    assert_eq!(f[2].1, "0 MB");
    let mut d = vec![0u8; 0x1F];
    d[4..12].copy_from_slice(&[0xFF; 8]);
    d[0x0F..0x17].copy_from_slice(&0u64.to_le_bytes());
    d[0x17..0x1F].copy_from_slice(&u64::MAX.to_le_bytes());
    let f = parse_smbios_details(19, &d, 0, 0x1F, &[]).unwrap();
    assert_eq!(f[2].1, "17592186044416 MB");
}
