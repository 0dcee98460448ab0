use bios_dump::fields::{memory_size_str, parse_smbios_details};
use bios_dump::view::{hex_dump_str, smbios_structure_label};
use bios_dump::smbios::{
    decode_smbios_stream, get_smbios_strings, get_string_by_index, parse_raw_smbios_data_header,
    parse_smbios_structure, walk_structures,
};

const UUID_BYTES: [u8; 16] = [
    0x00, 0x11, 0x22, 0x33, 0x44, 0x55, 0x66, 0x77, 0x88, 0x99, 0xAA, 0xBB, 0xCC, 0xDD, 0xEE, 0xFF,
];

fn system_blob() -> Vec<u8> {
    let mut d = vec![0u8, 3, 4, 0];
    let mut stream = Vec::new();
    stream.extend_from_slice(&[1, 0x1B, 0x01, 0x00, 1, 2, 0, 0]);
    stream.extend_from_slice(&UUID_BYTES);
    stream.extend_from_slice(&[6, 0, 0]);
    stream.extend_from_slice(b"Acme\0UnitX\0\0");
    stream.extend_from_slice(&[127, 4, 0x02, 0x00, 0, 0]);
    d.extend_from_slice(&(stream.len() as u32).to_le_bytes());
    d.extend_from_slice(&stream);
    d
}

#[test]
fn crafted_system_and_terminator_stream() {
    let d = system_blob();
    let (header, list) = decode_smbios_stream(&d).unwrap();
    assert_eq!(header.major_version, 3);
    assert_eq!(header.minor_version, 4);
    assert_eq!(header.length as usize, d.len() - 8);
    assert_eq!(list.len(), 2);
    let (off, first) = list[0];
    assert_eq!(off, 8);
    assert_eq!((first.type_id, first.length, first.handle), (1, 0x1B, 1));
    assert_eq!(list[1].1.type_id, 127);
    assert_eq!(list[1].0, 8 + 0x1B + 12);

    let strings = get_smbios_strings(&d, off, first.length);
    assert_eq!(strings, vec!["Acme".to_string(), "UnitX".to_string()]);

    let fields = parse_smbios_details(1, &d, off, first.length, &strings).unwrap();
    let uuid = fields.iter().find(|(k, _)| k == "UUID").unwrap().1.clone();
    assert_eq!(uuid, "33221100-5544-7766-8899-AABBCCDDEEFF");
    assert_eq!(fields[0], ("Manufacturer".to_string(), "Acme".to_string()));
    assert_eq!(fields[1], ("Product Name".to_string(), "UnitX".to_string()));
    assert_eq!(fields[2], ("Version".to_string(), "None".to_string()));
}

#[test]
fn vendor_header_needs_eight_bytes() {
    assert!(parse_raw_smbios_data_header(&[0, 2, 8, 0, 1, 0, 0]).is_none());
    let (h, off) = parse_raw_smbios_data_header(&[0, 2, 8, 1, 0x10, 0x01, 0, 0]).unwrap();
    assert_eq!(off, 8);
    assert_eq!((h.major_version, h.minor_version, h.dmi_revision, h.length), (2, 8, 1, 0x110));
    assert!(decode_smbios_stream(&[0, 1, 2]).is_none());
}

#[test]
fn structure_header_errors() {
    assert!(parse_smbios_structure(&[1, 4, 0], 0).is_err());
    assert!(parse_smbios_structure(&[1, 3, 0, 0, 0, 0], 0).is_err());
    assert!(parse_smbios_structure(&[1, 4, 0, 0], 9).is_err());
}

#[test]
fn structure_end_after_double_nul() {
    let d = [2u8, 4, 0x34, 0x12, b'a', 0, 0, 9, 9];
    let (h, end) = parse_smbios_structure(&d, 0).unwrap();
    assert_eq!(h.handle, 0x1234);
    assert_eq!(end, 7);
}

#[test]
fn unterminated_structure_runs_to_end() {
    let d = [2u8, 4, 0, 0, b'a', 0, b'b'];
    let (_, end) = parse_smbios_structure(&d, 0).unwrap();
    assert_eq!(end, d.len());
}

#[test]
fn walk_stops_on_malformed_structure() {
    let d = [2u8, 4, 0, 0, 0, 0, 3, 2, 0, 0, 0, 0];
    let list = walk_structures(&d, 0);
    assert_eq!(list.len(), 1);
    assert_eq!(list[0].0, 0);
}

#[test]
fn empty_pool_and_pool_beyond_buffer() {
    let d = [2u8, 4, 0, 0, 0, 0];
    assert!(get_smbios_strings(&d, 0, 4).is_empty());
    assert!(get_smbios_strings(&d, 10, 4).is_empty());
}

#[test]
fn pool_without_closing_nul_drops_tail() {
    let d = [2u8, 4, 0, 0, b'x', 0, b'y', b'z'];
    assert_eq!(get_smbios_strings(&d, 0, 4), vec!["x".to_string()]);
}

#[test]
fn string_index_resolution() {
    let pool = vec!["A".to_string(), "B".to_string()];
    assert_eq!(get_string_by_index(&pool, 0), "None");
    assert_eq!(get_string_by_index(&pool, 2), "B");
    assert_eq!(get_string_by_index(&pool, 3), "<Bad String Index: 3>");
    assert_eq!(get_string_by_index(&[], 255), "<Bad String Index: 255>");
}

#[test]
fn memory_device_size_encodings() {
    assert_eq!(memory_size_str(0x8001), "1 KB");
    assert_eq!(memory_size_str(0x0010), "16 MB");
    assert_eq!(memory_size_str(0xFFFF), "Unknown / Extended");
    assert_eq!(memory_size_str(0), "No Module Installed");
}

#[test]
fn structure_labels() {
    assert_eq!(smbios_structure_label(17, 0x1100), "Type 17 (Handle 0x1100) - Memory Device");
    assert_eq!(smbios_structure_label(200, 0xABCD), "Type 200 (Handle 0xABCD)");
}

#[test]
fn hex_dump_lines() {
    let data: Vec<u8> = (0x3Eu8..0x52).collect();
    let expected = format!(
        "0000  {:<48}  {}\n0010  {:<48}  {}\n",
        "3E 3F 40 41 42 43 44 45 46 47 48 49 4A 4B 4C 4D", ">?@ABCDEFGHIJKLM", "4E 4F 50 51", "NOPQ"
    );
    assert_eq!(hex_dump_str(&data), expected);
    assert_eq!(hex_dump_str(&[0x00, 0x7F, 0x20]), format!("0000  00 7F 20{}  .. \n", " ".repeat(40)));
    assert_eq!(hex_dump_str(&[]), "");
}
