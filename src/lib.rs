//! Decoding of firmware tables: ACPI descriptor tables and SMBIOS structure
//! streams, read from raw byte buffers into labelled records.

pub mod bytes;
pub mod text;
pub mod smbios;
pub mod acpi;
pub mod names;
pub mod fields;
pub mod discovery;
pub mod view;

pub use acpi::{parse_acpi_header, parse_fadt_references, parse_xsdt_entries, AcpiTableHeader};
pub use discovery::{load_acpi_tables_combined, AcpiDiscovery, AcpiTableInfo};
pub use fields::parse_smbios_details;
pub use smbios::{
    get_smbios_strings, get_string_by_index, parse_raw_smbios_data_header, parse_smbios_structure,
    RawSMBIOSData, SmbiosStructureHeader,
};
