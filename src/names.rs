//! Names of the code values that SMBIOS structures store.

use vstd::prelude::*;
use vstd::string::*;
use crate::text::{hex_literal, hex_literal_text};

verus! {

/// The text for a code that no table lists: `Unknown (0xNN)`.
pub open spec fn unknown_code(code: u8) -> Seq<char> {
    "Unknown ("@ + hex_literal(code as nat, 2) + ")"@
}

fn unknown_code_text(code: u8) -> (r: String)
    ensures
        r@ == unknown_code(code),
{
    let mut s = String::from_str("Unknown (");
    let hex = hex_literal_text(code as u64, 2);
    s.append(hex.as_str());
    s.append(")");
    s
}

/// Name of a port connector type code.
pub open spec fn connector_name(code: u8) -> Seq<char> {
    match code {
        0x00 => "None"@,
        0x01 => "Centronics"@,
        0x02 => "Mini Centronics"@,
        0x03 => "Proprietary"@,
        0x04 => "DB-25 pin male"@,
        0x05 => "DB-25 pin female"@,
        0x06 => "DB-15 pin male"@,
        0x07 => "DB-15 pin female"@,
        0x08 => "DB-9 pin male"@,
        0x09 => "DB-9 pin female"@,
        0x0A => "RJ-11"@,
        0x0B => "RJ-45"@,
        0x0C => "50-pin MiniSCSI"@,
        0x0D => "Mini-DIN"@,
        0x0E => "Micro-DIN"@,
        0x0F => "PS/2"@,
        0x10 => "Infrared"@,
        0x11 => "HP-HIL"@,
        0x12 => "Access Bus (USB)"@,
        0x13 => "SSA SCSI"@,
        0x14 => "Circular DIN-8 male"@,
        0x15 => "Circular DIN-8 female"@,
        0x16 => "On Board IDE"@,
        0x17 => "On Board Floppy"@,
        0x18 => "9-pin Dual Inline (pin 10 cut)"@,
        0x19 => "25-pin Dual Inline (pin 26 cut)"@,
        0x1A => "50-pin Dual Inline"@,
        0x1B => "68-pin Dual Inline"@,
        0x1C => "On Board Sound Input from CD-ROM"@,
        0x1D => "Mini-Centronics Type-14"@,
        0x1E => "Mini-Centronics Type-26"@,
        0x1F => "Mini-jack (headphones)"@,
        0x20 => "BNC"@,
        0x21 => "1394"@,
        0x22 => "SAS/SATA Plug Receptacle"@,
        0x23 => "USB Type-C Receptacle"@,
        0xA0 => "PC-98"@,
        0xA1 => "PC-98Hireso"@,
        0xA2 => "PC-H98"@,
        0xA3 => "PC-98Note"@,
        0xA4 => "PC-98Full"@,
        0xFF => "Other"@,
        _ => unknown_code(code),
    }
}

/// Names a port connector type code; unlisted codes read "Unknown (0xNN)".
pub fn connector_type_str(code: u8) -> (r: String)
    ensures
        r@ == connector_name(code),
{
    match code {
        0x00 => String::from_str("None"),
        0x01 => String::from_str("Centronics"),
        0x02 => String::from_str("Mini Centronics"),
        0x03 => String::from_str("Proprietary"),
        0x04 => String::from_str("DB-25 pin male"),
        0x05 => String::from_str("DB-25 pin female"),
        0x06 => String::from_str("DB-15 pin male"),
        0x07 => String::from_str("DB-15 pin female"),
        0x08 => String::from_str("DB-9 pin male"),
        0x09 => String::from_str("DB-9 pin female"),
        0x0A => String::from_str("RJ-11"),
        0x0B => String::from_str("RJ-45"),
        0x0C => String::from_str("50-pin MiniSCSI"),
        0x0D => String::from_str("Mini-DIN"),
        0x0E => String::from_str("Micro-DIN"),
        0x0F => String::from_str("PS/2"),
        0x10 => String::from_str("Infrared"),
        0x11 => String::from_str("HP-HIL"),
        0x12 => String::from_str("Access Bus (USB)"),
        0x13 => String::from_str("SSA SCSI"),
        0x14 => String::from_str("Circular DIN-8 male"),
        0x15 => String::from_str("Circular DIN-8 female"),
        0x16 => String::from_str("On Board IDE"),
        0x17 => String::from_str("On Board Floppy"),
        0x18 => String::from_str("9-pin Dual Inline (pin 10 cut)"),
        0x19 => String::from_str("25-pin Dual Inline (pin 26 cut)"),
        0x1A => String::from_str("50-pin Dual Inline"),
        0x1B => String::from_str("68-pin Dual Inline"),
        0x1C => String::from_str("On Board Sound Input from CD-ROM"),
        0x1D => String::from_str("Mini-Centronics Type-14"),
        0x1E => String::from_str("Mini-Centronics Type-26"),
        0x1F => String::from_str("Mini-jack (headphones)"),
        0x20 => String::from_str("BNC"),
        0x21 => String::from_str("1394"),
        0x22 => String::from_str("SAS/SATA Plug Receptacle"),
        0x23 => String::from_str("USB Type-C Receptacle"),
        0xA0 => String::from_str("PC-98"),
        0xA1 => String::from_str("PC-98Hireso"),
        0xA2 => String::from_str("PC-H98"),
        0xA3 => String::from_str("PC-98Note"),
        0xA4 => String::from_str("PC-98Full"),
        0xFF => String::from_str("Other"),
        _ => unknown_code_text(code),
    }
}

/// Name of a port type code.
pub open spec fn port_name(code: u8) -> Seq<char> {
    match code {
        0x00 => "None"@,
        0x01 => "Parallel Port XT/AT Compatible"@,
        0x02 => "Parallel Port PS/2"@,
        0x03 => "Parallel Port ECP"@,
        0x04 => "Parallel Port EPP"@,
        0x05 => "Parallel Port ECP/EPP"@,
        0x06 => "Serial Port XT/AT Compatible"@,
        0x07 => "Serial Port 16450 Compatible"@,
        0x08 => "Serial Port 16550 Compatible"@,
        0x09 => "Serial Port 16550A Compatible"@,
        0x0A => "SCSI Port"@,
        0x0B => "MIDI Port"@,
        0x0C => "Joy Stick Port"@,
        0x0D => "Keyboard Port"@,
        0x0E => "Mouse Port"@,
        0x0F => "SSA SCSI"@,
        0x10 => "USB"@,
        0x11 => "FireWire (IEEE P1394)"@,
        0x12 => "PCMCIA Type I"@,
        0x13 => "PCMCIA Type II"@,
        0x14 => "PCMCIA Type III"@,
        0x15 => "Cardbus"@,
        0x16 => "Access Bus Port"@,
        0x17 => "SCSI II"@,
        0x18 => "SCSI Wide"@,
        0x19 => "PC-98"@,
        0x1A => "PC-98-Hireso"@,
        0x1B => "PC-H98"@,
        0x1C => "Video Port"@,
        0x1D => "Audio Port"@,
        0x1E => "Modem Port"@,
        0x1F => "Network Port"@,
        0x20 => "SATA"@,
        0x21 => "SAS"@,
        0x22 => "MFDP (Multi-Function Display Port)"@,
        0x23 => "Thunderbolt"@,
        0xA0 => "8251 Compatible"@,
        0xA1 => "8251 FIFO Compatible"@,
        0xFF => "Other"@,
        _ => unknown_code(code),
    }
}

/// Names a port type code; unlisted codes read "Unknown (0xNN)".
pub fn port_type_str(code: u8) -> (r: String)
    ensures
        r@ == port_name(code),
{
    match code {
        0x00 => String::from_str("None"),
        0x01 => String::from_str("Parallel Port XT/AT Compatible"),
        0x02 => String::from_str("Parallel Port PS/2"),
        0x03 => String::from_str("Parallel Port ECP"),
        0x04 => String::from_str("Parallel Port EPP"),
        0x05 => String::from_str("Parallel Port ECP/EPP"),
        0x06 => String::from_str("Serial Port XT/AT Compatible"),
        0x07 => String::from_str("Serial Port 16450 Compatible"),
        0x08 => String::from_str("Serial Port 16550 Compatible"),
        0x09 => String::from_str("Serial Port 16550A Compatible"),
        0x0A => String::from_str("SCSI Port"),
        0x0B => String::from_str("MIDI Port"),
        0x0C => String::from_str("Joy Stick Port"),
        0x0D => String::from_str("Keyboard Port"),
        0x0E => String::from_str("Mouse Port"),
        0x0F => String::from_str("SSA SCSI"),
        0x10 => String::from_str("USB"),
        0x11 => String::from_str("FireWire (IEEE P1394)"),
        0x12 => String::from_str("PCMCIA Type I"),
        0x13 => String::from_str("PCMCIA Type II"),
        0x14 => String::from_str("PCMCIA Type III"),
        0x15 => String::from_str("Cardbus"),
        0x16 => String::from_str("Access Bus Port"),
        0x17 => String::from_str("SCSI II"),
        0x18 => String::from_str("SCSI Wide"),
        0x19 => String::from_str("PC-98"),
        0x1A => String::from_str("PC-98-Hireso"),
        0x1B => String::from_str("PC-H98"),
        0x1C => String::from_str("Video Port"),
        0x1D => String::from_str("Audio Port"),
        0x1E => String::from_str("Modem Port"),
        0x1F => String::from_str("Network Port"),
        0x20 => String::from_str("SATA"),
        0x21 => String::from_str("SAS"),
        0x22 => String::from_str("MFDP (Multi-Function Display Port)"),
        0x23 => String::from_str("Thunderbolt"),
        0xA0 => String::from_str("8251 Compatible"),
        0xA1 => String::from_str("8251 FIFO Compatible"),
        0xFF => String::from_str("Other"),
        _ => unknown_code_text(code),
    }
}

/// Name of a physical memory array location code.
pub open spec fn array_location_name(code: u8) -> Seq<char> {
    match code {
        0x01 => "Other"@,
        0x02 => "Unknown"@,
        0x03 => "System board or motherboard"@,
        0x04 => "ISA add-on card"@,
        0x05 => "EISA add-on card"@,
        0x06 => "PCI add-on card"@,
        0x07 => "MCA add-on card"@,
        0x08 => "PCMCIA add-on card"@,
        0x09 => "Proprietary add-on card"@,
        0x0A => "NuBus"@,
        0xA0 => "PC-98/C20 add-on card"@,
        0xA1 => "PC-98/C24 add-on card"@,
        0xA2 => "PC-98/E add-on card"@,
        0xA3 => "PC-98/Local bus add-on card"@,
        0xA4 => "CXL add-on card"@,
        _ => unknown_code(code),
    }
}

/// Names a physical memory array location code; unlisted codes read "Unknown (0xNN)".
pub fn memory_array_location_str(code: u8) -> (r: String)
    ensures
        r@ == array_location_name(code),
{
    match code {
        0x01 => String::from_str("Other"),
        0x02 => String::from_str("Unknown"),
        0x03 => String::from_str("System board or motherboard"),
        0x04 => String::from_str("ISA add-on card"),
        0x05 => String::from_str("EISA add-on card"),
        0x06 => String::from_str("PCI add-on card"),
        0x07 => String::from_str("MCA add-on card"),
        0x08 => String::from_str("PCMCIA add-on card"),
        0x09 => String::from_str("Proprietary add-on card"),
        0x0A => String::from_str("NuBus"),
        0xA0 => String::from_str("PC-98/C20 add-on card"),
        0xA1 => String::from_str("PC-98/C24 add-on card"),
        0xA2 => String::from_str("PC-98/E add-on card"),
        0xA3 => String::from_str("PC-98/Local bus add-on card"),
        0xA4 => String::from_str("CXL add-on card"),
        _ => unknown_code_text(code),
    }
}

/// Name of a physical memory array use code.
pub open spec fn array_use_name(code: u8) -> Seq<char> {
    match code {
        0x01 => "Other"@,
        0x02 => "Unknown"@,
        0x03 => "System memory"@,
        0x04 => "Video memory"@,
        0x05 => "Flash memory"@,
        0x06 => "Non-volatile RAM"@,
        0x07 => "Cache memory"@,
        _ => unknown_code(code),
    }
}

/// Names a physical memory array use code; unlisted codes read "Unknown (0xNN)".
pub fn memory_array_use_str(code: u8) -> (r: String)
    ensures
        r@ == array_use_name(code),
{
    match code {
        0x01 => String::from_str("Other"),
        0x02 => String::from_str("Unknown"),
        0x03 => String::from_str("System memory"),
        0x04 => String::from_str("Video memory"),
        0x05 => String::from_str("Flash memory"),
        0x06 => String::from_str("Non-volatile RAM"),
        0x07 => String::from_str("Cache memory"),
        _ => unknown_code_text(code),
    }
}

/// Name of a memory error correction code.
pub open spec fn error_correction_name(code: u8) -> Seq<char> {
    match code {
        0x01 => "Other"@,
        0x02 => "Unknown"@,
        0x03 => "None"@,
        0x04 => "Parity"@,
        0x05 => "Single-bit ECC"@,
        0x06 => "Multi-bit ECC"@,
        0x07 => "CRC"@,
        _ => unknown_code(code),
    }
}

/// Names a memory error correction code; unlisted codes read "Unknown (0xNN)".
pub fn memory_error_correction_str(code: u8) -> (r: String)
    ensures
        r@ == error_correction_name(code),
{
    match code {
        0x01 => String::from_str("Other"),
        0x02 => String::from_str("Unknown"),
        0x03 => String::from_str("None"),
        0x04 => String::from_str("Parity"),
        0x05 => String::from_str("Single-bit ECC"),
        0x06 => String::from_str("Multi-bit ECC"),
        0x07 => String::from_str("CRC"),
        _ => unknown_code_text(code),
    }
}

} // verus!
