use vstd::prelude::*;

verus! {

/// The text of the error for a ROM too short to hold a cartridge header.
pub uninterp spec fn header_size_text(len: usize) -> Seq<char>;

/// The text of the error for an unknown RAM size code in the cartridge header.
pub uninterp spec fn header_ram_code_text(code: u8) -> Seq<char>;

/// The text of the error for a cartridge type that has no controller here.
pub uninterp spec fn unsupported_cart_text(cart_type: u8) -> Seq<char>;

/// The text of the error for a plain cartridge whose ROM is not 32 KiB.
pub uninterp spec fn plain_rom_size_text(len: usize) -> Seq<char>;

/// The text of the error for a plain cartridge asked for more than one RAM bank.
pub uninterp spec fn plain_ram_banks_text(banks: usize) -> Seq<char>;

/// The text of the error for an MBC1 ROM that is not a whole number of banks, or under 32 KiB.
pub uninterp spec fn mbc1_rom_size_text(len: usize) -> Seq<char>;

/// The text of the error for an MBC1 ROM larger than the controller can address.
pub uninterp spec fn mbc1_rom_too_large_text(len: usize) -> Seq<char>;

/// The text of the error for an MBC1 asked for more RAM than it can map.
pub uninterp spec fn mbc1_ram_banks_text(banks: usize) -> Seq<char>;

/// The text of the error that wraps a failed ROM load.
pub uninterp spec fn load_failed_text(reason: Seq<char>) -> Seq<char>;

/// The text of the error for an opcode the processor does not implement.
pub uninterp spec fn unknown_opcode_text(opcode: u8, address: u16) -> Seq<char>;

/// The text of the error for a write that the cartridge cannot take.
pub uninterp spec fn cartridge_write_text(address: u16, value: u8) -> Seq<char>;

/// Formats, with `format!`, the error for a ROM too short to hold a cartridge header; the
/// contract only ties the text to the length through `header_size_text`.
#[verifier::external_body]
pub(crate) fn header_size_message(len: usize) -> (s: String)
    ensures
        s@ == header_size_text(len),
{
    format!("ROM is too small to contain a cartridge header: {} bytes", len)
}

/// Formats, with `format!`, the error for an unknown RAM size code; the contract only ties the
/// text to the code through `header_ram_code_text`.
#[verifier::external_body]
pub(crate) fn header_ram_code_message(code: u8) -> (s: String)
    ensures
        s@ == header_ram_code_text(code),
{
    format!("Unknown RAM size code in cartridge header: {:02X}", code)
}

/// Formats, with `format!`, the error for an unsupported cartridge type; the contract only ties
/// the text to the type through `unsupported_cart_text`.
#[verifier::external_body]
pub(crate) fn unsupported_cart_message(cart_type: u8) -> (s: String)
    ensures
        s@ == unsupported_cart_text(cart_type),
{
    format!("Unsupported cartridge type: {:02X}", cart_type)
}

/// Formats, with `format!`, the error for a plain cartridge ROM of the wrong size; the contract
/// only ties the text to the length through `plain_rom_size_text`.
#[verifier::external_body]
pub(crate) fn plain_rom_size_message(len: usize) -> (s: String)
    ensures
        s@ == plain_rom_size_text(len),
{
    format!("ROM size for NMBC must be exactly 32 KiB, was {:04}", len)
}

/// Formats, with `format!`, the error for a plain cartridge with too many RAM banks; the
/// contract only ties the text to the count through `plain_ram_banks_text`.
#[verifier::external_body]
pub(crate) fn plain_ram_banks_message(banks: usize) -> (s: String)
    ensures
        s@ == plain_ram_banks_text(banks),
{
    format!(
        "NMBC can only support up to 8 KiB of RAM (1 bank), but {} banks were requested",
        banks
    )
}

/// Formats, with `format!`, the error for an MBC1 ROM of an unsupported size; the contract only
/// ties the text to the length through `mbc1_rom_size_text`.
#[verifier::external_body]
pub(crate) fn mbc1_rom_size_message(len: usize) -> (s: String)
    ensures
        s@ == mbc1_rom_size_text(len),
{
    format!(
        "ROM size must be a multiple of 16 KiB (0x4000 bytes) and at least 32 KiB, but was {:04}",
        len
    )
}

/// Formats, with `format!`, the error for an MBC1 ROM over 2 MiB; the contract only ties the
/// text to the length through `mbc1_rom_too_large_text`.
#[verifier::external_body]
pub(crate) fn mbc1_rom_too_large_message(len: usize) -> (s: String)
    ensures
        s@ == mbc1_rom_too_large_text(len),
{
    format!("MBC1 can only support up to 2 MiB of ROM, but the ROM has {} bytes", len)
}

/// Formats, with `format!`, the error for an MBC1 with too many RAM banks; the contract only
/// ties the text to the count through `mbc1_ram_banks_text`.
#[verifier::external_body]
pub(crate) fn mbc1_ram_banks_message(banks: usize) -> (s: String)
    ensures
        s@ == mbc1_ram_banks_text(banks),
{
    format!(
        "MBC1 can only support up to 32 KiB of RAM (4 banks), but {} banks were requested. If the ROM size is larger than 512 KiB (0x80000 bytes), only 1 RAM bank is supported.",
        banks
    )
}

/// Formats, with `format!`, the error returned when a ROM cannot be loaded; the contract only
/// ties the text to the reason through `load_failed_text`.
#[verifier::external_body]
pub(crate) fn load_failed_message(reason: &String) -> (s: String)
    ensures
        s@ == load_failed_text(reason@),
{
    format!("Failed to load ROM: {}", reason)
}

/// Formats, with `format!`, the error for an unknown opcode; the contract only ties the text to
/// the opcode and its address through `unknown_opcode_text`.
#[verifier::external_body]
pub(crate) fn unknown_opcode_message(opcode: u8, address: u16) -> (s: String)
    ensures
        s@ == unknown_opcode_text(opcode, address),
{
    format!("Unknown opcode: 0x{:02X} at address 0x{:04X}", opcode, address)
}

/// Formats, with `format!`, the error for a write the cartridge cannot take; the contract only
/// ties the text to the address and value through `cartridge_write_text`.
#[verifier::external_body]
pub(crate) fn cartridge_write_message(address: u16, value: u8) -> (s: String)
    ensures
        s@ == cartridge_write_text(address, value),
{
    format!("Ignored write of 0x{:02X} to cartridge address 0x{:04X}", value, address)
}

} // verus!
