use vstd::prelude::*;

use crate::messages::{header_ram_code_message, header_ram_code_text, header_size_message, header_size_text};

verus! {

/// Address of the cartridge type byte in the ROM header.
pub const CART_TYPE_ADDRESS: usize = 0x0147;

/// Address of the RAM size code in the ROM header.
pub const RAM_SIZE_ADDRESS: usize = 0x0149;

/// The length a ROM needs to hold the whole header.
pub const HEADER_END: usize = 0x0150;

/// The fields of the cartridge header that select and size the memory bank controller.
#[derive(Debug, Clone, Copy, PartialEq, Eq)]
pub struct Header {
    /// Cartridge type byte (0x0147).
    pub cart_type: u8,
    /// Number of 8 KiB RAM banks given by the RAM size code (0x0149).
    pub ram_banks: usize,
}

/// The number of 8 KiB RAM banks that a header RAM size code stands for.
pub open spec fn ram_banks_for_code(code: u8) -> Option<usize> {
    if code == 0 || code == 1 {
        Some(0usize)
    } else if code == 2 {
        Some(1usize)
    } else if code == 3 {
        Some(4usize)
    } else if code == 4 {
        Some(16usize)
    } else if code == 5 {
        Some(8usize)
    } else {
        None
    }
}

/// What reading the header of `rom` gives: the header, or the text of the error.
pub open spec fn parse_header(rom: Seq<u8>) -> Result<Header, Seq<char>> {
    if rom.len() < HEADER_END {
        Err(header_size_text(rom.len() as usize))
    } else {
        match ram_banks_for_code(rom[RAM_SIZE_ADDRESS as int]) {
            Some(n) => Ok(Header { cart_type: rom[CART_TYPE_ADDRESS as int], ram_banks: n }),
            None => Err(header_ram_code_text(rom[RAM_SIZE_ADDRESS as int])),
        }
    }
}

/// The result of a header read, with the error taken as its text.
pub open spec fn header_result_view(r: Result<Header, String>) -> Result<Header, Seq<char>> {
    match r {
        Ok(h) => Ok(h),
        Err(e) => Err(e@),
    }
}

impl Header {
    /// Reads the cartridge type and RAM size from the header of `rom`.
    pub fn new(rom: &Vec<u8>) -> (r: Result<Header, String>)
        ensures
            header_result_view(r) == parse_header(rom@),
    {
        if rom.len() < HEADER_END {
            return Err(header_size_message(rom.len()));
        }
        let code = rom[RAM_SIZE_ADDRESS];
        let ram_banks: usize = if code == 0 || code == 1 {
            0
        } else if code == 2 {
            1
        } else if code == 3 {
            4
        } else if code == 4 {
            16
        } else if code == 5 {
            8
        } else {
            return Err(header_ram_code_message(code));
        };
        Ok(Header { cart_type: rom[CART_TYPE_ADDRESS], ram_banks })
    }
}

} // verus!
