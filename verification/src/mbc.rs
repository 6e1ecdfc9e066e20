use vstd::prelude::*;

use crate::header::Header;
use crate::mbc::mbc1::{mbc1_new_spec, Mbc1View};
use crate::mbc::nmbc::{in_ram_window, in_rom_window, nmbc_new_spec, NmbcView};
use crate::memory::MemoryError;
use crate::messages::{unsupported_cart_message, unsupported_cart_text};

pub mod mbc1;
pub mod nmbc;

verus! {

/// The cartridge of a loaded ROM, by the memory bank controller it carries.
pub enum MBCType {
    NMBC(nmbc::NMBC),
    MBC1(mbc1::MBC1),
}

/// The state of a cartridge, by controller.
pub enum CartView {
    Plain(NmbcView),
    Mbc1(Mbc1View),
}

impl CartView {
    pub open spec fn wf(self) -> bool {
        match self {
            CartView::Plain(c) => c.wf(),
            CartView::Mbc1(c) => c.wf(),
        }
    }

    /// Whether the cartridge answers a read of `address`.
    pub open spec fn readable(self, address: u16) -> bool {
        match self {
            CartView::Plain(c) => in_rom_window(address) || in_ram_window(address),
            CartView::Mbc1(c) => c.readable(address),
        }
    }

    /// Whether the cartridge takes a write to `address`.
    pub open spec fn writable(self, address: u16) -> bool {
        match self {
            CartView::Plain(c) => in_ram_window(address),
            CartView::Mbc1(c) => c.writable(address),
        }
    }

    pub open spec fn read(self, address: u16) -> u8 {
        match self {
            CartView::Plain(c) => c.read(address),
            CartView::Mbc1(c) => c.read(address),
        }
    }

    pub open spec fn write(self, address: u16, value: u8) -> CartView {
        match self {
            CartView::Plain(c) => CartView::Plain(c.write(address, value)),
            CartView::Mbc1(c) => CartView::Mbc1(c.write(address, value)),
        }
    }
}

impl View for MBCType {
    type V = CartView;

    open spec fn view(&self) -> CartView {
        match self {
            MBCType::NMBC(c) => CartView::Plain(c@),
            MBCType::MBC1(c) => CartView::Mbc1(c@),
        }
    }
}

/// The result of building a cartridge, with the error taken as its text.
pub open spec fn cart_result_view(r: Result<MBCType, MemoryError>) -> Result<CartView, Seq<char>> {
    match r {
        Ok(c) => Ok(c@),
        Err(e) => Err(e@),
    }
}

/// What building the cartridge for `rom` with header `header` gives: type 0x00 is a plain
/// cartridge without RAM, types 0x01-0x03 are MBC1 with the header's RAM banks, and every other
/// type is refused.
pub open spec fn cart_new_spec(rom: Seq<u8>, header: Header) -> Result<CartView, Seq<char>> {
    if header.cart_type == 0x00 {
        match nmbc_new_spec(rom, 0) {
            Ok(c) => Ok(CartView::Plain(c)),
            Err(e) => Err(e),
        }
    } else if 0x01 <= header.cart_type <= 0x03 {
        match mbc1_new_spec(rom, header.ram_banks) {
            Ok(c) => Ok(CartView::Mbc1(c)),
            Err(e) => Err(e),
        }
    } else {
        Err(unsupported_cart_text(header.cart_type))
    }
}

impl MBCType {
    pub fn new(rom: Vec<u8>, header: &Header) -> (r: Result<Self, MemoryError>)
        ensures
            cart_result_view(r) == cart_new_spec(rom@, *header),
            r matches Ok(c) ==> c@.wf(),
    {
        if header.cart_type == 0x00 {
            let c = nmbc::NMBC::new(rom, 0);
            match c {
                Ok(c) => Ok(MBCType::NMBC(c)),
                Err(e) => Err(e),
            }
        } else if 0x01 <= header.cart_type && header.cart_type <= 0x03 {
            let c = mbc1::MBC1::new(rom, header.ram_banks);
            match c {
                Ok(c) => Ok(MBCType::MBC1(c)),
                Err(e) => Err(e),
            }
        } else {
            Err(unsupported_cart_message(header.cart_type))
        }
    }

    pub fn read(&self, address: u16) -> (r: u8)
        requires
            self@.wf(),
            self@.readable(address),
        ensures
            r == self@.read(address),
    {
        match self {
            MBCType::NMBC(mbc) => mbc.read(address),
            MBCType::MBC1(mbc) => mbc.read(address),
        }
    }

    pub fn write(&mut self, address: u16, value: u8)
        requires
            old(self)@.wf(),
            old(self)@.writable(address),
        ensures
            final(self)@ == old(self)@.write(address, value),
            final(self)@.wf(),
    {
        match self {
            MBCType::NMBC(mbc) => mbc.write(address, value),
            MBCType::MBC1(mbc) => mbc.write(address, value),
        }
    }
}

} // verus!
