use vstd::prelude::*;

use crate::memory::MemoryError;
use crate::messages::{plain_ram_banks_message, plain_ram_banks_text, plain_rom_size_message, plain_rom_size_text};

verus! {

/// Size of the ROM of a cartridge without a memory bank controller.
pub const PLAIN_ROM_SIZE: usize = 0x8000;

/// Size of one cartridge RAM bank.
pub const RAM_BANK_SIZE: usize = 0x2000;

/// Non-MBC cartridge. Thus only supports up to 32 KiB of ROM and up to 8 KiB of RAM as that is
/// the maximum amount of memory that fits into the address space without bank switching.
pub struct NMBC {
    rom_banks: Vec<u8>,
    ram_bank: Option<Vec<u8>>,
}

/// The contents of a plain cartridge: its ROM and, if it has one, its RAM.
pub struct NmbcView {
    pub rom: Seq<u8>,
    pub ram: Option<Seq<u8>>,
}

/// Whether `address` lies in the ROM window of the cartridge (0x0000-0x7FFF).
pub open spec fn in_rom_window(address: u16) -> bool {
    address <= 0x7FFF
}

/// Whether `address` lies in the external RAM window of the cartridge (0xA000-0xBFFF).
pub open spec fn in_ram_window(address: u16) -> bool {
    0xA000 <= address <= 0xBFFF
}

/// A RAM bank of zero bytes.
pub open spec fn zero_bank() -> Seq<u8> {
    Seq::new(RAM_BANK_SIZE as nat, |i: int| 0u8)
}

impl NmbcView {
    pub open spec fn wf(self) -> bool {
        &&& self.rom.len() == PLAIN_ROM_SIZE
        &&& (self.ram matches Some(r) ==> r.len() == RAM_BANK_SIZE)
    }

    /// The byte the cartridge answers a read of `address` with; 0xFF where no RAM is fitted.
    pub open spec fn read(self, address: u16) -> u8 {
        if in_rom_window(address) {
            self.rom[address as int]
        } else {
            match self.ram {
                Some(r) => r[address - 0xA000],
                None => 0xFF,
            }
        }
    }

    /// The cartridge after a write of `value` to `address` in its RAM window.
    pub open spec fn write(self, address: u16, value: u8) -> NmbcView {
        match self.ram {
            Some(r) => NmbcView { ram: Some(r.update(address - 0xA000, value)), ..self },
            None => self,
        }
    }
}

impl View for NMBC {
    type V = NmbcView;

    closed spec fn view(&self) -> NmbcView {
        NmbcView {
            rom: self.rom_banks@,
            ram: match self.ram_bank {
                Some(r) => Some(r@),
                None => None,
            },
        }
    }
}

/// The result of building a plain cartridge, with the error taken as its text.
pub open spec fn nmbc_result_view(r: Result<NMBC, MemoryError>) -> Result<NmbcView, Seq<char>> {
    match r {
        Ok(c) => Ok(c@),
        Err(e) => Err(e@),
    }
}

/// What building a plain cartridge from `rom` with `ram` RAM banks gives.
pub open spec fn nmbc_new_spec(rom: Seq<u8>, ram: usize) -> Result<NmbcView, Seq<char>> {
    if rom.len() != PLAIN_ROM_SIZE {
        Err(plain_rom_size_text(rom.len() as usize))
    } else if ram > 1 {
        Err(plain_ram_banks_text(ram))
    } else {
        Ok(NmbcView { rom, ram: if ram == 1 { Some(zero_bank()) } else { None } })
    }
}

impl NMBC {
    pub fn new(rom: Vec<u8>, ram: usize) -> (r: Result<Self, MemoryError>)
        ensures
            nmbc_result_view(r) == nmbc_new_spec(rom@, ram),
            r matches Ok(c) ==> c@.wf(),
    {
        if rom.len() != PLAIN_ROM_SIZE {
            return Err(plain_rom_size_message(rom.len()));
        }
        let mut ram_banks = None;
        if ram == 1 {
            let bank: Vec<u8> = vec![0u8; RAM_BANK_SIZE];
            assert(bank@ =~= zero_bank());
            ram_banks = Some(bank);
        } else if ram > 1 {
            return Err(plain_ram_banks_message(ram));
        }
        Ok(Self { rom_banks: rom, ram_bank: ram_banks })
    }

    pub fn read(&self, address: u16) -> (r: u8)
        requires
            self@.wf(),
            in_rom_window(address) || in_ram_window(address),
        ensures
            r == self@.read(address),
    {
        if address <= 0x7FFF {
            self.rom_banks[address as usize]
        } else {
            match &self.ram_bank {
                Some(a) => a[(address - 0xA000) as usize],
                None => 0xFF,
            }
        }
    }

    pub fn write(&mut self, address: u16, value: u8)
        requires
            old(self)@.wf(),
            in_ram_window(address),
        ensures
            final(self)@ == old(self)@.write(address, value),
            final(self)@.wf(),
    {
        if let Some(a) = &mut self.ram_bank {
            a.set((address - 0xA000) as usize, value);
        }
    }
}


/// A plain cartridge maps its ROM byte for byte, and its RAM (when fitted) gives back what was
/// written; without RAM the RAM window reads 0xFF.
pub proof fn law_plain_cartridge(c: NmbcView, address: u16, other: u16, value: u8)
    requires
        c.wf(),
        in_ram_window(address),
        in_ram_window(other),
    ensures
        forall|a: u16| in_rom_window(a) ==> #[trigger] c.read(a) == c.rom[a as int],
        c.ram is Some ==> c.write(address, value).read(address) == value,
        c.ram is Some && other != address ==> c.write(address, value).read(other) == c.read(other),
        c.ram is None ==> c.read(other) == 0xFF && c.write(address, value) == c,
{
}

} // verus!
