use vstd::prelude::*;

use crate::mbc::nmbc::{in_ram_window, in_rom_window, RAM_BANK_SIZE};
use crate::memory::MemoryError;
use crate::messages::{
    mbc1_ram_banks_message, mbc1_ram_banks_text, mbc1_rom_size_message, mbc1_rom_size_text,
    mbc1_rom_too_large_message, mbc1_rom_too_large_text,
};

verus! {

/// Size of one switchable ROM bank.
pub const ROM_BANK_SIZE: usize = 0x4000;

/// MBC1 cartridge. Supports up to 2 MiB of ROM and up to 32 KiB of RAM. Banks can be switched by
/// writing to the ROM.
pub struct MBC1 {
    rom: Vec<u8>,
    ram: Vec<u8>,
    rom_bank1: usize,
    rom_bank2: usize,
    ram_bank: usize,
    ram_enabled: bool,
    rom_register: u8,
    ram_register: u8,
    advanced_banking_mode: bool,
}

/// The state of an MBC1 cartridge: its ROM and RAM (all banks one after another) and the
/// registers of the controller.
pub struct Mbc1View {
    pub rom: Seq<u8>,
    pub ram: Seq<u8>,
    /// Bank mapped at 0x0000-0x3FFF in advanced banking mode.
    pub rom_bank1: usize,
    /// Bank mapped at 0x4000-0x7FFF.
    pub rom_bank2: usize,
    /// RAM bank mapped at 0xA000-0xBFFF in advanced banking mode.
    pub ram_bank: usize,
    pub ram_enabled: bool,
    /// The five low bits of the ROM bank number (never zero).
    pub rom_register: u8,
    /// The two-bit register that selects the RAM bank or the high ROM bank bits.
    pub ram_register: u8,
    pub advanced_banking_mode: bool,
}

impl Mbc1View {
    pub open spec fn rom_banks(self) -> nat {
        self.rom.len() / (ROM_BANK_SIZE as nat)
    }

    pub open spec fn ram_banks(self) -> nat {
        self.ram.len() / (RAM_BANK_SIZE as nat)
    }

    pub open spec fn wf(self) -> bool {
        &&& self.rom.len() % (ROM_BANK_SIZE as nat) == 0
        &&& 0x8000 <= self.rom.len() <= 0x200000
        &&& self.ram.len() % (RAM_BANK_SIZE as nat) == 0
        &&& self.ram_banks() <= 4
        &&& self.ram_banks() > 1 ==> self.rom.len() <= 0x80000
        &&& self.rom_bank1 < self.rom_banks()
        &&& self.rom_bank2 < self.rom_banks()
        &&& (self.ram_bank < self.ram_banks() || self.ram_bank == 0)
        &&& 1 <= self.rom_register <= 0x1F
        &&& self.ram_register <= 3
    }

    /// The ROM bank that the two bank registers select, wrapped to the banks present.
    pub open spec fn selected_rom_bank(self, rom_register: u8, ram_register: u8) -> usize {
        ((rom_register | (ram_register << 5u8)) & ((self.rom_banks() - 1) as u8)) as usize
    }

    /// Whether the cartridge answers a read of `address`: the whole ROM window, and the RAM
    /// window unless RAM is enabled on a cartridge without RAM.
    pub open spec fn readable(self, address: u16) -> bool {
        in_rom_window(address) || (in_ram_window(address) && (!self.ram_enabled
            || self.ram.len() > 0))
    }

    /// Whether the cartridge takes a write to `address`: the whole ROM window (its registers),
    /// and the RAM window when RAM is fitted.
    pub open spec fn writable(self, address: u16) -> bool {
        in_rom_window(address) || (in_ram_window(address) && self.ram.len() > 0)
    }

    /// The index in `ram` of RAM-window address `address`: in the bank selected by the RAM
    /// register in advanced banking mode, in bank 0 otherwise.
    pub open spec fn ram_index(self, address: u16) -> int {
        let bank = if self.advanced_banking_mode { self.ram_bank } else { 0 };
        bank * RAM_BANK_SIZE + (address - 0xA000)
    }

    /// The byte the cartridge answers a read of `address` with.
    pub open spec fn read(self, address: u16) -> u8 {
        if address <= 0x3FFF {
            let bank = if self.advanced_banking_mode { self.rom_bank1 } else { 0 };
            self.rom[bank * ROM_BANK_SIZE + address]
        } else if address <= 0x7FFF {
            self.rom[self.rom_bank2 * ROM_BANK_SIZE + (address - 0x4000)]
        } else if self.ram_enabled {
            self.ram[self.ram_index(address)]
        } else {
            0xFF
        }
    }

    /// The cartridge after a write of `value` to `address`.
    pub open spec fn write(self, address: u16, value: u8) -> Mbc1View {
        if address <= 0x1FFF {
            Mbc1View { ram_enabled: value & 0x0F == 0x0A, ..self }
        } else if address <= 0x3FFF {
            let r = if value & 0x1F == 0 { 1u8 } else { value & 0x1F };
            Mbc1View {
                rom_register: r,
                rom_bank2: self.selected_rom_bank(r, self.ram_register),
                ..self
            }
        } else if address <= 0x5FFF {
            let q = value & 0x03;
            Mbc1View {
                ram_register: q,
                ram_bank: if self.advanced_banking_mode && self.ram_banks() > 1 {
                    (q & ((self.ram_banks() - 1) as u8)) as usize
                } else {
                    self.ram_bank
                },
                rom_bank2: self.selected_rom_bank(self.rom_register, q),
                ..self
            }
        } else if address <= 0x7FFF {
            Mbc1View { advanced_banking_mode: value & 0x01 == 0x01, ..self }
        } else {
            Mbc1View { ram: self.ram.update(self.ram_index(address), value), ..self }
        }
    }
}

impl View for MBC1 {
    type V = Mbc1View;

    closed spec fn view(&self) -> Mbc1View {
        Mbc1View {
            rom: self.rom@,
            ram: self.ram@,
            rom_bank1: self.rom_bank1,
            rom_bank2: self.rom_bank2,
            ram_bank: self.ram_bank,
            ram_enabled: self.ram_enabled,
            rom_register: self.rom_register,
            ram_register: self.ram_register,
            advanced_banking_mode: self.advanced_banking_mode,
        }
    }
}

/// The result of building an MBC1 cartridge, with the error taken as its text.
pub open spec fn mbc1_result_view(r: Result<MBC1, MemoryError>) -> Result<Mbc1View, Seq<char>> {
    match r {
        Ok(c) => Ok(c@),
        Err(e) => Err(e@),
    }
}

/// What building an MBC1 cartridge from `rom` with `ram` RAM banks gives: the ROM must be a
/// whole number of 16 KiB banks, at least 32 KiB and at most 2 MiB, and at most four RAM banks
/// may be asked for (only one beyond 512 KiB of ROM). It starts with bank 1 switched in and RAM
/// off.
pub open spec fn mbc1_new_spec(rom: Seq<u8>, ram: usize) -> Result<Mbc1View, Seq<char>> {
    if rom.len() % (ROM_BANK_SIZE as nat) != 0 || rom.len() < 0x8000 {
        Err(mbc1_rom_size_text(rom.len() as usize))
    } else if rom.len() > 0x200000 {
        Err(mbc1_rom_too_large_text(rom.len() as usize))
    } else if ram > 4 || (ram > 1 && rom.len() > 0x80000) {
        Err(mbc1_ram_banks_text(ram))
    } else {
        Ok(
            Mbc1View {
                rom,
                ram: Seq::new((ram * RAM_BANK_SIZE) as nat, |i: int| 0u8),
                rom_bank1: 0,
                rom_bank2: 1,
                ram_bank: 0,
                ram_enabled: false,
                rom_register: 0x1,
                ram_register: 0x0,
                advanced_banking_mode: false,
            },
        )
    }
}

proof fn lemma_and_le(x: u8, m: u8)
    ensures
        x & m <= m,
{
    assert(x & m <= m) by (bit_vector);
}

impl MBC1 {
    pub fn new(rom: Vec<u8>, ram: usize) -> (r: Result<Self, MemoryError>)
        ensures
            mbc1_result_view(r) == mbc1_new_spec(rom@, ram),
            r matches Ok(c) ==> c@.wf(),
    {
        if rom.len() % ROM_BANK_SIZE != 0 || rom.len() < 0x8000 {
            return Err(mbc1_rom_size_message(rom.len()));
        }
        if rom.len() > 0x200000 {
            return Err(mbc1_rom_too_large_message(rom.len()));
        }
        if ram > 4 || (ram > 1 && rom.len() > 0x80000) {
            return Err(mbc1_ram_banks_message(ram));
        }
        let initial_ram: Vec<u8> = vec![0u8; ram * RAM_BANK_SIZE];
        assert(initial_ram@ =~= Seq::new((ram * RAM_BANK_SIZE) as nat, |i: int| 0u8));
        Ok(
            Self {
                rom: rom,
                ram: initial_ram,
                rom_bank1: 0,
                rom_bank2: 1,
                ram_bank: 0,
                ram_enabled: false,
                rom_register: 0x1,
                ram_register: 0x0,
                advanced_banking_mode: false,
            },
        )
    }

    /// Whether the cartridge answers a read of `address`.
    pub fn readable(&self, address: u16) -> (r: bool)
        ensures
            r == self@.readable(address),
    {
        address <= 0x7FFF || (0xA000 <= address && address <= 0xBFFF && (!self.ram_enabled
            || self.ram.len() > 0))
    }

    /// Whether the cartridge takes a write to `address`.
    pub fn writable(&self, address: u16) -> (r: bool)
        ensures
            r == self@.writable(address),
    {
        address <= 0x7FFF || (0xA000 <= address && address <= 0xBFFF && self.ram.len() > 0)
    }

    pub fn read(&self, address: u16) -> (r: u8)
        requires
            self@.wf(),
            self@.readable(address),
        ensures
            r == self@.read(address),
    {
        if address <= 0x3FFF {
            if self.advanced_banking_mode {
                self.rom[self.rom_bank1 * ROM_BANK_SIZE + address as usize]
            } else {
                self.rom[address as usize]
            }
        } else if address <= 0x7FFF {
            self.rom[self.rom_bank2 * ROM_BANK_SIZE + (address - 0x4000) as usize]
        } else {
            if self.ram_enabled {
                if self.advanced_banking_mode {
                    self.ram[self.ram_bank * RAM_BANK_SIZE + (address - 0xA000) as usize]
                } else {
                    self.ram[(address - 0xA000) as usize]
                }
            } else {
                0xFF
            }
        }
    }

    pub fn write(&mut self, address: u16, value: u8)
        requires
            old(self)@.wf(),
            old(self)@.writable(address),
        ensures
            final(self)@ == old(self)@.write(address, value),
            final(self)@.wf(),
    {
        let ghost banks = self@.rom_banks();
        if address <= 0x1FFF {
            self.ram_enabled = value & 0x0F == 0x0A;
        } else if address <= 0x3FFF {
            self.rom_register = value & 0x1F;
            proof {
                assert(value & 0x1F <= 0x1F) by (bit_vector);
            }
            if self.rom_register == 0 {
                self.rom_register = 1;
            }
            let full_address = self.rom_register | (self.ram_register << 5);
            proof {
                lemma_and_le(full_address, ((self.rom.len() / ROM_BANK_SIZE) as u8 - 1) as u8);
            }
            self.rom_bank2 = (full_address & ((self.rom.len() / ROM_BANK_SIZE) as u8 - 1)) as usize;
        } else if address <= 0x5FFF {
            self.ram_register = value & 0x03;
            proof {
                assert(value & 0x03 <= 3) by (bit_vector);
            }
            if self.advanced_banking_mode {
                if self.ram.len() / RAM_BANK_SIZE > 1 {
                    proof {
                        lemma_and_le(self.ram_register, ((self.ram.len() / RAM_BANK_SIZE) as u8 - 1) as u8);
                    }
                    self.ram_bank = (self.ram_register & ((self.ram.len() / RAM_BANK_SIZE) as u8
                        - 1)) as usize;
                } else {
                    self.rom_bank2 = (self.ram_register << 5) as usize;
                }
                let full_address = self.rom_register | (self.ram_register << 5);
                proof {
                    lemma_and_le(full_address, ((self.rom.len() / ROM_BANK_SIZE) as u8 - 1) as u8);
                }
                self.rom_bank2 = (full_address & ((self.rom.len() / ROM_BANK_SIZE) as u8 - 1)) as usize;
            } else {
                let full_address = self.rom_register | (self.ram_register << 5);
                proof {
                    lemma_and_le(full_address, ((self.rom.len() / ROM_BANK_SIZE) as u8 - 1) as u8);
                }
                self.rom_bank2 = (full_address & ((self.rom.len() / ROM_BANK_SIZE) as u8 - 1)) as usize;
            }
        } else if address <= 0x7FFF {
            self.advanced_banking_mode = value & 0x01 == 0x01;
        } else {
            if self.advanced_banking_mode {
                self.ram.set(self.ram_bank * RAM_BANK_SIZE + (address - 0xA000) as usize, value);
            } else {
                self.ram.set((address - 0xA000) as usize, value);
            }
        }
        proof {
            assert(self@ =~= old(self)@.write(address, value));
            assert(self@.rom_banks() == banks);
            assert(2 <= banks <= 128);
            assert(self.rom_bank2 < banks);
            assert(self.ram_bank < self@.ram_banks() || self.ram_bank == 0);
        }
    }
}


/// Writing to 0x0000-0x1FFF enables the cartridge RAM exactly when the low nibble of the value is
/// 0xA; while it is disabled, reads of the RAM window give 0xFF.
pub proof fn law_mbc1_ram_enable(c: Mbc1View, address: u16, value: u8, other: u16)
    requires
        address <= 0x1FFF,
        in_ram_window(other),
    ensures
        c.write(address, value).ram_enabled == (value & 0x0F == 0x0A),
        !c.write(address, value).ram_enabled ==> c.write(address, value).read(other) == 0xFF,
{
}

/// With RAM enabled, a read of the RAM window gives back the byte last written there, in simple
/// and in advanced banking mode, and other RAM addresses keep their bytes.
pub proof fn law_mbc1_ram_read_after_write(c: Mbc1View, address: u16, other: u16, value: u8)
    requires
        c.wf(),
        c.ram.len() > 0,
        c.ram_enabled,
        in_ram_window(address),
        in_ram_window(other),
    ensures
        c.write(address, value).read(address) == value,
        other != address ==> c.write(address, value).read(other) == c.read(other),
        c.write(address, value).wf(),
{
}

/// The RAM banks are separate storage: a write through the RAM window changes one byte of the
/// bank it goes to (the selected bank in advanced banking mode, bank 0 otherwise), and every byte
/// of every other bank stays as it was.
pub proof fn law_mbc1_ram_banks_are_separate(c: Mbc1View, address: u16, value: u8, i: int)
    requires
        c.wf(),
        c.ram.len() > 0,
        in_ram_window(address),
        0 <= i < c.ram.len(),
    ensures
        0 <= c.ram_index(address) < c.ram.len(),
        c.write(address, value).ram[c.ram_index(address)] == value,
        i != c.ram_index(address) ==> c.write(address, value).ram[i] == c.ram[i],
        c.write(address, value).ram.len() == c.ram.len(),
{
}

/// Writing a bank number to 0x2000-0x3FFF switches the bank seen at 0x4000-0x7FFF: its low five
/// bits (0 counting as 1) with the two high bits from the RAM register, wrapped to the banks
/// present. The first 16 KiB keep showing bank 0 in simple banking mode.
pub proof fn law_mbc1_rom_bank_switch(c: Mbc1View, address: u16, value: u8, offset: u16)
    requires
        c.wf(),
        0x2000 <= address <= 0x3FFF,
        offset < 0x4000,
    ensures
        c.write(address, value).wf(),
        c.write(address, value).read((0x4000 + offset) as u16) == c.rom[c.selected_rom_bank(
            if value & 0x1F == 0 {
                1u8
            } else {
                value & 0x1F
            },
            c.ram_register,
        ) * ROM_BANK_SIZE + offset],
        !c.advanced_banking_mode ==> c.write(address, value).read(offset) == c.rom[offset as int],
{
    assert(value & 0x1F <= 0x1F) by (bit_vector);
    lemma_and_le(
        if value & 0x1F == 0 { 1u8 } else { value & 0x1F } | (c.ram_register << 5u8),
        ((c.rom_banks() - 1) as u8),
    );
}


/// Bank selection as arithmetic: for a ROM of 2, 4, ..., 128 banks, the bank seen at
/// 0x4000-0x7FFF is (n + 32 * q) modulo the number of banks, with n the five-bit bank number
/// (0 counting as 1) and q the two-bit upper register. Writing either register keeps the other.
pub proof fn law_mbc1_bank_arithmetic(c: Mbc1View, address: u16, value: u8, offset: u16)
    requires
        c.wf(),
        c.rom_banks() == 2 || c.rom_banks() == 4 || c.rom_banks() == 8 || c.rom_banks() == 16
            || c.rom_banks() == 32 || c.rom_banks() == 64 || c.rom_banks() == 128,
        0x2000 <= address <= 0x5FFF,
        offset < 0x4000,
    ensures
        ({
            let banks = c.rom_banks() as int;
            let n: int = if value % 32 == 0 { 1 } else { (value % 32) as int };
            let d = c.write(address, value);
            &&& address <= 0x3FFF ==> d.read((0x4000 + offset) as u16) == c.rom[((n + 32
                * c.ram_register) % banks) * 0x4000 + offset]
            &&& address >= 0x4000 ==> d.read((0x4000 + offset) as u16) == c.rom[((c.rom_register
                + 32 * (value % 4)) % banks) * 0x4000 + offset]
        }),
{
    let b = c.rom_banks() as u8;
    let q = c.ram_register;
    let r = c.rom_register;
    let low = if value & 0x1F == 0 { 1u8 } else { value & 0x1F };
    let hi = value & 0x03;
    assert(value & 0x1F == value % 32 && value & 0x03 == value % 4 && value & 0x1F <= 0x1F && value
        & 0x03 <= 3 && ((b == 2 || b == 4 || b == 8 || b == 16 || b == 32 || b == 64 || b == 128)
        && low <= 31 && q <= 3 ==> ((low | (q << 5u8)) & ((b - 1) as u8)) as int == (low + 32 * q)
        % (b as int)) && ((b == 2 || b == 4 || b == 8 || b == 16 || b == 32 || b == 64 || b == 128)
        && r <= 31 && hi <= 3 ==> ((r | (hi << 5u8)) & ((b - 1) as u8)) as int == (r + 32 * hi) % (
    b as int))) by (bit_vector);
}

} // verus!
