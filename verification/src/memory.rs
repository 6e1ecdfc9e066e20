use vstd::prelude::*;

use crate::header::{parse_header, Header};
use crate::mbc::nmbc::{in_ram_window, in_rom_window};
use crate::mbc::{cart_new_spec, CartView, MBCType};
use crate::messages::{cartridge_write_message, cartridge_write_text};

verus! {

/// Errors raised while setting up memory are plain messages.
pub type MemoryError = String;

/// Size of the address space.
pub const ADDRESS_SPACE: usize = 0x10000;

/// Address of the interrupt flag register (IF).
pub const INTERRUPT_FLAG: u16 = 0xFF0F;

/// Address of the interrupt enable register (IE).
pub const INTERRUPT_ENABLE: u16 = 0xFFFF;

/// The memory map of the console: the cartridge answers the ROM window (0x0000-0x7FFF) and the
/// external RAM window (0xA000-0xBFFF); every other address is backed by `data`. While the PPU
/// holds VRAM or OAM, the processor reads 0xFF there and its writes are dropped.
pub struct Memory {
    cartridge: Option<MBCType>,
    data: Vec<u8>,
    /// Whether the processor may access OAM (0xFE00-0xFE9F).
    oam_access: bool,
    /// Whether the processor may access VRAM (0x8000-0x9FFF).
    vram_access: bool,
    errors: Vec<String>,
}

/// The state of memory: the cartridge (if a ROM is loaded), the bytes behind every other
/// address, the access flags and the errors collected since they were last taken.
pub struct MemView {
    pub cart: Option<CartView>,
    pub data: Seq<u8>,
    pub oam_access: bool,
    pub vram_access: bool,
    pub errors: Seq<Seq<char>>,
}

/// The texts of a list of messages.
pub open spec fn texts(v: Seq<String>) -> Seq<Seq<char>> {
    v.map_values(|s: String| s@)
}

/// Whether the cartridge answers `address`.
pub open spec fn in_cartridge(address: u16) -> bool {
    in_rom_window(address) || in_ram_window(address)
}

/// Whether `address` is video RAM.
pub open spec fn in_vram(address: u16) -> bool {
    0x8000 <= address <= 0x9FFF
}

/// Whether `address` is object attribute memory.
pub open spec fn in_oam(address: u16) -> bool {
    0xFE00 <= address <= 0xFE9F
}

/// Whether `address` is backed by plain memory that nothing but writes changes and that the
/// processor can always reach: work RAM, the I/O registers and high RAM (0xC000-0xFDFF and
/// 0xFEA0-0xFFFF).
pub open spec fn is_plain_ram(address: u16) -> bool {
    (0xC000 <= address <= 0xFDFF) || 0xFEA0 <= address
}

impl MemView {
    pub open spec fn wf(self) -> bool {
        &&& self.data.len() == ADDRESS_SPACE
        &&& (self.cart matches Some(c) ==> c.wf())
    }

    /// The byte at `address` without the access restrictions (what the PPU sees).
    pub open spec fn peek(self, address: u16) -> u8 {
        if in_cartridge(address) {
            match self.cart {
                Some(c) => if c.readable(address) {
                    c.read(address)
                } else {
                    0xFF
                },
                None => 0xFF,
            }
        } else {
            self.data[address as int]
        }
    }

    /// The byte the processor reads at `address`.
    pub open spec fn load(self, address: u16) -> u8 {
        if (in_vram(address) && !self.vram_access) || (in_oam(address) && !self.oam_access) {
            0xFF
        } else {
            self.peek(address)
        }
    }

    /// Memory after the processor writes `value` to `address`. A write the cartridge cannot take
    /// (or that goes to an empty slot) is dropped and recorded as an error.
    pub open spec fn store(self, address: u16, value: u8) -> MemView {
        if in_cartridge(address) {
            match self.cart {
                Some(c) => if c.writable(address) {
                    MemView { cart: Some(c.write(address, value)), ..self }
                } else {
                    MemView {
                        errors: self.errors.push(cartridge_write_text(address, value)),
                        ..self
                    }
                },
                None => MemView {
                    errors: self.errors.push(cartridge_write_text(address, value)),
                    ..self
                },
            }
        } else if (in_vram(address) && !self.vram_access) || (in_oam(address)
            && !self.oam_access) {
            self
        } else {
            MemView { data: self.data.update(address as int, value), ..self }
        }
    }

    /// Memory after the two bytes of a little-endian word are written from `address` on.
    pub open spec fn store_word(self, address: u16, low: u8, high: u8) -> MemView {
        self.store(address, low).store(address.wrapping_add(1), high)
    }

    /// Memory after interrupt `bit` is requested in the interrupt flag register.
    pub open spec fn request_interrupt(self, bit: u8) -> MemView {
        MemView {
            data: self.data.update(
                INTERRUPT_FLAG as int,
                self.data[INTERRUPT_FLAG as int] | (1u8 << bit),
            ),
            ..self
        }
    }
}

impl View for Memory {
    type V = MemView;

    closed spec fn view(&self) -> MemView {
        MemView {
            cart: match self.cartridge {
                Some(c) => Some(c@),
                None => None,
            },
            data: self.data@,
            oam_access: self.oam_access,
            vram_access: self.vram_access,
            errors: texts(self.errors@),
        }
    }
}

/// What loading `rom` does to memory: on success the cartridge is replaced; on failure memory is
/// unchanged and the reason is returned.
pub open spec fn load_rom_spec(m: MemView, rom: Seq<u8>) -> (MemView, Result<(), Seq<char>>) {
    match parse_header(rom) {
        Err(e) => (m, Err(e)),
        Ok(h) => match cart_new_spec(rom, h) {
            Err(e) => (m, Err(e)),
            Ok(c) => (MemView { cart: Some(c), ..m }, Ok(())),
        },
    }
}

impl Memory {
    /// Memory with no cartridge, every byte zero and both VRAM and OAM open to the processor.
    pub open spec fn initial() -> MemView {
        MemView {
            cart: None,
            data: Seq::new(ADDRESS_SPACE as nat, |i: int| 0u8),
            oam_access: true,
            vram_access: true,
            errors: Seq::empty(),
        }
    }

    pub fn new() -> (m: Memory)
        ensures
            m@ == Memory::initial(),
            m@.wf(),
    {
        let data: Vec<u8> = vec![0u8; ADDRESS_SPACE];
        let errors: Vec<String> = Vec::new();
        let m = Memory { cartridge: None, data, oam_access: true, vram_access: true, errors };
        assert(m@.data =~= Memory::initial().data);
        assert(m@.errors =~= Seq::<Seq<char>>::empty());
        m
    }

    /// Reads the header of `rom` and inserts the cartridge it describes.
    pub fn load_rom(&mut self, rom: Vec<u8>) -> (r: Result<(), MemoryError>)
        requires
            old(self)@.wf(),
        ensures
            final(self)@ == load_rom_spec(old(self)@, rom@).0,
            (match r {
                Ok(()) => Ok(()),
                Err(e) => Err(e@),
            }) == load_rom_spec(old(self)@, rom@).1,
            final(self)@.wf(),
    {
        let header = match Header::new(&rom) {
            Ok(h) => h,
            Err(e) => {
                return Err(e);
            },
        };
        let cart = match MBCType::new(rom, &header) {
            Ok(c) => c,
            Err(e) => {
                return Err(e);
            },
        };
        self.cartridge = Some(cart);
        Ok(())
    }

    /// The byte at `address` as the PPU sees it, ignoring the access restrictions.
    pub fn get_byte(&self, address: u16) -> (r: u8)
        requires
            self@.wf(),
        ensures
            r == self@.peek(address),
    {
        if address <= 0x7FFF || (0xA000 <= address && address <= 0xBFFF) {
            match &self.cartridge {
                Some(c) => {
                    if c.readable(address) {
                        c.read(address)
                    } else {
                        0xFF
                    }
                },
                None => 0xFF,
            }
        } else {
            self.data[address as usize]
        }
    }

    /// The byte at `address` as the processor reads it.
    pub fn read_byte(&self, address: u16) -> (r: u8)
        requires
            self@.wf(),
        ensures
            r == self@.load(address),
    {
        if (0x8000 <= address && address <= 0x9FFF && !self.vram_access) || (0xFE00 <= address
            && address <= 0xFE9F && !self.oam_access) {
            0xFF
        } else {
            self.get_byte(address)
        }
    }

    /// Writes `value` to `address` as the processor does.
    pub fn write_byte(&mut self, address: u16, value: u8)
        requires
            old(self)@.wf(),
        ensures
            final(self)@ == old(self)@.store(address, value),
            final(self)@.wf(),
    {
        if address <= 0x7FFF || (0xA000 <= address && address <= 0xBFFF) {
            let accepted = match &self.cartridge {
                Some(c) => c.writable(address),
                None => false,
            };
            if accepted {
                match &mut self.cartridge {
                    Some(c) => c.write(address, value),
                    None => {},
                }
            } else {
                let message = cartridge_write_message(address, value);
                self.errors.push(message);
                proof {
                    assert(texts(self.errors@) =~= texts(old(self).errors@).push(
                        cartridge_write_text(address, value),
                    ));
                }
            }
        } else if (0x8000 <= address && address <= 0x9FFF && !self.vram_access) || (0xFE00
            <= address && address <= 0xFE9F && !self.oam_access) {
        } else {
            self.data.set(address as usize, value);
        }
    }

    /// Writes the two bytes of a little-endian word, low byte first, from `address` on.
    pub fn write_word(&mut self, address: u16, bytes: &[u8; 2])
        requires
            old(self)@.wf(),
        ensures
            final(self)@ == old(self)@.store_word(address, bytes[0], bytes[1]),
            final(self)@.wf(),
    {
        self.write_byte(address, bytes[0]);
        self.write_byte(address.wrapping_add(1), bytes[1]);
    }

    /// Requests interrupt `bit` in the interrupt flag register.
    pub fn trigger_interrupt(&mut self, bit: u8)
        requires
            old(self)@.wf(),
            bit < 8,
        ensures
            final(self)@ == old(self)@.request_interrupt(bit),
            final(self)@.wf(),
    {
        let flags = self.data[INTERRUPT_FLAG as usize];
        self.data.set(INTERRUPT_FLAG as usize, flags | (1u8 << bit));
    }

    /// Opens or closes OAM and VRAM to the processor.
    pub fn set_access(&mut self, oam_access: bool, vram_access: bool)
        ensures
            final(self)@ == (MemView { oam_access, vram_access, ..old(self)@ }),
    {
        self.oam_access = oam_access;
        self.vram_access = vram_access;
    }

    /// Hands out the errors collected since the last call and forgets them.
    pub fn take_errors(&mut self) -> (errors: Vec<String>)
        requires
            old(self)@.wf(),
        ensures
            texts(errors@) == old(self)@.errors,
            final(self)@ == (MemView { errors: Seq::empty(), ..old(self)@ }),
            final(self)@.wf(),
    {
        let mut errors: Vec<String> = Vec::new();
        std::mem::swap(&mut errors, &mut self.errors);
        assert(texts(self.errors@) =~= Seq::<Seq<char>>::empty());
        errors
    }
}

impl MBCType {
    /// Whether the cartridge answers a read of `address`.
    pub fn readable(&self, address: u16) -> (r: bool)
        ensures
            r == self@.readable(address),
    {
        match self {
            MBCType::NMBC(_) => address <= 0x7FFF || (0xA000 <= address && address <= 0xBFFF),
            MBCType::MBC1(c) => c.readable(address),
        }
    }

    /// Whether the cartridge takes a write to `address`.
    pub fn writable(&self, address: u16) -> (r: bool)
        ensures
            r == self@.writable(address),
    {
        match self {
            MBCType::NMBC(_) => 0xA000 <= address && address <= 0xBFFF,
            MBCType::MBC1(c) => c.writable(address),
        }
    }
}


/// Plain RAM gives back what was written: a read of the address just written yields the byte
/// written, and every other address reads as before.
pub proof fn law_plain_ram_read_after_write(m: MemView, address: u16, other: u16, value: u8)
    requires
        m.wf(),
        is_plain_ram(address),
    ensures
        m.store(address, value).wf(),
        m.store(address, value).load(address) == value,
        other != address ==> m.store(address, value).load(other) == m.load(other),
        m.store(address, value).errors == m.errors,
{
}

/// While the PPU holds VRAM or OAM, the processor reads 0xFF there and its writes change
/// nothing.
pub proof fn law_locked_video_memory(m: MemView, address: u16, value: u8)
    requires
        (in_vram(address) && !m.vram_access) || (in_oam(address) && !m.oam_access),
    ensures
        m.load(address) == 0xFF,
        m.store(address, value) == m,
{
}

/// A write to the cartridge windows with no cartridge inserted changes no byte and is
/// recorded as an error.
pub proof fn law_write_without_cartridge(m: MemView, address: u16, value: u8)
    requires
        m.cart is None,
        in_cartridge(address),
    ensures
        m.store(address, value) == (MemView {
            errors: m.errors.push(cartridge_write_text(address, value)),
            ..m
        }),
        m.load(address) == 0xFF,
{
}


/// After a ROM is loaded, the processor reads the ROM's own bytes throughout 0x0000-0x7FFF (the
/// first two banks), whichever controller the cartridge has.
pub proof fn law_loaded_rom_is_mapped(m: MemView, rom: Seq<u8>, address: u16)
    requires
        load_rom_spec(m, rom).1 is Ok,
        address <= 0x7FFF,
    ensures
        load_rom_spec(m, rom).0.load(address) == rom[address as int],
        load_rom_spec(m, rom).0.cart matches Some(c) && c.wf(),
{
}

} // verus!
