use vstd::prelude::*;

verus! {

/// The 16-bit word whose high byte is `hi` and whose low byte is `lo`.
pub open spec fn word(hi: u8, lo: u8) -> u16 {
    (hi * 256 + lo) as u16
}

/// The high byte of a 16-bit word.
pub open spec fn high_byte(value: u16) -> u8 {
    (value / 256) as u8
}

/// The low byte of a 16-bit word.
pub open spec fn low_byte(value: u16) -> u8 {
    (value % 256) as u8
}

/// Bit `n` of a byte.
pub open spec fn bit_of(value: u8, n: u8) -> bool {
    value & (1u8 << n) != 0
}

/// The byte with bit `n` set to `on` and every other bit as in `value`.
pub open spec fn with_bit(value: u8, n: u8, on: bool) -> u8 {
    if on {
        value | (1u8 << n)
    } else {
        value & !(1u8 << n)
    }
}

/// The register file of the processor: eight 8-bit registers (with `f` holding the flags in its
/// high nibble), the program counter, the stack pointer and the interrupt-enable latches.
#[derive(Debug, Clone, Copy)]
pub struct Registers {
    pub a: u8,
    pub b: u8,
    pub c: u8,
    pub d: u8,
    pub e: u8,
    pub h: u8,
    pub l: u8,
    /// Flags register: Z is bit 7, N bit 6, H bit 5 and C bit 4.
    pub f: u8,
    /// Program counter.
    pub pc: u16,
    /// Stack pointer.
    pub sp: u16,
    /// Interrupt master enable.
    pub ime: bool,
    /// Interrupts become enabled after the next instruction (set by `EI`).
    pub ime_next: bool,
}

impl Registers {
    /// The register file with every register zero and interrupts disabled.
    pub open spec fn zeroed() -> Registers {
        Registers {
            a: 0,
            b: 0,
            c: 0,
            d: 0,
            e: 0,
            h: 0,
            l: 0,
            f: 0,
            pc: 0,
            sp: 0,
            ime: false,
            ime_next: false,
        }
    }

    pub open spec fn af(self) -> u16 {
        word(self.a, self.f)
    }

    pub open spec fn bc(self) -> u16 {
        word(self.b, self.c)
    }

    pub open spec fn de(self) -> u16 {
        word(self.d, self.e)
    }

    pub open spec fn hl(self) -> u16 {
        word(self.h, self.l)
    }

    /// The register file after writing `value` to AF: the low nibble of F always reads as zero.
    pub open spec fn with_af(self, value: u16) -> Registers {
        Registers { a: high_byte(value), f: low_byte(value) & 0xF0, ..self }
    }

    pub open spec fn with_bc(self, value: u16) -> Registers {
        Registers { b: high_byte(value), c: low_byte(value), ..self }
    }

    pub open spec fn with_de(self, value: u16) -> Registers {
        Registers { d: high_byte(value), e: low_byte(value), ..self }
    }

    pub open spec fn with_hl(self, value: u16) -> Registers {
        Registers { h: high_byte(value), l: low_byte(value), ..self }
    }

    /// The zero flag (bit 7 of F).
    pub open spec fn zf(self) -> bool {
        bit_of(self.f, 7)
    }

    /// The subtract flag (bit 6 of F).
    pub open spec fn nf(self) -> bool {
        bit_of(self.f, 6)
    }

    /// The half-carry flag (bit 5 of F).
    pub open spec fn hf(self) -> bool {
        bit_of(self.f, 5)
    }

    /// The carry flag (bit 4 of F).
    pub open spec fn cf(self) -> bool {
        bit_of(self.f, 4)
    }

    pub open spec fn with_zf(self, value: bool) -> Registers {
        Registers { f: with_bit(self.f, 7, value), ..self }
    }

    pub open spec fn with_nf(self, value: bool) -> Registers {
        Registers { f: with_bit(self.f, 6, value), ..self }
    }

    pub open spec fn with_hf(self, value: bool) -> Registers {
        Registers { f: with_bit(self.f, 5, value), ..self }
    }

    pub open spec fn with_cf(self, value: bool) -> Registers {
        Registers { f: with_bit(self.f, 4, value), ..self }
    }

    pub fn new() -> (r: Self)
        ensures
            r == Registers::zeroed(),
    {
        Self {
            a: 0,
            b: 0,
            c: 0,
            d: 0,
            e: 0,
            h: 0,
            l: 0,
            f: 0,
            pc: 0x0000,
            sp: 0x0000,
            ime: false,
            ime_next: false,
        }
    }

    pub fn get_af(&self) -> (r: u16)
        ensures
            r == self.af(),
    {
        proof {
            lemma_word_bits(self.a, self.f);
        }
        ((self.a as u16) << 8) | (self.f as u16)
    }

    pub fn set_af(&mut self, value: u16)
        ensures
            *final(self) == old(self).with_af(value),
    {
        proof {
            lemma_split_bits(value);
        }
        self.a = (value >> 8) as u8;
        self.f = (value as u8) & 0xF0;
    }

    pub fn get_bc(&self) -> (r: u16)
        ensures
            r == self.bc(),
    {
        proof {
            lemma_word_bits(self.b, self.c);
        }
        ((self.b as u16) << 8) | (self.c as u16)
    }

    pub fn set_bc(&mut self, value: u16)
        ensures
            *final(self) == old(self).with_bc(value),
    {
        proof {
            lemma_split_bits(value);
        }
        self.b = (value >> 8) as u8;
        self.c = value as u8;
    }

    pub fn get_de(&self) -> (r: u16)
        ensures
            r == self.de(),
    {
        proof {
            lemma_word_bits(self.d, self.e);
        }
        ((self.d as u16) << 8) | (self.e as u16)
    }

    pub fn set_de(&mut self, value: u16)
        ensures
            *final(self) == old(self).with_de(value),
    {
        proof {
            lemma_split_bits(value);
        }
        self.d = (value >> 8) as u8;
        self.e = value as u8;
    }

    pub fn get_hl(&self) -> (r: u16)
        ensures
            r == self.hl(),
    {
        proof {
            lemma_word_bits(self.h, self.l);
        }
        ((self.h as u16) << 8) | (self.l as u16)
    }

    pub fn set_hl(&mut self, value: u16)
        ensures
            *final(self) == old(self).with_hl(value),
    {
        proof {
            lemma_split_bits(value);
        }
        self.h = (value >> 8) as u8;
        self.l = value as u8;
    }

    pub fn set_z_flag(&mut self, value: bool)
        ensures
            *final(self) == old(self).with_zf(value),
    {
        let v: u8 = if value { 1 } else { 0 };
        proof {
            let f = self.f;
            assert(v << 7u8 | (f & 0b01111111) == (if v == 1 { f | (1u8 << 7u8) } else { f & !(1u8 << 7u8) }))
                by (bit_vector)
                requires
                    v == 0 || v == 1,
            ;
        }
        self.f = v << 7 | (self.f & 0b01111111);
    }

    pub fn get_z_flag(&self) -> (r: bool)
        ensures
            r == self.zf(),
    {
        proof {
            let f = self.f;
            assert((f & 0b10000000 != 0) == (f & (1u8 << 7u8) != 0)) by (bit_vector);
        }
        (self.f & 0b10000000) != 0
    }

    pub fn set_n_flag(&mut self, value: bool)
        ensures
            *final(self) == old(self).with_nf(value),
    {
        let v: u8 = if value { 1 } else { 0 };
        proof {
            let f = self.f;
            assert(v << 6u8 | (f & 0b10111111) == (if v == 1 { f | (1u8 << 6u8) } else { f & !(1u8 << 6u8) }))
                by (bit_vector)
                requires
                    v == 0 || v == 1,
            ;
        }
        self.f = v << 6 | (self.f & 0b10111111);
    }

    pub fn get_n_flag(&self) -> (r: bool)
        ensures
            r == self.nf(),
    {
        proof {
            let f = self.f;
            assert((f & 0b01000000 != 0) == (f & (1u8 << 6u8) != 0)) by (bit_vector);
        }
        (self.f & 0b01000000) != 0
    }

    pub fn set_h_flag(&mut self, value: bool)
        ensures
            *final(self) == old(self).with_hf(value),
    {
        let v: u8 = if value { 1 } else { 0 };
        proof {
            let f = self.f;
            assert(v << 5u8 | (f & 0b11011111) == (if v == 1 { f | (1u8 << 5u8) } else { f & !(1u8 << 5u8) }))
                by (bit_vector)
                requires
                    v == 0 || v == 1,
            ;
        }
        self.f = v << 5 | (self.f & 0b11011111);
    }

    pub fn get_h_flag(&self) -> (r: bool)
        ensures
            r == self.hf(),
    {
        proof {
            let f = self.f;
            assert((f & 0b00100000 != 0) == (f & (1u8 << 5u8) != 0)) by (bit_vector);
        }
        (self.f & 0b00100000) != 0
    }

    pub fn set_c_flag(&mut self, value: bool)
        ensures
            *final(self) == old(self).with_cf(value),
    {
        let v: u8 = if value { 1 } else { 0 };
        proof {
            let f = self.f;
            assert(v << 4u8 | (f & 0b11101111) == (if v == 1 { f | (1u8 << 4u8) } else { f & !(1u8 << 4u8) }))
                by (bit_vector)
                requires
                    v == 0 || v == 1,
            ;
        }
        self.f = v << 4 | (self.f & 0b11101111);
    }

    pub fn get_c_flag(&self) -> (r: bool)
        ensures
            r == self.cf(),
    {
        proof {
            let f = self.f;
            assert((f & 0b00010000 != 0) == (f & (1u8 << 4u8) != 0)) by (bit_vector);
        }
        (self.f & 0b00010000) != 0
    }
}

/// Setting one bit of a byte leaves every other bit as it was.
pub broadcast proof fn lemma_with_bit(value: u8, n: u8, m: u8, on: bool)
    requires
        n < 8,
        m < 8,
    ensures
        #[trigger] bit_of(with_bit(value, n, on), m) == if n == m {
            on
        } else {
            bit_of(value, m)
        },
{
    assert(n < 8 && m < 8 ==> (((value | (1u8 << n)) & (1u8 << m) != 0) == (n == m || value & (1u8
        << m) != 0))) by (bit_vector);
    assert(n < 8 && m < 8 ==> (((value & !(1u8 << n)) & (1u8 << m) != 0) == (n != m && value & (1u8
        << m) != 0))) by (bit_vector);
}

pub proof fn lemma_word_bits(hi: u8, lo: u8)
    ensures
        ((hi as u16) << 8) | (lo as u16) == word(hi, lo),
{
    assert(((hi as u16) << 8) | (lo as u16) == hi * 256 + lo) by (bit_vector);
}

pub proof fn lemma_split_bits(value: u16)
    ensures
        (value >> 8) as u8 == high_byte(value),
        value as u8 == low_byte(value),
{
    assert((value >> 8) as u8 == value / 256 && value as u8 == value % 256) by (bit_vector);
}

/// Reading a register pair gives back the word last written to it; writing AF keeps only the
/// high nibble of F. Writing one pair leaves the other registers as they were.
pub proof fn law_register_pairs(r: Registers, value: u16)
    ensures
        r.with_bc(value).bc() == value,
        r.with_de(value).de() == value,
        r.with_hl(value).hl() == value,
        r.with_af(value).af() == value & 0xFFF0,
        r.with_bc(value).de() == r.de() && r.with_bc(value).hl() == r.hl() && r.with_bc(value).af()
            == r.af(),
        r.with_de(value).bc() == r.bc() && r.with_de(value).hl() == r.hl() && r.with_de(value).af()
            == r.af(),
        r.with_hl(value).bc() == r.bc() && r.with_hl(value).de() == r.de() && r.with_hl(value).af()
            == r.af(),
{
    assert((value / 256) as u8 * 256 + (value % 256) as u8 == value);
    assert(((value / 256) * 256 + ((value % 256) as u8 & 0xF0)) as u16 == value & 0xFFF0) by {
        assert(((value >> 8u16) << 8u16) | (((value & 0xFF) as u8 & 0xF0) as u16) == value & 0xFFF0
            && value >> 8u16 == value / 256 && value & 0xFF == value % 256) by (bit_vector);
        let hi = (value / 256) as u16;
        let lo8 = (value % 256) as u8 & 0xF0;
        assert((hi << 8u16) | (lo8 as u16) == hi * 256 + lo8) by (bit_vector)
            requires
                hi < 256,
        ;
    }
}

/// Reading a flag gives back the value last written to it, and writing one flag leaves the
/// other three as they were.
pub proof fn law_flags(r: Registers, value: bool)
    ensures
        r.with_zf(value).zf() == value,
        r.with_nf(value).nf() == value,
        r.with_hf(value).hf() == value,
        r.with_cf(value).cf() == value,
        r.with_zf(value).nf() == r.nf() && r.with_zf(value).hf() == r.hf() && r.with_zf(value).cf()
            == r.cf(),
        r.with_nf(value).zf() == r.zf() && r.with_nf(value).hf() == r.hf() && r.with_nf(value).cf()
            == r.cf(),
        r.with_hf(value).zf() == r.zf() && r.with_hf(value).nf() == r.nf() && r.with_hf(value).cf()
            == r.cf(),
        r.with_cf(value).zf() == r.zf() && r.with_cf(value).nf() == r.nf() && r.with_cf(value).hf()
            == r.hf(),
{
    broadcast use lemma_with_bit;

}

} // verus!
