use vstd::prelude::*;

use crate::memory::{is_plain_ram, law_plain_ram_read_after_write, load_rom_spec, texts, MemView, Memory, INTERRUPT_ENABLE, INTERRUPT_FLAG};
use crate::messages::{load_failed_message, load_failed_text, unknown_opcode_message, unknown_opcode_text};
use crate::cpu::isa::{condition, lemma_execute_cycles, is_arith16, is_arith8, is_control, is_load16, is_load8, is_rotate_a};
use crate::ppu::{column_measure, fetch_phase, lemma_tcycles_column, lemma_tcycles_interrupt_bits, lemma_tcycles_room, rows160, step_tcycles, tcycles_fit, PpuView, PPU};
use crate::DebugView;
use crate::registers::{high_byte, lemma_split_bits, lemma_word_bits, law_flags, low_byte, word, Registers};

pub mod alu;
pub mod isa;

verus! {

broadcast use crate::registers::lemma_with_bit;

/// The processor together with the memory map and the PPU it clocks.
pub struct CPU {
    memory: Memory,
    ppu: PPU,
    cycles: u64,
    reg: Registers,
    executed_opcodes: Vec<(u16, u8)>,
    errors: Vec<String>,
}

/// The state of the machine: memory, PPU, the cycle count, the registers, the opcodes executed
/// (with their addresses) and the errors met since the last debug view.
pub struct CpuView {
    pub memory: MemView,
    pub ppu: PpuView,
    pub cycles: u64,
    pub reg: Registers,
    pub opcodes: Seq<(u16, u8)>,
    pub errors: Seq<Seq<char>>,
}

/// Most cycles a single step can add: an interrupt (20) and the longest instruction (24).
pub const MAX_STEP_CYCLES: u64 = 44;

impl CpuView {
    pub open spec fn wf(self) -> bool {
        self.memory.wf() && self.ppu.wf()
    }

    pub open spec fn with_reg(self, reg: Registers) -> CpuView {
        CpuView { reg, ..self }
    }

    /// The byte the processor reads at `address`.
    pub open spec fn load(self, address: u16) -> u8 {
        self.memory.load(address)
    }

    /// The machine after the processor writes `value` to `address`.
    pub open spec fn store(self, address: u16, value: u8) -> CpuView {
        CpuView { memory: self.memory.store(address, value), ..self }
    }

    /// Reads the byte at PC and advances PC (wrapping).
    pub open spec fn fetch_byte(self) -> (CpuView, u8) {
        (
            self.with_reg(Registers { pc: self.reg.pc.wrapping_add(1), ..self.reg }),
            self.load(self.reg.pc),
        )
    }

    /// Reads the little-endian word at PC and advances PC by two.
    pub open spec fn fetch_word(self) -> (CpuView, u16) {
        let (s1, low) = self.fetch_byte();
        let (s2, high) = s1.fetch_byte();
        (s2, word(high, low))
    }

    /// Operand `i` of the eight-bit instructions: B, C, D, E, H, L, (HL), A.
    pub open spec fn read_r8(self, i: u8) -> u8 {
        if i == 0 {
            self.reg.b
        } else if i == 1 {
            self.reg.c
        } else if i == 2 {
            self.reg.d
        } else if i == 3 {
            self.reg.e
        } else if i == 4 {
            self.reg.h
        } else if i == 5 {
            self.reg.l
        } else if i == 6 {
            self.load(self.reg.hl())
        } else {
            self.reg.a
        }
    }

    /// The machine after operand `i` of the eight-bit instructions is set to `value`.
    pub open spec fn write_r8(self, i: u8, value: u8) -> CpuView {
        if i == 0 {
            self.with_reg(Registers { b: value, ..self.reg })
        } else if i == 1 {
            self.with_reg(Registers { c: value, ..self.reg })
        } else if i == 2 {
            self.with_reg(Registers { d: value, ..self.reg })
        } else if i == 3 {
            self.with_reg(Registers { e: value, ..self.reg })
        } else if i == 4 {
            self.with_reg(Registers { h: value, ..self.reg })
        } else if i == 5 {
            self.with_reg(Registers { l: value, ..self.reg })
        } else if i == 6 {
            self.store(self.reg.hl(), value)
        } else {
            self.with_reg(Registers { a: value, ..self.reg })
        }
    }

    /// Pushes a word: SP is decremented, the high byte written, SP decremented again and the low
    /// byte written.
    pub open spec fn push_word(self, value: u16) -> CpuView {
        let sp1 = self.reg.sp.wrapping_sub(1);
        let s1 = CpuView {
            reg: Registers { sp: sp1, ..self.reg },
            memory: self.memory.store(sp1, high_byte(value)),
            ..self
        };
        let sp2 = sp1.wrapping_sub(1);
        CpuView {
            reg: Registers { sp: sp2, ..s1.reg },
            memory: s1.memory.store(sp2, low_byte(value)),
            ..s1
        }
    }

    /// Pops a word: the low byte at SP, then the high byte at SP + 1; SP grows by two.
    pub open spec fn pop_word(self) -> (CpuView, u16) {
        let low = self.load(self.reg.sp);
        let sp1 = self.reg.sp.wrapping_add(1);
        let high = self.load(sp1);
        let sp2 = sp1.wrapping_add(1);
        (self.with_reg(Registers { sp: sp2, ..self.reg }), word(high, low))
    }
}

} // verus!

verus! {

/// Bounds of the masks and shifts that the instructions use on their operands.
pub proof fn lemma_operand_bounds()
    by (bit_vector)
    ensures
        forall|x: u8| #[trigger] (x & 0x0F) <= 0x0F,
        forall|x: u8| #[trigger] (x & 0x07) <= 0x07,
        forall|x: u8| #[trigger] ((x >> 3u8) & 0x07) <= 0x07,
        forall|x: u8| x <= 0x3F ==> #[trigger] (x >> 3u8) <= 0x07,
        forall|x: u16| #[trigger] (x & 0x0F) <= 0x0F,
        forall|x: u16| #[trigger] (x & 0xFF) <= 0xFF,
        forall|x: u16| #[trigger] (x & 0x0FFF) <= 0x0FFF,
{
}

impl View for CPU {
    type V = CpuView;

    closed spec fn view(&self) -> CpuView {
        CpuView {
            memory: self.memory@,
            ppu: self.ppu@,
            cycles: self.cycles,
            reg: self.reg,
            opcodes: self.executed_opcodes@,
            errors: texts(self.errors@),
        }
    }
}

impl CPU {
    pub fn new(memory: Memory) -> (r: Self)
        requires
            memory@.wf(),
        ensures
            r@ == (CpuView {
                memory: memory@,
                ppu: PPU::initial(),
                cycles: 0,
                reg: Registers::zeroed(),
                opcodes: Seq::empty(),
                errors: Seq::empty(),
            }),
            r@.wf(),
    {
        let r = Self {
            memory,
            ppu: PPU::new(),
            cycles: 0,
            reg: Registers::new(),
            executed_opcodes: Vec::new(),
            errors: Vec::new(),
        };
        assert(texts(r.errors@) =~= Seq::<Seq<char>>::empty());
        r
    }

    fn fetch_byte(&mut self) -> (byte: u8)
        requires
            old(self)@.wf(),
        ensures
            (final(self)@, byte) == old(self)@.fetch_byte(),
    {
        let byte = self.memory.read_byte(self.reg.pc);
        self.reg.pc = self.reg.pc.wrapping_add(1);
        byte
    }

    fn fetch_word(&mut self) -> (w: u16)
        requires
            old(self)@.wf(),
        ensures
            (final(self)@, w) == old(self)@.fetch_word(),
    {
        let low = self.fetch_byte() as u16;
        let high = self.fetch_byte() as u16;
        proof {
            lemma_word_bits(high as u8, low as u8);
        }
        (high << 8) | low
    }

    fn read_r8(&mut self, register_index: u8) -> (r: u8)
        requires
            old(self)@.wf(),
            register_index < 8,
        ensures
            r == old(self)@.read_r8(register_index),
            final(self)@ == old(self)@,
    {
        match register_index {
            0 => self.reg.b,
            1 => self.reg.c,
            2 => self.reg.d,
            3 => self.reg.e,
            4 => self.reg.h,
            5 => self.reg.l,
            6 => self.memory.read_byte(self.reg.get_hl()),
            _ => self.reg.a,
        }
    }

    fn write_r8(&mut self, register_index: u8, value: u8)
        requires
            old(self)@.wf(),
            register_index < 8,
        ensures
            final(self)@ == old(self)@.write_r8(register_index, value),
            final(self)@.wf(),
    {
        match register_index {
            0 => self.reg.b = value,
            1 => self.reg.c = value,
            2 => self.reg.d = value,
            3 => self.reg.e = value,
            4 => self.reg.h = value,
            5 => self.reg.l = value,
            6 => self.memory.write_byte(self.reg.get_hl(), value),
            _ => self.reg.a = value,
        }
    }

    fn push_word(&mut self, value: u16)
        requires
            old(self)@.wf(),
        ensures
            final(self)@ == old(self)@.push_word(value),
            final(self)@.wf(),
    {
        proof {
            lemma_split_bits(value);
        }
        let low = value as u8;
        let high = (value >> 8) as u8;
        self.reg.sp = self.reg.sp.wrapping_sub(1);
        self.memory.write_byte(self.reg.sp, high);
        self.reg.sp = self.reg.sp.wrapping_sub(1);
        self.memory.write_byte(self.reg.sp, low);
    }

    fn pop_word(&mut self) -> (w: u16)
        requires
            old(self)@.wf(),
        ensures
            (final(self)@, w) == old(self)@.pop_word(),
    {
        let low = self.memory.read_byte(self.reg.sp);
        self.reg.sp = self.reg.sp.wrapping_add(1);
        let high = self.memory.read_byte(self.reg.sp);
        self.reg.sp = self.reg.sp.wrapping_add(1);
        proof {
            lemma_word_bits(high, low);
        }
        ((high as u16) << 8) | (low as u16)
    }

    fn inc_u8(&mut self, value: u8) -> (r: u8)
        ensures
            (final(self)@, r) == (old(self)@.with_reg(alu::inc8(old(self)@.reg, value).0), alu::inc8(
                old(self)@.reg,
                value,
            ).1),
    {
        let result = value.wrapping_add(1);
        self.reg.set_z_flag(result == 0);
        self.reg.set_n_flag(false);
        self.reg.set_h_flag((value & 0x0F) == 0x0F);
        result
    }

    fn dec_u8(&mut self, value: u8) -> (r: u8)
        ensures
            (final(self)@, r) == (old(self)@.with_reg(alu::dec8(old(self)@.reg, value).0), alu::dec8(
                old(self)@.reg,
                value,
            ).1),
    {
        let result = value.wrapping_sub(1);
        self.reg.set_z_flag(result == 0);
        self.reg.set_n_flag(true);
        self.reg.set_h_flag((value & 0x0F) == 0);
        result
    }

    fn add_to_a(&mut self, value: u8, with_carry: bool)
        ensures
            final(self)@ == old(self)@.with_reg(alu::add_a(old(self)@.reg, value, with_carry)),
    {
        let carry: u8 = if with_carry && self.reg.get_c_flag() {
            1
        } else {
            0
        };
        let a = self.reg.a;
        let result = a.wrapping_add(value).wrapping_add(carry);
        proof {
            lemma_operand_bounds();
        }
        self.reg.set_z_flag(result == 0);
        self.reg.set_n_flag(false);
        self.reg.set_h_flag(((a & 0x0F) + (value & 0x0F) + carry) > 0x0F);
        self.reg.set_c_flag((a as u16) + (value as u16) + (carry as u16) > 0xFF);
        self.reg.a = result;
    }

    fn sub_from_a(&mut self, value: u8, with_carry: bool)
        ensures
            final(self)@ == old(self)@.with_reg(alu::sub_a(old(self)@.reg, value, with_carry)),
    {
        let carry: u8 = if with_carry && self.reg.get_c_flag() {
            1
        } else {
            0
        };
        let a = self.reg.a;
        let result = a.wrapping_sub(value).wrapping_sub(carry);
        self.reg.set_z_flag(result == 0);
        self.reg.set_n_flag(true);
        self.reg.set_h_flag((a & 0x0F) < ((value & 0x0F).wrapping_add(carry)));
        self.reg.set_c_flag((a as u16) < (value as u16) + (carry as u16));
        self.reg.a = result;
    }

    fn and_a(&mut self, value: u8)
        ensures
            final(self)@ == old(self)@.with_reg(alu::and_a(old(self)@.reg, value)),
    {
        self.reg.a &= value;
        self.reg.set_z_flag(self.reg.a == 0);
        self.reg.set_n_flag(false);
        self.reg.set_h_flag(true);
        self.reg.set_c_flag(false);
    }

    fn xor_a(&mut self, value: u8)
        ensures
            final(self)@ == old(self)@.with_reg(alu::xor_a(old(self)@.reg, value)),
    {
        self.reg.a ^= value;
        self.reg.set_z_flag(self.reg.a == 0);
        self.reg.set_n_flag(false);
        self.reg.set_h_flag(false);
        self.reg.set_c_flag(false);
    }

    fn or_a(&mut self, value: u8)
        ensures
            final(self)@ == old(self)@.with_reg(alu::or_a(old(self)@.reg, value)),
    {
        self.reg.a |= value;
        self.reg.set_z_flag(self.reg.a == 0);
        self.reg.set_n_flag(false);
        self.reg.set_h_flag(false);
        self.reg.set_c_flag(false);
    }

    fn cp_a(&mut self, value: u8)
        ensures
            final(self)@ == old(self)@.with_reg(alu::cp_a(old(self)@.reg, value)),
    {
        let a = self.reg.a;
        let result = a.wrapping_sub(value);
        self.reg.set_z_flag(result == 0);
        self.reg.set_n_flag(true);
        self.reg.set_h_flag((a & 0x0F) < (value & 0x0F));
        self.reg.set_c_flag(a < value);
    }

    fn add_to_hl(&mut self, value: u16)
        ensures
            final(self)@ == old(self)@.with_reg(alu::add_hl(old(self)@.reg, value)),
    {
        let hl = self.reg.get_hl();
        let result = hl.wrapping_add(value);
        proof {
            lemma_operand_bounds();
        }
        self.reg.set_n_flag(false);
        self.reg.set_h_flag(((hl & 0x0FFF) + (value & 0x0FFF)) > 0x0FFF);
        self.reg.set_c_flag((hl as u32 + value as u32) > 0xFFFF);
        self.reg.set_hl(result);
    }

    fn daa(&mut self)
        ensures
            final(self)@ == old(self)@.with_reg(alu::daa(old(self)@.reg)),
    {
        let mut a = self.reg.a;
        let mut adjustment: u8 = 0;
        let mut carry = self.reg.get_c_flag();

        if self.reg.get_n_flag() {
            if self.reg.get_h_flag() {
                adjustment += 0x06;
            }
            if carry {
                adjustment += 0x60;
            }
            a = a.wrapping_sub(adjustment);
        } else {
            if self.reg.get_h_flag() || (a & 0x0F) > 0x09 {
                adjustment += 0x06;
            }
            if carry || a > 0x99 {
                adjustment += 0x60;
                carry = true;
            }
            a = a.wrapping_add(adjustment);
        }

        self.reg.a = a;
        self.reg.set_z_flag(a == 0);
        self.reg.set_h_flag(false);
        self.reg.set_c_flag(carry);
    }

    fn rlc(&mut self, value: u8, set_z: bool) -> (r: u8)
        ensures
            (final(self)@, r) == (old(self)@.with_reg(alu::rlc(old(self)@.reg, value, set_z).0), alu::rlc(
                old(self)@.reg,
                value,
                set_z,
            ).1),
    {
        let carry = (value & 0x80) != 0;
        let result = (value << 1u8) | (value >> 7u8);
        if set_z {
            self.reg.set_z_flag(result == 0);
        }
        self.reg.set_n_flag(false);
        self.reg.set_h_flag(false);
        self.reg.set_c_flag(carry);
        result
    }

    fn rrc(&mut self, value: u8, set_z: bool) -> (r: u8)
        ensures
            (final(self)@, r) == (old(self)@.with_reg(alu::rrc(old(self)@.reg, value, set_z).0), alu::rrc(
                old(self)@.reg,
                value,
                set_z,
            ).1),
    {
        let carry = (value & 0x01) != 0;
        let result = (value >> 1u8) | (value << 7u8);
        if set_z {
            self.reg.set_z_flag(result == 0);
        }
        self.reg.set_n_flag(false);
        self.reg.set_h_flag(false);
        self.reg.set_c_flag(carry);
        result
    }

    fn rl(&mut self, value: u8, set_z: bool) -> (r: u8)
        ensures
            (final(self)@, r) == (old(self)@.with_reg(alu::rl(old(self)@.reg, value, set_z).0), alu::rl(
                old(self)@.reg,
                value,
                set_z,
            ).1),
    {
        let carry_in: u8 = if self.reg.get_c_flag() {
            1
        } else {
            0
        };
        let carry_out = (value & 0x80) != 0;
        let result = (value << 1u8) | carry_in;
        if set_z {
            self.reg.set_z_flag(result == 0);
        }
        self.reg.set_n_flag(false);
        self.reg.set_h_flag(false);
        self.reg.set_c_flag(carry_out);
        result
    }

    fn rr(&mut self, value: u8, set_z: bool) -> (r: u8)
        ensures
            (final(self)@, r) == (old(self)@.with_reg(alu::rr(old(self)@.reg, value, set_z).0), alu::rr(
                old(self)@.reg,
                value,
                set_z,
            ).1),
    {
        let carry_in: u8 = if self.reg.get_c_flag() {
            0x80
        } else {
            0
        };
        let carry_out = (value & 0x01) != 0;
        let result = (value >> 1u8) | carry_in;
        if set_z {
            self.reg.set_z_flag(result == 0);
        }
        self.reg.set_n_flag(false);
        self.reg.set_h_flag(false);
        self.reg.set_c_flag(carry_out);
        result
    }

    fn sla(&mut self, value: u8) -> (r: u8)
        ensures
            (final(self)@, r) == (old(self)@.with_reg(alu::sla(old(self)@.reg, value).0), alu::sla(
                old(self)@.reg,
                value,
            ).1),
    {
        let carry = (value & 0x80) != 0;
        let result = value << 1u8;
        self.reg.set_z_flag(result == 0);
        self.reg.set_n_flag(false);
        self.reg.set_h_flag(false);
        self.reg.set_c_flag(carry);
        result
    }

    fn sra(&mut self, value: u8) -> (r: u8)
        ensures
            (final(self)@, r) == (old(self)@.with_reg(alu::sra(old(self)@.reg, value).0), alu::sra(
                old(self)@.reg,
                value,
            ).1),
    {
        let carry = (value & 0x01) != 0;
        let result = (value >> 1u8) | (value & 0x80);
        self.reg.set_z_flag(result == 0);
        self.reg.set_n_flag(false);
        self.reg.set_h_flag(false);
        self.reg.set_c_flag(carry);
        result
    }

    fn srl(&mut self, value: u8) -> (r: u8)
        ensures
            (final(self)@, r) == (old(self)@.with_reg(alu::srl(old(self)@.reg, value).0), alu::srl(
                old(self)@.reg,
                value,
            ).1),
    {
        let carry = (value & 0x01) != 0;
        let result = value >> 1u8;
        self.reg.set_z_flag(result == 0);
        self.reg.set_n_flag(false);
        self.reg.set_h_flag(false);
        self.reg.set_c_flag(carry);
        result
    }

    fn swap(&mut self, value: u8) -> (r: u8)
        ensures
            (final(self)@, r) == (old(self)@.with_reg(alu::swap(old(self)@.reg, value).0), alu::swap(
                old(self)@.reg,
                value,
            ).1),
    {
        let result = (value << 4u8) | (value >> 4u8);
        self.reg.set_z_flag(result == 0);
        self.reg.set_n_flag(false);
        self.reg.set_h_flag(false);
        self.reg.set_c_flag(false);
        result
    }

    fn bit(&mut self, value: u8, bit: u8)
        requires
            bit < 8,
        ensures
            final(self)@ == old(self)@.with_reg(alu::bit_test(old(self)@.reg, value, bit)),
    {
        self.reg.set_z_flag((value & (1u8 << bit)) == 0);
        self.reg.set_n_flag(false);
        self.reg.set_h_flag(true);
    }
}

impl CPU {
    /// The sixteen-bit two's complement extension of a signed byte offset.
    fn sign_extend(offset: u8) -> (r: u16)
        ensures
            r == alu::sign_extend(offset),
    {
        if offset < 128 {
            offset as u16
        } else {
            offset as u16 + 0xFF00
        }
    }

    fn jr_cond(&mut self, condition: bool) -> (cycles: u64)
        requires
            old(self)@.wf(),
        ensures
            (final(self)@, cycles) == old(self)@.jr(condition),
    {
        let offset = self.fetch_byte();
        if condition {
            self.reg.pc = self.reg.pc.wrapping_add(Self::sign_extend(offset));
            12
        } else {
            8
        }
    }

    fn jp_cond(&mut self, condition: bool) -> (cycles: u64)
        requires
            old(self)@.wf(),
        ensures
            (final(self)@, cycles) == old(self)@.jp(condition),
    {
        let address = self.fetch_word();
        if condition {
            self.reg.pc = address;
            16
        } else {
            12
        }
    }

    fn call_cond(&mut self, condition: bool) -> (cycles: u64)
        requires
            old(self)@.wf(),
        ensures
            (final(self)@, cycles) == old(self)@.call(condition),
            final(self)@.wf(),
    {
        let address = self.fetch_word();
        if condition {
            self.push_word(self.reg.pc);
            self.reg.pc = address;
            24
        } else {
            12
        }
    }

    fn ret_cond(&mut self, condition: bool) -> (cycles: u64)
        requires
            old(self)@.wf(),
        ensures
            (final(self)@, cycles) == old(self)@.ret(condition),
    {
        if condition {
            self.reg.pc = self.pop_word();
            20
        } else {
            8
        }
    }

    /// Whether the condition of a conditional jump, call or return holds.
    fn condition_holds(&self, opcode: u8) -> (r: bool)
        ensures
            r == condition(self.reg, opcode),
    {
        let c = (opcode >> 3) & 3;
        if c == 0 {
            !self.reg.get_z_flag()
        } else if c == 1 {
            self.reg.get_z_flag()
        } else if c == 2 {
            !self.reg.get_c_flag()
        } else {
            self.reg.get_c_flag()
        }
    }

    fn execute_load16(&mut self, opcode: u8) -> (cycles: u64)
        requires
            old(self)@.wf(),
            is_load16(opcode),
        ensures
            (final(self)@, cycles) == old(self)@.load16(opcode),
            final(self)@.wf(),
    {
        match opcode {
            0x01 => {
                // LD BC,d16
                let value = self.fetch_word();
                self.reg.set_bc(value);
                12
            },
            0x11 => {
                // LD DE,d16
                let value = self.fetch_word();
                self.reg.set_de(value);
                12
            },
            0x21 => {
                // LD HL,d16
                let value = self.fetch_word();
                self.reg.set_hl(value);
                12
            },
            0x31 => {
                // LD SP,d16
                let value = self.fetch_word();
                self.reg.sp = value;
                12
            },
            0x08 => {
                // LD (a16),SP
                let address = self.fetch_word();
                proof {
                    lemma_split_bits(self.reg.sp);
                }
                let bytes: [u8; 2] = [self.reg.sp as u8, (self.reg.sp >> 8) as u8];
                self.memory.write_word(address, &bytes);
                20
            },
            0xF8 => {
                // LD HL,SP+r8
                let b = self.fetch_byte();
                let offset = Self::sign_extend(b);
                let result = self.reg.sp.wrapping_add(offset);
                proof {
                    lemma_operand_bounds();
                }
                self.reg.set_hl(result);
                self.reg.set_z_flag(false);
                self.reg.set_n_flag(false);
                self.reg.set_h_flag(((self.reg.sp & 0x0F) + (offset & 0x0F)) > 0x0F);
                self.reg.set_c_flag(((self.reg.sp & 0xFF) + (offset & 0xFF)) > 0xFF);
                12
            },
            0xF9 => {
                // LD SP,HL
                self.reg.sp = self.reg.get_hl();
                8
            },
            0xC1 => {
                // POP BC
                let value = self.pop_word();
                self.reg.set_bc(value);
                12
            },
            0xD1 => {
                // POP DE
                let value = self.pop_word();
                self.reg.set_de(value);
                12
            },
            0xE1 => {
                // POP HL
                let value = self.pop_word();
                self.reg.set_hl(value);
                12
            },
            0xF1 => {
                // POP AF
                let value = self.pop_word();
                self.reg.set_af(value);
                12
            },
            0xC5 => {
                // PUSH BC
                self.push_word(self.reg.get_bc());
                16
            },
            0xD5 => {
                // PUSH DE
                self.push_word(self.reg.get_de());
                16
            },
            0xE5 => {
                // PUSH HL
                self.push_word(self.reg.get_hl());
                16
            },
            _ => {
                // PUSH AF
                self.push_word(self.reg.get_af());
                16
            },
        }
    }

    fn execute_load8(&mut self, opcode: u8) -> (cycles: u64)
        requires
            old(self)@.wf(),
            is_load8(opcode),
        ensures
            (final(self)@, cycles) == old(self)@.load8(opcode),
            final(self)@.wf(),
    {
        proof {
            lemma_operand_bounds();
        }
        match opcode {
            0x40..=0x7F => {
                // LD r8,r8
                let dest = (opcode >> 3) & 0x07;
                let source = opcode & 0x07;
                let value = self.read_r8(source);
                self.write_r8(dest, value);
                if source == 0x06 || dest == 0x06 {
                    8
                } else {
                    4
                }
            },
            0x06 | 0x0E | 0x16 | 0x1E | 0x26 | 0x2E | 0x36 | 0x3E => {
                // LD r8,d8 or LD (HL),d8
                let value = self.fetch_byte();
                self.write_r8(opcode >> 3, value);
                if opcode == 0x36 {
                    12
                } else {
                    8
                }
            },
            0x02 => {
                // LD (BC),A
                self.memory.write_byte(self.reg.get_bc(), self.reg.a);
                8
            },
            0x12 => {
                // LD (DE),A
                self.memory.write_byte(self.reg.get_de(), self.reg.a);
                8
            },
            0x0A => {
                // LD A,(BC)
                self.reg.a = self.memory.read_byte(self.reg.get_bc());
                8
            },
            0x1A => {
                // LD A,(DE)
                self.reg.a = self.memory.read_byte(self.reg.get_de());
                8
            },
            0x22 => {
                // LD (HL+),A
                let hl = self.reg.get_hl();
                self.memory.write_byte(hl, self.reg.a);
                self.reg.set_hl(hl.wrapping_add(1));
                8
            },
            0x32 => {
                // LD (HL-),A
                let hl = self.reg.get_hl();
                self.memory.write_byte(hl, self.reg.a);
                self.reg.set_hl(hl.wrapping_sub(1));
                8
            },
            0x2A => {
                // LD A,(HL+)
                let hl = self.reg.get_hl();
                self.reg.a = self.memory.read_byte(hl);
                self.reg.set_hl(hl.wrapping_add(1));
                8
            },
            0x3A => {
                // LD A,(HL-)
                let hl = self.reg.get_hl();
                self.reg.a = self.memory.read_byte(hl);
                self.reg.set_hl(hl.wrapping_sub(1));
                8
            },
            0xE0 => {
                // LDH (a8),A
                let address = 0xFF00 + self.fetch_byte() as u16;
                self.memory.write_byte(address, self.reg.a);
                12
            },
            0xE2 => {
                // LD (C+0xFF00),A
                let address = 0xFF00 + self.reg.c as u16;
                self.memory.write_byte(address, self.reg.a);
                8
            },
            0xEA => {
                // LD (a16),A
                let address = self.fetch_word();
                self.memory.write_byte(address, self.reg.a);
                16
            },
            0xF0 => {
                // LDH A,(a8)
                let address = 0xFF00 + self.fetch_byte() as u16;
                self.reg.a = self.memory.read_byte(address);
                12
            },
            0xF2 => {
                // LD A,(C+0xFF00)
                let address = 0xFF00 + self.reg.c as u16;
                self.reg.a = self.memory.read_byte(address);
                8
            },
            _ => {
                // LD A,(a16)
                let address = self.fetch_word();
                self.reg.a = self.memory.read_byte(address);
                16
            },
        }
    }

    fn execute_arith16(&mut self, opcode: u8) -> (cycles: u64)
        requires
            old(self)@.wf(),
            is_arith16(opcode),
        ensures
            (final(self)@, cycles) == old(self)@.arith16(opcode),
            final(self)@.wf(),
    {
        match opcode {
            0x03 => {
                // INC BC
                self.reg.set_bc(self.reg.get_bc().wrapping_add(1));
                8
            },
            0x13 => {
                // INC DE
                self.reg.set_de(self.reg.get_de().wrapping_add(1));
                8
            },
            0x23 => {
                // INC HL
                self.reg.set_hl(self.reg.get_hl().wrapping_add(1));
                8
            },
            0x33 => {
                // INC SP
                self.reg.sp = self.reg.sp.wrapping_add(1);
                8
            },
            0x0B => {
                // DEC BC
                self.reg.set_bc(self.reg.get_bc().wrapping_sub(1));
                8
            },
            0x1B => {
                // DEC DE
                self.reg.set_de(self.reg.get_de().wrapping_sub(1));
                8
            },
            0x2B => {
                // DEC HL
                self.reg.set_hl(self.reg.get_hl().wrapping_sub(1));
                8
            },
            0x3B => {
                // DEC SP
                self.reg.sp = self.reg.sp.wrapping_sub(1);
                8
            },
            0x09 => {
                // ADD HL,BC
                self.add_to_hl(self.reg.get_bc());
                8
            },
            0x19 => {
                // ADD HL,DE
                self.add_to_hl(self.reg.get_de());
                8
            },
            0x29 => {
                // ADD HL,HL
                self.add_to_hl(self.reg.get_hl());
                8
            },
            0x39 => {
                // ADD HL,SP
                self.add_to_hl(self.reg.sp);
                8
            },
            _ => {
                // ADD SP,r8
                let b = self.fetch_byte();
                let offset = Self::sign_extend(b);
                let sp = self.reg.sp;
                proof {
                    lemma_operand_bounds();
                }
                self.reg.sp = sp.wrapping_add(offset);
                self.reg.set_z_flag(false);
                self.reg.set_n_flag(false);
                self.reg.set_h_flag(((sp & 0x0F) + (offset & 0x0F)) > 0x0F);
                self.reg.set_c_flag(((sp & 0xFF) + (offset & 0xFF)) > 0xFF);
                16
            },
        }
    }

    fn execute_arith8(&mut self, opcode: u8) -> (cycles: u64)
        requires
            old(self)@.wf(),
            is_arith8(opcode),
        ensures
            (final(self)@, cycles) == old(self)@.arith8(opcode),
            final(self)@.wf(),
    {
        proof {
            lemma_operand_bounds();
        }
        match opcode {
            0x04 | 0x0C | 0x14 | 0x1C | 0x24 | 0x2C | 0x34 | 0x3C => {
                // INC r8 / INC (HL)
                let register_index = opcode >> 3;
                let value = self.read_r8(register_index);
                let incremented = self.inc_u8(value);
                self.write_r8(register_index, incremented);
                if register_index == 6 {
                    12
                } else {
                    4
                }
            },
            0x05 | 0x0D | 0x15 | 0x1D | 0x25 | 0x2D | 0x35 | 0x3D => {
                // DEC r8 / DEC (HL)
                let register_index = opcode >> 3;
                let value = self.read_r8(register_index);
                let decremented = self.dec_u8(value);
                self.write_r8(register_index, decremented);
                if register_index == 6 {
                    12
                } else {
                    4
                }
            },
            0x80..=0xBF => {
                let source = opcode & 0x07;
                let value = self.read_r8(source);
                match opcode & 0xF8 {
                    0x80 => self.add_to_a(value, false),  // ADD A,r8
                    0x88 => self.add_to_a(value, true),  // ADC A,r8
                    0x90 => self.sub_from_a(value, false),  // SUB A,r8
                    0x98 => self.sub_from_a(value, true),  // SBC A,r8
                    0xA0 => self.and_a(value),  // AND A,r8
                    0xA8 => self.xor_a(value),  // XOR A,r8
                    0xB0 => self.or_a(value),  // OR A,r8
                    _ => self.cp_a(value),  // CP A,r8
                }
                if source == 0x06 {
                    8
                } else {
                    4
                }
            },
            0xC6 => {
                // ADD A,d8
                let value = self.fetch_byte();
                self.add_to_a(value, false);
                8
            },
            0xCE => {
                // ADC A,d8
                let value = self.fetch_byte();
                self.add_to_a(value, true);
                8
            },
            0xD6 => {
                // SUB A,d8
                let value = self.fetch_byte();
                self.sub_from_a(value, false);
                8
            },
            0xDE => {
                // SBC A,d8
                let value = self.fetch_byte();
                self.sub_from_a(value, true);
                8
            },
            0xE6 => {
                // AND A,d8
                let value = self.fetch_byte();
                self.and_a(value);
                8
            },
            0xEE => {
                // XOR A,d8
                let value = self.fetch_byte();
                self.xor_a(value);
                8
            },
            0xF6 => {
                // OR A,d8
                let value = self.fetch_byte();
                self.or_a(value);
                8
            },
            0xFE => {
                // CP A,d8
                let value = self.fetch_byte();
                self.cp_a(value);
                8
            },
            0x27 => {
                // DAA
                self.daa();
                4
            },
            0x2F => {
                // CPL
                self.reg.a = !self.reg.a;
                self.reg.set_n_flag(true);
                self.reg.set_h_flag(true);
                4
            },
            0x37 => {
                // SCF
                self.reg.set_n_flag(false);
                self.reg.set_h_flag(false);
                self.reg.set_c_flag(true);
                4
            },
            _ => {
                // CCF
                self.reg.set_n_flag(false);
                self.reg.set_h_flag(false);
                self.reg.set_c_flag(!self.reg.get_c_flag());
                4
            },
        }
    }

    fn execute_rotate_a(&mut self, opcode: u8) -> (cycles: u64)
        requires
            old(self)@.wf(),
            is_rotate_a(opcode),
        ensures
            (final(self)@, cycles) == old(self)@.rotate_a(opcode),
            final(self)@.wf(),
    {
        match opcode {
            0x07 => {
                // RLCA
                self.reg.a = self.rlc(self.reg.a, false);
            },
            0x0F => {
                // RRCA
                self.reg.a = self.rrc(self.reg.a, false);
            },
            0x17 => {
                // RLA
                self.reg.a = self.rl(self.reg.a, false);
            },
            _ => {
                // RRA
                self.reg.a = self.rr(self.reg.a, false);
            },
        }
        self.reg.set_z_flag(false);
        4
    }

    fn execute_control(&mut self, opcode: u8) -> (cycles: u64)
        requires
            old(self)@.wf(),
            is_control(opcode),
        ensures
            (final(self)@, cycles) == old(self)@.control(opcode),
            final(self)@.wf(),
    {
        match opcode {
            0x18 => {
                // JR r8
                self.jr_cond(true)
            },
            0x20 | 0x28 | 0x30 | 0x38 => {
                // JR NZ/Z/NC/C,r8
                let condition = self.condition_holds(opcode);
                self.jr_cond(condition)
            },
            0xC3 => {
                // JP a16
                self.jp_cond(true)
            },
            0xC2 | 0xCA | 0xD2 | 0xDA => {
                // JP NZ/Z/NC/C,a16
                let condition = self.condition_holds(opcode);
                self.jp_cond(condition)
            },
            0xE9 => {
                // JP HL
                self.reg.pc = self.reg.get_hl();
                4
            },
            0xCD => {
                // CALL a16
                self.call_cond(true)
            },
            0xC4 | 0xCC | 0xD4 | 0xDC => {
                // CALL NZ/Z/NC/C,a16
                let condition = self.condition_holds(opcode);
                self.call_cond(condition)
            },
            0xC0 | 0xC8 | 0xD0 | 0xD8 => {
                // RET NZ/Z/NC/C
                let condition = self.condition_holds(opcode);
                self.ret_cond(condition)
            },
            0xC9 => {
                // RET
                self.reg.pc = self.pop_word();
                16
            },
            0xD9 => {
                // RETI
                self.reg.pc = self.pop_word();
                self.reg.ime = true;
                16
            },
            0xC7 | 0xCF | 0xD7 | 0xDF | 0xE7 | 0xEF | 0xF7 | 0xFF => {
                // RST vec
                let target = (opcode & 0b0011_1000) as u16;
                self.push_word(self.reg.pc);
                self.reg.pc = target;
                16
            },
            0xF3 => {
                // DI
                self.reg.ime = false;
                self.reg.ime_next = false;
                4
            },
            _ => {
                // EI
                self.reg.ime_next = true;
                4
            },
        }
    }

    fn execute_opcode_extension(&mut self) -> (cycles: u64)
        requires
            old(self)@.wf(),
        ensures
            (final(self)@, cycles) == old(self)@.extension(),
            final(self)@.wf(),
    {
        proof {
            lemma_operand_bounds();
        }
        let opcode = self.fetch_byte();
        let register_index = opcode & 0x07;
        let mut value = self.read_r8(register_index);

        match opcode {
            0x00..=0x07 => value = self.rlc(value, true),  // RLC r8
            0x08..=0x0F => value = self.rrc(value, true),  // RRC r8
            0x10..=0x17 => value = self.rl(value, true),  // RL r8
            0x18..=0x1F => value = self.rr(value, true),  // RR r8
            0x20..=0x27 => value = self.sla(value),  // SLA r8
            0x28..=0x2F => value = self.sra(value),  // SRA r8
            0x30..=0x37 => value = self.swap(value),  // SWAP r8
            0x38..=0x3F => value = self.srl(value),  // SRL r8
            0x40..=0x7F => {
                // BIT b3,r8
                let bit = (opcode >> 3) & 0x07;
                self.bit(value, bit);
            },
            0x80..=0xBF => {
                // RES b3,r8
                let bit = (opcode >> 3) & 0x07;
                value &= !(1u8 << bit);
            },
            _ => {
                // SET b3,r8
                let bit = (opcode >> 3) & 0x07;
                value |= 1u8 << bit;
            },
        }

        // BIT only tests the operand: nothing is stored back.
        if !(0x40 <= opcode && opcode <= 0x7F) {
            self.write_r8(register_index, value);
        }

        if register_index == 0x06 {
            if 0x40 <= opcode && opcode <= 0x7F {
                12
            } else {
                16
            }
        } else {
            8
        }
    }
}

impl CpuView {
    /// Servicing an interrupt: IME is cleared, PC pushed and the handler at `address` entered,
    /// which takes 20 cycles.
    pub open spec fn handle_interrupt(self, address: u16) -> CpuView {
        let s = self.with_reg(Registers { ime: false, ..self.reg });
        let s = s.push_word(s.reg.pc);
        CpuView { reg: Registers { pc: address, ..s.reg }, cycles: (s.cycles + 20) as u64, ..s }
    }

    /// With IME set, the pending interrupt of highest priority (V-Blank, LCD STAT, timer,
    /// serial, joypad) among those enabled in IE and requested in IF is serviced, and its request
    /// bit cleared in IF.
    pub open spec fn service_interrupts(self) -> CpuView {
        let enable = self.load(INTERRUPT_ENABLE);
        let flag = self.load(INTERRUPT_FLAG);
        let pending = enable & flag;
        if !self.reg.ime {
            self
        } else if pending & 0x01 != 0 {
            self.handle_interrupt(0x40).store(INTERRUPT_FLAG, flag & !0x01u8)
        } else if pending & 0x02 != 0 {
            self.handle_interrupt(0x48).store(INTERRUPT_FLAG, flag & !0x02u8)
        } else if pending & 0x04 != 0 {
            self.handle_interrupt(0x50).store(INTERRUPT_FLAG, flag & !0x04u8)
        } else if pending & 0x08 != 0 {
            self.handle_interrupt(0x58).store(INTERRUPT_FLAG, flag & !0x08u8)
        } else if pending & 0x10 != 0 {
            self.handle_interrupt(0x60).store(INTERRUPT_FLAG, flag & !0x10u8)
        } else {
            self
        }
    }

    /// One step of the machine: the PPU runs for one machine cycle (four dots), a pending
    /// interrupt is serviced, an `EI` from the previous instruction takes effect, and the
    /// instruction at PC is fetched, logged with its address and executed; its cycles are added.
    #[verifier::opaque]
    pub open spec fn step(self) -> CpuView {
        let (ppu, memory) = step_tcycles(self.ppu, self.memory, 4);
        let s = CpuView { ppu, memory, ..self }.service_interrupts();
        let s = if s.reg.ime_next {
            s.with_reg(Registers { ime: true, ime_next: false, ..s.reg })
        } else {
            s
        };
        let location = s.reg.pc;
        let (s, opcode) = s.fetch_byte();
        let s = CpuView { opcodes: s.opcodes.push((location, opcode)), ..s };
        let (s, duration) = s.execute_opcode(opcode);
        CpuView { cycles: (s.cycles + duration) as u64, ..s }
    }

    /// Whether a step keeps the counters in range: the cycle count can take the longest step,
    /// and the PPU's frame counter and background tile column can take four more dots.
    pub open spec fn can_step(self) -> bool {
        &&& self.cycles <= u64::MAX - MAX_STEP_CYCLES
        &&& self.ppu.frame <= u64::MAX - 4
        &&& self.ppu.bgw.pos_x <= 0xFFFF - 36
    }
}

impl CPU {
    fn execute_opcode(&mut self, opcode: u8) -> (cycles: u64)
        requires
            old(self)@.wf(),
        ensures
            (final(self)@, cycles) == old(self)@.execute_opcode(opcode),
            final(self)@.wf(),
    {
        match opcode {
            // Miscellaneous Instructions
            0x00 => 4,  // NOP
            0xCB => {
                // Prefix for bit operations
                self.execute_opcode_extension()
            },
            // 16bit loads, stack transfers
            0x01 | 0x11 | 0x21 | 0x31 | 0x08 | 0xF8 | 0xF9 | 0xC1 | 0xD1 | 0xE1 | 0xF1 | 0xC5
            | 0xD5 | 0xE5 | 0xF5 => self.execute_load16(opcode),
            // 8bit loads
            0x40..=0x75 | 0x77..=0x7F | 0x06 | 0x0E | 0x16 | 0x1E | 0x26 | 0x2E | 0x36 | 0x3E
            | 0x02 | 0x12 | 0x0A | 0x1A | 0x22 | 0x32 | 0x2A | 0x3A | 0xE0 | 0xE2 | 0xEA | 0xF0
            | 0xF2 | 0xFA => self.execute_load8(opcode),
            // 16bit arithmetic
            0x03 | 0x13 | 0x23 | 0x33 | 0x0B | 0x1B | 0x2B | 0x3B | 0x09 | 0x19 | 0x29 | 0x39
            | 0xE8 => self.execute_arith16(opcode),
            // 8bit arithmetic and logic
            0x04 | 0x0C | 0x14 | 0x1C | 0x24 | 0x2C | 0x34 | 0x3C | 0x05 | 0x0D | 0x15 | 0x1D
            | 0x25 | 0x2D | 0x35 | 0x3D | 0x80..=0xBF | 0xC6 | 0xCE | 0xD6 | 0xDE | 0xE6 | 0xEE
            | 0xF6 | 0xFE | 0x27 | 0x2F | 0x37 | 0x3F => self.execute_arith8(opcode),
            // Rotates and shifts (non-CB)
            0x07 | 0x0F | 0x17 | 0x1F => self.execute_rotate_a(opcode),
            // Jump / Call / Return / Restart instructions, interrupt control
            0x18 | 0x20 | 0x28 | 0x30 | 0x38 | 0xC2 | 0xC3 | 0xCA | 0xD2 | 0xDA | 0xE9 | 0xC4
            | 0xCC | 0xCD | 0xD4 | 0xDC | 0xC0 | 0xC8 | 0xC9 | 0xD0 | 0xD8 | 0xD9 | 0xC7 | 0xCF
            | 0xD7 | 0xDF | 0xE7 | 0xEF | 0xF7 | 0xFF | 0xF3 | 0xFB => self.execute_control(
                opcode,
            ),
            _ => {
                let message = unknown_opcode_message(opcode, self.reg.pc.wrapping_sub(1));
                self.errors.push(message);
                proof {
                    assert(texts(self.errors@) =~= texts(old(self).errors@).push(
                        unknown_opcode_text(opcode, old(self).reg.pc.wrapping_sub(1)),
                    ));
                }
                0
            },
        }
    }

    fn handle_interrupt(&mut self, address: u16)
        requires
            old(self)@.wf(),
            old(self)@.cycles <= u64::MAX - 20,
        ensures
            final(self)@ == old(self)@.handle_interrupt(address),
            final(self)@.wf(),
    {
        self.reg.ime = false;
        self.push_word(self.reg.pc);
        self.reg.pc = address;
        self.cycles += 20;
    }

    /// Services the pending interrupt of highest priority, if interrupts are enabled.
    fn service_interrupts(&mut self)
        requires
            old(self)@.wf(),
            old(self)@.cycles <= u64::MAX - 20,
        ensures
            final(self)@ == old(self)@.service_interrupts(),
            final(self)@.wf(),
    {
        let i_enable = self.memory.read_byte(INTERRUPT_ENABLE);
        let i_flag = self.memory.read_byte(INTERRUPT_FLAG);
        let inter = i_enable & i_flag;
        if self.reg.ime {
            if inter & 0x01 != 0 {
                // V-Blank Interrupt
                self.handle_interrupt(0x40);
                self.memory.write_byte(INTERRUPT_FLAG, i_flag & !0x01u8);
            } else if inter & 0x02 != 0 {
                // LCD STAT Interrupt
                self.handle_interrupt(0x48);
                self.memory.write_byte(INTERRUPT_FLAG, i_flag & !0x02u8);
            } else if inter & 0x04 != 0 {
                // Timer Interrupt
                self.handle_interrupt(0x50);
                self.memory.write_byte(INTERRUPT_FLAG, i_flag & !0x04u8);
            } else if inter & 0x08 != 0 {
                // Serial Interrupt
                self.handle_interrupt(0x58);
                self.memory.write_byte(INTERRUPT_FLAG, i_flag & !0x08u8);
            } else if inter & 0x10 != 0 {
                // Joypad Interrupt
                self.handle_interrupt(0x60);
                self.memory.write_byte(INTERRUPT_FLAG, i_flag & !0x10u8);
            }
        }
    }

    pub fn step(&mut self)
        requires
            old(self)@.wf(),
            old(self)@.cycles <= u64::MAX - MAX_STEP_CYCLES,
            tcycles_fit(old(self)@.ppu, old(self)@.memory, 4),
        ensures
            final(self)@ == old(self)@.step(),
            final(self)@.wf(),
    {
        // Step the PPU for the current cycle
        self.ppu.step_mcycle(&mut self.memory);

        // Check for Interrupts
        self.service_interrupts();

        if self.reg.ime_next {
            self.reg.ime = true;
            self.reg.ime_next = false;
        }

        let location = self.reg.pc;
        let opcode = self.fetch_byte();
        self.executed_opcodes.push((location, opcode));

        let ghost before = self@;
        proof {
            lemma_execute_cycles(before, opcode);
            reveal(CpuView::step);
        }
        let duration = self.execute_opcode(opcode);

        self.cycles += duration;
    }
}

/// What servicing interrupts does to the bookkeeping: at most 20 cycles, nothing else.
proof fn lemma_service_cycles(s: CpuView)
    requires
        s.cycles <= u64::MAX - 20,
    ensures
        s.cycles <= s.service_interrupts().cycles <= s.cycles + 20,
        s.service_interrupts().errors == s.errors,
        s.service_interrupts().opcodes == s.opcodes,
{
}

/// A step adds between 0 and 44 cycles, never drops an error, and adds at least 4 cycles
/// unless it records a new error.
pub proof fn lemma_step_cycles(s: CpuView)
    requires
        s.can_step(),
    ensures
        s.cycles <= s.step().cycles <= s.cycles + MAX_STEP_CYCLES,
        s.step().errors.len() >= s.errors.len(),
        s.step().errors.len() == s.errors.len() ==> s.step().cycles >= s.cycles + 4,
{
    reveal(CpuView::step);
    let (ppu, memory) = step_tcycles(s.ppu, s.memory, 4);
    let s1 = CpuView { ppu, memory, ..s };
    lemma_service_cycles(s1);
    let s2 = s1.service_interrupts();
    let s3 = if s2.reg.ime_next {
        s2.with_reg(Registers { ime: true, ime_next: false, ..s2.reg })
    } else {
        s2
    };
    let location = s3.reg.pc;
    let (s4, opcode) = s3.fetch_byte();
    let s5 = CpuView { opcodes: s4.opcodes.push((location, opcode)), ..s4 };
    lemma_execute_cycles(s5, opcode);
}

impl CpuView {
    /// Steps until a step records an error, or until the counters leave no room for another
    /// step.
    pub open spec fn run(self) -> CpuView
        decreases u64::MAX - self.cycles,
    {
        if !self.can_step() {
            self
        } else {
            let next = self.step();
            if next.errors.len() > 0 {
                next
            } else {
                proof {
                    lemma_step_cycles(self);
                }
                next.run()
            }
        }
    }

    /// Up to `n` steps, stopping early when the counters leave no room for another step.
    pub open spec fn steps(self, n: nat) -> CpuView
        decreases n,
    {
        if n == 0 || !self.can_step() {
            self
        } else {
            self.step().steps((n - 1) as nat)
        }
    }
}

impl CpuView {
    /// The machine after a debug view is taken: the opcode log and both error lists are empty.
    pub open spec fn drained(self) -> CpuView {
        CpuView {
            opcodes: Seq::empty(),
            errors: Seq::empty(),
            memory: MemView { errors: Seq::empty(), ..self.memory },
            ..self
        }
    }

    /// The machine after an attempt to load `rom`: memory as loading leaves it, and on failure
    /// the reason appended to the errors.
    pub open spec fn load_rom(self, rom: Seq<u8>) -> CpuView {
        let (memory, result) = load_rom_spec(self.memory, rom);
        CpuView {
            memory,
            errors: match result {
                Ok(()) => self.errors,
                Err(e) => self.errors.push(e),
            },
            ..self
        }
    }
}

/// Whether `v` shows machine `s`: its cycles, registers and framebuffer, the opcodes executed,
/// and the processor's errors followed by the memory's.
pub open spec fn shows(v: DebugView, s: CpuView) -> bool {
    &&& v.cycles == s.cycles
    &&& v.registers == s.reg
    &&& v.opcodes@ == s.opcodes
    &&& texts(v.errors@) == s.errors + s.memory.errors
    &&& rows160(v.framebuffer) == s.ppu.framebuffer
}

impl CPU {
    /// Whether the counters leave room for another step.
    pub fn can_step(&self) -> (r: bool)
        ensures
            r == self@.can_step(),
    {
        self.cycles <= u64::MAX - MAX_STEP_CYCLES && self.ppu.frame() <= u64::MAX - 4
            && self.ppu.background_column() <= 0xFFFF - 36
    }

    pub fn load_rom(&mut self, rom: Vec<u8>) -> (r: Result<(), String>)
        requires
            old(self)@.wf(),
        ensures
            final(self)@ == old(self)@.load_rom(rom@),
            final(self)@.wf(),
            (match (r, load_rom_spec(old(self)@.memory, rom@).1) {
                (Ok(()), Ok(())) => true,
                (Err(e), Err(t)) => e@ == load_failed_text(t),
                _ => false,
            }),
    {
        let result = self.memory.load_rom(rom);
        match result {
            Err(e) => {
                let error = Err(load_failed_message(&e));
                self.errors.push(e);
                proof {
                    assert(texts(self.errors@) =~= old(self)@.errors.push(
                        load_rom_spec(old(self)@.memory, rom@).1->Err_0,
                    ));
                }
                error
            },
            Ok(()) => Ok(()),
        }
    }

    pub fn debug_view(&mut self) -> (v: DebugView)
        requires
            old(self)@.wf(),
        ensures
            shows(v, old(self)@),
            final(self)@ == old(self)@.drained(),
            final(self)@.wf(),
    {
        let mut errors: Vec<String> = Vec::new();
        std::mem::swap(&mut errors, &mut self.errors);
        let mut memory_errors = self.memory.take_errors();
        errors.append(&mut memory_errors);
        let mut opcodes: Vec<(u16, u8)> = Vec::new();
        std::mem::swap(&mut opcodes, &mut self.executed_opcodes);
        let v = DebugView {
            cycles: self.cycles,
            registers: self.reg,
            opcodes: opcodes,
            errors: errors,
            framebuffer: *self.ppu.get_framebuffer(),
        };
        proof {
            assert(texts(v.errors@) =~= old(self)@.errors + old(self)@.memory.errors);
            assert(texts(self.errors@) =~= Seq::<Seq<char>>::empty());
        }
        v
    }

    /// Steps until a step records an error (or the counters leave no room for another step).
    pub fn execute(&mut self)
        requires
            old(self)@.wf(),
        ensures
            final(self)@ == old(self)@.run(),
            final(self)@.wf(),
    {
        loop
            invariant
                self@.wf(),
                self@.run() == old(self)@.run(),
            decreases u64::MAX - self@.cycles,
        {
            if !self.can_step() {
                return ;
            }
            proof {
                lemma_tcycles_room(self@.ppu, self@.memory, 4);
                lemma_step_cycles(self@);
            }
            self.step();
            if self.errors.len() > 0 {
                return ;
            }
        }
    }
}


/// A push stores the high byte at SP - 1 and the low byte at SP - 2 and leaves SP at SP - 2;
/// popping right after it gives back the pushed word and restores SP, when both stack bytes lie
/// in plain RAM.
pub proof fn law_pop_after_push(s: CpuView, value: u16)
    requires
        s.wf(),
        is_plain_ram(s.reg.sp.wrapping_sub(1)),
        is_plain_ram(s.reg.sp.wrapping_sub(1).wrapping_sub(1)),
    ensures
        s.push_word(value).reg.sp == s.reg.sp.wrapping_sub(1).wrapping_sub(1),
        s.push_word(value).load(s.reg.sp.wrapping_sub(1)) == high_byte(value),
        s.push_word(value).load(s.reg.sp.wrapping_sub(1).wrapping_sub(1)) == low_byte(value),
        s.push_word(value).pop_word().1 == value,
        s.push_word(value).pop_word().0.reg.sp == s.reg.sp,
{
    let sp1 = s.reg.sp.wrapping_sub(1);
    let sp2 = sp1.wrapping_sub(1);
    let m1 = s.memory.store(sp1, high_byte(value));
    law_plain_ram_read_after_write(s.memory, sp1, sp2, high_byte(value));
    law_plain_ram_read_after_write(m1, sp2, sp1, low_byte(value));
    assert(sp2.wrapping_add(1) == sp1);
    assert(sp1.wrapping_add(1) == s.reg.sp);
    assert(word(high_byte(value), low_byte(value)) == value);
}

/// `run` only returns once a step has recorded an error, or when the counters leave no room
/// for another step.
pub proof fn law_run_stops_on_error(s: CpuView)
    ensures
        s.run().errors.len() > 0 || !s.run().can_step(),
    decreases u64::MAX - s.cycles,
{
    if s.can_step() {
        let next = s.step();
        if next.errors.len() == 0 {
            lemma_step_cycles(s);
            law_run_stops_on_error(next);
        }
    }
}

/// Each step logs exactly one opcode, after the ones already logged, and never forgets an
/// error.
pub proof fn law_step_logs_one_opcode(s: CpuView)
    ensures
        s.step().opcodes.len() == s.opcodes.len() + 1,
        s.step().opcodes.subrange(0, s.opcodes.len() as int) == s.opcodes,
        s.step().errors.subrange(0, s.errors.len() as int) == s.errors,
{
    reveal(CpuView::step);
    let (ppu, memory) = step_tcycles(s.ppu, s.memory, 4);
    let s1 = CpuView { ppu, memory, ..s };
    let s2 = s1.service_interrupts();
    let s3 = if s2.reg.ime_next {
        s2.with_reg(Registers { ime: true, ime_next: false, ..s2.reg })
    } else {
        s2
    };
    let location = s3.reg.pc;
    let (s4, opcode) = s3.fetch_byte();
    let s5 = CpuView { opcodes: s4.opcodes.push((location, opcode)), ..s4 };
    lemma_execute_cycles(s5, opcode);
    assert(s5.execute_opcode(opcode).0.errors.subrange(0, s.errors.len() as int) =~= s.errors);
    assert(s.step().opcodes.subrange(0, s.opcodes.len() as int) =~= s.opcodes);
}


/// Writing an operand and reading it back gives the value written (for (HL) when HL addresses
/// plain RAM). The flags, PC and SP keep their values, and so does every other operand, except
/// (HL) when H or L is the one written (HL then addresses another byte).
pub proof fn law_operand_round_trip(s: CpuView, i: u8, value: u8, j: u8)
    requires
        s.wf(),
        i < 8,
        j < 8,
        i == 6 ==> is_plain_ram(s.reg.hl()),
    ensures
        s.write_r8(i, value).read_r8(i) == value,
        s.write_r8(i, value).reg.f == s.reg.f,
        s.write_r8(i, value).reg.pc == s.reg.pc,
        s.write_r8(i, value).reg.sp == s.reg.sp,
        (j != i && !(j == 6 && (i == 4 || i == 5))) ==> s.write_r8(i, value).read_r8(j)
            == s.read_r8(j),
{
    if i == 6 {
        law_plain_ram_read_after_write(s.memory, s.reg.hl(), s.reg.hl(), value);
    }
}

/// `LD r,r'` (0x40..=0x7F but 0x76) copies operand `op mod 8` into operand `(op - 0x40) / 8`
/// (B, C, D, E, H, L, (HL), A): reading the destination back gives the source's old value, and
/// every other operand, the flags, PC and SP are kept (except (HL) when H or L is the one
/// written, since HL then addresses another byte). It takes 8 cycles with (HL), else 4.
pub proof fn law_register_loads(s: CpuView, op: u8, j: u8)
    requires
        s.wf(),
        0x40 <= op <= 0x7F,
        op != 0x76,
        j < 8,
        (op - 0x40) / 8 == 6 ==> is_plain_ram(s.reg.hl()),
    ensures
        ({
            let d = ((op - 0x40) / 8) as u8;
            let src = op % 8;
            let (t, cycles) = s.execute_opcode(op);
            &&& t.read_r8(d) == s.read_r8(src)
            &&& (j != d && !(j == 6 && (d == 4 || d == 5))) ==> t.read_r8(j) == s.read_r8(j)
            &&& t.reg.f == s.reg.f && t.reg.pc == s.reg.pc && t.reg.sp == s.reg.sp
            &&& cycles == if d == 6 || src == 6 { 8u64 } else { 4u64 }
        }),
{
    let d = ((op - 0x40) / 8) as u8;
    assert(0x40 <= op <= 0x7F ==> (op >> 3u8) & 0x07 == ((op - 0x40) / 8) as u8 && op & 0x07 == op
        % 8) by (bit_vector);
    law_operand_round_trip(s, d, s.read_r8(op & 0x07), j);
}

/// `BIT b,r` (0x40..=0x7F after the 0xCB prefix) tests bit `b` of its operand and changes only
/// the flags: Z tells whether the bit is clear, N is cleared, H set and C kept. Memory, the
/// registers other than F, and everything else but PC (past the second opcode byte) stay as they
/// were, also when the operand is (HL). It takes 12 cycles on (HL) and 8 on a register.
pub proof fn law_bit_changes_only_flags(s: CpuView)
    requires
        0x40 <= s.load(s.reg.pc) <= 0x7F,
    ensures
        ({
            let op = s.load(s.reg.pc);
            let bit = (op >> 3u8) & 0x07;
            let value = s.read_r8(op & 0x07);
            let (t, cycles) = s.execute_opcode(0xCB);
            &&& t.memory == s.memory
            &&& t.ppu == s.ppu
            &&& t.cycles == s.cycles
            &&& t.opcodes == s.opcodes
            &&& t.errors == s.errors
            &&& t.reg == Registers { f: t.reg.f, pc: s.reg.pc.wrapping_add(1), ..s.reg }
            &&& t.reg.zf() == (value & (1u8 << bit) == 0)
            &&& !t.reg.nf()
            &&& t.reg.hf()
            &&& t.reg.cf() == s.reg.cf()
            &&& cycles == if op & 0x07 == 6 { 12u64 } else { 8u64 }
        }),
{
    let op = s.load(s.reg.pc);
    let bit = (op >> 3u8) & 0x07;
    let value = s.read_r8(op & 0x07);
    let r1 = s.reg.with_zf(value & (1u8 << bit) == 0);
    let r2 = r1.with_nf(false);
    law_flags(s.reg, value & (1u8 << bit) == 0);
    law_flags(r1, false);
    law_flags(r2, true);
}


/// `EI` takes effect after the next instruction. In the step after it (IME still clear, the
/// enable pending), no interrupt is dispatched even if one is requested: the instruction logged
/// is the one at PC, at most its own cycles are added, and IME is set before it runs, so it stays
/// set unless that instruction is `DI`.
pub proof fn law_ei_delay(s: CpuView)
    requires
        !s.reg.ime,
        s.reg.ime_next,
        s.cycles <= u64::MAX - MAX_STEP_CYCLES,
    ensures
        s.step().opcodes == s.opcodes.push(
            (s.reg.pc, step_tcycles(s.ppu, s.memory, 4).1.load(s.reg.pc)),
        ),
        s.cycles <= s.step().cycles <= s.cycles + 24,
        s.step().reg.ime == (step_tcycles(s.ppu, s.memory, 4).1.load(s.reg.pc) != 0xF3),
        !s.step().reg.ime_next || step_tcycles(s.ppu, s.memory, 4).1.load(s.reg.pc) == 0xFB,
{
    reveal(CpuView::step);
    let (ppu, memory) = step_tcycles(s.ppu, s.memory, 4);
    let s1 = CpuView { ppu, memory, ..s };
    let s3 = s1.with_reg(Registers { ime: true, ime_next: false, ..s1.reg });
    let (s4, opcode) = s3.fetch_byte();
    let s5 = CpuView { opcodes: s4.opcodes.push((s.reg.pc, opcode)), ..s4 };
    lemma_execute_cycles(s5, opcode);
}

/// With IME set, an interrupt that is both enabled (IE) and requested (IF) is taken at the start
/// of the next step: the step logs its instruction at one of the interrupt vectors (0x40, 0x48,
/// 0x50, 0x58, 0x60) and clears IME before that instruction.
pub proof fn law_pending_interrupt_taken(t: CpuView)
    requires
        t.reg.ime,
        t.memory.wf(),
        t.load(INTERRUPT_ENABLE) & t.load(INTERRUPT_FLAG) & 0x1F != 0,
        t.cycles <= u64::MAX - MAX_STEP_CYCLES,
    ensures
        t.step().opcodes.len() == t.opcodes.len() + 1,
        t.step().opcodes.last().0 == 0x40 || t.step().opcodes.last().0 == 0x48
            || t.step().opcodes.last().0 == 0x50 || t.step().opcodes.last().0 == 0x58
            || t.step().opcodes.last().0 == 0x60,
{
    reveal(CpuView::step);
    lemma_tcycles_interrupt_bits(t.ppu, t.memory, 4);
    let (ppu, memory) = step_tcycles(t.ppu, t.memory, 4);
    let s1 = CpuView { ppu, memory, ..t };
    let ie = t.memory.data[INTERRUPT_ENABLE as int];
    let f = t.memory.data[INTERRUPT_FLAG as int];
    let f2 = memory.data[INTERRUPT_FLAG as int];
    assert(ie & f2 & 0x1F != 0) by (bit_vector)
        requires
            f & f2 == f,
            ie & f & 0x1F != 0,
    ;
    let pending = ie & f2;
    assert(pending & 0x01 != 0 || pending & 0x02 != 0 || pending & 0x04 != 0 || pending & 0x08 != 0
        || pending & 0x10 != 0) by (bit_vector)
        requires
            pending & 0x1F != 0,
    ;
    let s2 = s1.service_interrupts();
    let s3 = if s2.reg.ime_next {
        s2.with_reg(Registers { ime: true, ime_next: false, ..s2.reg })
    } else {
        s2
    };
    let (s4, opcode) = s3.fetch_byte();
    let s5 = CpuView { opcodes: s4.opcodes.push((s3.reg.pc, opcode)), ..s4 };
    lemma_execute_cycles(s5, opcode);
}


/// Interrupt priority: with IME set, of the interrupts both enabled in IE and requested in IF
/// the one of lowest bit `k` is serviced (V-Blank before LCD STAT before timer before serial
/// before joypad). Its handler at 0x40 + 8 * k is entered with IME cleared, only bit `k` of IF is
/// cleared, and the others stay requested. With nothing pending, or IME clear, nothing happens.
pub proof fn law_interrupt_priority(s: CpuView, k: u8)
    requires
        s.memory.wf(),
    ensures
        ({
            let pending = s.load(INTERRUPT_ENABLE) & s.load(INTERRUPT_FLAG);
            let t = s.service_interrupts();
            &&& (s.reg.ime && k < 5 && pending & (1u8 << k) != 0 && (forall|j: u8|
                j < k ==> #[trigger] (pending & (1u8 << j)) == 0)) ==> {
                &&& t.reg.pc == 0x40 + 8 * k
                &&& !t.reg.ime
                &&& t.load(INTERRUPT_FLAG) == s.load(INTERRUPT_FLAG) & !(1u8 << k)
            }
            &&& (!s.reg.ime || pending & 0x1F == 0) ==> t == s
        }),
{
    let pending = s.load(INTERRUPT_ENABLE) & s.load(INTERRUPT_FLAG);
    assert(1u8 << 0u8 == 0x01 && 1u8 << 1u8 == 0x02 && 1u8 << 2u8 == 0x04 && 1u8 << 3u8 == 0x08
        && 1u8 << 4u8 == 0x10 && (pending & 0x1F == 0 ==> pending & 0x01 == 0 && pending & 0x02 == 0
        && pending & 0x04 == 0 && pending & 0x08 == 0 && pending & 0x10 == 0)) by (bit_vector);
    if s.reg.ime && k < 5 && pending & (1u8 << k) != 0 && (forall|j: u8|
        j < k ==> #[trigger] (pending & (1u8 << j)) == 0) {
        if k >= 1 {
            assert(pending & (1u8 << 0u8) == 0);
        }
        if k >= 2 {
            assert(pending & (1u8 << 1u8) == 0);
        }
        if k >= 3 {
            assert(pending & (1u8 << 2u8) == 0);
        }
        if k >= 4 {
            assert(pending & (1u8 << 3u8) == 0);
        }
        let flag = s.load(INTERRUPT_FLAG);
        let address = (0x40 + 8 * k) as u16;
        let h = s.handle_interrupt(address);
        assert(h.memory.data.len() == s.memory.data.len());
        assert(h.store(INTERRUPT_FLAG, flag & !(1u8 << k)).load(INTERRUPT_FLAG) == flag & !(1u8
            << k));
    }
}

impl CpuView {
    /// Whether the counters leave room for `n` more steps: each step adds at most 44 cycles,
    /// four dots to the frame counter's reach, and four to the background column measure.
    pub open spec fn room_for_steps(self, n: nat) -> bool {
        &&& self.cycles + MAX_STEP_CYCLES * n <= u64::MAX
        &&& self.ppu.frame + 4 * n <= u64::MAX
        &&& column_measure(self.ppu.bgw) + 4 * n <= 8 * (0xFFFF - 36)
    }
}

/// A step that has room runs the PPU for four dots: the frame counter and the background
/// column measure grow by at most four, the cycles by at most 44, and one opcode is logged.
pub proof fn lemma_step_room(s: CpuView)
    requires
        s.wf(),
        s.can_step(),
    ensures
        s.step().ppu.frame <= s.ppu.frame + 4,
        column_measure(s.step().ppu.bgw) <= column_measure(s.ppu.bgw) + 4,
        s.cycles <= s.step().cycles <= s.cycles + MAX_STEP_CYCLES,
        s.step().opcodes.len() == s.opcodes.len() + 1,
{
    reveal(CpuView::step);
    lemma_tcycles_room(s.ppu, s.memory, 4);
    lemma_tcycles_column(s.ppu, s.memory, 4);
    lemma_step_cycles(s);
    law_step_logs_one_opcode(s);
    let (ppu, memory) = step_tcycles(s.ppu, s.memory, 4);
    let s1 = CpuView { ppu, memory, ..s };
    lemma_service_cycles(s1);
    let s2 = s1.service_interrupts();
    let s3 = if s2.reg.ime_next {
        s2.with_reg(Registers { ime: true, ime_next: false, ..s2.reg })
    } else {
        s2
    };
    let location = s3.reg.pc;
    let (s4, opcode) = s3.fetch_byte();
    let s5 = CpuView { opcodes: s4.opcodes.push((location, opcode)), ..s4 };
    lemma_execute_cycles(s5, opcode);
    assert(s2.ppu == ppu);
}

/// With room for `n` steps and `i < n` steps already taken within their bounds, the next step
/// is allowed.
pub proof fn lemma_room_allows_step(s0: CpuView, s: CpuView, n: nat, i: nat)
    requires
        s0.room_for_steps(n),
        i < n,
        s.cycles <= s0.cycles + MAX_STEP_CYCLES * i,
        s.ppu.frame <= s0.ppu.frame + 4 * i,
        column_measure(s.ppu.bgw) <= column_measure(s0.ppu.bgw) + 4 * i,
        0 <= fetch_phase(s.ppu.bgw),
    ensures
        s.can_step(),
{
}

} // verus!
