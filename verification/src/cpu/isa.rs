use vstd::prelude::*;

use crate::cpu::alu;
use crate::cpu::CpuView;
use crate::messages::unknown_opcode_text;
use crate::registers::{bit_of, high_byte, law_register_pairs, low_byte, Registers};

verus! {

/// The 16-bit loads, stack transfers and `LD (a16),SP`.
pub open spec fn is_load16(op: u8) -> bool {
    op == 0x01 || op == 0x11 || op == 0x21 || op == 0x31 || op == 0x08 || op == 0xF8 || op == 0xF9
        || op == 0xC1 || op == 0xD1 || op == 0xE1 || op == 0xF1 || op == 0xC5 || op == 0xD5
        || op == 0xE5 || op == 0xF5
}

/// The 8-bit loads between registers, immediates and memory.
pub open spec fn is_load8(op: u8) -> bool {
    (0x40 <= op <= 0x7F && op != 0x76) || op == 0x06 || op == 0x0E || op == 0x16 || op == 0x1E
        || op == 0x26 || op == 0x2E || op == 0x36 || op == 0x3E || op == 0x02 || op == 0x12
        || op == 0x0A || op == 0x1A || op == 0x22 || op == 0x32 || op == 0x2A || op == 0x3A
        || op == 0xE0 || op == 0xE2 || op == 0xEA || op == 0xF0 || op == 0xF2 || op == 0xFA
}

/// The 16-bit increments, decrements and additions.
pub open spec fn is_arith16(op: u8) -> bool {
    op == 0x03 || op == 0x13 || op == 0x23 || op == 0x33 || op == 0x0B || op == 0x1B || op == 0x2B
        || op == 0x3B || op == 0x09 || op == 0x19 || op == 0x29 || op == 0x39 || op == 0xE8
}

/// The register of `INC r`/`DEC r` opcodes (bits 3-5), with 6 standing for (HL).
pub open spec fn is_inc8(op: u8) -> bool {
    op == 0x04 || op == 0x0C || op == 0x14 || op == 0x1C || op == 0x24 || op == 0x2C || op == 0x34
        || op == 0x3C
}

pub open spec fn is_dec8(op: u8) -> bool {
    op == 0x05 || op == 0x0D || op == 0x15 || op == 0x1D || op == 0x25 || op == 0x2D || op == 0x35
        || op == 0x3D
}

/// The 8-bit arithmetic and logic, `DAA`, `CPL`, `SCF` and `CCF`.
pub open spec fn is_arith8(op: u8) -> bool {
    is_inc8(op) || is_dec8(op) || (0x80 <= op <= 0xBF) || op == 0xC6 || op == 0xCE || op == 0xD6
        || op == 0xDE || op == 0xE6 || op == 0xEE || op == 0xF6 || op == 0xFE || op == 0x27
        || op == 0x2F || op == 0x37 || op == 0x3F
}

/// The rotates of A (`RLCA`, `RRCA`, `RLA`, `RRA`).
pub open spec fn is_rotate_a(op: u8) -> bool {
    op == 0x07 || op == 0x0F || op == 0x17 || op == 0x1F
}

/// The restart vectors.
pub open spec fn is_rst(op: u8) -> bool {
    op == 0xC7 || op == 0xCF || op == 0xD7 || op == 0xDF || op == 0xE7 || op == 0xEF || op == 0xF7
        || op == 0xFF
}

/// Jumps, calls, returns, restarts and the interrupt enable/disable instructions.
pub open spec fn is_control(op: u8) -> bool {
    op == 0x18 || op == 0x20 || op == 0x28 || op == 0x30 || op == 0x38 || op == 0xC2 || op == 0xC3
        || op == 0xCA || op == 0xD2 || op == 0xDA || op == 0xE9 || op == 0xC4 || op == 0xCC
        || op == 0xCD || op == 0xD4 || op == 0xDC || op == 0xC0 || op == 0xC8 || op == 0xC9
        || op == 0xD0 || op == 0xD8 || op == 0xD9 || is_rst(op) || op == 0xF3 || op == 0xFB
}

/// Whether the processor implements `op` (0xCB introduces the bit instructions).
pub open spec fn is_known_opcode(op: u8) -> bool {
    op == 0x00 || op == 0xCB || is_load16(op) || is_load8(op) || is_arith16(op) || is_arith8(op)
        || is_rotate_a(op) || is_control(op)
}

/// The condition of a conditional jump, call or return: NZ, Z, NC or C by bits 3-4.
pub open spec fn condition(r: Registers, op: u8) -> bool {
    let c = (op >> 3u8) & 3;
    if c == 0 {
        !r.zf()
    } else if c == 1 {
        r.zf()
    } else if c == 2 {
        !r.cf()
    } else {
        r.cf()
    }
}

impl CpuView {
    pub open spec fn load16(self, op: u8) -> (CpuView, u64) {
        if op == 0x01 || op == 0x11 || op == 0x21 || op == 0x31 {
            // LD rr,d16
            let (s, value) = self.fetch_word();
            let reg = if op == 0x01 {
                s.reg.with_bc(value)
            } else if op == 0x11 {
                s.reg.with_de(value)
            } else if op == 0x21 {
                s.reg.with_hl(value)
            } else {
                Registers { sp: value, ..s.reg }
            };
            (s.with_reg(reg), 12)
        } else if op == 0x08 {
            // LD (a16),SP
            let (s, address) = self.fetch_word();
            (
                CpuView {
                    memory: s.memory.store_word(address, low_byte(s.reg.sp), high_byte(s.reg.sp)),
                    ..s
                },
                20,
            )
        } else if op == 0xF8 {
            // LD HL,SP+r8
            let (s, b) = self.fetch_byte();
            let offset = alu::sign_extend(b);
            let sp = s.reg.sp;
            (s.with_reg(alu::sp_offset_flags(s.reg.with_hl(sp.wrapping_add(offset)), sp, offset)), 12)
        } else if op == 0xF9 {
            // LD SP,HL
            (self.with_reg(Registers { sp: self.reg.hl(), ..self.reg }), 8)
        } else if op == 0xC1 || op == 0xD1 || op == 0xE1 || op == 0xF1 {
            // POP rr
            let (s, value) = self.pop_word();
            let reg = if op == 0xC1 {
                s.reg.with_bc(value)
            } else if op == 0xD1 {
                s.reg.with_de(value)
            } else if op == 0xE1 {
                s.reg.with_hl(value)
            } else {
                s.reg.with_af(value)
            };
            (s.with_reg(reg), 12)
        } else {
            // PUSH rr
            let value = if op == 0xC5 {
                self.reg.bc()
            } else if op == 0xD5 {
                self.reg.de()
            } else if op == 0xE5 {
                self.reg.hl()
            } else {
                self.reg.af()
            };
            (self.push_word(value), 16)
        }
    }

    pub open spec fn load8(self, op: u8) -> (CpuView, u64) {
        if 0x40 <= op <= 0x7F {
            // LD r8,r8
            let dest = (op >> 3u8) & 0x07;
            let source = op & 0x07;
            (
                self.write_r8(dest, self.read_r8(source)),
                if source == 0x06 || dest == 0x06 {
                    8
                } else {
                    4
                },
            )
        } else if op == 0x06 || op == 0x0E || op == 0x16 || op == 0x1E || op == 0x26 || op == 0x2E
            || op == 0x36 || op == 0x3E {
            // LD r8,d8
            let (s, value) = self.fetch_byte();
            (s.write_r8(op >> 3u8, value), if op == 0x36 { 12 } else { 8 })
        } else if op == 0x02 {
            (self.store(self.reg.bc(), self.reg.a), 8)
        } else if op == 0x12 {
            (self.store(self.reg.de(), self.reg.a), 8)
        } else if op == 0x0A {
            (self.with_reg(Registers { a: self.load(self.reg.bc()), ..self.reg }), 8)
        } else if op == 0x1A {
            (self.with_reg(Registers { a: self.load(self.reg.de()), ..self.reg }), 8)
        } else if op == 0x22 || op == 0x32 {
            // LD (HL+),A / LD (HL-),A
            let hl = self.reg.hl();
            let s = self.store(hl, self.reg.a);
            let next = if op == 0x22 { hl.wrapping_add(1) } else { hl.wrapping_sub(1) };
            (s.with_reg(s.reg.with_hl(next)), 8)
        } else if op == 0x2A || op == 0x3A {
            // LD A,(HL+) / LD A,(HL-)
            let hl = self.reg.hl();
            let next = if op == 0x2A { hl.wrapping_add(1) } else { hl.wrapping_sub(1) };
            (self.with_reg(Registers { a: self.load(hl), ..self.reg }.with_hl(next)), 8)
        } else if op == 0xE0 {
            let (s, b) = self.fetch_byte();
            (s.store((0xFF00 + b) as u16, s.reg.a), 12)
        } else if op == 0xE2 {
            (self.store((0xFF00 + self.reg.c) as u16, self.reg.a), 8)
        } else if op == 0xEA {
            let (s, address) = self.fetch_word();
            (s.store(address, s.reg.a), 16)
        } else if op == 0xF0 {
            let (s, b) = self.fetch_byte();
            (s.with_reg(Registers { a: s.load((0xFF00 + b) as u16), ..s.reg }), 12)
        } else if op == 0xF2 {
            (self.with_reg(Registers { a: self.load((0xFF00 + self.reg.c) as u16), ..self.reg }), 8)
        } else {
            // LD A,(a16)
            let (s, address) = self.fetch_word();
            (s.with_reg(Registers { a: s.load(address), ..s.reg }), 16)
        }
    }

    pub open spec fn arith16(self, op: u8) -> (CpuView, u64) {
        if op == 0x03 {
            (self.with_reg(self.reg.with_bc(self.reg.bc().wrapping_add(1))), 8)
        } else if op == 0x13 {
            (self.with_reg(self.reg.with_de(self.reg.de().wrapping_add(1))), 8)
        } else if op == 0x23 {
            (self.with_reg(self.reg.with_hl(self.reg.hl().wrapping_add(1))), 8)
        } else if op == 0x33 {
            (self.with_reg(Registers { sp: self.reg.sp.wrapping_add(1), ..self.reg }), 8)
        } else if op == 0x0B {
            (self.with_reg(self.reg.with_bc(self.reg.bc().wrapping_sub(1))), 8)
        } else if op == 0x1B {
            (self.with_reg(self.reg.with_de(self.reg.de().wrapping_sub(1))), 8)
        } else if op == 0x2B {
            (self.with_reg(self.reg.with_hl(self.reg.hl().wrapping_sub(1))), 8)
        } else if op == 0x3B {
            (self.with_reg(Registers { sp: self.reg.sp.wrapping_sub(1), ..self.reg }), 8)
        } else if op == 0x09 {
            (self.with_reg(alu::add_hl(self.reg, self.reg.bc())), 8)
        } else if op == 0x19 {
            (self.with_reg(alu::add_hl(self.reg, self.reg.de())), 8)
        } else if op == 0x29 {
            (self.with_reg(alu::add_hl(self.reg, self.reg.hl())), 8)
        } else if op == 0x39 {
            (self.with_reg(alu::add_hl(self.reg, self.reg.sp)), 8)
        } else {
            // ADD SP,r8
            let (s, b) = self.fetch_byte();
            let offset = alu::sign_extend(b);
            let sp = s.reg.sp;
            (
                s.with_reg(
                    alu::sp_offset_flags(Registers { sp: sp.wrapping_add(offset), ..s.reg }, sp, offset),
                ),
                16,
            )
        }
    }

    pub open spec fn arith8(self, op: u8) -> (CpuView, u64) {
        if is_inc8(op) {
            let i = op >> 3u8;
            let (reg, result) = alu::inc8(self.reg, self.read_r8(i));
            (self.with_reg(reg).write_r8(i, result), if i == 6 { 12 } else { 4 })
        } else if is_dec8(op) {
            let i = op >> 3u8;
            let (reg, result) = alu::dec8(self.reg, self.read_r8(i));
            (self.with_reg(reg).write_r8(i, result), if i == 6 { 12 } else { 4 })
        } else if 0x80 <= op <= 0xBF {
            let source = op & 0x07;
            let value = self.read_r8(source);
            let kind = op & 0xF8;
            let reg = if kind == 0x80 {
                alu::add_a(self.reg, value, false)
            } else if kind == 0x88 {
                alu::add_a(self.reg, value, true)
            } else if kind == 0x90 {
                alu::sub_a(self.reg, value, false)
            } else if kind == 0x98 {
                alu::sub_a(self.reg, value, true)
            } else if kind == 0xA0 {
                alu::and_a(self.reg, value)
            } else if kind == 0xA8 {
                alu::xor_a(self.reg, value)
            } else if kind == 0xB0 {
                alu::or_a(self.reg, value)
            } else {
                alu::cp_a(self.reg, value)
            };
            (self.with_reg(reg), if source == 0x06 { 8 } else { 4 })
        } else if op == 0xC6 || op == 0xCE || op == 0xD6 || op == 0xDE || op == 0xE6 || op == 0xEE
            || op == 0xF6 || op == 0xFE {
            // ALU A,d8
            let (s, value) = self.fetch_byte();
            let reg = if op == 0xC6 {
                alu::add_a(s.reg, value, false)
            } else if op == 0xCE {
                alu::add_a(s.reg, value, true)
            } else if op == 0xD6 {
                alu::sub_a(s.reg, value, false)
            } else if op == 0xDE {
                alu::sub_a(s.reg, value, true)
            } else if op == 0xE6 {
                alu::and_a(s.reg, value)
            } else if op == 0xEE {
                alu::xor_a(s.reg, value)
            } else if op == 0xF6 {
                alu::or_a(s.reg, value)
            } else {
                alu::cp_a(s.reg, value)
            };
            (s.with_reg(reg), 8)
        } else if op == 0x27 {
            (self.with_reg(alu::daa(self.reg)), 4)
        } else if op == 0x2F {
            // CPL
            (self.with_reg(Registers { a: !self.reg.a, ..self.reg }.with_nf(true).with_hf(true)), 4)
        } else if op == 0x37 {
            // SCF
            (self.with_reg(self.reg.with_nf(false).with_hf(false).with_cf(true)), 4)
        } else {
            // CCF
            (self.with_reg(self.reg.with_nf(false).with_hf(false).with_cf(!self.reg.cf())), 4)
        }
    }

    pub open spec fn rotate_a(self, op: u8) -> (CpuView, u64) {
        let (reg, a) = if op == 0x07 {
            alu::rlc(self.reg, self.reg.a, false)
        } else if op == 0x0F {
            alu::rrc(self.reg, self.reg.a, false)
        } else if op == 0x17 {
            alu::rl(self.reg, self.reg.a, false)
        } else {
            alu::rr(self.reg, self.reg.a, false)
        };
        (self.with_reg(Registers { a, ..reg }.with_zf(false)), 4)
    }

    /// `JR`: fetch the signed offset and, when taken, add it to PC.
    pub open spec fn jr(self, taken: bool) -> (CpuView, u64) {
        let (s, b) = self.fetch_byte();
        if taken {
            (s.with_reg(Registers { pc: s.reg.pc.wrapping_add(alu::sign_extend(b)), ..s.reg }), 12)
        } else {
            (s, 8)
        }
    }

    /// `JP`: fetch the address and, when taken, jump there.
    pub open spec fn jp(self, taken: bool) -> (CpuView, u64) {
        let (s, address) = self.fetch_word();
        if taken {
            (s.with_reg(Registers { pc: address, ..s.reg }), 16)
        } else {
            (s, 12)
        }
    }

    /// `CALL`: fetch the address and, when taken, push the return address and jump there.
    pub open spec fn call(self, taken: bool) -> (CpuView, u64) {
        let (s, address) = self.fetch_word();
        if taken {
            let s = s.push_word(s.reg.pc);
            (s.with_reg(Registers { pc: address, ..s.reg }), 24)
        } else {
            (s, 12)
        }
    }

    /// `RET cc`: when taken, pop PC.
    pub open spec fn ret(self, taken: bool) -> (CpuView, u64) {
        if taken {
            let (s, address) = self.pop_word();
            (s.with_reg(Registers { pc: address, ..s.reg }), 20)
        } else {
            (self, 8)
        }
    }

    pub open spec fn control(self, op: u8) -> (CpuView, u64) {
        if op == 0x18 {
            self.jr(true)
        } else if op == 0x20 || op == 0x28 || op == 0x30 || op == 0x38 {
            self.jr(condition(self.reg, op))
        } else if op == 0xC3 {
            self.jp(true)
        } else if op == 0xC2 || op == 0xCA || op == 0xD2 || op == 0xDA {
            self.jp(condition(self.reg, op))
        } else if op == 0xE9 {
            // JP HL
            (self.with_reg(Registers { pc: self.reg.hl(), ..self.reg }), 4)
        } else if op == 0xCD {
            self.call(true)
        } else if op == 0xC4 || op == 0xCC || op == 0xD4 || op == 0xDC {
            self.call(condition(self.reg, op))
        } else if op == 0xC0 || op == 0xC8 || op == 0xD0 || op == 0xD8 {
            self.ret(condition(self.reg, op))
        } else if op == 0xC9 || op == 0xD9 {
            // RET / RETI
            let (s, address) = self.pop_word();
            (s.with_reg(Registers { pc: address, ime: op == 0xD9 || s.reg.ime, ..s.reg }), 16)
        } else if is_rst(op) {
            let s = self.push_word(self.reg.pc);
            (s.with_reg(Registers { pc: (op & 0x38) as u16, ..s.reg }), 16)
        } else if op == 0xF3 {
            // DI
            (self.with_reg(Registers { ime: false, ime_next: false, ..self.reg }), 4)
        } else {
            // EI
            (self.with_reg(Registers { ime_next: true, ..self.reg }), 4)
        }
    }

    /// The result of the bit instruction `op` (after the 0xCB prefix) on operand `value`.
    pub open spec fn cb_result(reg: Registers, op: u8, value: u8) -> (Registers, u8) {
        let bit = (op >> 3u8) & 0x07;
        if op <= 0x07 {
            alu::rlc(reg, value, true)
        } else if op <= 0x0F {
            alu::rrc(reg, value, true)
        } else if op <= 0x17 {
            alu::rl(reg, value, true)
        } else if op <= 0x1F {
            alu::rr(reg, value, true)
        } else if op <= 0x27 {
            alu::sla(reg, value)
        } else if op <= 0x2F {
            alu::sra(reg, value)
        } else if op <= 0x37 {
            alu::swap(reg, value)
        } else if op <= 0x3F {
            alu::srl(reg, value)
        } else if op <= 0x7F {
            (alu::bit_test(reg, value, bit), value)
        } else if op <= 0xBF {
            (reg, value & !(1u8 << bit))
        } else {
            (reg, value | (1u8 << bit))
        }
    }

    /// The instruction after the 0xCB prefix: it fetches the second opcode and works on operand
    /// `op & 7`. The rotations, shifts, `SWAP`, `RES` and `SET` write the operand back; `BIT`
    /// (0x40..=0x7F) only reads it and changes nothing but the flags.
    pub open spec fn extension(self) -> (CpuView, u64) {
        let (s, op) = self.fetch_byte();
        let i = op & 0x07;
        let (reg, value) = Self::cb_result(s.reg, op, s.read_r8(i));
        (
            if 0x40 <= op <= 0x7F {
                s.with_reg(reg)
            } else {
                s.with_reg(reg).write_r8(i, value)
            },
            if i == 0x06 {
                if 0x40 <= op <= 0x7F {
                    12
                } else {
                    16
                }
            } else {
                8
            },
        )
    }

    /// Executes opcode `op` (already fetched): the new machine state and the cycles it took. An
    /// unknown opcode records an error naming it and its address and takes no cycles.
    pub open spec fn execute_opcode(self, op: u8) -> (CpuView, u64) {
        if op == 0x00 {
            (self, 4)
        } else if op == 0xCB {
            self.extension()
        } else if is_load16(op) {
            self.load16(op)
        } else if is_load8(op) {
            self.load8(op)
        } else if is_arith16(op) {
            self.arith16(op)
        } else if is_arith8(op) {
            self.arith8(op)
        } else if is_rotate_a(op) {
            self.rotate_a(op)
        } else if is_control(op) {
            self.control(op)
        } else {
            (
                CpuView {
                    errors: self.errors.push(unknown_opcode_text(op, self.reg.pc.wrapping_sub(1))),
                    ..self
                },
                0,
            )
        }
    }
}

} // verus!

verus! {

/// What every instruction keeps: the cycle count, the PPU, the opcode log and the errors.
pub open spec fn keeps_bookkeeping(s: CpuView, t: CpuView) -> bool {
    &&& t.cycles == s.cycles
    &&& t.ppu == s.ppu
    &&& t.opcodes == s.opcodes
    &&& t.errors == s.errors
}

proof fn lemma_load16_cycles(s: CpuView, op: u8)
    requires
        is_load16(op),
    ensures
        4 <= s.load16(op).1 <= 24,
        keeps_bookkeeping(s, s.load16(op).0),
        s.load16(op).0.reg.ime == s.reg.ime,
        s.load16(op).0.reg.ime_next == s.reg.ime_next,
{
}

proof fn lemma_load8_cycles(s: CpuView, op: u8)
    requires
        is_load8(op),
    ensures
        4 <= s.load8(op).1 <= 24,
        keeps_bookkeeping(s, s.load8(op).0),
        s.load8(op).0.reg.ime == s.reg.ime,
        s.load8(op).0.reg.ime_next == s.reg.ime_next,
{
}

proof fn lemma_arith16_cycles(s: CpuView, op: u8)
    requires
        is_arith16(op),
    ensures
        4 <= s.arith16(op).1 <= 24,
        keeps_bookkeeping(s, s.arith16(op).0),
        s.arith16(op).0.reg.ime == s.reg.ime,
        s.arith16(op).0.reg.ime_next == s.reg.ime_next,
{
}

/// What an instruction keeps: the bookkeeping and both interrupt latches.
pub open spec fn keeps_control(s: CpuView, t: CpuView) -> bool {
    &&& keeps_bookkeeping(s, t)
    &&& t.reg.ime == s.reg.ime
    &&& t.reg.ime_next == s.reg.ime_next
}

proof fn lemma_incdec_keeps(s: CpuView, op: u8)
    requires
        is_inc8(op) || is_dec8(op),
    ensures
        4 <= s.arith8(op).1 <= 24,
        keeps_control(s, s.arith8(op).0),
{
    let i = op >> 3u8;
    if is_inc8(op) {
        lemma_operand_write_keeps(s.with_reg(alu::inc8(s.reg, s.read_r8(i)).0), i, alu::inc8(s.reg, s.read_r8(i)).1);
    } else {
        lemma_operand_write_keeps(s.with_reg(alu::dec8(s.reg, s.read_r8(i)).0), i, alu::dec8(s.reg, s.read_r8(i)).1);
    }
}

/// The eight-bit arithmetic and logic change only A and F.
proof fn lemma_alu_keeps_latches(r: Registers, value: u8)
    ensures
        alu::add_a(r, value, false).ime == r.ime && alu::add_a(r, value, false).ime_next
            == r.ime_next,
        alu::add_a(r, value, true).ime == r.ime && alu::add_a(r, value, true).ime_next == r.ime_next,
        alu::sub_a(r, value, false).ime == r.ime && alu::sub_a(r, value, false).ime_next
            == r.ime_next,
        alu::sub_a(r, value, true).ime == r.ime && alu::sub_a(r, value, true).ime_next == r.ime_next,
        alu::and_a(r, value).ime == r.ime && alu::and_a(r, value).ime_next == r.ime_next,
        alu::xor_a(r, value).ime == r.ime && alu::xor_a(r, value).ime_next == r.ime_next,
        alu::or_a(r, value).ime == r.ime && alu::or_a(r, value).ime_next == r.ime_next,
        alu::cp_a(r, value).ime == r.ime && alu::cp_a(r, value).ime_next == r.ime_next,
{
}

proof fn lemma_alu_register_keeps(s: CpuView, op: u8)
    requires
        0x80 <= op <= 0xBF,
    ensures
        4 <= s.arith8(op).1 <= 24,
        keeps_control(s, s.arith8(op).0),
{
    lemma_alu_keeps_latches(s.reg, s.read_r8(op & 0x07));
}

proof fn lemma_alu_immediate_keeps(s: CpuView, op: u8)
    requires
        op == 0xC6 || op == 0xCE || op == 0xD6 || op == 0xDE || op == 0xE6 || op == 0xEE || op == 0xF6
            || op == 0xFE,
    ensures
        4 <= s.arith8(op).1 <= 24,
        keeps_control(s, s.arith8(op).0),
{
    let (t, value) = s.fetch_byte();
    lemma_alu_keeps_latches(t.reg, value);
}

proof fn lemma_arith8_misc_keeps(s: CpuView, op: u8)
    requires
        op == 0x27 || op == 0x2F || op == 0x37 || op == 0x3F,
    ensures
        4 <= s.arith8(op).1 <= 24,
        keeps_control(s, s.arith8(op).0),
{
}

proof fn lemma_arith8_cycles(s: CpuView, op: u8)
    requires
        is_arith8(op),
    ensures
        4 <= s.arith8(op).1 <= 24,
        keeps_bookkeeping(s, s.arith8(op).0),
        s.arith8(op).0.reg.ime == s.reg.ime,
        s.arith8(op).0.reg.ime_next == s.reg.ime_next,
{
    if is_inc8(op) || is_dec8(op) {
        lemma_incdec_keeps(s, op);
    } else if 0x80 <= op <= 0xBF {
        lemma_alu_register_keeps(s, op);
    } else if op == 0xC6 || op == 0xCE || op == 0xD6 || op == 0xDE || op == 0xE6 || op == 0xEE
        || op == 0xF6 || op == 0xFE {
        lemma_alu_immediate_keeps(s, op);
    } else {
        lemma_arith8_misc_keeps(s, op);
    }
}

/// Writing an operand keeps the bookkeeping and the interrupt latches.
proof fn lemma_operand_write_keeps(s: CpuView, i: u8, value: u8)
    ensures
        keeps_bookkeeping(s, s.write_r8(i, value)),
        s.write_r8(i, value).reg.ime == s.reg.ime,
        s.write_r8(i, value).reg.ime_next == s.reg.ime_next,
{
}

proof fn lemma_control_cycles(s: CpuView, op: u8)
    requires
        is_control(op),
    ensures
        4 <= s.control(op).1 <= 24,
        keeps_bookkeeping(s, s.control(op).0),
        s.control(op).0.reg.ime == if op == 0xF3 {
            false
        } else if op == 0xD9 {
            true
        } else {
            s.reg.ime
        },
        s.control(op).0.reg.ime_next == if op == 0xFB {
            true
        } else if op == 0xF3 {
            false
        } else {
            s.reg.ime_next
        },
{
}

/// The cycles of a known opcode lie between 4 and 24; an unknown one takes none and records an
/// error.
#[verifier::rlimit(50)]
pub proof fn lemma_execute_cycles(s: CpuView, op: u8)
    ensures
        s.execute_opcode(op).1 <= 24,
        is_known_opcode(op) ==> s.execute_opcode(op).1 >= 4,
        is_known_opcode(op) ==> s.execute_opcode(op).0.errors == s.errors,
        !is_known_opcode(op) ==> s.execute_opcode(op).0.errors.len() == s.errors.len() + 1,
        s.execute_opcode(op).0.cycles == s.cycles,
        s.execute_opcode(op).0.ppu == s.ppu,
        s.execute_opcode(op).0.opcodes == s.opcodes,
        s.execute_opcode(op).0.reg.ime == if op == 0xF3 {
            false
        } else if op == 0xD9 {
            true
        } else {
            s.reg.ime
        },
        s.execute_opcode(op).0.reg.ime_next == if op == 0xFB {
            true
        } else if op == 0xF3 {
            false
        } else {
            s.reg.ime_next
        },
{
    if op == 0x00 {
    } else if op == 0xCB {
    } else if is_load16(op) {
        lemma_load16_cycles(s, op);
    } else if is_load8(op) {
        lemma_load8_cycles(s, op);
    } else if is_arith16(op) {
        lemma_arith16_cycles(s, op);
    } else if is_arith8(op) {
        lemma_arith8_cycles(s, op);
    } else if is_rotate_a(op) {
    } else if is_control(op) {
        lemma_control_cycles(s, op);
    } else {
    }
}


/// Whether the conditional jump, call or return `op` is taken: `NZ` (0x20, 0xC2, 0xC4, 0xC0)
/// when Z is clear, `Z` (0x28, 0xCA, 0xCC, 0xC8) when Z is set, `NC` (0x30, 0xD2, 0xD4, 0xD0)
/// when C is clear and `C` (0x38, 0xDA, 0xDC, 0xD8) when C is set.
pub open spec fn branch_taken(r: Registers, op: u8) -> bool {
    if op == 0x20 || op == 0xC2 || op == 0xC4 || op == 0xC0 {
        !r.zf()
    } else if op == 0x28 || op == 0xCA || op == 0xCC || op == 0xC8 {
        r.zf()
    } else if op == 0x30 || op == 0xD2 || op == 0xD4 || op == 0xD0 {
        !r.cf()
    } else {
        r.cf()
    }
}

/// The conditional branches follow the flags. With PC at the operand (the opcode fetched):
/// `JR cc,e` goes to PC + 1 + e when taken (12 cycles) and on to PC + 1 otherwise (8);
/// `JP cc,a16` and `CALL cc,a16` go to the little-endian address at PC when taken (16 and 24
/// cycles) and on to PC + 2 otherwise (12); `RET cc` pops PC when taken (20 cycles) and leaves it
/// otherwise (8). The flags themselves are never changed.
pub proof fn law_conditional_branches_follow_flags(s: CpuView, op: u8)
    requires
        op == 0x20 || op == 0x28 || op == 0x30 || op == 0x38 || op == 0xC2 || op == 0xCA
            || op == 0xD2 || op == 0xDA || op == 0xC4 || op == 0xCC || op == 0xD4 || op == 0xDC
            || op == 0xC0 || op == 0xC8 || op == 0xD0 || op == 0xD8,
    ensures
        ({
            let (t, cycles) = s.execute_opcode(op);
            let taken = branch_taken(s.reg, op);
            let pc = s.reg.pc;
            let target = (s.load(pc.wrapping_add(1)) as int * 256 + s.load(pc)) as u16;
            &&& t.reg.f == s.reg.f
            &&& (op == 0x20 || op == 0x28 || op == 0x30 || op == 0x38) ==> {
                &&& t.reg.pc == if taken {
                    pc.wrapping_add(1).wrapping_add(alu::sign_extend(s.load(pc)))
                } else {
                    pc.wrapping_add(1)
                }
                &&& cycles == if taken { 12u64 } else { 8u64 }
            }
            &&& (op == 0xC2 || op == 0xCA || op == 0xD2 || op == 0xDA) ==> {
                &&& t.reg.pc == if taken { target } else { pc.wrapping_add(2) }
                &&& cycles == if taken { 16u64 } else { 12u64 }
            }
            &&& (op == 0xC4 || op == 0xCC || op == 0xD4 || op == 0xDC) ==> {
                &&& t.reg.pc == if taken { target } else { pc.wrapping_add(2) }
                &&& cycles == if taken { 24u64 } else { 12u64 }
            }
            &&& (op == 0xC0 || op == 0xC8 || op == 0xD0 || op == 0xD8) ==> {
                &&& t.reg.pc == if taken {
                    (s.load(s.reg.sp.wrapping_add(1)) as int * 256 + s.load(s.reg.sp)) as u16
                } else {
                    pc
                }
                &&& cycles == if taken { 20u64 } else { 8u64 }
            }
        }),
{
    assert(((op == 0x20 || op == 0xC2 || op == 0xC4 || op == 0xC0) ==> (op >> 3u8) & 3 == 0)
        && ((op == 0x28 || op == 0xCA || op == 0xCC || op == 0xC8) ==> (op >> 3u8) & 3 == 1)
        && ((op == 0x30 || op == 0xD2 || op == 0xD4 || op == 0xD0) ==> (op >> 3u8) & 3 == 2)
        && ((op == 0x38 || op == 0xDA || op == 0xDC || op == 0xD8) ==> (op >> 3u8) & 3 == 3))
        by (bit_vector);
    assert(condition(s.reg, op) == branch_taken(s.reg, op));
}


/// What each row of the 0xCB-prefixed table does to its operand `v`, with `c` the old C flag
/// and `b` the bit number of the `BIT`/`RES`/`SET` rows ((op mod 64) / 8): `RLC`, `RRC`, `RL`,
/// `RR`, `SLA`, `SRA`, `SWAP`, `SRL` give the rotated, shifted or swapped byte; `BIT` keeps the
/// byte and sets Z exactly when bit `b` is clear; `RES` and `SET` clear or set bit `b` and keep
/// every other bit and all the flags.
pub proof fn law_prefixed_results(r: Registers, op: u8, v: u8, m: u8)
    requires
        m < 8,
    ensures
        ({
            let c: int = if r.cf() { 1 } else { 0 };
            let b = ((op % 64) / 8) as u8;
            let (reg, res) = CpuView::cb_result(r, op, v);
            &&& op < 0x08 ==> res == (2 * v) % 256 + v / 128 && reg.cf() == (v >= 128)
            &&& 0x08 <= op < 0x10 ==> res == v / 2 + 128 * (v % 2) && reg.cf() == (v % 2 == 1)
            &&& 0x10 <= op < 0x18 ==> res == (2 * v) % 256 + c && reg.cf() == (v >= 128)
            &&& 0x18 <= op < 0x20 ==> res == v / 2 + 128 * c && reg.cf() == (v % 2 == 1)
            &&& 0x20 <= op < 0x28 ==> res == (2 * v) % 256 && reg.cf() == (v >= 128)
            &&& 0x28 <= op < 0x30 ==> res == v / 2 + (if v >= 128 { 128int } else { 0int })
                && reg.cf() == (v % 2 == 1)
            &&& 0x30 <= op < 0x38 ==> res == (v % 16) * 16 + v / 16 && !reg.cf()
            &&& 0x38 <= op < 0x40 ==> res == v / 2 && reg.cf() == (v % 2 == 1)
            &&& op < 0x40 ==> reg.zf() == (res == 0) && !reg.nf() && !reg.hf()
            &&& 0x40 <= op < 0x80 ==> res == v && reg.zf() == !bit_of(v, b) && !reg.nf()
                && reg.hf() && reg.cf() == r.cf()
            &&& 0x80 <= op ==> reg == r && bit_of(res, m) == if m == b {
                op >= 0xC0
            } else {
                bit_of(v, m)
            }
        }),
{
    broadcast use crate::registers::lemma_with_bit;

    alu::law_rotates_arithmetic(r, v, true);
    alu::law_shifts_arithmetic(r, v);
    let bit = (op >> 3u8) & 0x07;
    assert((op >> 3u8) & 0x07 == ((op % 64) / 8) as u8 && (op >> 3u8) & 0x07 < 8 && (m < 8 && bit
        < 8 ==> ((v & !(1u8 << bit)) & (1u8 << m) != 0) == (m != bit && (v & (1u8 << m)) != 0)
        && ((v | (1u8 << bit)) & (1u8 << m) != 0) == (m == bit || (v & (1u8 << m)) != 0)))
        by (bit_vector);
}


/// The eight-bit ALU rows by opcode: 0x80-0xBF take operand `op & 7` (B, C, D, E, H, L, (HL),
/// A), and 0xC6, 0xCE, ..., 0xFE the byte after the opcode. Row (op mod 64) / 8 is `ADD`, `ADC`,
/// `SUB`, `SBC`, `AND`, `XOR`, `OR` or `CP`, with `c` the old C flag: A becomes the sum or
/// difference modulo 256 (C flags the carry or borrow), the bitwise and, exclusive or, or or;
/// `CP` keeps A and sets Z exactly when A equals the operand and C when A is below it. Z tells
/// whether the new A is zero for the other rows. No other register and no memory changes; PC
/// moves past an immediate; the cost is 4 cycles, or 8 with (HL) or an immediate.
#[verifier::rlimit(50)]
pub proof fn law_alu_rows(s: CpuView, op: u8)
    requires
        0x80 <= op <= 0xBF || op == 0xC6 || op == 0xCE || op == 0xD6 || op == 0xDE || op == 0xE6
            || op == 0xEE || op == 0xF6 || op == 0xFE,
    ensures
        ({
            let (t, cycles) = s.execute_opcode(op);
            let a = s.reg.a as int;
            let v = if op <= 0xBF { s.read_r8(op & 0x07) } else { s.load(s.reg.pc) };
            let c: int = if s.reg.cf() { 1 } else { 0 };
            let row = (op % 64) / 8;
            &&& row == 0 ==> t.reg.a == (a + v) % 256 && t.reg.cf() == (a + v > 255)
            &&& row == 1 ==> t.reg.a == (a + v + c) % 256 && t.reg.cf() == (a + v + c > 255)
            &&& row == 2 ==> t.reg.a == (a - v + 256) % 256 && t.reg.cf() == (a < v)
            &&& row == 3 ==> t.reg.a == (a - v - c + 512) % 256 && t.reg.cf() == (a < v + c)
            &&& row == 4 ==> t.reg.a == s.reg.a & v && !t.reg.cf()
            &&& row == 5 ==> t.reg.a == s.reg.a ^ v && !t.reg.cf()
            &&& row == 6 ==> t.reg.a == s.reg.a | v && !t.reg.cf()
            &&& row == 7 ==> t.reg.a == s.reg.a && t.reg.zf() == (a == v) && t.reg.cf() == (a < v)
            &&& row != 7 ==> t.reg.zf() == (t.reg.a == 0)
            &&& t.reg.nf() == (row == 2 || row == 3 || row == 7)
            &&& t.memory == s.memory
            &&& t.reg == Registers {
                a: t.reg.a,
                f: t.reg.f,
                pc: if op <= 0xBF { s.reg.pc } else { s.reg.pc.wrapping_add(1) },
                ..s.reg
            }
            &&& cycles == if op <= 0xBF && op & 0x07 != 6 { 4u64 } else { 8u64 }
        }),
{
    broadcast use crate::registers::lemma_with_bit;

    let v = if op <= 0xBF { s.read_r8(op & 0x07) } else { s.load(s.reg.pc) };
    assert((0x80 <= op <= 0xBF ==> op & 0xF8 == 0x80 + 8 * ((op % 64) / 8)) && op & 0x07 < 8)
        by (bit_vector);
    let r = s.reg;
    alu::law_add_sub_arithmetic(r, v, false);
    alu::law_add_sub_arithmetic(r, v, true);
    alu::law_logic_ops_bitwise(r, v, 0);
    let a = r.a;
    assert(((a.wrapping_sub(v)) == 0) == (a == v));
}



/// `RLCA`, `RRCA`, `RLA` and `RRA` rotate A as their prefixed forms do, with `c` the old C flag,
/// but always clear Z (and N and H); they take 4 cycles.
pub proof fn law_rotate_a(s: CpuView, op: u8)
    requires
        is_rotate_a(op),
    ensures
        ({
            let (t, cycles) = s.execute_opcode(op);
            let a = s.reg.a as int;
            let c: int = if s.reg.cf() { 1 } else { 0 };
            &&& op == 0x07 ==> t.reg.a == (2 * a) % 256 + a / 128 && t.reg.cf() == (a >= 128)
            &&& op == 0x0F ==> t.reg.a == a / 2 + 128 * (a % 2) && t.reg.cf() == (a % 2 == 1)
            &&& op == 0x17 ==> t.reg.a == (2 * a) % 256 + c && t.reg.cf() == (a >= 128)
            &&& op == 0x1F ==> t.reg.a == a / 2 + 128 * c && t.reg.cf() == (a % 2 == 1)
            &&& !t.reg.zf() && !t.reg.nf() && !t.reg.hf() && cycles == 4
        }),
{
    broadcast use crate::registers::lemma_with_bit;

    alu::law_rotates_arithmetic(s.reg, s.reg.a, false);
}

/// `CPL` complements A (255 - A) and sets N and H; `SCF` sets C and `CCF` inverts it, both
/// clearing N and H. Z is kept by all three and A by the last two.
pub proof fn law_flag_instructions(s: CpuView, op: u8)
    requires
        op == 0x2F || op == 0x37 || op == 0x3F,
    ensures
        ({
            let (t, cycles) = s.execute_opcode(op);
            &&& op == 0x2F ==> t.reg.a == 255 - s.reg.a && t.reg.nf() && t.reg.hf() && t.reg.cf()
                == s.reg.cf()
            &&& op == 0x37 ==> t.reg.cf() && t.reg.a == s.reg.a && !t.reg.nf() && !t.reg.hf()
            &&& op == 0x3F ==> t.reg.cf() == !s.reg.cf() && t.reg.a == s.reg.a && !t.reg.nf()
                && !t.reg.hf()
            &&& t.reg.zf() == s.reg.zf() && cycles == 4
        }),
{
    broadcast use crate::registers::lemma_with_bit;

    let a = s.reg.a;
    assert(!a as int == 255 - a) by (bit_vector);
}

/// Stepping a register pair by one, as arithmetic modulo 2^16.
proof fn lemma_pair_steps(r: Registers)
    ensures
        r.with_bc(r.bc().wrapping_add(1)).bc() == (r.bc() + 1) % 65536,
        r.with_bc(r.bc().wrapping_sub(1)).bc() == (r.bc() + 65535) % 65536,
        r.with_de(r.de().wrapping_add(1)).de() == (r.de() + 1) % 65536,
        r.with_de(r.de().wrapping_sub(1)).de() == (r.de() + 65535) % 65536,
        r.with_hl(r.hl().wrapping_add(1)).hl() == (r.hl() + 1) % 65536,
        r.with_hl(r.hl().wrapping_sub(1)).hl() == (r.hl() + 65535) % 65536,
{
    law_register_pairs(r, r.bc().wrapping_add(1));
    law_register_pairs(r, r.bc().wrapping_sub(1));
    law_register_pairs(r, r.de().wrapping_add(1));
    law_register_pairs(r, r.de().wrapping_sub(1));
    law_register_pairs(r, r.hl().wrapping_add(1));
    law_register_pairs(r, r.hl().wrapping_sub(1));
}

/// `INC rr` and `DEC rr` (BC, DE, HL, SP) add or take one modulo 2^16, change no flag and A,
/// and take 8 cycles.
#[verifier::rlimit(50)]
pub proof fn law_pair_inc_dec(s: CpuView, op: u8)
    requires
        op == 0x03 || op == 0x13 || op == 0x23 || op == 0x33 || op == 0x0B || op == 0x1B || op
            == 0x2B || op == 0x3B,
    ensures
        ({
            let (t, cycles) = s.arith16(op);
            &&& s.execute_opcode(op) == s.arith16(op)
            &&& op == 0x03 ==> t.reg.bc() == (s.reg.bc() + 1) % 65536
            &&& op == 0x13 ==> t.reg.de() == (s.reg.de() + 1) % 65536
            &&& op == 0x23 ==> t.reg.hl() == (s.reg.hl() + 1) % 65536
            &&& op == 0x33 ==> t.reg.sp == (s.reg.sp + 1) % 65536
            &&& op == 0x0B ==> t.reg.bc() == (s.reg.bc() + 65535) % 65536
            &&& op == 0x1B ==> t.reg.de() == (s.reg.de() + 65535) % 65536
            &&& op == 0x2B ==> t.reg.hl() == (s.reg.hl() + 65535) % 65536
            &&& op == 0x3B ==> t.reg.sp == (s.reg.sp + 65535) % 65536
            &&& t.reg.f == s.reg.f && t.reg.a == s.reg.a && cycles == 8
        }),
{
    let r = s.reg;
    assert(s.execute_opcode(op) == s.arith16(op));
    lemma_pair_steps(r);
}

/// `RST n` pushes the address of the next instruction and jumps to `op - 0xC7` (0x00, 0x08, ...,
/// 0x38); SP goes down by two and it takes 16 cycles.
pub proof fn law_restart(s: CpuView, op: u8)
    requires
        is_rst(op),
    ensures
        s.execute_opcode(op).0.reg.pc == op - 0xC7,
        s.execute_opcode(op).0.reg.sp == (s.reg.sp + 65534) % 65536,
        s.execute_opcode(op).1 == 16,
{
    assert(is_rst(op) ==> (op & 0x38) as int == op - 0xC7) by (bit_vector);
}

} // verus!
