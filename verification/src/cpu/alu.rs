use vstd::prelude::*;

use crate::registers::{bit_of, Registers};

verus! {

/// The carry-in of an add or subtract: 1 when the carry flag is to be used and is set.
pub open spec fn carry_in(r: Registers, with_carry: bool) -> u8 {
    if with_carry && r.cf() {
        1
    } else {
        0
    }
}

/// `INC`: the byte plus one; Z if it wrapped to zero, N cleared, H on a carry out of bit 3.
pub open spec fn inc8(r: Registers, value: u8) -> (Registers, u8) {
    let result = value.wrapping_add(1);
    (r.with_zf(result == 0).with_nf(false).with_hf((value & 0x0F) == 0x0F), result)
}

/// `DEC`: the byte minus one; Z if the result is zero, N set, H on a borrow from bit 4.
pub open spec fn dec8(r: Registers, value: u8) -> (Registers, u8) {
    let result = value.wrapping_sub(1);
    (r.with_zf(result == 0).with_nf(true).with_hf((value & 0x0F) == 0), result)
}

/// `ADD`/`ADC A,v`: A becomes A + v (+ carry) modulo 256; H and C flag the carries out of bit 3
/// and bit 7.
pub open spec fn add_a(r: Registers, value: u8, with_carry: bool) -> Registers {
    let carry = carry_in(r, with_carry);
    let a = r.a;
    let result = a.wrapping_add(value).wrapping_add(carry);
    Registers {
        a: result,
        ..r.with_zf(result == 0).with_nf(false).with_hf(
            (a & 0x0F) + (value & 0x0F) + carry > 0x0F,
        ).with_cf(a + value + carry > 0xFF)
    }
}

/// `SUB`/`SBC A,v`: A becomes A - v (- carry) modulo 256; H and C flag the borrows.
pub open spec fn sub_a(r: Registers, value: u8, with_carry: bool) -> Registers {
    let carry = carry_in(r, with_carry);
    let a = r.a;
    let result = a.wrapping_sub(value).wrapping_sub(carry);
    Registers {
        a: result,
        ..r.with_zf(result == 0).with_nf(true).with_hf(
            (a & 0x0F) < (value & 0x0F).wrapping_add(carry),
        ).with_cf(a < value + carry)
    }
}

/// `AND A,v`: Z from the result, N and C cleared, H set.
pub open spec fn and_a(r: Registers, value: u8) -> Registers {
    let a = r.a & value;
    Registers { a, ..r }.with_zf(a == 0).with_nf(false).with_hf(true).with_cf(false)
}

/// `XOR A,v`: Z from the result, the other flags cleared.
pub open spec fn xor_a(r: Registers, value: u8) -> Registers {
    let a = r.a ^ value;
    Registers { a, ..r }.with_zf(a == 0).with_nf(false).with_hf(false).with_cf(false)
}

/// `OR A,v`: Z from the result, the other flags cleared.
pub open spec fn or_a(r: Registers, value: u8) -> Registers {
    let a = r.a | value;
    Registers { a, ..r }.with_zf(a == 0).with_nf(false).with_hf(false).with_cf(false)
}

/// `CP A,v`: the flags of `SUB A,v` while A is kept.
pub open spec fn cp_a(r: Registers, value: u8) -> Registers {
    let a = r.a;
    let result = a.wrapping_sub(value);
    r.with_zf(result == 0).with_nf(true).with_hf((a & 0x0F) < (value & 0x0F)).with_cf(a < value)
}

/// `ADD HL,v`: HL + v modulo 2^16; Z kept, H and C flag the carries out of bit 11 and bit 15.
pub open spec fn add_hl(r: Registers, value: u16) -> Registers {
    let hl = r.hl();
    r.with_nf(false).with_hf((hl & 0x0FFF) + (value & 0x0FFF) > 0x0FFF).with_cf(
        hl + value > 0xFFFF,
    ).with_hl(hl.wrapping_add(value))
}

/// The correction that `DAA` adds to (or, after a subtraction, takes from) A.
pub open spec fn daa_adjustment(r: Registers) -> u8 {
    if r.nf() {
        ((if r.hf() { 0x06int } else { 0 }) + (if r.cf() { 0x60int } else { 0 })) as u8
    } else {
        ((if r.hf() || (r.a & 0x0F) > 0x09 { 0x06int } else { 0 }) + (if r.cf() || r.a > 0x99 {
            0x60int
        } else {
            0
        })) as u8
    }
}

/// `DAA`: adjusts A to packed BCD after an addition or subtraction; C is set when the decimal
/// addition carried, H is cleared.
pub open spec fn daa(r: Registers) -> Registers {
    let adjustment = daa_adjustment(r);
    let a = if r.nf() {
        r.a.wrapping_sub(adjustment)
    } else {
        r.a.wrapping_add(adjustment)
    };
    let carry = if r.nf() {
        r.cf()
    } else {
        r.cf() || r.a > 0x99
    };
    Registers { a, ..r }.with_zf(a == 0).with_hf(false).with_cf(carry)
}

/// The flags that every rotate and shift leaves: Z from the result when asked, N and H
/// cleared, C from the bit shifted out.
pub open spec fn shift_flags(r: Registers, result: u8, set_z: bool, carry: bool) -> Registers {
    let r1 = if set_z {
        r.with_zf(result == 0)
    } else {
        r
    };
    r1.with_nf(false).with_hf(false).with_cf(carry)
}

/// `RLC`: rotate left, bit 7 into bit 0 and C.
pub open spec fn rlc(r: Registers, value: u8, set_z: bool) -> (Registers, u8) {
    let result = (value << 1u8) | (value >> 7u8);
    (shift_flags(r, result, set_z, (value & 0x80) != 0), result)
}

/// `RRC`: rotate right, bit 0 into bit 7 and C.
pub open spec fn rrc(r: Registers, value: u8, set_z: bool) -> (Registers, u8) {
    let result = (value >> 1u8) | (value << 7u8);
    (shift_flags(r, result, set_z, (value & 0x01) != 0), result)
}

/// `RL`: rotate left through the carry flag.
pub open spec fn rl(r: Registers, value: u8, set_z: bool) -> (Registers, u8) {
    let result = (value << 1u8) | (if r.cf() { 1u8 } else { 0u8 });
    (shift_flags(r, result, set_z, (value & 0x80) != 0), result)
}

/// `RR`: rotate right through the carry flag.
pub open spec fn rr(r: Registers, value: u8, set_z: bool) -> (Registers, u8) {
    let result = (value >> 1u8) | (if r.cf() { 0x80u8 } else { 0u8 });
    (shift_flags(r, result, set_z, (value & 0x01) != 0), result)
}

/// `SLA`: shift left, bit 7 into C.
pub open spec fn sla(r: Registers, value: u8) -> (Registers, u8) {
    let result = value << 1u8;
    (shift_flags(r, result, true, (value & 0x80) != 0), result)
}

/// `SRA`: arithmetic shift right (bit 7 kept), bit 0 into C.
pub open spec fn sra(r: Registers, value: u8) -> (Registers, u8) {
    let result = (value >> 1u8) | (value & 0x80);
    (shift_flags(r, result, true, (value & 0x01) != 0), result)
}

/// `SRL`: logical shift right, bit 0 into C.
pub open spec fn srl(r: Registers, value: u8) -> (Registers, u8) {
    let result = value >> 1u8;
    (shift_flags(r, result, true, (value & 0x01) != 0), result)
}

/// `SWAP`: exchanges the two nibbles; C cleared.
pub open spec fn swap(r: Registers, value: u8) -> (Registers, u8) {
    let result = (value << 4u8) | (value >> 4u8);
    (shift_flags(r, result, true, false), result)
}

/// `BIT b,v`: Z set when bit `b` of the value is clear; N cleared, H set.
pub open spec fn bit_test(r: Registers, value: u8, bit: u8) -> Registers {
    r.with_zf((value & (1u8 << bit)) == 0).with_nf(false).with_hf(true)
}

/// The sixteen-bit two's complement extension of a signed byte offset.
pub open spec fn sign_extend(offset: u8) -> u16 {
    if offset < 128 {
        offset as u16
    } else {
        (offset + 0xFF00) as u16
    }
}

/// The flags of `ADD SP,r8` and `LD HL,SP+r8`: Z and N cleared, H and C from the carries of the
/// unsigned low-byte addition.
pub open spec fn sp_offset_flags(r: Registers, sp: u16, offset: u16) -> Registers {
    r.with_zf(false).with_nf(false).with_hf((sp & 0x0F) + (offset & 0x0F) > 0x0F).with_cf(
        (sp & 0xFF) + (offset & 0xFF) > 0xFF,
    )
}


/// `CP` sets the flags exactly as `SUB` does, without changing A.
pub proof fn law_compare_is_subtract_without_result(r: Registers, value: u8)
    ensures
        cp_a(r, value) == (Registers { a: r.a, ..sub_a(r, value, false) }),
{
}

/// `XOR A,A` clears A and sets Z.
pub proof fn law_xor_self_clears(r: Registers)
    ensures
        xor_a(r, r.a).a == 0,
        xor_a(r, r.a).zf(),
{
    broadcast use crate::registers::lemma_with_bit;

    let a = r.a;
    assert(a ^ a == 0) by (bit_vector);
}

/// Rotating right undoes rotating left, with or without setting Z: `RRC` gives back the byte
/// that `RLC` rotated, and `RR` after `RL` gives back both the byte and the carry flag (the
/// nine-bit value formed by the byte and the carry), leaving N and H cleared. Swapping the
/// nibbles twice gives the byte back.
pub proof fn law_rotations_undo(r: Registers, value: u8, set_z: bool)
    ensures
        rrc(rlc(r, value, set_z).0, rlc(r, value, set_z).1, set_z).1 == value,
        rr(rl(r, value, set_z).0, rl(r, value, set_z).1, set_z).1 == value,
        rr(rl(r, value, set_z).0, rl(r, value, set_z).1, set_z).0.cf() == r.cf(),
        !rr(rl(r, value, set_z).0, rl(r, value, set_z).1, set_z).0.nf(),
        !rr(rl(r, value, set_z).0, rl(r, value, set_z).1, set_z).0.hf(),
        swap(swap(r, value).0, swap(r, value).1).1 == value,
{
    broadcast use crate::registers::lemma_with_bit;

    let c = r.cf();
    let c1 = (value & 0x80) != 0;
    let x = (value << 1u8) | (if c { 1u8 } else { 0u8 });
    assert(((((value << 1u8) | (value >> 7u8)) >> 1u8) | (((value << 1u8) | (value >> 7u8))
        << 7u8)) == value) by (bit_vector);
    assert(((x >> 1u8) | (if c1 { 0x80u8 } else { 0u8 })) == value && ((x & 0x01) != 0) == c)
        by (bit_vector)
        requires
            x == (value << 1u8) | (if c { 1u8 } else { 0u8 }),
            c1 == ((value & 0x80) != 0),
    ;
    assert(((((value << 4u8) | (value >> 4u8)) << 4u8) | (((value << 4u8) | (value >> 4u8))
        >> 4u8)) == value) by (bit_vector);
}

/// Whether a byte holds two decimal digits (packed BCD).
pub open spec fn is_bcd(x: u8) -> bool {
    x % 16 <= 9 && x / 16 <= 9
}

/// The number that a packed BCD byte stands for.
pub open spec fn bcd_value(x: u8) -> int {
    10 * (x / 16) + x % 16
}

proof fn lemma_daa_digits(a: u8, b: u8, s: u8, h: bool, c: bool, adj: u8, res: u8)
    requires
        a % 16 <= 9 && a / 16 <= 9,
        b % 16 <= 9 && b / 16 <= 9,
        s == a.wrapping_add(b),
        h == ((a & 0x0F) + (b & 0x0F) > 0x0F),
        c == (a + b > 0xFF),
        adj == ((if h || (s & 0x0F) > 0x09 { 0x06int } else { 0 }) + (if c || s > 0x99 {
            0x60int
        } else {
            0
        })) as u8,
        res == s.wrapping_add(adj),
    ensures
        res % 16 <= 9 && res / 16 <= 9,
        10 * (res / 16) + res % 16 == (10 * (a / 16) + a % 16 + 10 * (b / 16) + b % 16) % 100,
        (c || s > 0x99) == (10 * (a / 16) + a % 16 + 10 * (b / 16) + b % 16 >= 100),
{
    assert(res % 16 <= 9 && res / 16 <= 9 && 10 * (res / 16) + res % 16 == (10 * (a / 16) + a % 16
        + 10 * (b / 16) + b % 16) % 100 && (c || s > 0x99) == (10 * (a / 16) + a % 16 + 10 * (b / 16)
        + b % 16 >= 100)) by (bit_vector)
        requires
            a % 16 <= 9 && a / 16 <= 9,
            b % 16 <= 9 && b / 16 <= 9,
            s == a.wrapping_add(b),
            h == ((a & 0x0F) + (b & 0x0F) > 0x0F),
            c == (a + b > 0xFF),
            adj == ((if h || (s & 0x0F) > 0x09 { 0x06int } else { 0 }) + (if c || s > 0x99 {
                0x60int
            } else {
                0
            })) as u8,
            res == s.wrapping_add(adj),
    ;
}

/// `DAA` after `ADD` of two packed BCD bytes gives the packed BCD of their decimal sum modulo
/// 100, with the carry flag telling whether the sum reached 100.
pub proof fn law_decimal_addition(r: Registers, value: u8)
    requires
        is_bcd(r.a),
        is_bcd(value),
    ensures
        is_bcd(daa(add_a(r, value, false)).a),
        bcd_value(daa(add_a(r, value, false)).a) == (bcd_value(r.a) + bcd_value(value)) % 100,
        daa(add_a(r, value, false)).cf() == (bcd_value(r.a) + bcd_value(value) >= 100),
{
    broadcast use crate::registers::lemma_with_bit;

    let added = add_a(r, value, false);
    let a = r.a;
    let s = a.wrapping_add(value);
    let h = (a & 0x0F) + (value & 0x0F) > 0x0F;
    let c = a + value > 0xFF;
    assert(!added.nf() && added.hf() == h && added.cf() == c && added.a == s);
    let adj = daa_adjustment(added);
    lemma_daa_digits(a, value, s, h, c, adj, s.wrapping_add(adj));
}


proof fn lemma_daa_digits_sub(a: u8, b: u8, s: u8, h: bool, c: bool, adj: u8, res: u8)
    requires
        a % 16 <= 9 && a / 16 <= 9,
        b % 16 <= 9 && b / 16 <= 9,
        s == a.wrapping_sub(b),
        h == ((a & 0x0F) < (b & 0x0F)),
        c == (a < b),
        adj == ((if h { 0x06int } else { 0 }) + (if c { 0x60int } else { 0 })) as u8,
        res == s.wrapping_sub(adj),
    ensures
        res % 16 <= 9 && res / 16 <= 9,
        10 * (res / 16) + res % 16 == if 10 * (a / 16) + a % 16 >= 10 * (b / 16) + b % 16 {
            10 * (a / 16) + a % 16 - (10 * (b / 16) + b % 16)
        } else {
            10 * (a / 16) + a % 16 - (10 * (b / 16) + b % 16) + 100
        },
        c == (10 * (a / 16) + a % 16 < 10 * (b / 16) + b % 16),
{
    assert(res % 16 <= 9 && res / 16 <= 9 && 10 * (res / 16) + res % 16 == (if 10 * (a / 16) + a
        % 16 >= 10 * (b / 16) + b % 16 {
        10 * (a / 16) + a % 16 - (10 * (b / 16) + b % 16)
    } else {
        10 * (a / 16) + a % 16 - (10 * (b / 16) + b % 16) + 100
    }) && c == (10 * (a / 16) + a % 16 < 10 * (b / 16) + b % 16)) by (bit_vector)
        requires
            a % 16 <= 9 && a / 16 <= 9,
            b % 16 <= 9 && b / 16 <= 9,
            s == a.wrapping_sub(b),
            h == ((a & 0x0F) < (b & 0x0F)),
            c == (a < b),
            adj == ((if h { 0x06int } else { 0 }) + (if c { 0x60int } else { 0 })) as u8,
            res == s.wrapping_sub(adj),
    ;
}

/// `DAA` after `SUB` of two packed BCD bytes gives the packed BCD of their decimal difference
/// modulo 100, with the carry flag telling whether the subtrahend was the larger; Z tells
/// whether the result is zero, H is cleared and N stays set.
pub proof fn law_decimal_subtraction(r: Registers, value: u8)
    requires
        is_bcd(r.a),
        is_bcd(value),
    ensures
        is_bcd(daa(sub_a(r, value, false)).a),
        bcd_value(daa(sub_a(r, value, false)).a) == (bcd_value(r.a) - bcd_value(value)) % 100,
        daa(sub_a(r, value, false)).cf() == (bcd_value(r.a) < bcd_value(value)),
        daa(sub_a(r, value, false)).zf() == (daa(sub_a(r, value, false)).a == 0),
        !daa(sub_a(r, value, false)).hf(),
        daa(sub_a(r, value, false)).nf(),
{
    broadcast use crate::registers::lemma_with_bit;

    let subtracted = sub_a(r, value, false);
    let a = r.a;
    let s = a.wrapping_sub(value);
    let h = (a & 0x0F) < (value & 0x0F);
    let c = a < value;
    assert((value & 0x0F).wrapping_add(0) == value & 0x0F);
    assert(subtracted.nf() && subtracted.hf() == h && subtracted.cf() == c && subtracted.a == s);
    let adj = daa_adjustment(subtracted);
    lemma_daa_digits_sub(a, value, s, h, c, adj, s.wrapping_sub(adj));
}

/// `DAA` after `ADD` also leaves Z telling whether the result is zero, H cleared and N clear.
pub proof fn law_decimal_addition_flags(r: Registers, value: u8)
    ensures
        daa(add_a(r, value, false)).zf() == (daa(add_a(r, value, false)).a == 0),
        !daa(add_a(r, value, false)).hf(),
        !daa(add_a(r, value, false)).nf(),
{
    broadcast use crate::registers::lemma_with_bit;

}


/// `AND`, `OR` and `XOR` work bit by bit: bit `n` of the new A is the conjunction, disjunction
/// or exclusive disjunction of bit `n` of A and of the operand. `OR` sets Z exactly when both
/// A and the operand are zero, `AND` exactly when they share no set bit and `XOR` exactly when
/// they are equal. N and C are cleared by all three; H is set by `AND` and cleared by the others.
pub proof fn law_logic_ops_bitwise(r: Registers, value: u8, n: u8)
    requires
        n < 8,
    ensures
        bit_of(and_a(r, value).a, n) == (bit_of(r.a, n) && bit_of(value, n)),
        bit_of(or_a(r, value).a, n) == (bit_of(r.a, n) || bit_of(value, n)),
        bit_of(xor_a(r, value).a, n) == (bit_of(r.a, n) != bit_of(value, n)),
        or_a(r, value).zf() == (r.a == 0 && value == 0),
        and_a(r, value).zf() == (r.a & value == 0),
        xor_a(r, value).zf() == (r.a == value),
        !or_a(r, value).nf() && !or_a(r, value).hf() && !or_a(r, value).cf(),
        !xor_a(r, value).nf() && !xor_a(r, value).hf() && !xor_a(r, value).cf(),
        !and_a(r, value).nf() && and_a(r, value).hf() && !and_a(r, value).cf(),
{
    broadcast use crate::registers::lemma_with_bit;

    let a = r.a;
    assert((n < 8 ==> (((a & value) & (1u8 << n) != 0) == ((a & (1u8 << n) != 0) && (value & (1u8
        << n) != 0))) && (((a | value) & (1u8 << n) != 0) == ((a & (1u8 << n) != 0) || (value & (
    1u8 << n) != 0))) && (((a ^ value) & (1u8 << n) != 0) == ((a & (1u8 << n) != 0) != (value & (
    1u8 << n) != 0)))) && ((a | value) == 0) == (a == 0 && value == 0) && ((a ^ value) == 0) == (a
        == value)) by (bit_vector);
}

/// The shifts as arithmetic on the byte `v`: `SLA` doubles it modulo 256 (bit 0 of the result
/// is always clear) and moves bit 7 into C; `SRL` halves it, rounding down, and moves bit 0
/// into C; `SRA` halves it keeping the sign bit; `SWAP` exchanges the nibbles and clears C.
/// All four set Z exactly when the result is zero and clear N and H.
pub proof fn law_shifts_arithmetic(r: Registers, v: u8)
    ensures
        sla(r, v).1 == (2 * v) % 256,
        sla(r, v).1 % 2 == 0,
        sla(r, v).0.cf() == (v >= 128),
        srl(r, v).1 == v / 2,
        srl(r, v).0.cf() == (v % 2 == 1),
        sra(r, v).1 == v / 2 + (if v >= 128 { 128int } else { 0int }),
        sra(r, v).0.cf() == (v % 2 == 1),
        swap(r, v).1 == (v % 16) * 16 + v / 16,
        !swap(r, v).0.cf(),
        sla(r, v).0.zf() == (sla(r, v).1 == 0) && !sla(r, v).0.nf() && !sla(r, v).0.hf(),
        srl(r, v).0.zf() == (srl(r, v).1 == 0) && !srl(r, v).0.nf() && !srl(r, v).0.hf(),
        sra(r, v).0.zf() == (sra(r, v).1 == 0) && !sra(r, v).0.nf() && !sra(r, v).0.hf(),
        swap(r, v).0.zf() == (swap(r, v).1 == 0) && !swap(r, v).0.nf() && !swap(r, v).0.hf(),
{
    broadcast use crate::registers::lemma_with_bit;

    assert((v << 1u8) as int == (2 * v) % 256 && ((v & 0x80) != 0) == (v >= 128) && (v >> 1u8) as int
        == v / 2 && ((v & 0x01) != 0) == (v % 2 == 1) && ((v >> 1u8) | (v & 0x80)) as int == v / 2
        + (if v >= 128 { 128int } else { 0int }) && ((v << 4u8) | (v >> 4u8)) as int == (v % 16)
        * 16 + v / 16) by (bit_vector);
}


/// Eight-bit addition and subtraction as arithmetic modulo 256, with `c` the carry taken in
/// (the C flag, for `ADC` and `SBC` only). `ADD`/`ADC` give (A + v + c) mod 256, set C exactly
/// when the true sum exceeds 255 and H when the low nibbles with c exceed 15; `SUB`/`SBC` give
/// (A - v - c) mod 256, set C exactly when A < v + c and H when A's low nibble is below v's plus
/// c. Z tells whether the result is zero; N is cleared by addition and set by subtraction.
pub proof fn law_add_sub_arithmetic(r: Registers, v: u8, with_carry: bool)
    ensures
        ({
            let a = r.a as int;
            let c: int = if with_carry && r.cf() { 1 } else { 0 };
            let sum = add_a(r, v, with_carry);
            let diff = sub_a(r, v, with_carry);
            &&& sum.a == (a + v + c) % 256
            &&& sum.cf() == (a + v + c > 255)
            &&& sum.hf() == (a % 16 + v % 16 + c > 15)
            &&& sum.zf() == (sum.a == 0)
            &&& !sum.nf()
            &&& diff.a == (a - v - c + 512) % 256
            &&& diff.cf() == (a < v + c)
            &&& diff.hf() == (a % 16 < v % 16 + c)
            &&& diff.zf() == (diff.a == 0)
            &&& diff.nf()
        }),
{
    broadcast use crate::registers::lemma_with_bit;

    let a = r.a;
    assert((a & 0x0F) as int == a % 16 && (v & 0x0F) as int == v % 16) by (bit_vector);
}

/// `INC` and `DEC` add and take one modulo 256: `INC` sets Z exactly on 0xFF and H when the low
/// nibble is 0xF, `DEC` sets Z exactly on 0x01 and H when the low nibble is 0; N is cleared by
/// `INC` and set by `DEC`, and C is kept by both.
pub proof fn law_inc_dec_arithmetic(r: Registers, v: u8)
    ensures
        inc8(r, v).1 == (v + 1) % 256,
        inc8(r, v).0.zf() == (v == 255),
        inc8(r, v).0.hf() == (v % 16 == 15),
        !inc8(r, v).0.nf() && inc8(r, v).0.cf() == r.cf(),
        dec8(r, v).1 == (v + 255) % 256,
        dec8(r, v).0.zf() == (v == 1),
        dec8(r, v).0.hf() == (v % 16 == 0),
        dec8(r, v).0.nf() && dec8(r, v).0.cf() == r.cf(),
{
    broadcast use crate::registers::lemma_with_bit;

    assert((v & 0x0F) as int == v % 16) by (bit_vector);
}

/// The rotates as arithmetic on the byte `v`: `RLC` gives (2v mod 256) + bit 7, `RRC` gives
/// v / 2 + 128 * bit 0, `RL` shifts the old C in at bit 0 and `RR` at bit 7; the bit shifted out
/// lands in C. N and H are cleared; Z tells whether the result is zero when `set_z` is given
/// (the prefixed forms) and is kept otherwise.
pub proof fn law_rotates_arithmetic(r: Registers, v: u8, set_z: bool)
    ensures
        ({
            let c: int = if r.cf() { 1 } else { 0 };
            &&& rlc(r, v, set_z).1 == (2 * v) % 256 + v / 128
            &&& rlc(r, v, set_z).0.cf() == (v >= 128)
            &&& rrc(r, v, set_z).1 == v / 2 + 128 * (v % 2)
            &&& rrc(r, v, set_z).0.cf() == (v % 2 == 1)
            &&& rl(r, v, set_z).1 == (2 * v) % 256 + c
            &&& rl(r, v, set_z).0.cf() == (v >= 128)
            &&& rr(r, v, set_z).1 == v / 2 + 128 * c
            &&& rr(r, v, set_z).0.cf() == (v % 2 == 1)
            &&& !rlc(r, v, set_z).0.nf() && !rlc(r, v, set_z).0.hf()
            &&& !rrc(r, v, set_z).0.nf() && !rrc(r, v, set_z).0.hf()
            &&& !rl(r, v, set_z).0.nf() && !rl(r, v, set_z).0.hf()
            &&& !rr(r, v, set_z).0.nf() && !rr(r, v, set_z).0.hf()
            &&& rlc(r, v, set_z).0.zf() == if set_z { rlc(r, v, set_z).1 == 0 } else { r.zf() }
            &&& rrc(r, v, set_z).0.zf() == if set_z { rrc(r, v, set_z).1 == 0 } else { r.zf() }
            &&& rl(r, v, set_z).0.zf() == if set_z { rl(r, v, set_z).1 == 0 } else { r.zf() }
            &&& rr(r, v, set_z).0.zf() == if set_z { rr(r, v, set_z).1 == 0 } else { r.zf() }
        }),
{
    broadcast use crate::registers::lemma_with_bit;

    assert(((v << 1u8) | (v >> 7u8)) as int == (2 * v) % 256 + v / 128 && ((v >> 1u8) | (v << 7u8))
        as int == v / 2 + 128 * (v % 2) && ((v << 1u8) | 1u8) as int == (2 * v) % 256 + 1 && ((v
        << 1u8) | 0u8) as int == (2 * v) % 256 && ((v >> 1u8) | 0x80u8) as int == v / 2 + 128 && ((v
        >> 1u8) | 0u8) as int == v / 2 && ((v & 0x80) != 0) == (v >= 128) && ((v & 0x01) != 0) == (v
        % 2 == 1)) by (bit_vector);
}


/// `ADD HL,v` is addition modulo 2^16: HL becomes (HL + v) mod 65536, C is set exactly when the
/// true sum exceeds 0xFFFF and H when the low twelve bits carry; N is cleared, Z and every
/// register other than H, L and F are kept.
pub proof fn law_add_hl_arithmetic(r: Registers, v: u16)
    ensures
        add_hl(r, v).hl() == (r.hl() + v) % 65536,
        add_hl(r, v).cf() == (r.hl() + v > 0xFFFF),
        add_hl(r, v).hf() == (r.hl() % 4096 + v % 4096 > 0x0FFF),
        !add_hl(r, v).nf(),
        add_hl(r, v).zf() == r.zf(),
        add_hl(r, v) == (Registers { h: add_hl(r, v).h, l: add_hl(r, v).l, f: add_hl(r, v).f, ..r }),
{
    broadcast use crate::registers::lemma_with_bit;

    let hl = r.hl();
    assert((hl & 0x0FFF) as int == hl % 4096 && (v & 0x0FFF) as int == v % 4096) by (bit_vector);
}


/// A relative offset is a two's complement byte: adding its extension to a 16-bit address moves
/// it by -128..=127 modulo 2^16.
pub proof fn law_sign_extend(address: u16, b: u8)
    ensures
        address.wrapping_add(sign_extend(b)) as int == (address + (b as i8) + 65536) % 65536,
{
    assert((b < 128 ==> (b as i8) as int == b) && (b >= 128 ==> (b as i8) as int == b - 256))
        by (bit_vector);
}

} // verus!
