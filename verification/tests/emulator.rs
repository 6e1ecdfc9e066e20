use gameboy_emu::Emulator;

/// A 32 KiB ROM without bank controller holding `program` at 0x0000 and `handler` at 0x0040.
fn rom(program: &[u8], handler: &[u8]) -> Vec<u8> {
    let mut rom = vec![0u8; 0x8000];
    rom[..program.len()].copy_from_slice(program);
    rom[0x40..0x40 + handler.len()].copy_from_slice(handler);
    rom
}

fn emulator(program: &[u8]) -> Emulator {
    let mut e = Emulator::new();
    e.load_rom(rom(program, &[])).unwrap();
    e
}

#[test]
fn loads_and_steps_through_instructions() {
    let mut e = emulator(&[0x3E, 0x12, 0xC6, 0x34, 0x27]);
    let v = e.step();
    assert_eq!(v.registers.a, 0x12);
    assert_eq!(v.registers.pc, 2);
    assert_eq!(v.cycles, 8);
    assert_eq!(v.opcodes, vec![(0x0000, 0x3E)]);
    let v = e.step();
    assert_eq!(v.registers.a, 0x46);
    assert_eq!(v.registers.f, 0x00);
    let v = e.step();
    assert_eq!(v.registers.a, 0x46);
    assert_eq!(v.cycles, 20);
    assert_eq!(v.opcodes, vec![(0x0004, 0x27)]);
    assert!(v.errors.is_empty());
}

#[test]
fn decimal_adjust_after_addition() {
    let mut e = emulator(&[0x3E, 0x45, 0xC6, 0x38, 0x27, 0x3E, 0x99, 0xC6, 0x01, 0x27]);
    for _ in 0..3 {
        e.step();
    }
    let v = e.step();
    assert_eq!(v.registers.a, 0x99);
    e.step();
    let v = e.step();
    assert_eq!(v.registers.a, 0x00);
    assert_eq!(v.registers.f, 0b1001_0000);
}

#[test]
fn decimal_adjust_value_after_first_sum() {
    let mut e = emulator(&[0x3E, 0x45, 0xC6, 0x38, 0x27]);
    e.step();
    let v = e.step();
    assert_eq!(v.registers.a, 0x7D);
    let v = e.step();
    assert_eq!(v.registers.a, 0x83);
    assert_eq!(v.registers.f & 0x10, 0);
}

#[test]
fn xor_a_clears_a_and_sets_zero() {
    let mut e = emulator(&[0x3E, 0x5A, 0xAF]);
    e.step();
    let v = e.step();
    assert_eq!(v.registers.a, 0);
    assert_eq!(v.registers.f, 0x80);
}

#[test]
fn compare_sets_flags_and_keeps_a() {
    let mut e = emulator(&[0x3E, 0x10, 0xFE, 0x20, 0xFE, 0x10, 0xD6, 0x01]);
    e.step();
    let v = e.step();
    assert_eq!(v.registers.a, 0x10);
    assert_eq!(v.registers.f, 0b0101_0000);
    let v = e.step();
    assert_eq!(v.registers.f, 0b1100_0000);
    let v = e.step();
    assert_eq!(v.registers.a, 0x0F);
    assert_eq!(v.registers.f, 0b0110_0000);
}

#[test]
fn increment_wraps_and_sets_half_carry() {
    let mut e = emulator(&[0x06, 0xFF, 0x04, 0x0E, 0x0F, 0x0C, 0x15]);
    e.step();
    let v = e.step();
    assert_eq!(v.registers.b, 0x00);
    assert_eq!(v.registers.f, 0b1010_0000);
    e.step();
    let v = e.step();
    assert_eq!(v.registers.c, 0x10);
    assert_eq!(v.registers.f, 0b0010_0000);
    let v = e.step();
    assert_eq!(v.registers.d, 0xFF);
    assert_eq!(v.registers.f, 0b0110_0000);
}

#[test]
fn memory_operand_through_hl() {
    let mut e = emulator(&[0x21, 0x00, 0xC0, 0x36, 0x41, 0x34, 0x7E, 0x22, 0x2A]);
    for _ in 0..3 {
        e.step();
    }
    let v = e.step();
    assert_eq!(v.registers.a, 0x42);
    assert_eq!(v.cycles, 12 + 12 + 12 + 8);
    let v = e.step();
    assert_eq!(v.registers.get_hl(), 0xC001);
    let v = e.step();
    assert_eq!(v.registers.a, 0x00);
    assert_eq!(v.registers.get_hl(), 0xC002);
}

#[test]
fn push_then_pop_restores_word_and_stack() {
    let mut e = emulator(&[0x31, 0xFE, 0xFF, 0x01, 0x34, 0x12, 0xC5, 0xD1]);
    for _ in 0..2 {
        e.step();
    }
    let v = e.step();
    assert_eq!(v.registers.sp, 0xFFFC);
    let v = e.step();
    assert_eq!(v.registers.get_de(), 0x1234);
    assert_eq!(v.registers.sp, 0xFFFE);
}

#[test]
fn pop_af_clears_low_flag_bits() {
    let mut e = emulator(&[0x31, 0xFE, 0xFF, 0x01, 0xFF, 0x12, 0xC5, 0xF1]);
    for _ in 0..3 {
        e.step();
    }
    let v = e.step();
    assert_eq!(v.registers.a, 0x12);
    assert_eq!(v.registers.f, 0xF0);
}

#[test]
fn call_and_return() {
    let mut program = vec![0u8; 0x11];
    program[0..3].copy_from_slice(&[0xCD, 0x10, 0x00]);
    program[0x10] = 0xC9;
    let mut e = emulator(&program);
    let v = e.step();
    assert_eq!(v.registers.pc, 0x0010);
    assert_eq!(v.registers.sp, 0xFFFE);
    assert_eq!(v.cycles, 24);
    let v = e.step();
    assert_eq!(v.registers.pc, 0x0003);
    assert_eq!(v.registers.sp, 0x0000);
    assert_eq!(v.cycles, 40);
}

#[test]
fn relative_jumps() {
    let mut e = emulator(&[0xAF, 0x20, 0x05, 0x28, 0xFB]);
    e.step();
    let v = e.step();
    assert_eq!(v.registers.pc, 0x0003);
    assert_eq!(v.cycles, 4 + 8);
    let v = e.step();
    assert_eq!(v.registers.pc, 0x0000);
    assert_eq!(v.cycles, 4 + 8 + 12);
}

#[test]
fn bit_instructions() {
    let mut e = emulator(&[0x3E, 0x5A, 0xCB, 0x37, 0xCB, 0x47, 0xCB, 0x7F, 0xCB, 0xC7, 0xCB, 0xBF]);
    e.step();
    let v = e.step();
    assert_eq!(v.registers.a, 0xA5);
    assert_eq!(v.cycles, 8 + 8);
    let v = e.step();
    assert_eq!(v.registers.f, 0b0010_0000);
    let v = e.step();
    assert_eq!(v.registers.f, 0b0010_0000);
    let v = e.step();
    assert_eq!(v.registers.a, 0xA5);
    let v = e.step();
    assert_eq!(v.registers.a, 0x25);
}

#[test]
fn rotates_of_a() {
    let mut e = emulator(&[0x3E, 0x81, 0x07, 0x0F, 0x37, 0x1F, 0x17]);
    e.step();
    let v = e.step();
    assert_eq!(v.registers.a, 0x03);
    assert_eq!(v.registers.f, 0x10);
    let v = e.step();
    assert_eq!(v.registers.a, 0x81);
    e.step();
    let v = e.step();
    assert_eq!(v.registers.a, 0xC0);
    assert_eq!(v.registers.f, 0x10);
    let v = e.step();
    assert_eq!(v.registers.a, 0x81);
    assert_eq!(v.registers.f, 0x10);
}

#[test]
fn sixteen_bit_arithmetic() {
    let mut e = emulator(&[0x21, 0xFF, 0x0F, 0x01, 0x01, 0x00, 0x09, 0x31, 0xF8, 0xFF, 0xE8, 0x08, 0xF8, 0x10]);
    for _ in 0..2 {
        e.step();
    }
    let v = e.step();
    assert_eq!(v.registers.get_hl(), 0x1000);
    assert_eq!(v.registers.f, 0b0010_0000);
    e.step();
    let v = e.step();
    assert_eq!(v.registers.sp, 0x0000);
    assert_eq!(v.registers.f, 0b0011_0000);
    let v = e.step();
    assert_eq!(v.registers.get_hl(), 0x0010);
}

#[test]
fn interrupt_is_serviced_after_ei() {
    let program = [0x3E, 0x01, 0xE0, 0xFF, 0xE0, 0x0F, 0xFB, 0x00, 0x00];
    let mut e = Emulator::new();
    e.load_rom(rom(&program, &[0x00])).unwrap();
    let mut v = e.step();
    for _ in 0..5 {
        v = e.step();
    }
    assert_eq!(v.registers.pc, 0x0041);
    assert!(!v.registers.ime);
    assert_eq!(v.registers.sp, 0xFFFE);
    assert_eq!(v.cycles, 8 + 12 + 12 + 4 + 4 + 20 + 4);
    assert_eq!(v.opcodes, vec![(0x0040, 0x00)]);
}

#[test]
fn unknown_opcode_is_reported() {
    let mut e = emulator(&[0x00, 0x00, 0xD3]);
    let v = e.run();
    assert_eq!(v.errors, vec!["Unknown opcode: 0xD3 at address 0x0002".to_string()]);
    assert_eq!(v.opcodes, vec![(0x0000, 0x00), (0x0001, 0x00), (0x0002, 0xD3)]);
    assert_eq!(v.cycles, 8);
    assert_eq!(v.registers.pc, 0x0003);
}

#[test]
fn debug_view_drains_opcodes_and_errors() {
    let mut e = emulator(&[0xD3, 0x00]);
    let v = e.step();
    assert_eq!(v.errors.len(), 1);
    let v = e.step();
    assert!(v.errors.is_empty());
    assert_eq!(v.opcodes, vec![(0x0001, 0x00)]);
}

#[test]
fn cartridge_write_errors_follow_processor_errors() {
    let mut e = emulator(&[0xEA, 0x00, 0x20, 0xD3]);
    let v = e.run();
    assert_eq!(
        v.errors,
        vec![
            "Unknown opcode: 0xD3 at address 0x0003".to_string(),
            "Ignored write of 0x00 to cartridge address 0x2000".to_string(),
        ]
    );
}

#[test]
fn step_frame_runs_a_frame_of_steps() {
    let mut e = emulator(&[0x18, 0xFE]);
    assert!(e.can_step());
    let v = e.step_frame();
    assert_eq!(v.cycles, 70224 * 12);
    assert_eq!(v.registers.pc, 0x0000);
    assert_eq!(v.opcodes.len(), 70224);
    assert!(v.errors.is_empty());
}

#[test]
fn load_errors_are_returned_and_recorded() {
    let mut e = Emulator::new();
    let err = e.load_rom(vec![0u8; 0x100]).unwrap_err();
    assert_eq!(err, "Failed to load ROM: ROM is too small to contain a cartridge header: 256 bytes");
    let mut bad_type = vec![0u8; 0x8000];
    bad_type[0x147] = 0x05;
    let err = e.load_rom(bad_type).unwrap_err();
    assert_eq!(err, "Failed to load ROM: Unsupported cartridge type: 05");
    let v = e.step();
    assert_eq!(
        v.errors[..2],
        [
            "ROM is too small to contain a cartridge header: 256 bytes".to_string(),
            "Unsupported cartridge type: 05".to_string(),
        ]
    );
}

#[test]
fn new_emulator_starts_at_zero() {
    let mut e = Emulator::new();
    let v = e.step();
    assert_eq!(v.opcodes, vec![(0x0000, 0xFF)]);
    assert_eq!(v.registers.pc, 0x0038);
    assert_eq!(v.cycles, 16);
}

#[test]
fn swap_twice_gives_the_byte_back() {
    let mut e = emulator(&[0x06, 0x3C, 0xCB, 0x30, 0xCB, 0x30]);
    e.step();
    let v = e.step();
    assert_eq!(v.registers.b, 0xC3);
    let v = e.step();
    assert_eq!(v.registers.b, 0x3C);
}

#[test]
fn shifts_through_memory_operand() {
    let mut e = emulator(&[0x21, 0x00, 0xC0, 0x36, 0x81, 0xCB, 0x2E, 0xCB, 0x3E, 0x7E]);
    e.step();
    e.step();
    let v = e.step();
    assert_eq!(v.cycles, 12 + 12 + 16);
    assert_eq!(v.registers.f, 0x10);
    e.step();
    let v = e.step();
    assert_eq!(v.registers.a, 0x60);
}

#[test]
fn decimal_adjust_after_subtraction() {
    let mut e = emulator(&[0x3E, 0x10, 0xD6, 0x01, 0x27, 0x3E, 0x00, 0xD6, 0x01, 0x27]);
    e.step();
    e.step();
    let v = e.step();
    assert_eq!(v.registers.a, 0x09);
    assert_eq!(v.registers.f, 0x40);
    e.step();
    e.step();
    let v = e.step();
    assert_eq!(v.registers.a, 0x99);
    assert_eq!(v.registers.f, 0x50);
}

#[test]
fn di_right_after_ei_keeps_interrupts_off() {
    let program = [0x3E, 0x01, 0xE0, 0xFF, 0xE0, 0x0F, 0xFB, 0xF3, 0x00, 0x00];
    let mut e = Emulator::new();
    e.load_rom(rom(&program, &[0x00])).unwrap();
    let mut v = e.step();
    for _ in 0..6 {
        v = e.step();
    }
    assert!(!v.registers.ime);
    assert_eq!(v.registers.pc, 0x000A);
    assert_eq!(v.opcodes, vec![(0x0009, 0x00)]);
}

#[test]
fn rl_then_rr_restores_byte_and_carry() {
    let mut e = emulator(&[0x06, 0xB3, 0x37, 0xCB, 0x10, 0xCB, 0x18]);
    e.step();
    e.step();
    let v = e.step();
    assert_eq!(v.registers.b, 0x67);
    assert_eq!(v.registers.f, 0x10);
    let v = e.step();
    assert_eq!(v.registers.b, 0xB3);
    assert_eq!(v.registers.f, 0x10);
}

#[test]
fn bit_on_memory_operand_only_sets_flags() {
    // LD HL,0x2000; BIT 0,(HL): the operand lies in the cartridge area, and nothing is written.
    let mut e = emulator(&[0x21, 0x00, 0x20, 0xCB, 0x46]);
    e.step();
    let v = e.step();
    assert_eq!(v.cycles, 12 + 12);
    assert_eq!(v.registers.f, 0xA0);
    assert_eq!(v.registers.h, 0x20);
    assert_eq!(v.registers.l, 0x00);
    assert_eq!(v.registers.pc, 5);
    assert!(v.errors.is_empty());
}

#[test]
fn bit_on_ram_operand_keeps_the_byte() {
    // LD HL,0xC000; LD (HL),0x81; SCF; BIT 0,(HL); BIT 1,(HL); LD A,(HL)
    let mut e = emulator(&[0x21, 0x00, 0xC0, 0x36, 0x81, 0x37, 0xCB, 0x46, 0xCB, 0x4E, 0x7E]);
    for _ in 0..3 {
        e.step();
    }
    let v = e.step();
    assert_eq!(v.registers.f, 0x30);
    let v = e.step();
    assert_eq!(v.registers.f, 0xB0);
    let v = e.step();
    assert_eq!(v.registers.a, 0x81);
    assert!(v.errors.is_empty());
}

#[test]
fn bit_in_bank_register_window_keeps_the_rom_bank() {
    // An MBC1 cartridge of four banks; 0x02 sits at 0x2000, the ROM bank register's address.
    let mut rom = vec![0u8; 0x10000];
    let program = [0x21, 0x00, 0x20, 0xCB, 0x46, 0xFA, 0x00, 0x40];
    rom[..program.len()].copy_from_slice(&program);
    rom[0x147] = 0x01;
    rom[0x2000] = 0x02;
    rom[0x4000] = 0x11;
    rom[0x8000] = 0x22;
    let mut e = Emulator::new();
    e.load_rom(rom).unwrap();
    for _ in 0..2 {
        e.step();
    }
    let v = e.step();
    assert_eq!(v.registers.a, 0x11);
    assert!(v.errors.is_empty());
}
