use gameboy_emu::registers::Registers;

#[test]
fn new_registers_are_zero() {
    let r = Registers::new();
    assert_eq!((r.a, r.b, r.c, r.d, r.e, r.h, r.l, r.f), (0, 0, 0, 0, 0, 0, 0, 0));
    assert_eq!((r.pc, r.sp), (0, 0));
    assert!(!r.ime && !r.ime_next);
}

#[test]
fn register_pairs_read_back_what_was_written() {
    let mut r = Registers::new();
    r.set_bc(0x1234);
    r.set_de(0xBEEF);
    r.set_hl(0x00FF);
    assert_eq!(r.get_bc(), 0x1234);
    assert_eq!((r.b, r.c), (0x12, 0x34));
    assert_eq!(r.get_de(), 0xBEEF);
    assert_eq!((r.d, r.e), (0xBE, 0xEF));
    assert_eq!(r.get_hl(), 0x00FF);
    assert_eq!((r.h, r.l), (0x00, 0xFF));
}

#[test]
fn af_keeps_only_the_high_nibble_of_f() {
    let mut r = Registers::new();
    r.set_af(0x12FF);
    assert_eq!(r.a, 0x12);
    assert_eq!(r.f, 0xF0);
    assert_eq!(r.get_af(), 0x12F0);
}

#[test]
fn flags_are_set_and_read_independently() {
    let mut r = Registers::new();
    r.set_z_flag(true);
    assert_eq!(r.f, 0b1000_0000);
    r.set_c_flag(true);
    assert_eq!(r.f, 0b1001_0000);
    r.set_n_flag(true);
    r.set_h_flag(true);
    assert_eq!(r.f, 0xF0);
    r.set_z_flag(false);
    assert!(!r.get_z_flag());
    assert!(r.get_n_flag() && r.get_h_flag() && r.get_c_flag());
    r.set_h_flag(false);
    assert_eq!(r.f, 0b0101_0000);
    assert!(!r.get_h_flag());
}

#[test]
fn flag_setters_keep_the_low_nibble() {
    let mut r = Registers::new();
    r.f = 0x0F;
    r.set_c_flag(true);
    assert_eq!(r.f, 0x1F);
    r.set_c_flag(false);
    assert_eq!(r.f, 0x0F);
}
