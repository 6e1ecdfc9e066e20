use gameboy_emu::header::Header;

fn rom_with_header(cart_type: u8, ram_code: u8) -> Vec<u8> {
    let mut rom = vec![0u8; 0x150];
    rom[0x147] = cart_type;
    rom[0x149] = ram_code;
    rom
}

#[test]
fn header_gives_type_and_ram_banks() {
    let h = Header::new(&rom_with_header(0x01, 0x03)).unwrap();
    assert_eq!(h, Header { cart_type: 0x01, ram_banks: 4 });
    let codes = [(0u8, 0usize), (1, 0), (2, 1), (3, 4), (4, 16), (5, 8)];
    for (code, banks) in codes {
        assert_eq!(Header::new(&rom_with_header(0, code)).unwrap().ram_banks, banks);
    }
}

#[test]
fn header_refuses_short_rom() {
    let e = Header::new(&vec![0u8; 0x14F]).unwrap_err();
    assert_eq!(e, "ROM is too small to contain a cartridge header: 335 bytes");
}

#[test]
fn header_refuses_unknown_ram_code() {
    let e = Header::new(&rom_with_header(0, 6)).unwrap_err();
    assert_eq!(e, "Unknown RAM size code in cartridge header: 06");
}
