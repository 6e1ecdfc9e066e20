use gameboy_emu::header::Header;
use gameboy_emu::mbc::mbc1::MBC1;
use gameboy_emu::mbc::nmbc::NMBC;
use gameboy_emu::mbc::MBCType;

/// A ROM of `banks` 16 KiB banks where every byte holds its bank number.
fn banked_rom(banks: usize) -> Vec<u8> {
    let mut rom = vec![0u8; banks * 0x4000];
    for (i, b) in rom.iter_mut().enumerate() {
        *b = (i / 0x4000) as u8;
    }
    rom
}

fn err<T>(r: Result<T, String>) -> String {
    match r {
        Ok(_) => panic!("expected an error"),
        Err(e) => e,
    }
}

#[test]
fn plain_cartridge_maps_rom() {
    let mut rom = vec![0u8; 0x8000];
    rom[0x0000] = 0x11;
    rom[0x3FFF] = 0x22;
    rom[0x4000] = 0x33;
    rom[0x7FFF] = 0x44;
    let c = NMBC::new(rom, 0).ok().unwrap();
    assert_eq!(c.read(0x0000), 0x11);
    assert_eq!(c.read(0x3FFF), 0x22);
    assert_eq!(c.read(0x4000), 0x33);
    assert_eq!(c.read(0x7FFF), 0x44);
}

#[test]
fn plain_cartridge_ram() {
    let mut with_ram = NMBC::new(vec![0u8; 0x8000], 1).ok().unwrap();
    assert_eq!(with_ram.read(0xA000), 0x00);
    with_ram.write(0xA123, 0x5A);
    assert_eq!(with_ram.read(0xA123), 0x5A);
    assert_eq!(with_ram.read(0xA124), 0x00);
    let mut without_ram = NMBC::new(vec![0u8; 0x8000], 0).ok().unwrap();
    without_ram.write(0xA000, 0x12);
    assert_eq!(without_ram.read(0xA000), 0xFF);
    assert_eq!(without_ram.read(0xBFFF), 0xFF);
}

#[test]
fn plain_cartridge_errors() {
    assert_eq!(err(NMBC::new(vec![0u8; 0x4000], 0)), "ROM size for NMBC must be exactly 32 KiB, was 16384");
    assert_eq!(
        err(NMBC::new(vec![0u8; 0x8000], 2)),
        "NMBC can only support up to 8 KiB of RAM (1 bank), but 2 banks were requested"
    );
}

#[test]
fn mbc1_starts_with_bank_one() {
    let c = MBC1::new(banked_rom(4), 0).ok().unwrap();
    assert_eq!(c.read(0x0000), 0);
    assert_eq!(c.read(0x3FFF), 0);
    assert_eq!(c.read(0x4000), 1);
    assert_eq!(c.read(0x7FFF), 1);
}

#[test]
fn mbc1_switches_rom_banks() {
    let mut c = MBC1::new(banked_rom(8), 0).ok().unwrap();
    c.write(0x2000, 0x05);
    assert_eq!(c.read(0x4000), 5);
    c.write(0x3FFF, 0x00);
    assert_eq!(c.read(0x4000), 1);
    c.write(0x2000, 0x0B);
    assert_eq!(c.read(0x5000), 3);
    c.write(0x2000, 0xE2);
    assert_eq!(c.read(0x4000), 2);
    assert_eq!(c.read(0x0000), 0);
}

#[test]
fn mbc1_high_bank_bits_come_from_ram_register() {
    let mut c = MBC1::new(banked_rom(128), 0).ok().unwrap();
    c.write(0x2000, 0x01);
    c.write(0x4000, 0x02);
    assert_eq!(c.read(0x4000), 0x41);
    c.write(0x6000, 0x01);
    c.write(0x4000, 0x01);
    assert_eq!(c.read(0x4000), 0x21);
}

#[test]
fn mbc1_ram_enable_and_access() {
    let mut c = MBC1::new(banked_rom(2), 1).ok().unwrap();
    assert_eq!(c.read(0xA000), 0xFF);
    c.write(0xA000, 0x42);
    c.write(0x0000, 0x0A);
    assert_eq!(c.read(0xA000), 0x42);
    c.write(0xA001, 0x43);
    assert_eq!(c.read(0xA001), 0x43);
    c.write(0x1FFF, 0x1A);
    assert_eq!(c.read(0xA001), 0x43);
    c.write(0x0000, 0x0B);
    assert_eq!(c.read(0xA000), 0xFF);
}

#[test]
fn mbc1_ram_banks_in_advanced_mode() {
    let mut c = MBC1::new(banked_rom(4), 4).ok().unwrap();
    c.write(0x0000, 0x0A);
    c.write(0xA000, 0x77);
    c.write(0x6000, 0x01);
    c.write(0x4000, 0x02);
    assert_eq!(c.read(0xA000), 0x00);
    c.write(0x4000, 0x00);
    assert_eq!(c.read(0xA000), 0x77);
}

#[test]
fn mbc1_errors() {
    assert_eq!(
        err(MBC1::new(vec![0u8; 0x4000], 0)),
        "ROM size must be a multiple of 16 KiB (0x4000 bytes) and at least 32 KiB, but was 16384"
    );
    assert_eq!(
        err(MBC1::new(vec![0u8; 0x8001], 0)),
        "ROM size must be a multiple of 16 KiB (0x4000 bytes) and at least 32 KiB, but was 32769"
    );
    assert_eq!(
        err(MBC1::new(vec![0u8; 0x204000], 0)),
        "MBC1 can only support up to 2 MiB of ROM, but the ROM has 2113536 bytes"
    );
    assert_eq!(
        err(MBC1::new(vec![0u8; 0x8000], 5)),
        "MBC1 can only support up to 32 KiB of RAM (4 banks), but 5 banks were requested. If the ROM size is larger than 512 KiB (0x80000 bytes), only 1 RAM bank is supported."
    );
    assert!(MBC1::new(vec![0u8; 0x100000], 2).is_err());
    assert!(MBC1::new(vec![0u8; 0x100000], 1).is_ok());
}

#[test]
fn cartridge_type_selects_controller() {
    let plain = MBCType::new(vec![7u8; 0x8000], &Header { cart_type: 0x00, ram_banks: 4 }).ok().unwrap();
    assert_eq!(plain.read(0x1234), 7);
    assert_eq!(plain.read(0xA000), 0xFF);
    let mut mbc1 = MBCType::new(banked_rom(4), &Header { cart_type: 0x03, ram_banks: 1 }).ok().unwrap();
    mbc1.write(0x2000, 3);
    assert_eq!(mbc1.read(0x4000), 3);
    assert_eq!(err(MBCType::new(vec![0u8; 0x8000], &Header { cart_type: 0x05, ram_banks: 0 })), "Unsupported cartridge type: 05");
}

#[test]
fn mbc1_ram_writes_go_to_the_selected_bank() {
    let mut c = MBC1::new(banked_rom(4), 4).ok().unwrap();
    c.write(0x0000, 0x0A);
    c.write(0x6000, 0x01);
    for bank in 0..4u8 {
        c.write(0x4000, bank);
        c.write(0xA000, 0x50 + bank);
        assert_eq!(c.read(0xA000), 0x50 + bank);
    }
    for bank in 0..4u8 {
        c.write(0x4000, bank);
        assert_eq!(c.read(0xA000), 0x50 + bank);
    }
    c.write(0x6000, 0x00);
    assert_eq!(c.read(0xA000), 0x50);
}
