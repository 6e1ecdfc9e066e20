use gameboy_emu::memory::Memory;

fn plain_rom() -> Vec<u8> {
    let mut rom = vec![0u8; 0x8000];
    for (i, b) in rom.iter_mut().enumerate() {
        *b = (i % 251) as u8;
    }
    rom[0x147] = 0x00;
    rom[0x149] = 0x00;
    rom
}

#[test]
fn plain_ram_reads_back_writes() {
    let mut m = Memory::new();
    m.write_byte(0xC000, 0x55);
    m.write_byte(0xFF80, 0xAA);
    m.write_byte(0xFFFF, 0x1F);
    assert_eq!(m.read_byte(0xC000), 0x55);
    assert_eq!(m.read_byte(0xFF80), 0xAA);
    assert_eq!(m.read_byte(0xFFFF), 0x1F);
    assert_eq!(m.read_byte(0xC001), 0x00);
}

#[test]
fn video_memory_locks_follow_access_flags() {
    let mut m = Memory::new();
    m.write_byte(0x8000, 0x12);
    m.write_byte(0xFE00, 0x34);
    m.set_access(false, false);
    assert_eq!(m.read_byte(0x8000), 0xFF);
    assert_eq!(m.read_byte(0xFE00), 0xFF);
    assert_eq!(m.get_byte(0x8000), 0x12);
    assert_eq!(m.get_byte(0xFE00), 0x34);
    m.write_byte(0x8000, 0x99);
    m.write_byte(0xFE00, 0x99);
    assert_eq!(m.get_byte(0x8000), 0x12);
    assert_eq!(m.get_byte(0xFE00), 0x34);
    m.set_access(true, false);
    assert_eq!(m.read_byte(0xFE00), 0x34);
    assert_eq!(m.read_byte(0x8000), 0xFF);
}

#[test]
fn cartridge_window_without_cartridge() {
    let mut m = Memory::new();
    assert_eq!(m.read_byte(0x0100), 0xFF);
    assert_eq!(m.read_byte(0xA000), 0xFF);
    m.write_byte(0x0000, 0x12);
    assert_eq!(m.take_errors(), vec!["Ignored write of 0x12 to cartridge address 0x0000".to_string()]);
    assert!(m.take_errors().is_empty());
}

#[test]
fn loaded_rom_is_visible() {
    let rom = plain_rom();
    let mut m = Memory::new();
    assert!(m.load_rom(rom.clone()).is_ok());
    for a in [0x0000u16, 0x0147, 0x1234, 0x4000, 0x7FFF] {
        assert_eq!(m.read_byte(a), rom[a as usize]);
    }
    m.write_byte(0x2000, 1);
    assert_eq!(m.take_errors(), vec!["Ignored write of 0x01 to cartridge address 0x2000".to_string()]);
}

#[test]
fn failed_load_leaves_memory_empty() {
    let mut m = Memory::new();
    let mut rom = plain_rom();
    rom[0x147] = 0x13;
    assert_eq!(m.load_rom(rom).unwrap_err(), "Unsupported cartridge type: 13");
    assert_eq!(m.read_byte(0x0000), 0xFF);
}

#[test]
fn interrupt_requests_set_flag_bits() {
    let mut m = Memory::new();
    m.trigger_interrupt(0);
    m.trigger_interrupt(2);
    assert_eq!(m.get_byte(0xFF0F), 0b101);
    m.trigger_interrupt(2);
    assert_eq!(m.get_byte(0xFF0F), 0b101);
}

#[test]
fn words_are_written_little_endian() {
    let mut m = Memory::new();
    m.write_word(0xC100, &[0x34, 0x12]);
    assert_eq!(m.read_byte(0xC100), 0x34);
    assert_eq!(m.read_byte(0xC101), 0x12);
    m.write_word(0xFFFF, &[0xAB, 0xCD]);
    assert_eq!(m.read_byte(0xFFFF), 0xAB);
    assert_eq!(m.take_errors(), vec!["Ignored write of 0xCD to cartridge address 0x0000".to_string()]);
}
