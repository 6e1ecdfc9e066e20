use gameboy_emu::memory::Memory;
use gameboy_emu::ppu::background_fifo::BackgroundFIFO;
use gameboy_emu::ppu::{LCDC, PPU};

#[test]
fn lcdc_decodes_each_bit() {
    let l = LCDC::from_byte(0b1010_0101);
    assert!(l.lcd_enable);
    assert!(!l.window_tile_map_select);
    assert!(l.window_display_enable);
    assert!(!l.bgw_tile_data_select);
    assert!(!l.bg_tile_map_select);
    assert!(l.obj_size);
    assert!(!l.obj_display_enable);
    assert!(l.bgw_display);
    let all = LCDC::from_byte(0xFF);
    assert!(all.bg_tile_map_select && all.bgw_tile_data_select && all.obj_display_enable);
}

fn tile_memory(low: u8, high: u8) -> Memory {
    let mut m = Memory::new();
    m.write_byte(0xFF40, 0x08);
    m.write_byte(0x8000, low);
    m.write_byte(0x8001, high);
    m
}

#[test]
fn fifo_fetches_and_pushes_a_tile_row() {
    let mut m = tile_memory(0b1010_0000, 0b1100_0000);
    let mut f = BackgroundFIFO::new();
    for _ in 0..6 {
        f.step(&mut m);
        assert_eq!(f.take_pixel(), None);
    }
    f.step(&mut m);
    let pixels: Vec<Option<u8>> = (0..9).map(|_| f.take_pixel()).collect();
    assert_eq!(
        pixels,
        vec![Some(3), Some(2), Some(1), Some(0), Some(0), Some(0), Some(0), Some(0), None]
    );
    assert_eq!(f.pos_x(), 1);
}

#[test]
fn fifo_signed_tile_addressing() {
    let mut m = Memory::new();
    m.write_byte(0x9000, 0xFF);
    m.write_byte(0x9001, 0xFF);
    let mut f = BackgroundFIFO::new();
    for _ in 0..7 {
        f.step(&mut m);
    }
    assert_eq!(f.take_pixel(), Some(3));
}

#[test]
fn fifo_waits_while_pixels_are_queued() {
    let mut m = tile_memory(0xFF, 0x00);
    let mut f = BackgroundFIFO::new();
    for _ in 0..7 {
        f.step(&mut m);
    }
    for _ in 0..20 {
        f.step(&mut m);
    }
    assert_eq!(f.pos_x(), 1);
    let mut count = 0;
    while f.take_pixel().is_some() {
        count += 1;
    }
    assert_eq!(count, 8);
}

#[test]
fn fifo_reset_and_line_start() {
    let mut m = tile_memory(0xFF, 0xFF);
    let mut f = BackgroundFIFO::new();
    for _ in 0..7 {
        f.step(&mut m);
    }
    f.start_line();
    assert_eq!(f.take_pixel(), None);
    assert_eq!(f.pos_x(), 0);
    f.start_window();
    assert_eq!(f.take_pixel(), None);
    f.reset();
    assert_eq!(f.pos_x(), 0);
}

#[test]
fn ppu_starts_blank_at_frame_zero() {
    let p = PPU::new();
    assert_eq!(p.frame(), 0);
    assert!(p.get_framebuffer().iter().all(|row| row.iter().all(|&c| c == 0)));
}

#[test]
fn ppu_takes_video_memory_while_drawing() {
    let mut m = Memory::new();
    let mut p = PPU::new();
    for _ in 0..79 {
        p.step_tcycle(&mut m);
    }
    m.write_byte(0x8000, 0x11);
    assert_eq!(m.read_byte(0x8000), 0x11);
    p.step_tcycle(&mut m);
    assert_eq!(m.read_byte(0x8000), 0xFF);
    assert_eq!(m.read_byte(0xFE00), 0xFF);
    assert_eq!(m.get_byte(0x8000), 0x11);
}

#[test]
fn ppu_requests_hblank_then_vblank() {
    let mut m = Memory::new();
    let mut p = PPU::new();
    for _ in 0..456 {
        p.step_tcycle(&mut m);
    }
    assert_eq!(m.get_byte(0xFF0F) & 0b11, 0b10);
    for _ in 456..(144 * 456) {
        p.step_tcycle(&mut m);
    }
    assert_eq!(m.get_byte(0xFF0F) & 0b01, 0b01);
    assert_eq!(p.frame(), 0);
    for _ in (144 * 456)..(154 * 456) {
        p.step_tcycle(&mut m);
    }
    assert_eq!(p.frame(), 1);
}

#[test]
fn ppu_draws_background_pixels() {
    let mut m = tile_memory(0xFF, 0x00);
    let mut p = PPU::new();
    for _ in 0..114 {
        p.step_mcycle(&mut m);
    }
    let fb = p.get_framebuffer();
    assert_eq!(&fb[0][0..8], &[1u8; 8]);
    assert_eq!(fb[0][8], 0);
    assert_eq!(fb[1][0], 0);
}

#[test]
fn drawing_ends_before_dot_414() {
    let mut m = Memory::new();
    let mut p = PPU::new();
    for _ in 0..414 {
        p.step_tcycle(&mut m);
    }
    assert_eq!(m.get_byte(0xFF0F) & 0b10, 0b10);
    assert_eq!(m.read_byte(0x8000), 0x00);
}
