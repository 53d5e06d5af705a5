use rustboy_core::bus::IF_VBLANK;
use rustboy_core::ppu::{Mode, Ppu, DOTS_PER_LINE, LINES_PER_FRAME};
use rustboy_core::SCREEN_HEIGHT;

#[test]
fn mod_a_line_is_456_dots_and_a_frame_is_154_lines() {
    let mut ppu = Ppu::new();
    ppu.tick(DOTS_PER_LINE * LINES_PER_FRAME as u32);
    assert_eq!(ppu.ly(), 0);
    assert_eq!(ppu.mode(), Mode::OamScan);
}

#[test]
fn mod_vblank_is_requested_after_the_last_visible_line() {
    let mut ppu = Ppu::new();
    let irq = ppu.tick(DOTS_PER_LINE * SCREEN_HEIGHT as u32);
    assert_eq!(irq & IF_VBLANK, IF_VBLANK);
    assert!(ppu.frame_ready);
    assert_eq!(ppu.mode(), Mode::VBlank);
}

#[test]
fn mod_a_disabled_lcd_does_not_advance() {
    let mut ppu = Ppu::new();
    ppu.write_register(0xFF40, 0x00);
    ppu.tick(DOTS_PER_LINE * 10);
    assert_eq!(ppu.ly(), 0);
}

#[test]
fn ppu_a_line_is_456_dots_and_a_frame_is_154_lines() {
    let mut ppu = Ppu::new();
    ppu.tick(DOTS_PER_LINE * LINES_PER_FRAME as u32);
    assert_eq!(ppu.ly(), 0);
    assert_eq!(ppu.mode(), Mode::OamScan);
}

#[test]
fn ppu_vblank_is_requested_after_the_last_visible_line() {
    let mut ppu = Ppu::new();
    let irq = ppu.tick(DOTS_PER_LINE * SCREEN_HEIGHT as u32);
    assert_eq!(irq & IF_VBLANK, IF_VBLANK);
    assert!(ppu.frame_ready);
    assert_eq!(ppu.mode(), Mode::VBlank);
}

#[test]
fn ppu_a_disabled_lcd_does_not_advance() {
    let mut ppu = Ppu::new();
    ppu.write_register(0xFF40, 0x00);
    ppu.tick(DOTS_PER_LINE * 10);
    assert_eq!(ppu.ly(), 0);
}

#[test]
fn a_dark_screen_raises_nothing() {
    let mut ppu = Ppu::new();
    ppu.write_register(0xFF40, 0x00);
    let mode = ppu.mode();
    assert_eq!(ppu.tick(DOTS_PER_LINE * LINES_PER_FRAME as u32), 0);
    assert!(!ppu.frame_ready);
    assert_eq!(ppu.mode(), mode);
}

#[test]
fn each_vram_bank_keeps_its_bytes_through_many_writes() {
    let mut ppu = Ppu::new();
    ppu.write_register(0xFF4F, 0);
    ppu.write_vram(0x8000, 0x11);
    ppu.write_vram(0x9FFF, 0x33);
    ppu.write_register(0xFF4F, 1);
    for addr in 0x8000..=0x80FFu16 {
        ppu.write_vram(addr, (addr & 0xFF) as u8 ^ 0x5A);
    }
    ppu.write_vram(0x8000, 0x22);
    ppu.write_register(0xFF4F, 0xFE);
    assert_eq!(ppu.read_vram(0x8000), 0x11);
    assert_eq!(ppu.read_vram(0x9FFF), 0x33);
    assert_eq!(ppu.read_vram(0x8001), 0x00);
    ppu.write_register(0xFF4F, 0xFF);
    assert_eq!(ppu.read_vram(0x8000), 0x22);
    assert_eq!(ppu.read_vram(0x8001), 0x01 ^ 0x5A);
    assert_eq!(ppu.read_vram(0x9FFF), 0x00);
}

#[test]
fn a_visible_line_is_80_dots_of_scan_172_of_drawing_and_204_of_hblank() {
    let mut ppu = Ppu::new();
    assert_eq!((ppu.ly(), ppu.mode()), (0, Mode::OamScan));
    for dot in 1..=456u32 {
        ppu.tick(1);
        let expected = if dot == 456 {
            (1, Mode::OamScan)
        } else if dot < 80 {
            (0, Mode::OamScan)
        } else if dot < 252 {
            (0, Mode::Drawing)
        } else {
            (0, Mode::HBlank)
        };
        assert_eq!((ppu.ly(), ppu.mode()), expected, "after {dot} dots");
    }
}

#[test]
fn line_153_wraps_to_line_0() {
    let mut ppu = Ppu::new();
    ppu.tick(DOTS_PER_LINE * 153);
    assert_eq!((ppu.ly(), ppu.mode()), (153, Mode::VBlank));
    ppu.tick(DOTS_PER_LINE - 1);
    assert_eq!(ppu.ly(), 153);
    assert_eq!(ppu.tick(1) & IF_VBLANK, 0);
    assert_eq!((ppu.ly(), ppu.mode()), (0, Mode::OamScan));
}
