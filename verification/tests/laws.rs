use rustboy_core::apu::Apu;
use rustboy_core::bus::IF_VBLANK;
use rustboy_core::cpu::Crash;
use rustboy_core::frontend::Frontend;
use rustboy_core::joypad::Joypad;
use rustboy_core::ppu::{Mode, Ppu};
use rustboy_core::server::percent_decode;
use rustboy_core::timer::Timer;
use rustboy_core::{Bus, Button, Cartridge, CartridgeError, Cpu, Emulator, T_CYCLES_PER_FRAME};

// Put a program at 0x0100, where the CPU starts after the boot ROM.
fn program(bytes: &[u8]) -> (Cpu, Bus) {
    let mut bus = Bus::testing();
    for (i, b) in bytes.iter().enumerate() {
        bus.write(0x0100 + i as u16, *b);
    }
    (Cpu::new(), bus)
}

#[test]
fn push_then_pop_gives_the_value_back() {
    // PUSH BC, POP DE
    let (mut cpu, mut bus) = program(&[0xC5, 0xD1]);
    cpu.regs.set_bc(0x1234);
    let sp = cpu.regs.sp;
    cpu.step(&mut bus).unwrap();
    assert_eq!(cpu.regs.sp, sp.wrapping_sub(2));
    cpu.step(&mut bus).unwrap();
    assert_eq!(cpu.regs.de(), 0x1234);
    assert_eq!(cpu.regs.sp, sp);
}

#[test]
fn push_takes_four_m_cycles_and_pop_three() {
    let (mut cpu, mut bus) = program(&[0xC5, 0xD1]);
    let start = bus.cycles();
    cpu.step(&mut bus).unwrap();
    assert_eq!(bus.cycles() - start, 16);
    cpu.step(&mut bus).unwrap();
    assert_eq!(bus.cycles() - start, 28);
}

#[test]
fn an_empty_opcode_slot_stops_the_console() {
    let (mut cpu, mut bus) = program(&[0xD3]);
    assert_eq!(cpu.step(&mut bus), Err(Crash));
}

#[test]
fn every_later_frame_is_exactly_one_frame_of_ticks() {
    let mut emu = Emulator::new();
    emu.run_frame().unwrap();
    for _ in 0..3 {
        let start = emu.bus.cycles();
        emu.run_frame().unwrap();
        assert_eq!(emu.bus.cycles() - start, T_CYCLES_PER_FRAME as u64);
        assert!(emu.bus.ppu.frame_ready);
    }
}

#[test]
fn the_first_frame_ends_at_the_last_visible_line() {
    let mut emu = Emulator::new();
    emu.run_frame().unwrap();
    assert_eq!(emu.bus.cycles(), 144 * 456);
}

#[test]
fn a_whole_frame_of_dots_comes_back_to_the_same_place() {
    let mut ppu = Ppu::new();
    ppu.tick(1000);
    let ly = ppu.ly();
    let mode = ppu.mode();
    ppu.frame_ready = false;
    ppu.tick(T_CYCLES_PER_FRAME);
    assert_eq!(ppu.ly(), ly);
    assert_eq!(ppu.mode(), mode);
    assert!(ppu.frame_ready);
}

#[test]
fn a_sample_comes_once_the_total_passes_the_clock_rate() {
    let mut apu = Apu::new();
    apu.tick(87); // 87 * 48000 is just under 4194304
    assert_eq!(apu.drain(), 0);
    apu.tick(1);
    assert_eq!(apu.drain(), 2);
}

#[test]
fn the_sound_queue_stops_at_about_a_second() {
    let mut apu = Apu::new();
    apu.tick(4_194_304);
    apu.tick(4_194_304);
    assert_eq!(apu.drain(), 96_000);
    assert_eq!(apu.drain(), 0);
}

#[test]
fn writes_to_work_ram_read_back() {
    let mut bus = Bus::testing();
    bus.write(0xD000, 0x5A);
    bus.write(0xC000, 0xA5);
    assert_eq!(bus.read(0xD000), 0x5A);
    assert_eq!(bus.read(0xC000), 0xA5);
    assert_eq!(bus.read(0xF000), 0x5A);
    bus.tick(400);
    assert_eq!(bus.read(0xD000), 0x5A);
}

#[test]
fn writing_the_echo_writes_work_ram() {
    let mut bus = Bus::testing();
    bus.write(0xE456, 0x77);
    assert_eq!(bus.read(0xC456), 0x77);
}

#[test]
fn a_refused_rom_leaves_the_console_as_it_was() {
    let mut emu = Emulator::new();
    assert_eq!(emu.load_rom(vec![0; 8]), Err(CartridgeError::TooSmall(8)));
    assert!(!emu.is_loaded());
    let mut rom = vec![0; 0x8000];
    rom[0x0147] = 0x20;
    assert_eq!(emu.load_rom(rom), Err(CartridgeError::UnsupportedMapper(0x20)));
    assert!(!emu.is_loaded());
}

#[test]
fn a_loaded_rom_starts_the_console_afresh() {
    let mut emu = Emulator::new();
    emu.run_frame().unwrap();
    let mut rom = vec![0; 0x8000];
    rom[0x0134..0x0138].copy_from_slice(b"TEST");
    emu.load_rom(rom).unwrap();
    assert!(emu.is_loaded());
    assert_eq!(emu.bus.cycles(), 0);
    assert_eq!(emu.cpu.regs.pc, 0x0100);
}

#[test]
fn save_ram_goes_back_in_as_far_as_it_fits() {
    let mut emu = Emulator::with_cartridge(Cartridge::test_ram());
    emu.load_save_ram(&[1, 2, 3]);
    let saved = emu.save_ram().unwrap();
    assert_eq!(&saved[..4], &[1, 2, 3, 0]);
    assert!(Emulator::new().save_ram().is_none());
}

#[test]
fn the_title_screen_stays_gone() {
    let mut frontend = Frontend::new();
    assert!(!frontend.splash_over());
    let picture = frontend.console_frame().unwrap().to_vec();
    assert_eq!(picture.len(), rustboy_core::FRAMEBUFFER_LEN);
    assert!(frontend.splash_over());
    frontend.set_button(Button::A, true);
    assert!(frontend.splash_over());
    assert_eq!(frontend.title(), None);
}

#[test]
fn a_frontend_names_its_game() {
    let mut frontend = Frontend::new();
    let mut rom = vec![0; 0x8000];
    rom[0x0134..0x0139].copy_from_slice(b"ZELDA");
    frontend.load_rom(rom).unwrap();
    assert!(frontend.is_loaded());
    assert_eq!(frontend.title(), Some("ZELDA"));
}

#[test]
fn bytes_that_are_not_text_become_the_replacement_character() {
    assert_eq!(percent_decode("a%FFb"), "a\u{FFFD}b");
    assert_eq!(percent_decode("%C3%A9"), "\u{e9}");
}

#[test]
fn a_waiting_interrupt_is_answered_in_five_m_cycles() {
    let mut bus = Bus::testing();
    bus.write(0xFFFF, 0x04); // allow the timer interrupt
    bus.write(0xFF0F, 0x04); // and have one waiting
    let mut cpu = Cpu::new();
    cpu.ime = true;
    let start = bus.cycles();
    cpu.step(&mut bus).unwrap();
    assert_eq!(cpu.regs.pc, 0x0050);
    assert!(!cpu.ime);
    assert_eq!(cpu.regs.sp, 0xFFFC);
    assert_eq!(bus.cycles() - start, 20);
    assert_eq!(bus.read(0xFFFC), 0x00); // the old PC, 0x0100, low byte first
    assert_eq!(bus.read(0xFFFD), 0x01);
    assert_eq!(bus.read(0xFF0F) & 0x04, 0); // answered, so no longer waiting
}

#[test]
fn with_interrupts_off_a_waiting_one_only_wakes_the_cpu() {
    let mut bus = Bus::testing();
    bus.write(0xFFFF, 0x01);
    bus.write(0xFF0F, 0x01);
    bus.write(0x0100, 0x00); // NOP
    let mut cpu = Cpu::new();
    cpu.halted = true;
    cpu.step(&mut bus).unwrap();
    assert!(!cpu.halted);
    assert_eq!(cpu.regs.pc, 0x0101);
}

#[test]
fn halt_sleeps_until_an_interrupt() {
    let (mut cpu, mut bus) = program(&[0x76, 0x00]);
    cpu.step(&mut bus).unwrap();
    assert!(cpu.halted);
    let pc = cpu.regs.pc;
    cpu.step(&mut bus).unwrap();
    assert!(cpu.halted);
    assert_eq!(cpu.regs.pc, pc);
}

#[test]
fn halt_with_interrupts_off_and_one_waiting_reads_the_next_byte_twice() {
    // HALT, then INC A: the INC is fetched twice, so A goes up by two.
    let (mut cpu, mut bus) = program(&[0x76, 0x3C, 0x00]);
    bus.write(0xFFFF, 0x01);
    bus.write(0xFF0F, 0x01);
    let a = cpu.regs.a;
    cpu.step(&mut bus).unwrap();
    assert!(!cpu.halted && cpu.halt_bug);
    cpu.step(&mut bus).unwrap();
    cpu.step(&mut bus).unwrap();
    assert_eq!(cpu.regs.a, a.wrapping_add(2));
    assert_eq!(cpu.regs.pc, 0x0102);
}

#[test]
fn ei_waits_for_the_next_instruction_and_di_is_at_once() {
    let (mut cpu, mut bus) = program(&[0xFB, 0x00, 0xF3]);
    cpu.step(&mut bus).unwrap();
    assert!(!cpu.ime && cpu.ime_pending);
    cpu.step(&mut bus).unwrap();
    assert!(cpu.ime && !cpu.ime_pending);
    cpu.step(&mut bus).unwrap();
    assert!(!cpu.ime);
}

#[test]
fn the_joypad_echoes_its_row_choice_and_starts_with_none() {
    let mut joypad = Joypad::new();
    assert_eq!(joypad.read(), 0xFF);
    joypad.write(0x20);
    assert_eq!(joypad.read() & 0x30, 0x20);
    joypad.write(0xDF);
    assert_eq!(joypad.read() & 0x30, 0x10);
}

#[test]
fn taking_the_joypad_interrupt_clears_it() {
    let mut joypad = Joypad::new();
    joypad.write(0x20);
    joypad.set_button(Button::Up, true);
    joypad.set_button(Button::Up, true); // holding on raises nothing more
    assert_eq!(joypad.take_interrupt(), 0x10);
    assert_eq!(joypad.take_interrupt(), 0);
    assert_eq!(joypad.read() & 0x04, 0, "still held");
    joypad.set_button(Button::Up, false);
    assert_eq!(joypad.take_interrupt(), 0);
    joypad.set_button(Button::Left, true);
    assert_eq!(joypad.read() & 0x0F, 0x0D, "only Left reads as held");
}

#[test]
fn a_tac_write_that_drops_the_selected_bit_counts_once() {
    let mut timer = Timer::new();
    timer.write(0xFF04, 0);
    timer.write(0xFF07, 0x05); // every 16 ticks, bit 3
    timer.write(0xFF05, 0x10);
    timer.tick(8); // bit 3 set
    timer.write(0xFF07, 0x01); // switched off: never counts
    assert_eq!(timer.read(0xFF05), 0x10);
    timer.write(0xFF07, 0x05);
    timer.write(0xFF04, 0x99); // bit 3 falls, timer on
    assert_eq!(timer.read(0xFF05), 0x11);
    assert_eq!(timer.read(0xFF04), 0);
}

#[test]
fn freezing_changes_no_reading_and_thawing_counts_again() {
    let mut timer = Timer::new();
    timer.write(0xFF07, 0x05);
    let before: Vec<u8> = (0xFF04..=0xFF07).map(|a| timer.read(a)).collect();
    timer.freeze(true);
    let frozen: Vec<u8> = (0xFF04..=0xFF07).map(|a| timer.read(a)).collect();
    assert_eq!(before, frozen);
    assert_eq!(timer.tick(1000), 0);
    assert_eq!(timer.read(0xFF05), before[1]);
    timer.freeze(false);
    timer.tick(1024);
    assert_eq!(timer.read(0xFF05), before[1].wrapping_add(64));
}

#[test]
fn each_vram_bank_keeps_its_own_bytes() {
    let mut ppu = Ppu::new();
    ppu.write_vram(0x8123, 0x11);
    ppu.write_register(0xFF4F, 1);
    assert_eq!(ppu.read_vram(0x8123), 0);
    ppu.write_vram(0x8123, 0x22);
    ppu.write_register(0xFF4F, 0);
    assert_eq!(ppu.read_vram(0x8123), 0x11);
    ppu.write_register(0xFF4F, 1);
    assert_eq!(ppu.read_vram(0x8123), 0x22);
}

#[test]
fn a_line_is_80_dots_of_scan_172_of_drawing_and_204_of_hblank() {
    let mut ppu = Ppu::new();
    for line in 0..144u32 {
        assert_eq!(ppu.ly() as u32, line);
        assert_eq!(ppu.mode(), Mode::OamScan);
        ppu.tick(79);
        assert_eq!(ppu.mode(), Mode::OamScan);
        ppu.tick(1);
        assert_eq!(ppu.mode(), Mode::Drawing);
        ppu.tick(171);
        assert_eq!(ppu.mode(), Mode::Drawing);
        ppu.tick(1);
        assert_eq!(ppu.mode(), Mode::HBlank);
        let irq = ppu.tick(203);
        assert_eq!(irq & IF_VBLANK, 0);
        let irq = ppu.tick(1);
        assert_eq!(irq & IF_VBLANK != 0, line == 143);
    }
    assert_eq!(ppu.ly(), 144);
    assert_eq!(ppu.mode(), Mode::VBlank);
}
