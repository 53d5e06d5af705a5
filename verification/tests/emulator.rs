use rustboy_core::{Emulator, FRAMEBUFFER_LEN, T_CYCLES_PER_FRAME};

#[test]
fn emulator_a_frame_completes_without_a_cartridge() {
    let mut emu = Emulator::new();
    emu.run_frame().unwrap();
    assert!(emu.bus.ppu.frame_ready);
    assert_eq!(emu.framebuffer().len(), FRAMEBUFFER_LEN);
}

#[test]
fn emulator_frames_take_about_the_right_number_of_cycles() {
    let mut emu = Emulator::new();
    emu.run_frame().unwrap(); // the first one starts partway through a line
    let start = emu.bus.cycles();
    emu.run_frame().unwrap();
    let elapsed = emu.bus.cycles() - start;
    assert_eq!(elapsed, T_CYCLES_PER_FRAME as u64);
}
