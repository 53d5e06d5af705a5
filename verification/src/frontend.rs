//! The shared host layer: a platform says how to draw, this decides what goes on screen.
//!
//! Every platform shows the title screen first. Once it is over, for good, each frame is the
//! console's own picture. Drawing the title and talking to the platform stay with the host;
//! the state and the rules for which picture is showing live here.
use crate::bus::{powered_on, BusView};
use crate::cartridge::header::{CARTRIDGE_TYPE, HEADER_END};
use crate::cartridge::mbc::mapper_for;
use crate::cartridge::{cartridge_from, Cartridge, CartridgeError};
use crate::cpu::{post_boot_cpu, ran, start, Crash};
use crate::emulator::{frame_run, Emulator};
use crate::joypad::Button;
use crate::T_CYCLES_PER_FRAME;
use vstd::prelude::*;

verus! {

/// The console, and whether the title screen is over.
pub struct Frontend {
    emulator: Emulator,
    splash_over: bool,
}

impl Frontend {
    /// The console inside.
    pub closed spec fn console(&self) -> Emulator {
        self.emulator
    }

    /// Whether the title screen is over. Once it is, it never comes back.
    pub closed spec fn title_done(&self) -> bool {
        self.splash_over
    }

    pub fn new() -> (r: Self)
        ensures
            r.console().cpu == post_boot_cpu(),
            powered_on(r.console().bus@, None),
            r.console().bus@.wf(),
            !r.title_done(),
    {
        Self { emulator: Emulator::new(), splash_over: false }
    }

    /// Put a game in. Anything already running is thrown away; a file that is not a
    /// cartridge this console can run is refused, and nothing changes.
    pub fn load_rom(&mut self, rom: Vec<u8>) -> (r: Result<(), CartridgeError>)
        ensures
            rom@.len() < HEADER_END ==> r == Err::<(), CartridgeError>(
                CartridgeError::TooSmall(rom@.len() as usize),
            ),
            rom@.len() >= HEADER_END && mapper_for(rom@[CARTRIDGE_TYPE as int]) is None ==> r
                == Err::<(), CartridgeError>(
                CartridgeError::UnsupportedMapper(rom@[CARTRIDGE_TYPE as int]),
            ),
            r is Err ==> *final(self) == *old(self),
            final(self).title_done() == old(self).title_done(),
            rom@.len() >= HEADER_END && mapper_for(rom@[CARTRIDGE_TYPE as int]) is Some ==> {
                &&& r is Ok
                &&& final(self).console().cpu == post_boot_cpu()
                &&& final(self).console().bus@.cartridge matches Some(c) && cartridge_from(
                    c,
                    rom@,
                )
                &&& powered_on(final(self).console().bus@, final(self).console().bus@.cartridge)
                &&& final(self).console().bus@.wf()
            },
    {
        let cartridge = match Cartridge::new(rom) {
            Ok(c) => c,
            Err(e) => return Err(e),
        };
        self.emulator = Emulator::with_cartridge(cartridge);
        Ok(())
    }

    pub fn is_loaded(&self) -> (r: bool)
        ensures
            r == self.console().bus@.cartridge is Some,
    {
        self.emulator.is_loaded()
    }

    /// The name the cartridge gives itself, or `None` when nothing is loaded.
    pub fn title(&self) -> (r: Option<&str>)
        ensures
            match self.console().bus@.cartridge {
                Some(c) => r matches Some(t) && t@ == c.header.title@,
                None => r is None,
            },
    {
        self.emulator.bus.cartridge_title()
    }

    pub fn set_button(&mut self, button: Button, pressed: bool)
        ensures
            final(self).title_done() == old(self).title_done(),
            final(self).console().cpu == old(self).console().cpu,
            final(self).console().bus@ == (BusView {
                joypad: old(self).console().bus@.joypad.after_set(button, pressed),
                ..old(self).console().bus@
            }),
    {
        self.emulator.set_button(button, pressed);
    }

    /// Cut the title screen short.
    pub fn skip_splash(&mut self)
        ensures
            final(self).title_done(),
            final(self).console() == old(self).console(),
    {
        self.splash_over = true;
    }

    /// Whether the title screen is over, so that each frame shows the console.
    pub fn splash_over(&self) -> (r: bool)
        ensures
            r == self.title_done(),
    {
        self.splash_over
    }

    pub fn save_ram(&self) -> (r: Option<&[u8]>)
        ensures
            match self.console().bus@.cartridge {
                Some(c) => r matches Some(s) && s@ == c.ram,
                None => r is None,
            },
    {
        self.emulator.save_ram()
    }

    pub fn load_save_ram(&mut self, data: &[u8])
        ensures
            final(self).title_done() == old(self).title_done(),
            final(self).console().cpu == old(self).console().cpu,
            final(self).console().bus@ == (match old(self).console().bus@.cartridge {
                Some(c) => BusView {
                    cartridge: Some(
                        crate::cartridge::CartridgeView {
                            ram: Seq::new(
                                c.ram.len(),
                                |i: int|
                                    if i < data@.len() {
                                        data@[i]
                                    } else {
                                        c.ram[i]
                                    },
                            ),
                            ..c
                        },
                    ),
                    ..old(self).console().bus@
                },
                None => old(self).console().bus@,
            }),
    {
        self.emulator.load_save_ram(data);
    }

    /// Whether the console can run one more frame: its tick counter has room for it.
    pub fn can_run_frame(&self) -> (r: bool)
        ensures
            r == (self.console().bus@.t_cycles + 2 * T_CYCLES_PER_FRAME <= u64::MAX),
    {
        self.emulator.can_run_frame()
    }

    /// A frame of the console: the title screen is over for good, the console runs until it
    /// finishes a picture, and that picture is handed back to be shown.
    pub fn console_frame(&mut self) -> (r: Result<&[u8], Crash>)
        requires
            old(self).console().bus@.wf(),
            old(self).console().bus@.t_cycles + 2 * T_CYCLES_PER_FRAME <= u64::MAX,
        ensures
            final(self).title_done(),
            ran(
                frame_run(start(old(self).console().cpu, old(self).console().bus@)),
                final(self).console().cpu,
                final(self).console().bus@,
                r is Ok,
            ),
            final(self).console().bus@.wf(),
            r matches Ok(picture) ==> picture@ == final(self).console().bus@.ppu.framebuffer,
    {
        self.splash_over = true;
        match self.emulator.run_frame() {
            Ok(()) => Ok(self.emulator.framebuffer()),
            Err(e) => Err(e),
        }
    }

    /// Hand the waiting sound to the host: the number of sample values, all silent for now.
    pub fn drain_audio(&mut self) -> (count: usize)
        ensures
            count == old(self).console().bus@.apu.queued,
            final(self).title_done() == old(self).title_done(),
            final(self).console().cpu == old(self).console().cpu,
            final(self).console().bus@ == (BusView {
                apu: crate::apu::ApuView { queued: 0, ..old(self).console().bus@.apu },
                ..old(self).console().bus@
            }),
    {
        self.emulator.drain_audio()
    }
}

impl Default for Frontend {
    fn default() -> (r: Self)
        ensures
            r.console().cpu == post_boot_cpu(),
            powered_on(r.console().bus@, None),
            !r.title_done(),
    {
        Self::new()
    }
}

} // verus!
