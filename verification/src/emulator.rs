//! The whole console. A host never needs anything but this type.
use crate::bus::{powered_on, Bus, BusView};
use crate::cartridge::header::{CARTRIDGE_TYPE, HEADER_END};
use crate::cartridge::mbc::mapper_for;
use crate::cartridge::{cartridge_from, Cartridge, CartridgeError};
use crate::cpu::{lemma_cycles_run_on, lemma_step_advances, post_boot_cpu, ran, start, Cpu, Crash, Machine};
use crate::joypad::Button;
use crate::ppu::{dots_to_picture, frame_position, vblank_position, PpuView};
use crate::T_CYCLES_PER_FRAME;
use vstd::prelude::*;

verus! {

pub struct Emulator {
    pub cpu: Cpu,  // the processor
    pub bus: Bus,  // everything else, reached by address
}

/// One turn of the frame loop: a CPU step with a game in; without one the rest of the
/// machine still moves on, so the host shows a blank LCD.
pub open spec fn turn(m: Machine) -> Machine {
    if m.bus.cartridge is Some {
        m.step()
    } else {
        m.tick(4)
    }
}

/// A turn always moves the tick counter on.
pub proof fn lemma_turn_advances(m: Machine)
    ensures
        turn(m).bus.t_cycles >= m.bus.t_cycles + 4,
        m.fault ==> turn(m).fault,
{
    lemma_step_advances(m);
    lemma_cycles_run_on();
}

/// Turns until a picture is finished, the tick counter reaches `deadline`, or the console
/// stops.
pub open spec fn frame_loop(m: Machine, deadline: nat) -> Machine
    decreases (if m.bus.t_cycles < deadline {
        deadline - m.bus.t_cycles
    } else {
        0
    }),
{
    if m.fault || m.bus.ppu.frame_ready || m.bus.t_cycles >= deadline {
        m
    } else {
        proof {
            lemma_turn_advances(m);
        }
        frame_loop(turn(m), deadline)
    }
}

/// The machine with the finished-picture flag taken down.
pub open spec fn without_picture(m: Machine) -> Machine {
    Machine {
        bus: BusView { ppu: PpuView { frame_ready: false, ..m.bus.ppu }, ..m.bus },
        ..m
    }
}

/// What `run_frame` does: take the flag down, then turn until a picture is finished. A
/// switched-off screen never finishes one, so two frames' worth of ticks is the ceiling.
pub open spec fn frame_run(m: Machine) -> Machine {
    frame_loop(without_picture(m), m.bus.t_cycles + 2 * T_CYCLES_PER_FRAME as nat)
}

/// The frame loop stops only where it should: with a picture finished, at the deadline, or
/// with the console stopped; and the tick counter never runs back.
proof fn lemma_loop_ends(m: Machine, deadline: nat)
    ensures
        frame_loop(m, deadline).fault || frame_loop(m, deadline).bus.ppu.frame_ready
            || frame_loop(m, deadline).bus.t_cycles >= deadline,
        m.bus.t_cycles <= frame_loop(m, deadline).bus.t_cycles,
    decreases (if m.bus.t_cycles < deadline {
        deadline - m.bus.t_cycles
    } else {
        0
    }),
{
    if !(m.fault || m.bus.ppu.frame_ready || m.bus.t_cycles >= deadline) {
        lemma_turn_advances(m);
        lemma_loop_ends(turn(m), deadline);
    }
}

/// `run_frame` ends with a picture finished, or once two frames' worth of ticks have gone by
/// with none, or with the console stopped.
pub proof fn lemma_frame_run_ends(m: Machine)
    ensures
        frame_run(m).fault || frame_run(m).bus.ppu.frame_ready || frame_run(m).bus.t_cycles
            >= m.bus.t_cycles + 2 * T_CYCLES_PER_FRAME,
        m.bus.t_cycles <= frame_run(m).bus.t_cycles,
{
    lemma_loop_ends(without_picture(m), m.bus.t_cycles + 2 * T_CYCLES_PER_FRAME as nat);
}

/// From a place `p` in the frame that is a whole number of M-cycles in, one M-cycle later
/// the next picture is 4 ticks nearer, unless it was just reached.
proof fn lemma_picture_nearer(p: int)
    requires
        0 <= p < T_CYCLES_PER_FRAME,
        p % 4 == 0,
    ensures
        0 <= (p + 4) % (T_CYCLES_PER_FRAME as int) < T_CYCLES_PER_FRAME,
        ((p + 4) % (T_CYCLES_PER_FRAME as int)) % 4 == 0,
        dots_to_picture(p) % 4 == 0,
        dots_to_picture(p) >= 4,
        dots_to_picture(p) == 4 ==> (p + 4) % (T_CYCLES_PER_FRAME as int) == vblank_position(),
        dots_to_picture(p) > 4 ==> dots_to_picture((p + 4) % (T_CYCLES_PER_FRAME as int))
            == dots_to_picture(p) - 4,
{
    let t = T_CYCLES_PER_FRAME as int;
    let v = vblank_position();
    assert(v == 65664 && t == 70224);
    let p1 = if p + 4 < t {
        p + 4
    } else {
        p + 4 - t
    };
    vstd::arithmetic::div_mod::lemma_fundamental_div_mod_converse(
        p + 4,
        t,
        if p + 4 < t {
            0
        } else {
            1
        },
        p1,
    );
    if p < v {
        vstd::arithmetic::div_mod::lemma_fundamental_div_mod_converse(v - p - 1, t, 0, v - p - 1);
    } else {
        vstd::arithmetic::div_mod::lemma_fundamental_div_mod_converse(
            v - p - 1,
            t,
            -1,
            v - p - 1 + t,
        );
    }
    if p1 < v {
        vstd::arithmetic::div_mod::lemma_fundamental_div_mod_converse(v - p1 - 1, t, 0, v - p1 - 1);
    } else {
        vstd::arithmetic::div_mod::lemma_fundamental_div_mod_converse(
            v - p1 - 1,
            t,
            -1,
            v - p1 - 1 + t,
        );
    }
}

/// The frame loop of a console with no game in, with the screen on at normal speed and no
/// picture finished yet, runs exactly until the end of the last visible line.
proof fn lemma_dark_loop(m: Machine, deadline: nat)
    requires
        !m.fault,
        m.bus.wf(),
        m.bus.cartridge is None,
        m.bus.ppu.lcd_on(),
        !m.bus.double_speed,
        !m.bus.ppu.frame_ready,
        frame_position(m.bus.ppu) % 4 == 0,
        m.bus.t_cycles + dots_to_picture(frame_position(m.bus.ppu)) <= deadline,
        deadline <= u64::MAX,
    ensures
        !frame_loop(m, deadline).fault,
        frame_loop(m, deadline).bus.ppu.frame_ready,
        frame_loop(m, deadline).bus.t_cycles == m.bus.t_cycles + dots_to_picture(
            frame_position(m.bus.ppu),
        ),
        frame_position(frame_loop(m, deadline).bus.ppu) == vblank_position(),
    decreases dots_to_picture(frame_position(m.bus.ppu)),
{
    let p = frame_position(m.bus.ppu);
    assert(0 <= p < T_CYCLES_PER_FRAME) by {
        assert(m.bus.ppu.ly < 154 && m.bus.ppu.dot < 456);
    }
    lemma_picture_nearer(p);
    let next = turn(m);
    assert(next == m.tick(4));
    crate::bus::lemma_tick_screen(m.bus, 4);
    crate::bus::lemma_clock();
    crate::ppu::lemma_dotted(m.bus.ppu, 4);
    assert(next.bus.ppu == m.bus.ppu.dotted(4));
    if dots_to_picture(p) > 4 {
        lemma_dark_loop(next, deadline);
    }
}

/// Without a game in, the screen runs on its own: from a place in the frame a whole number of
/// M-cycles in, `run_frame` takes exactly the ticks to the end of the last visible line and
/// finishes a picture there. From the end of one picture that is one whole frame: 154 lines
/// of 456 ticks.
pub proof fn lemma_frame_without_cartridge(m: Machine)
    requires
        !m.fault,
        m.bus.wf(),
        m.bus.cartridge is None,
        m.bus.ppu.lcd_on(),
        !m.bus.double_speed,
        frame_position(m.bus.ppu) % 4 == 0,
        m.bus.t_cycles + 2 * T_CYCLES_PER_FRAME <= u64::MAX,
    ensures
        !frame_run(m).fault,
        frame_run(m).bus.ppu.frame_ready,
        frame_run(m).bus.t_cycles == m.bus.t_cycles + dots_to_picture(frame_position(m.bus.ppu)),
        frame_position(frame_run(m).bus.ppu) == vblank_position(),
        frame_position(m.bus.ppu) == vblank_position() ==> frame_run(m).bus.t_cycles
            == m.bus.t_cycles + T_CYCLES_PER_FRAME,
{
    let p = frame_position(m.bus.ppu);
    assert(0 <= p < T_CYCLES_PER_FRAME) by {
        assert(m.bus.ppu.ly < 154 && m.bus.ppu.dot < 456);
    }
    lemma_picture_nearer(p);
    lemma_dark_loop(without_picture(m), m.bus.t_cycles + 2 * T_CYCLES_PER_FRAME as nat);
    if p == vblank_position() {
        vstd::arithmetic::div_mod::lemma_fundamental_div_mod_converse(
            -1,
            T_CYCLES_PER_FRAME as int,
            -1,
            T_CYCLES_PER_FRAME - 1,
        );
    }
}

impl Emulator {
    /// A console with no game in it. The screen keeps running, so the host shows a blank LCD.
    pub fn new() -> (r: Self)
        ensures
            r.cpu == post_boot_cpu(),
            powered_on(r.bus@, None),
            r.bus@.wf(),
    {
        Self { cpu: Cpu::new(), bus: Bus::new(None) }
    }

    pub fn with_cartridge(cartridge: Cartridge) -> (r: Self)
        requires
            cartridge@.wf(),
        ensures
            r.cpu == post_boot_cpu(),
            powered_on(r.bus@, Some(cartridge@)),
            r.bus@.wf(),
    {
        Self { cpu: Cpu::new(), bus: Bus::new(Some(cartridge)) }
    }

    /// Put a game in and switch the console on afresh. A file that is not a cartridge this
    /// console can run is refused, and the console is left as it was.
    pub fn load_rom(&mut self, rom: Vec<u8>) -> (r: Result<(), CartridgeError>)
        ensures
            rom@.len() < HEADER_END ==> r == Err::<(), CartridgeError>(
                CartridgeError::TooSmall(rom@.len() as usize),
            ),
            rom@.len() >= HEADER_END && mapper_for(rom@[CARTRIDGE_TYPE as int]) is None ==> r
                == Err::<(), CartridgeError>(
                CartridgeError::UnsupportedMapper(rom@[CARTRIDGE_TYPE as int]),
            ),
            r is Err ==> *final(self) == *old(self),
            rom@.len() >= HEADER_END && mapper_for(rom@[CARTRIDGE_TYPE as int]) is Some ==> {
                &&& r is Ok
                &&& final(self).cpu == post_boot_cpu()
                &&& final(self).bus@.cartridge matches Some(c) && cartridge_from(c, rom@)
                &&& powered_on(final(self).bus@, final(self).bus@.cartridge)
                &&& final(self).bus@.wf()
            },
    {
        let cartridge = match Cartridge::new(rom) {
            Ok(c) => c,
            Err(e) => return Err(e),
        };
        *self = Self::with_cartridge(cartridge);
        Ok(())
    }

    pub fn is_loaded(&self) -> (r: bool)
        ensures
            r == self.bus@.cartridge is Some,
    {
        self.bus.has_cartridge()
    }

    /// Whether the tick counter has room for the longest frame `run_frame` can take.
    pub fn can_run_frame(&self) -> (r: bool)
        ensures
            r == (self.bus@.t_cycles + 2 * T_CYCLES_PER_FRAME <= u64::MAX),
    {
        self.bus.cycles() <= u64::MAX - 2 * T_CYCLES_PER_FRAME as u64
    }

    /// Runs until the screen finishes a picture, which stays right even at double speed.
    /// The console stopping on the way is an error; what it did up to there is kept.
    pub fn run_frame(&mut self) -> (r: Result<(), Crash>)
        requires
            old(self).bus@.wf(),
            old(self).bus@.t_cycles + 2 * T_CYCLES_PER_FRAME <= u64::MAX,
        ensures
            ran(
                frame_run(start(old(self).cpu, old(self).bus@)),
                final(self).cpu,
                final(self).bus@,
                r is Ok,
            ),
            final(self).bus@.wf(),
    {
        let ghost first = without_picture(start(self.cpu, self.bus@));
        self.bus.clear_frame_ready();
        // A switched-off screen never finishes a picture, so put a ceiling on the loop.
        let deadline = self.bus.cycles() + (T_CYCLES_PER_FRAME as u64) * 2;
        assert(start(self.cpu, self.bus@) == first);
        assert(frame_run(start(old(self).cpu, old(self).bus@)) == frame_loop(first, deadline as nat));
        while !self.bus.frame_ready() && self.bus.cycles() < deadline
            invariant
                self.bus@.wf(),
                frame_run(start(old(self).cpu, old(self).bus@)) == frame_loop(first, deadline as nat),
                frame_loop(start(self.cpu, self.bus@), deadline as nat) == frame_loop(
                    first,
                    deadline as nat,
                ),
            decreases (if self.bus@.t_cycles < deadline {
                deadline - self.bus@.t_cycles
            } else {
                0
            }),
        {
            let ghost now = start(self.cpu, self.bus@);
            proof {
                lemma_turn_advances(now);
            }
            if self.is_loaded() {
                if let Err(e) = self.cpu.step(&mut self.bus) {
                    assert(frame_loop(turn(now), deadline as nat) == turn(now));
                    return Err(e);
                }
            } else {
                if !self.bus.can_tick(4) {
                    assert(frame_loop(turn(now), deadline as nat) == turn(now));
                    return Err(Crash);
                }
                self.bus.tick(4);
            }
        }
        Ok(())
    }

    /// The finished picture, 4 bytes a pixel.
    pub fn framebuffer(&self) -> (r: &[u8])
        ensures
            r@ == self.bus@.ppu.framebuffer,
    {
        self.bus.framebuffer()
    }

    pub fn set_button(&mut self, button: Button, pressed: bool)
        ensures
            final(self).cpu == old(self).cpu,
            final(self).bus@ == (BusView {
                joypad: old(self).bus@.joypad.after_set(button, pressed),
                ..old(self).bus@
            }),
    {
        self.bus.set_button(button, pressed);
    }

    /// Hand the waiting sound to the host: the number of sample values, all silent for now.
    pub fn drain_audio(&mut self) -> (count: usize)
        ensures
            count == old(self).bus@.apu.queued,
            final(self).cpu == old(self).cpu,
            final(self).bus@ == (BusView {
                apu: crate::apu::ApuView { queued: 0, ..old(self).bus@.apu },
                ..old(self).bus@
            }),
    {
        self.bus.drain_audio()
    }

    /// The game's save data for the host to store. `None` when no cartridge is in.
    pub fn save_ram(&self) -> (r: Option<&[u8]>)
        ensures
            match self.bus@.cartridge {
                Some(c) => r matches Some(s) && s@ == c.ram,
                None => r is None,
            },
    {
        self.bus.save_ram()
    }

    /// Copy saved data back into the cartridge: as much of it as fits, from the start.
    pub fn load_save_ram(&mut self, data: &[u8])
        ensures
            final(self).cpu == old(self).cpu,
            final(self).bus@ == (match old(self).bus@.cartridge {
                Some(c) => BusView {
                    cartridge: Some(
                        crate::cartridge::CartridgeView {
                            ram: Seq::new(
                                c.ram.len(),
                                |i: int|
                                    if i < data@.len() {
                                        data@[i]
                                    } else {
                                        c.ram[i]
                                    },
                            ),
                            ..c
                        },
                    ),
                    ..old(self).bus@
                },
                None => old(self).bus@,
            }),
    {
        self.bus.load_save_ram(data);
    }
}

impl Default for Emulator {
    fn default() -> (r: Self)
        ensures
            r.cpu == post_boot_cpu(),
            powered_on(r.bus@, None),
            r.bus@.wf(),
    {
        Self::new()
    }
}

} // verus!
