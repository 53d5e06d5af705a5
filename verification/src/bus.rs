//! Sends every address to the right chip.
use crate::apu::{Apu, ApuView};
use crate::cartridge::{Cartridge, CartridgeView};
use crate::joypad::{Button, Joypad};
use crate::ppu::{Ppu, PpuView};
use crate::serial::{Serial, SerialView};
use crate::timer::Timer;
use vstd::prelude::*;

verus! {

pub const IF_VBLANK: u8 = 1;

pub const IF_STAT: u8 = 2;

pub const IF_TIMER: u8 = 4;

pub const IF_SERIAL: u8 = 8;

pub const IF_JOYPAD: u8 = 16;

pub const WRAM_BANK_SIZE: usize = 0x1000;

pub const WRAM_BANKS: usize = 8;

pub const HRAM_SIZE: usize = 0x7F;

pub struct Bus {
    pub cartridge: Option<Cartridge>,  // the game, or None when nothing is plugged in
    pub ppu: Ppu,  // the screen
    pub apu: Apu,  // the sound chip
    pub timer: Timer,  // the counters a game uses to measure time
    pub joypad: Joypad,  // the buttons
    pub serial: Serial,  // the link cable port
    pub double_speed: bool,  // true while the CGB runs its CPU twice as fast
    wram: Vec<u8>,  // 8 banks of work RAM, seen at C000-DFFF
    hram: Vec<u8>,  // 127 fast bytes at FF80-FFFE, usable during DMA
    t_cycles: u64,  // ticks since power on
    // registers that belong to no single chip
    pub interrupt_flag: u8,  // FF0F which interrupts are waiting to be handled
    pub interrupt_enable: u8,  // FFFF which interrupts the game allows
    svbk: u8,  // FF70 which work RAM bank sits at D000-DFFF
    key1: u8,  // FF4D ask for double speed, and report whether it is on
}

pub struct BusView {
    pub cartridge: Option<CartridgeView>,
    pub ppu: PpuView,
    pub apu: ApuView,
    pub timer: Timer,
    pub joypad: Joypad,
    pub serial: SerialView,
    pub double_speed: bool,
    pub wram: Seq<u8>,
    pub hram: Seq<u8>,
    pub t_cycles: nat,
    pub interrupt_flag: u8,
    pub interrupt_enable: u8,
    pub svbk: u8,
    pub key1: u8,
}

impl View for Bus {
    type V = BusView;

    closed spec fn view(&self) -> BusView {
        BusView {
            cartridge: match self.cartridge {
                Some(c) => Some(c@),
                None => None,
            },
            ppu: self.ppu@,
            apu: self.apu@,
            timer: self.timer,
            joypad: self.joypad,
            serial: self.serial@,
            double_speed: self.double_speed,
            wram: self.wram@,
            hram: self.hram@,
            t_cycles: self.t_cycles as nat,
            interrupt_flag: self.interrupt_flag,
            interrupt_enable: self.interrupt_enable,
            svbk: self.svbk,
            key1: self.key1,
        }
    }
}

/// Whether an address belongs to the cartridge: its ROM at 0000-7FFF or its RAM at A000-BFFF.
pub open spec fn cartridge_address(addr: u16) -> bool {
    addr <= 0x7FFF || 0xA000 <= addr <= 0xBFFF
}

impl BusView {
    pub open spec fn wf(self) -> bool {
        &&& self.ppu.wf()
        &&& self.apu.wf()
        &&& self.wram.len() == WRAM_BANK_SIZE * WRAM_BANKS
        &&& self.hram.len() == HRAM_SIZE
        &&& (self.cartridge matches Some(c) ==> c.wf())
    }

    /// A cartridge whose chip's banking is written, or no cartridge at all.
    pub open spec fn banking_implemented(self) -> bool {
        self.cartridge matches Some(c) ==> c.implemented()
    }

    /// Whether the tick counter has room for `t_cycles` more.
    pub open spec fn can_tick(self, t_cycles: u32) -> bool {
        self.t_cycles + t_cycles <= u64::MAX
    }

    /// Every chip moved forward by `t_cycles`; in double speed the screen and sound get half.
    pub closed spec fn tick_spec(self, t_cycles: u32) -> BusView {
        let base: u32 = if self.double_speed {
            t_cycles / 2
        } else {
            t_cycles
        };
        let (ppu, screen_irq) = self.ppu.tick_spec(base);
        let (timer, timer_irq) = self.timer.tick_spec(t_cycles);
        BusView {
            t_cycles: self.t_cycles + t_cycles as nat,
            ppu,
            apu: self.apu.ticked(base as nat),
            timer,
            joypad: self.joypad.after_take(),
            interrupt_flag: self.interrupt_flag | screen_irq | timer_irq
                | self.joypad.pending_interrupt(),
            ..self
        }
    }

    /// The offset into work RAM of the bank at D000-DFFF: bank 0 picks bank 1.
    pub closed spec fn wram_offset(self) -> int {
        let bank = self.svbk & 0x07;
        (if bank == 0 {
            1
        } else {
            bank as int
        }) * WRAM_BANK_SIZE
    }

    /// Where an address in C000-DFFF lands in work RAM.
    pub closed spec fn wram_index(self, addr: u16) -> int {
        if addr <= 0xCFFF {
            addr - 0xC000
        } else {
            self.wram_offset() + (addr - 0xD000)
        }
    }

    /// Whether reading `addr` can be answered: the cartridge's chip must have its banking
    /// written for a cartridge address.
    pub closed spec fn readable(self, addr: u16) -> bool {
        cartridge_address(addr) ==> self.banking_implemented()
    }

    /// Whether writing `addr` can be done: as for reading, and a palette data write must not
    /// step the palette slot on from 0xFF.
    pub closed spec fn writable(self, addr: u16) -> bool {
        &&& self.readable(addr)
        &&& !self.ppu.write_overflows(addr)
    }

    pub closed spec fn read_io_spec(self, addr: u16) -> u8 {
        if addr == 0xFF00 {
            self.joypad.read_spec()
        } else if 0xFF01 <= addr <= 0xFF02 {
            self.serial.read_spec(addr)
        } else if 0xFF04 <= addr <= 0xFF07 {
            self.timer.read_spec(addr)
        } else if addr == 0xFF0F {
            self.interrupt_flag | 0xE0
        } else if 0xFF10 <= addr <= 0xFF3F {
            self.apu.read_spec(addr)
        } else if 0xFF40 <= addr <= 0xFF4B {
            self.ppu.read_register_spec(addr)
        } else if addr == 0xFF4D {
            self.key1 | (if self.double_speed {
                0x80
            } else {
                0x00
            })
        } else if addr == 0xFF4F {
            self.ppu.read_register_spec(addr)
        } else if 0xFF51 <= addr <= 0xFF55 {
            0xFF  // HDMA is not there yet

        } else if 0xFF68 <= addr <= 0xFF6B {
            self.ppu.read_register_spec(addr)
        } else if addr == 0xFF70 {
            self.svbk | 0xF8
        } else {
            0xFF
        }
    }

    pub closed spec fn read_spec(self, addr: u16) -> u8 {
        if addr <= 0x7FFF {
            match self.cartridge {
                Some(c) => c.read_rom_spec(addr),
                None => 0xFF,
            }
        } else if addr <= 0x9FFF {
            self.ppu.vram[self.ppu.vram_index(addr)]
        } else if addr <= 0xBFFF {
            match self.cartridge {
                Some(c) => c.read_ram_spec(addr),
                None => 0xFF,
            }
        } else if addr <= 0xDFFF {
            self.wram[self.wram_index(addr)]
        } else if addr <= 0xFDFF {
            self.wram[self.wram_index((addr - 0x2000) as u16)]  // echo of C000-DDFF

        } else if addr <= 0xFE9F {
            self.ppu.oam[addr - 0xFE00]
        } else if addr <= 0xFEFF {
            0xFF
        } else if addr <= 0xFF7F {
            self.read_io_spec(addr)
        } else if addr <= 0xFFFE {
            self.hram[addr - 0xFF80]
        } else {
            self.interrupt_enable
        }
    }

    pub closed spec fn write_io_spec(self, addr: u16, value: u8) -> BusView {
        if addr == 0xFF00 {
            BusView { joypad: self.joypad.write_spec(value), ..self }
        } else if 0xFF01 <= addr <= 0xFF02 {
            BusView { serial: self.serial.write_spec(addr, value), ..self }
        } else if 0xFF04 <= addr <= 0xFF07 {
            BusView { timer: self.timer.write_spec(addr, value), ..self }
        } else if addr == 0xFF0F {
            BusView { interrupt_flag: value & 0x1F, ..self }
        } else if 0xFF10 <= addr <= 0xFF3F {
            BusView { apu: self.apu.write_spec(addr, value), ..self }
        } else if addr == 0xFF46 {
            self  // OAM DMA is not there yet

        } else if 0xFF40 <= addr <= 0xFF4B {
            BusView { ppu: self.ppu.write_register_spec(addr, value), ..self }
        } else if addr == 0xFF4D {
            BusView { key1: value & 0x01, ..self }
        } else if addr == 0xFF4F {
            BusView { ppu: self.ppu.write_register_spec(addr, value), ..self }
        } else if 0xFF68 <= addr <= 0xFF6B {
            BusView { ppu: self.ppu.write_register_spec(addr, value), ..self }
        } else if addr == 0xFF70 {
            BusView { svbk: value & 0x07, ..self }
        } else {
            self
        }
    }

    pub closed spec fn write_spec(self, addr: u16, value: u8) -> BusView {
        if addr <= 0x7FFF {
            match self.cartridge {
                Some(c) => BusView { cartridge: Some(c.write_rom_spec(addr, value)), ..self },
                None => self,
            }
        } else if addr <= 0x9FFF {
            BusView {
                ppu: PpuView {
                    vram: self.ppu.vram.update(self.ppu.vram_index(addr), value),
                    ..self.ppu
                },
                ..self
            }
        } else if addr <= 0xBFFF {
            match self.cartridge {
                Some(c) => BusView { cartridge: Some(c.write_ram_spec(addr, value)), ..self },
                None => self,
            }
        } else if addr <= 0xDFFF {
            BusView { wram: self.wram.update(self.wram_index(addr), value), ..self }
        } else if addr <= 0xFDFF {
            BusView {
                wram: self.wram.update(self.wram_index((addr - 0x2000) as u16), value),
                ..self
            }
        } else if addr <= 0xFE9F {
            BusView { ppu: PpuView { oam: self.ppu.oam.update(addr - 0xFE00, value), ..self.ppu }, ..self }
        } else if addr <= 0xFEFF {
            self
        } else if addr <= 0xFF7F {
            self.write_io_spec(addr, value)
        } else if addr <= 0xFFFE {
            BusView { hram: self.hram.update(addr - 0xFF80, value), ..self }
        } else {
            BusView { interrupt_enable: value, ..self }
        }
    }

    /// The interrupts that are both waiting and allowed.
    pub open spec fn pending(self) -> u8 {
        self.interrupt_flag & self.interrupt_enable & 0x1F
    }
}

/// Work RAM, its echo, high RAM and the IE register: the addresses that read back what was
/// written to them whatever state the chips are in.
pub open spec fn ram_address(addr: u16) -> bool {
    0xC000 <= addr <= 0xFDFF || 0xFF80 <= addr
}

/// The address an echo address stands for; every other address stands for itself.
pub open spec fn home(addr: u16) -> u16 {
    if 0xE000 <= addr <= 0xFDFF {
        (addr - 0x2000) as u16
    } else {
        addr
    }
}

impl BusView {
    /// Work RAM and high RAM have their full sizes.
    pub open spec fn ram_sized(self) -> bool {
        &&& self.wram.len() == WRAM_BANK_SIZE * WRAM_BANKS
        &&& self.hram.len() == HRAM_SIZE
    }
}

/// A RAM address reads back what was last written to it, the write can always be done, and
/// it does not move the tick counter or change the RAM sizes.
pub proof fn lemma_read_after_write(b: BusView, addr: u16, value: u8)
    requires
        b.ram_sized(),
        ram_address(addr),
    ensures
        b.write_spec(addr, value).read_spec(addr) == value,
        b.write_spec(addr, value).ram_sized(),
        b.readable(addr),
        b.writable(addr),
{
    lemma_bus_bits();
}

/// Work RAM banks on the Color. C000-CFFF is always bank 0; D000-DFFF shows the bank that
/// FF70's low 3 bits pick, with 0 picking bank 1. So a byte written at D000-DFFF with one
/// bank picked reads back after switching to another value of FF70 exactly when that picks
/// the same bank; otherwise the read sees what that other bank held.
pub proof fn lemma_wram_banks(b: BusView, first: u8, second: u8, addr: u16, value: u8)
    requires
        b.ram_sized(),
        0xC000 <= addr <= 0xDFFF,
    ensures
        ({
            let bank_of = |s: u8|
                if s % 8 == 0 {
                    1int
                } else {
                    (s % 8) as int
                };
            let after = b.write_spec(0xFF70, first).write_spec(addr, value).write_spec(
                0xFF70,
                second,
            );
            after.read_spec(addr) == if addr <= 0xCFFF || bank_of(first) == bank_of(second) {
                value
            } else {
                b.write_spec(0xFF70, second).read_spec(addr)
            }
        }),
{
    lemma_bus_bits();
    assert((first & 0x07) & 0x07 == first % 8 && (second & 0x07) & 0x07 == second % 8)
        by (bit_vector);
}

/// A write to one RAM address leaves every other RAM address as it was, unless one is the
/// echo of the other.
pub proof fn lemma_write_elsewhere(b: BusView, addr: u16, other: u16, value: u8)
    requires
        b.ram_sized(),
        ram_address(addr),
        ram_address(other),
        home(addr) != home(other),
    ensures
        b.write_spec(addr, value).read_spec(other) == b.read_spec(other),
{
    lemma_bus_bits();
}

/// E000-FDFF is a second view of C000-DDFF: reads and writes there are the same as 0x2000
/// lower.
pub proof fn lemma_echo(b: BusView, addr: u16, value: u8)
    requires
        0xC000 <= addr <= 0xDDFF,
    ensures
        b.read_spec((addr + 0x2000) as u16) == b.read_spec(addr),
        b.write_spec((addr + 0x2000) as u16, value) == b.write_spec(addr, value),
{
}

/// FEA0-FEFF is not wired to anything: it reads 0xFF and ignores writes.
pub proof fn lemma_unusable_region(b: BusView, addr: u16, value: u8)
    requires
        0xFEA0 <= addr <= 0xFEFF,
    ensures
        b.read_spec(addr) == 0xFF,
        b.write_spec(addr, value) == b,
{
}

/// Time passing never changes what RAM holds.
pub proof fn lemma_tick_keeps_ram(b: BusView, t: u32, addr: u16)
    requires
        ram_address(addr),
    ensures
        b.tick_spec(t).read_spec(addr) == b.read_spec(addr),
        b.tick_spec(t).ram_sized() == b.ram_sized(),
{
}

/// Ticking moves the screen by the ticks it gets, half of them in double speed, leaves the
/// speed and the cartridge alone, and keeps the bus well formed.
pub proof fn lemma_tick_screen(b: BusView, t: u32)
    ensures
        b.tick_spec(t).ppu == b.ppu.tick_spec(
            if b.double_speed {
                t / 2
            } else {
                t
            },
        ).0,
        b.tick_spec(t).double_speed == b.double_speed,
        b.tick_spec(t).cartridge == b.cartridge,
        b.wf() ==> b.tick_spec(t).wf(),
{
    let base: u32 = if b.double_speed {
        t / 2
    } else {
        t
    };
    if b.wf() {
        crate::apu::lemma_sample_rate(b.apu, base as nat);
        if b.ppu.lcd_on() {
            crate::ppu::lemma_dotted(b.ppu, base as nat);
        }
    }
}

/// Time passing only ever raises interrupt requests: a waiting, allowed interrupt stays
/// waiting, and IE is left alone.
pub proof fn lemma_tick_keeps_requests(b: BusView, t: u32)
    ensures
        b.pending() != 0 ==> b.tick_spec(t).pending() != 0,
        b.tick_spec(t).interrupt_enable == b.interrupt_enable,
        b.tick_spec(t).interrupt_flag & b.interrupt_flag == b.interrupt_flag,
{
    let f = b.interrupt_flag;
    let e = b.interrupt_enable;
    let base: u32 = if b.double_speed {
        t / 2
    } else {
        t
    };
    let s = b.ppu.tick_spec(base).1;
    let m = b.timer.tick_spec(t).1;
    let j = b.joypad.pending_interrupt();
    assert(b.tick_spec(t).interrupt_flag == f | s | m | j);
    assert((f & e & 0x1F != 0 ==> (f | s | m | j) & e & 0x1F != 0) && (f | s | m | j) & f == f)
        by (bit_vector);
}

/// A write to RAM below IE leaves the interrupt registers alone.
pub proof fn lemma_write_keeps_requests(b: BusView, addr: u16, value: u8)
    requires
        ram_address(addr),
        addr != 0xFFFF,
    ensures
        b.write_spec(addr, value).interrupt_flag == b.interrupt_flag,
        b.write_spec(addr, value).interrupt_enable == b.interrupt_enable,
{
}

/// Ticking moves the counter on by exactly the ticks asked for, and a write leaves it alone.
pub proof fn lemma_clock()
    ensures
        forall|b: BusView, t: u32| #[trigger] b.tick_spec(t).t_cycles == b.t_cycles + t,
        forall|b: BusView, a: u16, v: u8| #[trigger] b.write_spec(a, v).t_cycles == b.t_cycles,
{
}

proof fn lemma_bus_bits()
    by (bit_vector)
    ensures
        forall|x: u8| #[trigger] (x & 0x07) <= 7,
        forall|x: u8| (x | 0) == x,
        forall|x: u8| (0 | x) == x,
{
}

/// The power-on state of everything on the bus, around the given cartridge.
pub open spec fn powered_on(b: BusView, cartridge: Option<CartridgeView>) -> bool {
    &&& b.cartridge == cartridge
    &&& b.ppu == crate::ppu::initial_ppu()
    &&& b.apu == (ApuView { registers: Seq::new(0x30, |i: int| 0u8), queued: 0, accumulator: 0 })
    &&& b.timer == Timer::initial()
    &&& b.joypad == Joypad::initial()
    &&& b.serial == (SerialView { sb: 0, sc: 0, output: Seq::empty() })
    &&& !b.double_speed
    &&& b.wram == Seq::new(0x8000, |i: int| 0u8)
    &&& b.hram == Seq::new(0x7F, |i: int| 0u8)
    &&& b.t_cycles == 0
    &&& b.interrupt_flag == 0
    &&& b.interrupt_enable == 0
    &&& b.svbk == 1
    &&& b.key1 == 0
}

impl Bus {
    pub fn new(cartridge: Option<Cartridge>) -> (r: Self)
        requires
            cartridge matches Some(c) ==> c@.wf(),
        ensures
            powered_on(
                r@,
                match cartridge {
                    Some(c) => Some(c@),
                    None => None,
                },
            ),
            r@.wf(),
    {
        let r = Self {
            cartridge,
            ppu: Ppu::new(),
            apu: Apu::new(),
            timer: Timer::new(),
            joypad: Joypad::new(),
            serial: Serial::new(),
            interrupt_flag: 0,
            interrupt_enable: 0,
            double_speed: false,
            wram: vec![0u8; WRAM_BANK_SIZE * WRAM_BANKS],
            hram: vec![0u8; HRAM_SIZE],
            svbk: 1,
            key1: 0,
            t_cycles: 0,
        };
        assert(r.wram@ =~= Seq::new(0x8000, |i: int| 0u8));
        assert(r.hram@ =~= Seq::new(0x7F, |i: int| 0u8));
        r
    }

    /// A fake machine you can write anywhere in, so opcode tests can place code freely.
    pub fn testing() -> (r: Self)
        ensures
            r@.cartridge matches Some(c) && crate::cartridge::test_cartridge(c),
            powered_on(r@, r@.cartridge),
            r@.wf(),
    {
        Self::new(Some(Cartridge::test_ram()))
    }

    /// Ticks counted since the console was switched on.
    pub fn cycles(&self) -> (r: u64)
        ensures
            r == self@.t_cycles,
    {
        self.t_cycles
    }

    /// Whether the tick counter has room for `t_cycles` more.
    pub fn can_tick(&self, t_cycles: u32) -> (r: bool)
        ensures
            r == self@.can_tick(t_cycles),
    {
        self.t_cycles <= u64::MAX - t_cycles as u64
    }

    /// Moves every chip forward. The CPU calls this once per M-cycle.
    pub fn tick(&mut self, t_cycles: u32)
        requires
            old(self)@.wf(),
            old(self)@.can_tick(t_cycles),
        ensures
            final(self)@ == old(self)@.tick_spec(t_cycles),
            final(self)@.wf(),
    {
        proof {
            lemma_bus_bits();
        }
        self.t_cycles = self.t_cycles + t_cycles as u64;
        // In double speed only the CPU runs faster; screen and sound keep the normal rate.
        let base = if self.double_speed {
            t_cycles / 2
        } else {
            t_cycles
        };
        let screen = self.ppu.tick(base);
        self.interrupt_flag = self.interrupt_flag | screen;
        self.apu.tick(base);
        let timer = self.timer.tick(t_cycles);
        self.interrupt_flag = self.interrupt_flag | timer;
        let serial = self.serial.tick(t_cycles);
        self.interrupt_flag = self.interrupt_flag | serial;
        let joypad = self.joypad.take_interrupt();
        self.interrupt_flag = self.interrupt_flag | joypad;
    }

    pub fn request_interrupt(&mut self, mask: u8)
        ensures
            final(self)@ == (BusView { interrupt_flag: old(self)@.interrupt_flag | mask, ..old(self)@ }),
    {
        self.interrupt_flag = self.interrupt_flag | mask;
    }

    /// The interrupts that are both waiting and allowed.
    pub fn pending_interrupts(&self) -> (r: u8)
        ensures
            r == self@.pending(),
    {
        self.interrupt_flag & self.interrupt_enable & 0x1F
    }

    /// Mark one interrupt as answered.
    pub fn acknowledge(&mut self, index: u32)
        requires
            index < 8,
        ensures
            final(self)@ == (BusView {
                interrupt_flag: old(self)@.interrupt_flag & !((1u8 << index) as u8),
                ..old(self)@
            }),
    {
        self.interrupt_flag = self.interrupt_flag & !(1u8 << index);
    }

    /// Whether a game has asked for a speed change, which the next STOP carries out.
    pub fn speed_switch_armed(&self) -> (r: bool)
        ensures
            r == (self@.key1 & 0x01 != 0),
    {
        self.key1 & 0x01 != 0
    }

    /// Change between normal and double speed, and take down the request.
    pub fn switch_speed(&mut self)
        ensures
            final(self)@ == (BusView {
                double_speed: !old(self)@.double_speed,
                key1: 0,
                ..old(self)@
            }),
    {
        self.double_speed = !self.double_speed;
        self.key1 = 0;
    }

    /// Set DIV back to 0, as STOP does.
    pub fn reset_timer_div(&mut self)
        ensures
            final(self)@ == (BusView { timer: old(self)@.timer.with_div_reset(), ..old(self)@ }),
    {
        self.timer.reset_div();
    }

    /// Stop or restart the timer, for as long as the CPU sits in STOP.
    pub fn freeze_timer(&mut self, frozen: bool)
        ensures
            final(self)@ == (BusView { timer: old(self)@.timer.with_frozen(frozen), ..old(self)@ }),
    {
        self.timer.freeze(frozen);
    }

    /// Whether any button is held down.
    pub fn any_button_held(&self) -> (r: bool)
        ensures
            r == self@.joypad.any_held_spec(),
    {
        self.joypad.any_held()
    }

    pub fn set_button(&mut self, button: Button, pressed: bool)
        ensures
            final(self)@ == (BusView {
                joypad: old(self)@.joypad.after_set(button, pressed),
                ..old(self)@
            }),
    {
        self.joypad.set_button(button, pressed);
    }

    /// Whether a picture has been finished since the flag was last taken down.
    pub fn frame_ready(&self) -> (r: bool)
        ensures
            r == self@.ppu.frame_ready,
    {
        self.ppu.is_frame_ready()
    }

    /// Take down the flag that says a picture is finished.
    pub fn clear_frame_ready(&mut self)
        ensures
            final(self)@ == (BusView {
                ppu: PpuView { frame_ready: false, ..old(self)@.ppu },
                ..old(self)@
            }),
    {
        self.ppu.clear_frame_ready();
    }

    /// The finished picture.
    pub fn framebuffer(&self) -> (r: &[u8])
        ensures
            r@ == self@.ppu.framebuffer,
    {
        self.ppu.picture()
    }

    /// Hand the waiting sound to the host: how many silent sample values there are.
    pub fn drain_audio(&mut self) -> (count: usize)
        ensures
            count == old(self)@.apu.queued,
            final(self)@ == (BusView {
                apu: ApuView { queued: 0, ..old(self)@.apu },
                ..old(self)@
            }),
    {
        self.apu.drain()
    }

    /// The name the plugged-in cartridge gives itself, or `None` when nothing is in.
    pub fn cartridge_title(&self) -> (r: Option<&str>)
        ensures
            match self@.cartridge {
                Some(c) => r matches Some(t) && t@ == c.header.title@,
                None => r is None,
            },
    {
        match &self.cartridge {
            Some(c) => Some(c.title()),
            None => None,
        }
    }

    /// Whether a cartridge is plugged in.
    pub fn has_cartridge(&self) -> (r: bool)
        ensures
            r == self@.cartridge is Some,
    {
        self.cartridge.is_some()
    }

    /// Whether the plugged-in cartridge's chip has its banking written, or nothing is in.
    pub fn banking_implemented(&self) -> (r: bool)
        ensures
            r == self@.banking_implemented(),
    {
        match &self.cartridge {
            Some(c) => c.is_implemented(),
            None => true,
        }
    }

    /// The cartridge's save data, or `None` when no cartridge is in.
    pub fn save_ram(&self) -> (r: Option<&[u8]>)
        ensures
            match self@.cartridge {
                Some(c) => r matches Some(s) && s@ == c.ram,
                None => r is None,
            },
    {
        match &self.cartridge {
            Some(c) => Some(c.ram()),
            None => None,
        }
    }

    /// Copy saved data into the cartridge, if one is in.
    pub fn load_save_ram(&mut self, data: &[u8])
        ensures
            final(self)@ == (match old(self)@.cartridge {
                Some(c) => BusView {
                    cartridge: Some(
                        CartridgeView {
                            ram: Seq::new(
                                c.ram.len(),
                                |i: int|
                                    if i < data@.len() {
                                        data@[i]
                                    } else {
                                        c.ram[i]
                                    },
                            ),
                            ..c
                        },
                    ),
                    ..old(self)@
                },
                None => old(self)@,
            }),
    {
        if let Some(cartridge) = self.cartridge.as_mut() {
            cartridge.load_ram(data);
        }
    }

    /// Whether reading `addr` can be answered.
    pub fn can_read(&self, addr: u16) -> (r: bool)
        ensures
            r == self@.readable(addr),
    {
        if addr <= 0x7FFF || (0xA000 <= addr && addr <= 0xBFFF) {
            self.banking_implemented()
        } else {
            true
        }
    }

    /// Whether writing `addr` can be done.
    pub fn can_write(&self, addr: u16) -> (r: bool)
        ensures
            r == self@.writable(addr),
    {
        self.can_read(addr) && !self.ppu.write_overflows(addr)
    }

    fn wram_offset(&self) -> (r: usize)
        ensures
            r == self@.wram_offset(),
    {
        proof {
            lemma_bus_bits();
        }
        let low = self.svbk & 0x07;
        let bank = if low == 0 {
            1
        } else {
            low
        } as usize;
        bank * WRAM_BANK_SIZE
    }

    pub fn read(&mut self, addr: u16) -> (r: u8)
        requires
            old(self)@.wf(),
            old(self)@.readable(addr),
        ensures
            r == old(self)@.read_spec(addr),
            final(self)@ == old(self)@,
        decreases addr,
    {
        proof {
            lemma_bus_bits();
        }
        match addr {
            0x0000..=0x7FFF => match &self.cartridge {
                Some(c) => c.read_rom(addr),
                None => 0xFF,
            },
            0x8000..=0x9FFF => self.ppu.read_vram(addr),
            0xA000..=0xBFFF => match &self.cartridge {
                Some(c) => c.read_ram(addr),
                None => 0xFF,
            },
            0xC000..=0xCFFF => self.wram[(addr - 0xC000) as usize],
            0xD000..=0xDFFF => self.wram[self.wram_offset() + (addr - 0xD000) as usize],
            0xE000..=0xFDFF => self.read(addr - 0x2000),
            0xFE00..=0xFE9F => self.ppu.read_oam(addr),
            0xFEA0..=0xFEFF => 0xFF,
            0xFF00..=0xFF7F => self.read_io(addr),
            0xFF80..=0xFFFE => self.hram[(addr - 0xFF80) as usize],
            0xFFFF => self.interrupt_enable,
        }
    }

    pub fn write(&mut self, addr: u16, value: u8)
        requires
            old(self)@.wf(),
            old(self)@.writable(addr),
        ensures
            final(self)@ == old(self)@.write_spec(addr, value),
            final(self)@.wf(),
        decreases addr,
    {
        proof {
            lemma_bus_bits();
        }
        match addr {
            0x0000..=0x7FFF => {
                if let Some(cart) = self.cartridge.as_mut() {
                    cart.write_rom(addr, value);
                }
            },
            0x8000..=0x9FFF => self.ppu.write_vram(addr, value),
            0xA000..=0xBFFF => {
                if let Some(cart) = self.cartridge.as_mut() {
                    cart.write_ram(addr, value);
                }
            },
            0xC000..=0xCFFF => self.wram.set((addr - 0xC000) as usize, value),
            0xD000..=0xDFFF => {
                let offset = self.wram_offset();
                self.wram.set(offset + (addr - 0xD000) as usize, value);
            },
            0xE000..=0xFDFF => self.write(addr - 0x2000, value),
            0xFE00..=0xFE9F => self.ppu.write_oam(addr, value),
            0xFEA0..=0xFEFF => {},
            0xFF00..=0xFF7F => self.write_io(addr, value),
            0xFF80..=0xFFFE => self.hram.set((addr - 0xFF80) as usize, value),
            0xFFFF => self.interrupt_enable = value,
        }
    }

    fn read_io(&self, addr: u16) -> (r: u8)
        requires
            self@.wf(),
            0xFF00 <= addr <= 0xFF7F,
        ensures
            r == self@.read_io_spec(addr),
    {
        match addr {
            0xFF00 => self.joypad.read(),
            0xFF01..=0xFF02 => self.serial.read(addr),
            0xFF04..=0xFF07 => self.timer.read(addr),
            0xFF0F => self.interrupt_flag | 0xE0,
            0xFF10..=0xFF3F => self.apu.read(addr),
            0xFF40..=0xFF4B => self.ppu.read_register(addr),
            0xFF4D => self.key1 | if self.double_speed {
                0x80
            } else {
                0x00
            },
            0xFF4F => self.ppu.read_register(addr),
            0xFF51..=0xFF55 => 0xFF,  // HDMA is not there yet
            0xFF68..=0xFF6B => self.ppu.read_register(addr),
            0xFF70 => self.svbk | 0xF8,
            _ => 0xFF,
        }
    }

    fn write_io(&mut self, addr: u16, value: u8)
        requires
            old(self)@.wf(),
            !old(self)@.ppu.write_overflows(addr),
            0xFF00 <= addr <= 0xFF7F,
        ensures
            final(self)@ == old(self)@.write_io_spec(addr, value),
            final(self)@.wf(),
    {
        match addr {
            0xFF00 => self.joypad.write(value),
            0xFF01..=0xFF02 => self.serial.write(addr, value),
            0xFF04..=0xFF07 => self.timer.write(addr, value),
            0xFF0F => self.interrupt_flag = value & 0x1F,
            0xFF10..=0xFF3F => self.apu.write(addr, value),
            0xFF46 => {},  // OAM DMA is not there yet
            0xFF40..=0xFF4B => self.ppu.write_register(addr, value),
            0xFF4D => self.key1 = value & 0x01,
            0xFF4F => self.ppu.write_register(addr, value),
            0xFF51..=0xFF55 => {},  // HDMA is not there yet
            0xFF68..=0xFF6B => self.ppu.write_register(addr, value),
            0xFF70 => self.svbk = value & 0x07,
            _ => {},
        }
    }
}

} // verus!
