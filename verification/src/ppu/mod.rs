//! The screen: only its timing so far; real pixels come later.
pub mod fetcher;
pub mod fifo;
pub mod oam;

pub use fetcher::{FetchStep, Fetcher};
pub use fifo::{Pixel, PixelFifo};
pub use oam::{Sprite, SpriteScan};

use crate::bus::{IF_STAT, IF_VBLANK};
use crate::{FRAMEBUFFER_LEN, SCREEN_HEIGHT, SCREEN_WIDTH, T_CYCLES_PER_FRAME};
use fetcher::fresh_fetcher;
use fifo::{empty_fifo, FifoView};
use oam::{empty_scan, ScanView};
use vstd::prelude::*;

verus! {

pub const VRAM_BANK_SIZE: usize = 0x2000;

pub const OAM_SIZE: usize = 0xA0;

pub const DOTS_PER_LINE: u32 = 456;

pub const LINES_PER_FRAME: u8 = 154;

pub const OAM_SCAN_DOTS: u32 = 80;

/// Drawing really takes 172 to 289 dots; it is pinned to the shortest until pixels are drawn.
pub const DRAWING_DOTS: u32 = 172;

#[derive(Debug, Clone, Copy, PartialEq, Eq, Structural)]
pub enum Mode {
    HBlank,
    VBlank,
    OamScan,
    Drawing,
}

/// The number FF41 reports for each mode.
pub open spec fn mode_number(mode: Mode) -> u8 {
    match mode {
        Mode::HBlank => 0,
        Mode::VBlank => 1,
        Mode::OamScan => 2,
        Mode::Drawing => 3,
    }
}

fn mode_bits(mode: Mode) -> (r: u8)
    ensures
        r == mode_number(mode),
{
    match mode {
        Mode::HBlank => 0,
        Mode::VBlank => 1,
        Mode::OamScan => 2,
        Mode::Drawing => 3,
    }
}

/// The pale green-white a real screen shows when nothing has been drawn, one channel at a time.
pub open spec fn blank_channel(channel: int) -> u8 {
    if channel == 0 {
        0xE0
    } else if channel == 1 {
        0xF8
    } else if channel == 2 {
        0xD0
    } else {
        0xFF
    }
}

fn blank_byte(channel: usize) -> (r: u8)
    ensures
        r == blank_channel(channel as int),
{
    match channel {
        0 => 0xE0,
        1 => 0xF8,
        2 => 0xD0,
        _ => 0xFF,
    }
}

pub struct Ppu {
    pub framebuffer: Vec<u8>,  // the finished picture, 4 bytes per pixel: red, green, blue, alpha
    pub frame_ready: bool,  // true when a picture is done: the host's cue to draw it
    vram: Vec<u8>,  // 2 banks of tile pictures and maps, seen at 8000-9FFF
    oam: Vec<u8>,  // the 40 sprite entries, seen at FE00-FE9F
    mode: Mode,  // which of the 4 stages of a line we are in
    dot: u32,  // ticks into the current line, 0 to 455
    // registers: the knobs a game turns, each with its own address
    lcdc: u8,  // FF40 main switch: screen on, window on, sprite size
    stat: u8,  // FF41 what the screen is doing, and which events interrupt
    scy: u8,  // FF42 background scrolled up by this much
    scx: u8,  // FF43 background scrolled left by this much
    ly: u8,  // FF44 the line being drawn right now, 0 to 153
    lyc: u8,  // FF45 interrupt when ly reaches this line
    bgp: u8,  // FF47 the 4 grey shades for the background, old Game Boy only
    obp0: u8,  // FF48 grey shades for sprites using palette 0
    obp1: u8,  // FF49 grey shades for sprites using palette 1
    wy: u8,  // FF4A top edge of the window
    wx: u8,  // FF4B left edge of the window, plus 7
    vbk: u8,  // FF4F which of the 2 video RAM banks is on show
    bcps: u8,  // FF68 which background colour slot FF69 will touch
    bcpd: Vec<u8>,  // FF69 the 8 background palettes, 4 colours each
    ocps: u8,  // FF6A which sprite colour slot FF6B will touch
    ocpd: Vec<u8>,  // FF6B the 8 sprite palettes, 4 colours each
    // the pixel pipeline, all still empty
    fetcher: Fetcher,  // builds background pixels 8 at a time
    bg_fifo: PixelFifo,  // background pixels waiting their turn
    obj_fifo: PixelFifo,  // sprite pixels waiting to be mixed in
    scan: SpriteScan,  // the sprites picked for this line
}

pub struct PpuView {
    pub framebuffer: Seq<u8>,
    pub frame_ready: bool,
    pub vram: Seq<u8>,
    pub oam: Seq<u8>,
    pub mode: Mode,
    pub dot: nat,
    pub lcdc: u8,
    pub stat: u8,
    pub scy: u8,
    pub scx: u8,
    pub ly: u8,
    pub lyc: u8,
    pub bgp: u8,
    pub obp0: u8,
    pub obp1: u8,
    pub wy: u8,
    pub wx: u8,
    pub vbk: u8,
    pub bcps: u8,
    pub bcpd: Seq<u8>,
    pub ocps: u8,
    pub ocpd: Seq<u8>,
    pub fetcher: Fetcher,
    pub bg_fifo: FifoView,
    pub obj_fifo: FifoView,
    pub scan: ScanView,
}

impl View for Ppu {
    type V = PpuView;

    closed spec fn view(&self) -> PpuView {
        PpuView {
            framebuffer: self.framebuffer@,
            frame_ready: self.frame_ready,
            vram: self.vram@,
            oam: self.oam@,
            mode: self.mode,
            dot: self.dot as nat,
            lcdc: self.lcdc,
            stat: self.stat,
            scy: self.scy,
            scx: self.scx,
            ly: self.ly,
            lyc: self.lyc,
            bgp: self.bgp,
            obp0: self.obp0,
            obp1: self.obp1,
            wy: self.wy,
            wx: self.wx,
            vbk: self.vbk,
            bcps: self.bcps,
            bcpd: self.bcpd@,
            ocps: self.ocps,
            ocpd: self.ocpd@,
            fetcher: self.fetcher,
            bg_fifo: self.bg_fifo@,
            obj_fifo: self.obj_fifo@,
            scan: self.scan@,
        }
    }
}

/// The screen as it is at power on.
pub open spec fn initial_ppu() -> PpuView {
    PpuView {
        framebuffer: Seq::new(92_160, |i: int| 0xFFu8),
        frame_ready: false,
        vram: Seq::new(0x4000, |i: int| 0u8),
        oam: Seq::new(0xA0, |i: int| 0u8),
        mode: Mode::OamScan,
        dot: 0,
        lcdc: 0x91,
        stat: 0x85,
        scy: 0,
        scx: 0,
        ly: 0,
        lyc: 0,
        bgp: 0xFC,
        obp0: 0xFF,
        obp1: 0xFF,
        wy: 0,
        wx: 0,
        vbk: 0,
        bcps: 0,
        bcpd: Seq::new(64, |i: int| 0xFFu8),
        ocps: 0,
        ocpd: Seq::new(64, |i: int| 0xFFu8),
        fetcher: fresh_fetcher(),
        bg_fifo: empty_fifo(),
        obj_fifo: empty_fifo(),
        scan: empty_scan(),
    }
}

impl PpuView {
    pub open spec fn wf(self) -> bool {
        &&& self.framebuffer.len() == FRAMEBUFFER_LEN
        &&& self.vram.len() == 2 * VRAM_BANK_SIZE
        &&& self.oam.len() == OAM_SIZE
        &&& self.bcpd.len() == 64
        &&& self.ocpd.len() == 64
        &&& self.dot < DOTS_PER_LINE
        &&& (self.mode is OamScan ==> self.dot < OAM_SCAN_DOTS)
        &&& (self.mode is Drawing ==> self.dot < OAM_SCAN_DOTS + DRAWING_DOTS)
        &&& self.ly < LINES_PER_FRAME
        &&& (self.mode is VBlank <==> self.ly >= SCREEN_HEIGHT)
        &&& self.scan.wf()
    }

    pub open spec fn lcd_on(self) -> bool {
        self.lcdc & 0x80 != 0
    }

    /// Compare LY with LYC: set or clear the coincidence bit, and interrupt on a match if
    /// the game asked for it.
    pub open spec fn lyc_checked(self) -> (PpuView, u8) {
        if self.ly == self.lyc {
            let stat = self.stat | 0x04;
            (PpuView { stat, ..self }, if stat & 0x40 != 0 { IF_STAT } else { 0 })
        } else {
            (PpuView { stat: self.stat & !0x04u8, ..self }, 0)
        }
    }

    /// The current line of the picture painted blank.
    pub open spec fn rendered(self) -> PpuView {
        if self.ly >= SCREEN_HEIGHT {
            self
        } else {
            let start = self.ly * SCREEN_WIDTH * 4;
            let end = start + SCREEN_WIDTH * 4;
            PpuView {
                framebuffer: Seq::new(
                    self.framebuffer.len(),
                    |i: int|
                        if start <= i < end {
                            blank_channel((i - start) % 4)
                        } else {
                            self.framebuffer[i]
                        },
                ),
                ..self
            }
        }
    }

    /// One dot of a switched-on screen: the new state and the interrupts it raised.
    pub open spec fn dot_step(self) -> (PpuView, u8) {
        let v = PpuView { dot: self.dot + 1, ..self };
        match v.mode {
            Mode::OamScan => {
                if v.dot >= OAM_SCAN_DOTS {
                    (
                        PpuView {
                            mode: Mode::Drawing,
                            fetcher: v.fetcher.restarted(),
                            bg_fifo: v.bg_fifo.cleared(),
                            obj_fifo: v.obj_fifo.cleared(),
                            ..v
                        },
                        0,
                    )
                } else {
                    (v, 0)
                }
            },
            Mode::Drawing => {
                if v.dot >= OAM_SCAN_DOTS + DRAWING_DOTS {
                    (
                        PpuView { mode: Mode::HBlank, ..v.rendered() },
                        if v.stat & 0x08 != 0 {
                            IF_STAT
                        } else {
                            0
                        },
                    )
                } else {
                    (v, 0)
                }
            },
            Mode::HBlank => {
                if v.dot >= DOTS_PER_LINE {
                    let (w, lyc_irq) = PpuView { dot: 0, ly: (v.ly + 1) as u8, ..v }.lyc_checked();
                    if w.ly >= SCREEN_HEIGHT {
                        (
                            PpuView { mode: Mode::VBlank, frame_ready: true, ..w },
                            lyc_irq | IF_VBLANK | (if w.stat & 0x10 != 0 {
                                IF_STAT
                            } else {
                                0
                            }),
                        )
                    } else {
                        (
                            PpuView { mode: Mode::OamScan, ..w },
                            lyc_irq | (if w.stat & 0x20 != 0 {
                                IF_STAT
                            } else {
                                0
                            }),
                        )
                    }
                } else {
                    (v, 0)
                }
            },
            Mode::VBlank => {
                if v.dot >= DOTS_PER_LINE {
                    let w = PpuView { dot: 0, ly: (v.ly + 1) as u8, ..v };
                    let (w1, irq1) = if w.ly >= LINES_PER_FRAME {
                        (
                            PpuView { ly: 0, mode: Mode::OamScan, ..w },
                            if w.stat & 0x20 != 0 {
                                IF_STAT
                            } else {
                                0
                            },
                        )
                    } else {
                        (w, 0)
                    };
                    let (w2, lyc_irq) = w1.lyc_checked();
                    (w2, irq1 | lyc_irq)
                } else {
                    (v, 0)
                }
            },
        }
    }

    /// The state after `n` dots of a switched-on screen.
    pub open spec fn dotted(self, n: nat) -> PpuView
        decreases n,
    {
        if n == 0 {
            self
        } else {
            self.dotted((n - 1) as nat).dot_step().0
        }
    }

    /// The interrupts raised during those `n` dots.
    pub open spec fn dot_irq(self, n: nat) -> u8
        decreases n,
    {
        if n == 0 {
            0
        } else {
            self.dot_irq((n - 1) as nat) | self.dotted((n - 1) as nat).dot_step().1
        }
    }

    /// `t_cycles` ticks: one dot each while the screen is on, nothing while it is off.
    pub open spec fn tick_spec(self, t_cycles: u32) -> (PpuView, u8) {
        if !self.lcd_on() {
            (self, 0)
        } else {
            (self.dotted(t_cycles as nat), self.dot_irq(t_cycles as nat))
        }
    }

    pub open spec fn vram_index(self, addr: u16) -> int {
        (self.vbk % 2) * VRAM_BANK_SIZE + addr - 0x8000
    }

    /// The byte at `addr` of the VRAM bank that is selected now.
    pub open spec fn vram_read(self, addr: u16) -> u8 {
        self.vram[self.vram_index(addr)]
    }

    /// The screen after `value` is written at `addr` of the VRAM bank that is selected now.
    pub open spec fn vram_written(self, addr: u16, value: u8) -> PpuView {
        PpuView { vram: self.vram.update(self.vram_index(addr), value), ..self }
    }

    pub open spec fn read_register_spec(self, addr: u16) -> u8 {
        if addr == 0xFF40 {
            self.lcdc
        } else if addr == 0xFF41 {
            self.stat | 0x80 | mode_number(self.mode)
        } else if addr == 0xFF42 {
            self.scy
        } else if addr == 0xFF43 {
            self.scx
        } else if addr == 0xFF44 {
            self.ly
        } else if addr == 0xFF45 {
            self.lyc
        } else if addr == 0xFF47 {
            self.bgp
        } else if addr == 0xFF48 {
            self.obp0
        } else if addr == 0xFF49 {
            self.obp1
        } else if addr == 0xFF4A {
            self.wy
        } else if addr == 0xFF4B {
            self.wx
        } else if addr == 0xFF4F {
            self.vbk | 0xFE
        } else if addr == 0xFF68 {
            self.bcps
        } else if addr == 0xFF69 {
            self.bcpd[(self.bcps & 0x3F) as int]
        } else if addr == 0xFF6A {
            self.ocps
        } else if addr == 0xFF6B {
            self.ocpd[(self.ocps & 0x3F) as int]
        } else {
            0xFF
        }
    }

    /// Whether a write reaches the palette auto-increment with the slot register at 0xFF,
    /// where the step past 0xFF overflows.
    pub open spec fn write_overflows(self, addr: u16) -> bool {
        (addr == 0xFF69 && self.bcps == 0xFF) || (addr == 0xFF6B && self.ocps == 0xFF)
    }

    pub open spec fn write_register_spec(self, addr: u16, value: u8) -> PpuView {
        if addr == 0xFF40 {
            if value & 0x80 == 0 {
                PpuView { lcdc: value, ly: 0, dot: 0, mode: Mode::HBlank, ..self }
            } else {
                PpuView { lcdc: value, ..self }
            }
        } else if addr == 0xFF41 {
            PpuView { stat: (self.stat & 0x07) | (value & 0x78), ..self }
        } else if addr == 0xFF42 {
            PpuView { scy: value, ..self }
        } else if addr == 0xFF43 {
            PpuView { scx: value, ..self }
        } else if addr == 0xFF45 {
            PpuView { lyc: value, ..self }
        } else if addr == 0xFF47 {
            PpuView { bgp: value, ..self }
        } else if addr == 0xFF48 {
            PpuView { obp0: value, ..self }
        } else if addr == 0xFF49 {
            PpuView { obp1: value, ..self }
        } else if addr == 0xFF4A {
            PpuView { wy: value, ..self }
        } else if addr == 0xFF4B {
            PpuView { wx: value, ..self }
        } else if addr == 0xFF4F {
            PpuView { vbk: value & 0x01, ..self }
        } else if addr == 0xFF68 {
            PpuView { bcps: value, ..self }
        } else if addr == 0xFF69 {
            PpuView {
                bcpd: self.bcpd.update((self.bcps & 0x3F) as int, value),
                bcps: if self.bcps & 0x80 != 0 {
                    (self.bcps & 0x80) | (((self.bcps + 1) as u8) & 0x3F)
                } else {
                    self.bcps
                },
                ..self
            }
        } else if addr == 0xFF6A {
            PpuView { ocps: value, ..self }
        } else if addr == 0xFF6B {
            PpuView {
                ocpd: self.ocpd.update((self.ocps & 0x3F) as int, value),
                ocps: if self.ocps & 0x80 != 0 {
                    (self.ocps & 0x80) | (((self.ocps + 1) as u8) & 0x3F)
                } else {
                    self.ocps
                },
                ..self
            }
        } else {
            self
        }
    }
}

proof fn lemma_six_bits()
    by (bit_vector)
    ensures
        forall|x: u8| #[trigger] (x & 0x3F) < 64,
        forall|x: u8| #[trigger] (x & 0x01) < 2,
{
}

proof fn lemma_or_zero()
    by (bit_vector)
    ensures
        forall|x: u8| #[trigger] (x | 0) == x,
        forall|x: u8| #[trigger] (0 | x) == x,
{
}

/// Each of the two VRAM banks keeps its own bytes: after a write, that address of the bank
/// it was made in reads back the value written, and every other address, and the same
/// address of the other bank, reads as before, whichever bank is selected for the read.
pub proof fn lemma_vram_banks(v: PpuView, addr: u16, value: u8, bank: u8, other: u16)
    requires
        v.wf(),
        0x8000 <= addr <= 0x9FFF,
        0x8000 <= other <= 0x9FFF,
        bank < 2,
    ensures
        v.vram_written(addr, value).vram_read(addr) == value,
        v.vram_written(addr, value).write_register_spec(0xFF4F, bank).vram_read(other) == if bank
            == v.vbk % 2 && other == addr {
            value
        } else {
            v.write_register_spec(0xFF4F, bank).vram_read(other)
        },
{
    assert(bank & 0x01 == bank) by (bit_vector)
        requires
            bank < 2,
    ;
}

/// One thing a game can do to video memory: write a byte in the selected bank, or select a
/// bank through FF4F.
pub enum VramEvent {
    Write(u16, u8),
    SelectBank(u8),
}

/// What one such event does.
pub open spec fn vram_event_applied(v: PpuView, event: VramEvent) -> PpuView {
    match event {
        VramEvent::Write(addr, value) => v.vram_written(addr, value),
        VramEvent::SelectBank(value) => v.write_register_spec(0xFF4F, value),
    }
}

/// What a run of such events does, first to last.
pub open spec fn vram_replayed(v: PpuView, events: Seq<VramEvent>) -> PpuView
    decreases events.len(),
{
    if events.len() == 0 {
        v
    } else {
        vram_event_applied(vram_replayed(v, events.drop_last()), events.last())
    }
}

/// The byte that bank `bank` holds at `addr`, whichever bank is selected.
pub open spec fn bank_byte(v: PpuView, bank: int, addr: u16) -> u8 {
    v.vram[bank * VRAM_BANK_SIZE + addr - 0x8000]
}

/// The bank selected after a run of events: the last one chosen, or `start` where none was.
pub open spec fn bank_after(start: int, events: Seq<VramEvent>) -> int
    decreases events.len(),
{
    if events.len() == 0 {
        start
    } else {
        match events.last() {
            VramEvent::SelectBank(value) => (value & 0x01) as int,
            _ => bank_after(start, events.drop_last()),
        }
    }
}

/// What bank `bank` holds at `addr` after a run of events: the value of the last write to
/// `addr` made while that bank was selected, or what it held before where there was none.
pub open spec fn byte_after(v: PpuView, events: Seq<VramEvent>, bank: int, addr: u16) -> u8
    decreases events.len(),
{
    if events.len() == 0 {
        bank_byte(v, bank, addr)
    } else {
        match events.last() {
            VramEvent::Write(a, value) if a == addr && bank_after(
                (v.vbk % 2) as int,
                events.drop_last(),
            ) == bank => value,
            _ => byte_after(v, events.drop_last(), bank, addr),
        }
    }
}

/// Whether every write in a run of events is to video memory.
pub open spec fn writes_in_vram(events: Seq<VramEvent>) -> bool {
    forall|i: int|
        0 <= i < events.len() ==> match #[trigger] events[i] {
            VramEvent::Write(a, _) => 0x8000 <= a <= 0x9FFF,
            VramEvent::SelectBank(_) => true,
        }
}

/// Each VRAM bank keeps its own bytes through any run of writes and bank changes: a byte
/// of a bank is the last value written to it while that bank was selected, and writes made
/// with the other bank selected never change it. A read gives that byte of the bank
/// selected last.
pub proof fn lemma_vram_history(v: PpuView, events: Seq<VramEvent>, bank: int, addr: u16)
    requires
        v.wf(),
        writes_in_vram(events),
        0 <= bank < 2,
        0x8000 <= addr <= 0x9FFF,
    ensures
        vram_replayed(v, events).wf(),
        vram_replayed(v, events).vbk % 2 == bank_after((v.vbk % 2) as int, events),
        bank_byte(vram_replayed(v, events), bank, addr) == byte_after(v, events, bank, addr),
        vram_replayed(v, events).vram_read(addr) == byte_after(
            v,
            events,
            bank_after((v.vbk % 2) as int, events),
            addr,
        ),
    decreases events.len(),
{
    if events.len() > 0 {
        let before = events.drop_last();
        assert(writes_in_vram(before)) by {
            assert forall|i: int| 0 <= i < before.len() implies match #[trigger] before[i] {
                VramEvent::Write(a, _) => 0x8000 <= a <= 0x9FFF,
                VramEvent::SelectBank(_) => true,
            } by {
                assert(before[i] == events[i]);
            }
        }
        lemma_vram_history(v, before, bank, addr);
        lemma_vram_history(v, before, 1 - bank, addr);
        let w = vram_replayed(v, before);
        match events.last() {
            VramEvent::Write(a, value) => {
                assert(events[events.len() - 1] == events.last());
                lemma_vram_history(v, before, (w.vbk % 2) as int, a);
            },
            VramEvent::SelectBank(value) => {
                lemma_six_bits();
                assert((value & 0x01) % 2 == (value & 0x01) as int);
            },
        }
    }
}

/// Colour palette writes (FF69 for the background, FF6B for objects): the byte goes into the
/// slot that the index register (FF68 or FF6A) names in its low 6 bits, and no other slot
/// changes; with the index register's bit 7 set the index then steps on by one, wrapping
/// after 63, and otherwise it stays as it was.
pub proof fn lemma_palette_write(v: PpuView, value: u8, object: bool)
    requires
        v.wf(),
        !v.write_overflows(if object { 0xFF6Bu16 } else { 0xFF69u16 }),
    ensures
        ({
            let addr: u16 = if object {
                0xFF6B
            } else {
                0xFF69
            };
            let (slots, index) = if object {
                (v.ocpd, v.ocps)
            } else {
                (v.bcpd, v.bcps)
            };
            let w = v.write_register_spec(addr, value);
            let (new_slots, new_index) = if object {
                (w.ocpd, w.ocps)
            } else {
                (w.bcpd, w.bcps)
            };
            &&& new_slots.len() == 64
            &&& new_slots[(index % 64) as int] == value
            &&& forall|j: int| 0 <= j < 64 && j != index % 64 ==> #[trigger] new_slots[j] == slots[j]
            &&& new_index == if index >= 128 {
                128 + (index % 64 + 1) % 64
            } else {
                index as int
            }
        }),
{
    let index = if object {
        v.ocps
    } else {
        v.bcps
    };
    let stepped: u8 = ((index & 0x80) | (((index + 1) as u8) & 0x3F)) as u8;
    assert(index & 0x3F == index % 64 && (index & 0x80 != 0) == (index >= 128) && (index >= 128
        ==> stepped == 128 + (index % 64 + 1) % 64)) by (bit_vector)
        requires
            index != 0xFF,
            stepped == (index & 0x80) | (((index + 1) as u8) & 0x3F),
    ;
}

/// A switched-off screen stands still: ticking it changes nothing and raises nothing.
pub proof fn lemma_dark_screen_stands_still(v: PpuView, t_cycles: u32)
    requires
        !v.lcd_on(),
    ensures
        v.tick_spec(t_cycles) == (v, 0u8),
{
}

/// Where a running screen is in its frame, in dots from the start of line 0.
pub open spec fn frame_position(v: PpuView) -> int {
    v.ly * DOTS_PER_LINE + v.dot
}

/// The place in the frame at which the last visible line ends and a picture is finished.
pub open spec fn vblank_position() -> int {
    SCREEN_HEIGHT * DOTS_PER_LINE
}

/// How many dots from `position` until a picture is next finished: 1 to a whole frame.
pub open spec fn dots_to_picture(position: int) -> int {
    (vblank_position() - position - 1) % (T_CYCLES_PER_FRAME as int) + 1
}


/// Over any run of dots a running screen keeps its place in a frame of 70224 dots, and the
/// picture is finished, and the VBlank interrupt raised, once the run reaches the end of the
/// last visible line.
pub proof fn lemma_dotted(v: PpuView, n: nat)
    requires
        v.wf(),
    ensures
        v.dotted(n).wf(),
        frame_position(v.dotted(n)) == (frame_position(v) + n) % (T_CYCLES_PER_FRAME as int),
        v.dotted(n).frame_ready == (v.frame_ready || n >= dots_to_picture(frame_position(v))),
        (v.dot_irq(n) & IF_VBLANK != 0) == (n >= dots_to_picture(frame_position(v))),
        v.dotted(n).lcdc == v.lcdc,
    decreases n,
{
    lemma_irq_bits();
    if n > 0 {
        let k = (n - 1) as nat;
        lemma_dotted(v, k);
        lemma_dot_advances(v.dotted(k));
        let p = frame_position(v);
        let d = dots_to_picture(p);
        assert(0 <= p < T_CYCLES_PER_FRAME) by {
            assert(v.ly < 154 && v.dot < 456);
        }
        assert(((p + k) % 70224 + 1) % 70224 == (p + n) % 70224) by (nonlinear_arith)
            requires
                n == k + 1,
                0 <= p < 70224,
        {
            vstd::arithmetic::div_mod::lemma_add_mod_noop(p + k, 1, 70224);
        }
        assert((p + n) % 70224 == 65664 ==> n >= d) by (nonlinear_arith)
            requires
                0 <= p < 70224,
                d == (65664 - p - 1) % 70224 + 1,
                n >= 1,
        {
        }
        assert(n as int == d ==> (p + n) % 70224 == 65664) by (nonlinear_arith)
            requires
                0 <= p < 70224,
                d == (65664 - p - 1) % 70224 + 1,
        {
        }
    }
}

/// The mode a running screen is in at line `ly`, dot `dot`: VBlank from line 144 on, and on
/// each visible line 80 dots of OAM scan, then 172 of drawing, then HBlank for the other 204.
pub open spec fn mode_at(ly: int, dot: int) -> Mode {
    if ly >= SCREEN_HEIGHT {
        Mode::VBlank
    } else if dot < OAM_SCAN_DOTS {
        Mode::OamScan
    } else if dot < OAM_SCAN_DOTS + DRAWING_DOTS {
        Mode::Drawing
    } else {
        Mode::HBlank
    }
}

/// Whether the screen's mode is the one its place in the frame calls for. The screen starts
/// so, and keeps to it while it runs; only switching it off puts it out of step for the rest
/// of a line.
pub open spec fn keeps_time(v: PpuView) -> bool {
    v.mode == mode_at(v.ly as int, v.dot as int)
}

proof fn lemma_irq_bits()
    by (bit_vector)
    ensures
        forall|x: u8, y: u8| #[trigger] ((x | 1) | y) & 1 == 1,
        forall|x: u8, y: u8|
            (x == 0 || x == 2) && (y == 0 || y == 2) ==> #[trigger] (x | y) & 1 == 0,
        forall|x: u8, y: u8| (#[trigger] (x | y) & 1 != 0) == (x & 1 != 0 || y & 1 != 0),
        (0u8 & 1u8) == 0,
        (2u8 & 1u8) == 0,
{
}

/// One dot moves a running screen one place on in a frame of 154 lines of 456 dots: the dot
/// counts on, and only the 456th dot of a line moves to the next line, wrapping after line
/// 153. It finishes a picture, and raises the VBlank interrupt, exactly when it reaches the
/// end of the last visible line, as `ly` becomes 144.
pub proof fn lemma_dot_advances(v: PpuView)
    requires
        v.wf(),
    ensures
        v.dot_step().0.wf(),
        v.dot_step().0.dot as int == ((v.dot + 1) as int) % (DOTS_PER_LINE as int),
        v.dot_step().0.ly as int == if v.dot + 1 >= DOTS_PER_LINE {
            (v.ly + 1) % (LINES_PER_FRAME as int)
        } else {
            v.ly as int
        },
        frame_position(v.dot_step().0) == (frame_position(v) + 1) % (T_CYCLES_PER_FRAME as int),
        v.dot_step().0.frame_ready == (v.frame_ready || frame_position(v.dot_step().0)
            == vblank_position()),
        (v.dot_step().1 & IF_VBLANK != 0) == (frame_position(v.dot_step().0)
            == vblank_position()),
{
    assert(v.rendered().framebuffer.len() == v.framebuffer.len());
    assert(0 <= frame_position(v) < T_CYCLES_PER_FRAME);
    lemma_irq_bits();
    lemma_or_zero();
    let w = PpuView { dot: 0, ly: (v.ly + 1) as u8, ..v };
    assert(w.lyc_checked().1 == 0 || w.lyc_checked().1 == IF_STAT);
    let w1 = PpuView { ly: 0, mode: Mode::OamScan, ..w };
    assert(w1.lyc_checked().1 == 0 || w1.lyc_checked().1 == IF_STAT);
}

// What setting or clearing the coincidence bit does to STAT, and how the STAT interrupt bit
// shows through the interrupts a dot raises.
proof fn lemma_stat_bits(stat: u8)
    by (bit_vector)
    ensures
        (stat | 0x04) & 0x04 != 0,
        (stat & !0x04u8) & 0x04 == 0,
        (stat | 0x04) & 0xFB == stat & 0xFB,
        (stat & !0x04u8) & 0xFB == stat & 0xFB,
        ((stat | 0x04) & 0x40 != 0) == (stat & 0x40 != 0),
        ((stat | 0x04) & 0x20 != 0) == (stat & 0x20 != 0),
        ((stat | 0x04) & 0x10 != 0) == (stat & 0x10 != 0),
        ((stat & !0x04u8) & 0x20 != 0) == (stat & 0x20 != 0),
        ((stat & !0x04u8) & 0x10 != 0) == (stat & 0x10 != 0),
        stat & 0x78 == 0 ==> (stat | 0x04) & 0x40 == 0 && stat & 0x08 == 0 && stat & 0x10 == 0
            && stat & 0x20 == 0 && (stat & !0x04u8) & 0x10 == 0 && (stat & !0x04u8) & 0x20 == 0
            && (stat | 0x04) & 0x10 == 0 && (stat | 0x04) & 0x20 == 0,
        forall|x: u8, y: u8| #[trigger] (x | y) & 2 != 0 <==> (x & 2 != 0 || y & 2 != 0),
        (2u8 & 2u8) != 0,
        (0u8 & 2u8) == 0,
        (1u8 & 2u8) == 0,
        ((0u8 | 1u8) | 0u8) == 1u8,
        (0u8 | 0u8) == 0u8,
{
}

/// Whenever a dot starts a new line, LY is compared with LYC: afterwards the coincidence bit
/// of STAT (bit 2) is set exactly when they match, the other bits of STAT are kept, and on a
/// match the STAT interrupt is raised if STAT bit 6 asks for it.
pub proof fn lemma_lyc_match(v: PpuView)
    requires
        v.wf(),
        v.dot + 1 >= DOTS_PER_LINE,
    ensures
        (v.dot_step().0.stat & 0x04 != 0) == (v.dot_step().0.ly == v.lyc),
        v.dot_step().0.stat & 0xFB == v.stat & 0xFB,
        v.dot_step().0.ly == v.lyc && v.stat & 0x40 != 0 ==> v.dot_step().1 & IF_STAT != 0,
{
    lemma_or_zero();
    lemma_stat_bits(v.stat);
    let v1 = PpuView { dot: v.dot + 1, ..v };
    let w = PpuView { dot: 0, ly: (v1.ly + 1) as u8, ..v1 };
    if v.mode is HBlank {
        let (w2, lyc_irq) = w.lyc_checked();
        assert(w.ly == w.lyc && v.stat & 0x40 != 0 ==> lyc_irq == IF_STAT);
    } else {
        assert(v.mode is VBlank);
        let w1 = if w.ly >= LINES_PER_FRAME {
            PpuView { ly: 0, mode: Mode::OamScan, ..w }
        } else {
            w
        };
        let (w2, lyc_irq) = w1.lyc_checked();
        assert(w1.ly == w1.lyc && v.stat & 0x40 != 0 ==> lyc_irq == IF_STAT);
    }
}

/// Which dots raise the STAT interrupt on a running screen. In the middle of a line none
/// does, but the one that ends drawing raises it when STAT bit 3 (HBlank) is set. The dot
/// that ends a line raises it when the new line starts OAM scan and bit 5 is set, when it is
/// line 144 and bit 4 (VBlank) is set, or when the new line matches LYC and bit 6 is set.
pub proof fn lemma_stat_sources(v: PpuView)
    requires
        v.wf(),
    ensures
        v.dot + 1 < DOTS_PER_LINE ==> (v.dot_step().1 & IF_STAT != 0) == (v.mode is Drawing
            && v.dot + 1 == OAM_SCAN_DOTS + DRAWING_DOTS && v.stat & 0x08 != 0),
        v.dot + 1 >= DOTS_PER_LINE ==> (v.dot_step().1 & IF_STAT != 0) == ({
            let ly = (v.ly + 1) % (LINES_PER_FRAME as int);
            ||| ly < SCREEN_HEIGHT && v.stat & 0x20 != 0
            ||| ly == SCREEN_HEIGHT && v.stat & 0x10 != 0
            ||| ly == v.lyc && v.stat & 0x40 != 0
        }),
{
    lemma_or_zero();
    lemma_stat_bits(v.stat);
    let v1 = PpuView { dot: v.dot + 1, ..v };
    let w = PpuView { dot: 0, ly: (v1.ly + 1) as u8, ..v1 };
    let (w2, lyc_irq) = w.lyc_checked();
    assert(lyc_irq == if w.ly == w.lyc && v.stat & 0x40 != 0 { IF_STAT } else { 0 });
    assert(w2.stat & 0x20 != 0 <==> v.stat & 0x20 != 0);
    assert(w2.stat & 0x10 != 0 <==> v.stat & 0x10 != 0);
    let w0 = PpuView { ly: 0, mode: Mode::OamScan, ..w };
    let (w3, lyc_irq0) = w0.lyc_checked();
    assert(lyc_irq0 == if 0 == w0.lyc && v.stat & 0x40 != 0 { IF_STAT } else { 0 });
}

/// With none of STAT's interrupt sources switched on (bits 3 to 6 clear), no dot raises the
/// STAT interrupt.
pub proof fn lemma_stat_quiet(v: PpuView)
    requires
        v.wf(),
        v.stat & 0x78 == 0,
    ensures
        v.dot_step().1 & IF_STAT == 0,
{
    lemma_or_zero();
    lemma_stat_bits(v.stat);
    let v1 = PpuView { dot: v.dot + 1, ..v };
    let w = PpuView { dot: 0, ly: (v1.ly + 1) as u8, ..v1 };
    assert(w.lyc_checked().1 == 0);
    let w0 = PpuView { ly: 0, mode: Mode::OamScan, ..w };
    assert(w0.lyc_checked().1 == 0);
    assert(w.lyc_checked().0.stat & 0x10 == 0 && w.lyc_checked().0.stat & 0x20 == 0);
    match v.mode {
        Mode::OamScan => assert(v.dot_step().1 == 0),
        Mode::Drawing => assert(v.dot_step().1 == 0),
        Mode::HBlank => assert(v.dot_step().1 == 0 || v.dot_step().1 == 1),
        Mode::VBlank => assert(v.dot_step().1 == 0),
    }
}

/// A running screen that keeps time keeps it for the next dot, and the dot raises the VBlank
/// interrupt exactly when it reaches the end of the last visible line, as `ly` becomes 144.
pub proof fn lemma_dot_timing(v: PpuView)
    requires
        v.wf(),
        keeps_time(v),
    ensures
        keeps_time(v.dot_step().0),
        (v.dot_step().1 & IF_VBLANK != 0) == (frame_position(v.dot_step().0)
            == vblank_position()),
{
    lemma_dot_advances(v);
    lemma_irq_bits();
    lemma_or_zero();
    let w = PpuView { dot: 0, ly: (v.ly + 1) as u8, ..v };
    let stat_irq: u8 = if w.stat & 0x40 != 0 {
        IF_STAT
    } else {
        0
    };
    assert(w.lyc_checked().1 == 0 || w.lyc_checked().1 == IF_STAT);
    let w1 = PpuView { ly: 0, mode: Mode::OamScan, ..w };
    assert(w1.lyc_checked().1 == 0 || w1.lyc_checked().1 == IF_STAT);
}

/// Over any run of dots a running screen that keeps time still does, so each line is 80 dots
/// of OAM scan, 172 of drawing and 204 of HBlank, and the lines from 144 on are VBlank.
pub proof fn lemma_dotted_timing(v: PpuView, n: nat)
    requires
        v.wf(),
        keeps_time(v),
    ensures
        keeps_time(v.dotted(n)),
    decreases n,
{
    if n > 0 {
        let k = (n - 1) as nat;
        lemma_dotted_timing(v, k);
        lemma_dotted(v, k);
        lemma_dot_timing(v.dotted(k));
    }
}

/// A line that a running screen starts in time, at its first dot, goes as the hardware's
/// does: for each of its first 455 dots the screen stays on that line with the dot count
/// equal to the dots run, in OAM scan for 80 dots, drawing for the next 172 and HBlank for
/// the other 204 on a visible line, in VBlank on the others; the 456th dot starts the next
/// line, line 0 after line 153.
pub proof fn lemma_line_of_dots(v: PpuView, k: nat)
    requires
        v.wf(),
        keeps_time(v),
        v.dot == 0,
        k <= DOTS_PER_LINE,
    ensures
        k < DOTS_PER_LINE ==> v.dotted(k).ly == v.ly && v.dotted(k).dot == k && v.dotted(k).mode
            == mode_at(v.ly as int, k as int),
        k == DOTS_PER_LINE ==> v.dotted(k).ly as int == (v.ly + 1) % (LINES_PER_FRAME as int)
            && v.dotted(k).dot == 0 && keeps_time(v.dotted(k)),
{
    lemma_dotted(v, k);
    lemma_dotted_timing(v, k);
    let w = v.dotted(k);
    let (ly, wly, wdot) = (v.ly as int, w.ly as int, w.dot as int);
    assert(0 <= wly < 154 && 0 <= wdot < 456 && 0 <= ly < 154);
    if k < DOTS_PER_LINE {
        assert(wly == ly && wdot == k) by (nonlinear_arith)
            requires
                wly * 456 + wdot == (ly * 456 + k) % 70224,
                0 <= wly < 154,
                0 <= wdot < 456,
                0 <= ly < 154,
                0 <= k < 456,
        {
            assert(ly * 456 + k < 70224);
            assert(wly * 456 + wdot == ly * 456 + k);
            if wly < ly {
                assert(wly * 456 + wdot < ly * 456);
            } else if wly > ly {
                assert(wly * 456 >= ly * 456 + 456);
            }
        }
    } else {
        assert(wly == (ly + 1) % 154 && wdot == 0) by (nonlinear_arith)
            requires
                wly * 456 + wdot == (ly * 456 + 456) % 70224,
                0 <= wly < 154,
                0 <= wdot < 456,
                0 <= ly < 154,
        {
            if ly < 153 {
                assert(ly * 456 + 456 < 70224);
                assert(wly * 456 + wdot == (ly + 1) * 456);
                if wly < ly + 1 {
                    assert(wly * 456 + wdot < (ly + 1) * 456);
                } else if wly > ly + 1 {
                    assert(wly * 456 >= (ly + 1) * 456 + 456);
                }
            } else {
                assert(wly * 456 + wdot == 0);
            }
        }
    }
}

/// The screen as it is at power on keeps time.
pub proof fn lemma_starts_in_time()
    ensures
        keeps_time(initial_ppu()),
        initial_ppu().wf(),
{
}

/// A whole frame of dots brings a running screen back to the same place, with a picture
/// finished on the way.
pub proof fn lemma_frame_of_dots(v: PpuView)
    requires
        v.wf(),
    ensures
        frame_position(v.dotted(T_CYCLES_PER_FRAME as nat)) == frame_position(v),
        v.dotted(T_CYCLES_PER_FRAME as nat).frame_ready,
{
    lemma_dotted(v, T_CYCLES_PER_FRAME as nat);
    let p = frame_position(v);
    assert(0 <= p < T_CYCLES_PER_FRAME) by {
        assert(v.ly < 154 && v.dot < 456);
    }
    assert((p + 70224) % 70224 == p) by (nonlinear_arith)
        requires
            0 <= p < 70224,
    {
    }
}

impl Ppu {
    pub fn new() -> (r: Self)
        ensures
            r@ == initial_ppu(),
            r@.wf(),
    {
        let r = Self {
            framebuffer: vec![0xFFu8; FRAMEBUFFER_LEN],
            frame_ready: false,
            vram: vec![0u8; VRAM_BANK_SIZE * 2],
            oam: vec![0u8; OAM_SIZE],
            mode: Mode::OamScan,
            dot: 0,
            lcdc: 0x91,
            stat: 0x85,
            scy: 0,
            scx: 0,
            ly: 0,
            lyc: 0,
            bgp: 0xFC,
            obp0: 0xFF,
            obp1: 0xFF,
            wy: 0,
            wx: 0,
            vbk: 0,
            bcps: 0,
            bcpd: vec![0xFFu8; 64],
            ocps: 0,
            ocpd: vec![0xFFu8; 64],
            fetcher: Fetcher::new(),
            bg_fifo: PixelFifo::new(),
            obj_fifo: PixelFifo::new(),
            scan: SpriteScan::new(),
        };
        assert(r.framebuffer@ =~= initial_ppu().framebuffer);
        assert(r.vram@ =~= initial_ppu().vram);
        assert(r.oam@ =~= initial_ppu().oam);
        assert(r.bcpd@ =~= initial_ppu().bcpd);
        assert(r.ocpd@ =~= initial_ppu().ocpd);
        r
    }

    pub fn mode(&self) -> (r: Mode)
        ensures
            r == self@.mode,
    {
        self.mode
    }

    pub fn ly(&self) -> (r: u8)
        ensures
            r == self@.ly,
    {
        self.ly
    }

    /// The finished picture.
    pub fn picture(&self) -> (r: &[u8])
        ensures
            r@ == self@.framebuffer,
    {
        self.framebuffer.as_slice()
    }

    /// Whether a picture has been finished since the flag was last taken down.
    pub fn is_frame_ready(&self) -> (r: bool)
        ensures
            r == self@.frame_ready,
    {
        self.frame_ready
    }

    /// Whether writing this register would step a palette slot on from 0xFF.
    pub fn write_overflows(&self, addr: u16) -> (r: bool)
        ensures
            r == self@.write_overflows(addr),
    {
        (addr == 0xFF69 && self.bcps == 0xFF) || (addr == 0xFF6B && self.ocps == 0xFF)
    }

    /// Take down the flag that says a picture is finished.
    pub fn clear_frame_ready(&mut self)
        ensures
            final(self)@ == (PpuView { frame_ready: false, ..old(self)@ }),
    {
        self.frame_ready = false;
    }

    pub fn tick(&mut self, t_cycles: u32) -> (irq: u8)
        requires
            old(self)@.wf(),
        ensures
            (final(self)@, irq) == old(self)@.tick_spec(t_cycles),
            final(self)@.wf(),
    {
        if self.lcdc & 0x80 == 0 {
            return 0;
        }
        let ghost start = self@;
        let mut irq: u8 = 0;
        let mut i: u32 = 0;
        while i < t_cycles
            invariant
                i <= t_cycles,
                self@ == start.dotted(i as nat),
                irq == start.dot_irq(i as nat),
                self@.wf(),
            decreases t_cycles - i,
        {
            let raised = self.tick_dot();
            irq = irq | raised;
            i = i + 1;
        }
        irq
    }

    fn tick_dot(&mut self) -> (irq: u8)
        requires
            old(self)@.wf(),
        ensures
            (final(self)@, irq) == old(self)@.dot_step(),
            final(self)@.wf(),
    {
        proof {
            lemma_or_zero();
        }
        let mut irq: u8 = 0;
        self.dot = self.dot + 1;
        match self.mode {
            Mode::OamScan => {
                if self.dot >= OAM_SCAN_DOTS {
                    // the sprites for this line will be picked here
                    self.mode = Mode::Drawing;
                    self.fetcher.restart();
                    self.bg_fifo.clear();
                    self.obj_fifo.clear();
                }
            },
            Mode::Drawing => {
                if self.dot >= OAM_SCAN_DOTS + DRAWING_DOTS {
                    self.render_line();
                    self.mode = Mode::HBlank;
                    if self.stat & 0x08 != 0 {
                        irq = irq | IF_STAT;
                    }
                }
            },
            Mode::HBlank => {
                if self.dot >= DOTS_PER_LINE {
                    self.dot = 0;
                    self.ly = self.ly + 1;
                    let lyc_irq = self.check_lyc();
                    irq = irq | lyc_irq;
                    if self.ly as usize >= SCREEN_HEIGHT {
                        self.mode = Mode::VBlank;
                        self.frame_ready = true;
                        irq = irq | IF_VBLANK;
                        if self.stat & 0x10 != 0 {
                            irq = irq | IF_STAT;
                        }
                    } else {
                        self.mode = Mode::OamScan;
                        if self.stat & 0x20 != 0 {
                            irq = irq | IF_STAT;
                        }
                    }
                }
            },
            Mode::VBlank => {
                if self.dot >= DOTS_PER_LINE {
                    self.dot = 0;
                    self.ly = self.ly + 1;
                    if self.ly >= LINES_PER_FRAME {
                        self.ly = 0;
                        self.mode = Mode::OamScan;
                        if self.stat & 0x20 != 0 {
                            irq = irq | IF_STAT;
                        }
                    }
                    let lyc_irq = self.check_lyc();
                    irq = irq | lyc_irq;
                }
            },
        }
        proof {
            lemma_or_zero();
        }
        irq
    }

    fn check_lyc(&mut self) -> (irq: u8)
        ensures
            (final(self)@, irq) == old(self)@.lyc_checked(),
    {
        if self.ly == self.lyc {
            self.stat = self.stat | 0x04;
            if self.stat & 0x40 != 0 {
                return IF_STAT;
            }
        } else {
            self.stat = self.stat & !0x04u8;
        }
        0
    }

    // Real pixels will be drawn here; for now the line is painted blank.
    fn render_line(&mut self)
        requires
            old(self)@.framebuffer.len() == FRAMEBUFFER_LEN,
        ensures
            final(self)@ == old(self)@.rendered(),
    {
        if self.ly as usize >= SCREEN_HEIGHT {
            return;
        }
        let start = self.ly as usize * SCREEN_WIDTH * 4;
        let end = start + SCREEN_WIDTH * 4;
        let ghost before = self@;
        let mut i = start;
        while i < end
            invariant
                start <= i <= end,
                start == before.ly * SCREEN_WIDTH * 4,
                end == start + SCREEN_WIDTH * 4,
                end <= FRAMEBUFFER_LEN,
                before.framebuffer.len() == FRAMEBUFFER_LEN,
                self@ == (PpuView { framebuffer: self@.framebuffer, ..before }),
                self.framebuffer@.len() == before.framebuffer.len(),
                forall|k: int|
                    0 <= k < self.framebuffer@.len() ==> #[trigger] self.framebuffer@[k] == (if start
                        <= k < i {
                        blank_channel((k - start) % 4)
                    } else {
                        before.framebuffer[k]
                    }),
            decreases end - i,
        {
            let b = blank_byte((i - start) % 4);
            self.framebuffer.set(i, b);
            i = i + 1;
        }
        assert(self@.framebuffer =~= before.rendered().framebuffer);
    }

    // Screen memory is not yet hidden from the CPU while the screen is busy.
    pub fn read_vram(&self, addr: u16) -> (r: u8)
        requires
            self@.wf(),
            0x8000 <= addr,
            self@.vram_index(addr) < self@.vram.len(),
        ensures
            r == self@.vram_read(addr),
    {
        self.vram[(self.vbk % 2) as usize * VRAM_BANK_SIZE + (addr as usize - 0x8000)]
    }

    pub fn write_vram(&mut self, addr: u16, value: u8)
        requires
            old(self)@.wf(),
            0x8000 <= addr,
            old(self)@.vram_index(addr) < old(self)@.vram.len(),
        ensures
            final(self)@ == old(self)@.vram_written(addr, value),
            final(self)@.wf(),
    {
        let index = (self.vbk % 2) as usize * VRAM_BANK_SIZE + (addr as usize - 0x8000);
        self.vram.set(index, value);
    }

    pub fn read_oam(&self, addr: u16) -> (r: u8)
        requires
            self@.wf(),
            0xFE00 <= addr < 0xFEA0,
        ensures
            r == self@.oam[addr - 0xFE00],
    {
        self.oam[(addr - 0xFE00) as usize]
    }

    pub fn write_oam(&mut self, addr: u16, value: u8)
        requires
            old(self)@.wf(),
            0xFE00 <= addr < 0xFEA0,
        ensures
            final(self)@ == (PpuView { oam: old(self)@.oam.update(addr - 0xFE00, value), ..old(self)@ }),
            final(self)@.wf(),
    {
        self.oam.set((addr - 0xFE00) as usize, value);
    }

    pub fn read_register(&self, addr: u16) -> (r: u8)
        requires
            self@.wf(),
        ensures
            r == self@.read_register_spec(addr),
    {
        proof {
            lemma_six_bits();
        }
        match addr {
            0xFF40 => self.lcdc,
            0xFF41 => self.stat | 0x80 | mode_bits(self.mode),
            0xFF42 => self.scy,
            0xFF43 => self.scx,
            0xFF44 => self.ly,
            0xFF45 => self.lyc,
            0xFF47 => self.bgp,
            0xFF48 => self.obp0,
            0xFF49 => self.obp1,
            0xFF4A => self.wy,
            0xFF4B => self.wx,
            0xFF4F => self.vbk | 0xFE,
            0xFF68 => self.bcps,
            0xFF69 => self.bcpd[(self.bcps & 0x3F) as usize],
            0xFF6A => self.ocps,
            0xFF6B => self.ocpd[(self.ocps & 0x3F) as usize],
            _ => 0xFF,
        }
    }

    pub fn write_register(&mut self, addr: u16, value: u8)
        requires
            old(self)@.wf(),
            !old(self)@.write_overflows(addr),
        ensures
            final(self)@ == old(self)@.write_register_spec(addr, value),
            final(self)@.wf(),
    {
        proof {
            lemma_six_bits();
        }
        match addr {
            0xFF40 => {
                self.lcdc = value;
                if value & 0x80 == 0 {
                    self.ly = 0;
                    self.dot = 0;
                    self.mode = Mode::HBlank;
                }
            },
            // The bottom 3 bits report status, so a game cannot write them.
            0xFF41 => self.stat = (self.stat & 0x07) | (value & 0x78),
            0xFF42 => self.scy = value,
            0xFF43 => self.scx = value,
            0xFF44 => {},  // the current line is read-only
            0xFF45 => self.lyc = value,
            0xFF47 => self.bgp = value,
            0xFF48 => self.obp0 = value,
            0xFF49 => self.obp1 = value,
            0xFF4A => self.wy = value,
            0xFF4B => self.wx = value,
            0xFF4F => self.vbk = value & 0x01,
            0xFF68 => self.bcps = value,
            0xFF69 => {
                self.bcpd.set((self.bcps & 0x3F) as usize, value);
                if self.bcps & 0x80 != 0 {
                    self.bcps = (self.bcps & 0x80) | ((self.bcps + 1) & 0x3F);
                }
            },
            0xFF6A => self.ocps = value,
            0xFF6B => {
                self.ocpd.set((self.ocps & 0x3F) as usize, value);
                if self.ocps & 0x80 != 0 {
                    self.ocps = (self.ocps & 0x80) | ((self.ocps + 1) & 0x3F);
                }
            },
            _ => {},
        }
    }
}

impl Default for Ppu {
    fn default() -> (r: Self)
        ensures
            r@ == initial_ppu(),
    {
        Self::new()
    }
}

} // verus!
