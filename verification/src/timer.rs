//! DIV and TIMA, the two counters a game uses to measure time.
use crate::bus::IF_TIMER;
use vstd::prelude::*;

verus! {

pub struct Timer {
    div: u16,  // FF04 counts up forever; a game only sees its top byte
    tima: u8,  // FF05 counts up at the speed tac picks
    tma: u8,  // FF06 what tima restarts from after it overflows
    tac: u8,  // FF07 timer on or off, and how fast
    reload_in: u8,  // ticks until an overflowed tima is refilled from tma
    reloaded_for: u8,  // ticks left in the cycle where tima was just refilled
    frozen: bool,  // true during STOP, when the divider does not count
}

/// Whether the bit of the divider that TAC picks is set: bit 9, 3, 5 or 7 for TAC's low bits
/// 0 to 3.
pub open spec fn divider_bit(tac: u8, div: u16) -> bool {
    let bit: u16 = if tac & 0x03 == 0 {
        9
    } else if tac & 0x03 == 1 {
        3
    } else if tac & 0x03 == 2 {
        5
    } else {
        7
    };
    (div >> bit) & 1 == 1
}

/// Whether one more T-cycle makes TIMA count, for a timer whose FF07 reads `tac` and whose
/// divider is `div`: the bit that `tac` picks falls from 1 to 0 while the timer is on.
pub open spec fn counts_on_tick(tac: u8, div: u16) -> bool {
    &&& divider_bit(tac, div)
    &&& !divider_bit(tac, ((div + 1) % 65536) as u16)
    &&& tac & 0x04 != 0
}

/// How many T-cycles of the divider one count of TIMA takes, for a timer whose FF07 reads
/// `tac`: 1024, 16, 64 or 256 for its low bits 0 to 3.
pub open spec fn count_period(tac: u8) -> int {
    if tac & 0x03 == 0 {
        1024
    } else if tac & 0x03 == 1 {
        16
    } else if tac & 0x03 == 2 {
        64
    } else {
        256
    }
}

/// What TIMA holds at the start of a cycle: TMA's value where the refill was one cycle away.
pub open spec fn refilled(countdown: u8, tima: u8, tma: u8) -> u8 {
    if countdown == 1 {
        tma
    } else {
        tima
    }
}

// Joining interrupt bits: nothing joined to a bit changes it.
proof fn lemma_or_bits()
    by (bit_vector)
    ensures
        forall|x: u8| #[trigger] (0u8 | x) == x,
        (0u8 | 0u8) == 0u8,
        (0u8 | 4u8) == 4u8,
        (4u8 | 0u8) == 4u8,
        (4u8 | 4u8) == 4u8,
{
}

// What FF07 reads back as: its top 5 bits set over the 3 kept.
proof fn lemma_tac_bits(tac: u8)
    by (bit_vector)
    ensures
        (tac | 0xF8) & 0x03 == tac & 0x03,
        (tac | 0xF8) & 0x04 == tac & 0x04,
        (0xF8u8 | 0xF8u8) == 0xF8u8,
{
}

impl Timer {
    pub closed spec fn initial() -> Timer {
        Timer {
            div: 0xABCC,
            tima: 0,
            tma: 0,
            tac: 0xF8,
            reload_in: 0,
            reloaded_for: 0,
            frozen: false,
        }
    }

    /// The bit of DIV that TAC picks: bit 9, 3, 5 or 7 for TAC's low bits 0 to 3.
    pub closed spec fn selected(self) -> bool {
        let bit: u16 = if self.tac & 0x03 == 0 {
            9
        } else if self.tac & 0x03 == 1 {
            3
        } else if self.tac & 0x03 == 2 {
            5
        } else {
            7
        };
        (self.div >> bit) & 1 == 1
    }

    /// TIMA steps when the selected bit fell from 1 to 0 while the timer is on; an overflow
    /// leaves 00 in TIMA and schedules the reload for 4 ticks later.
    pub closed spec fn after_edge(self, before: bool) -> Timer {
        if before && !self.selected() && self.tac & 0x04 != 0 {
            Timer {
                tima: ((self.tima + 1) % 256) as u8,
                reload_in: if self.tima == 255 {
                    4
                } else {
                    self.reload_in
                },
                ..self
            }
        } else {
            self
        }
    }

    /// The start of each tick: finish a pending reload, and report its interrupt.
    pub closed spec fn after_reload(self) -> (Timer, u8) {
        let t = Timer {
            reloaded_for: if self.reloaded_for == 0 {
                0
            } else {
                (self.reloaded_for - 1) as u8
            },
            ..self
        };
        if t.reload_in == 0 {
            (t, 0)
        } else if t.reload_in > 1 {
            (Timer { reload_in: (t.reload_in - 1) as u8, ..t }, 0)
        } else {
            (Timer { reload_in: 0, tima: t.tma, reloaded_for: 4, ..t }, IF_TIMER)
        }
    }

    /// One T-cycle of a running timer: the new state and the interrupt it raised.
    pub closed spec fn one_tick(self) -> (Timer, u8) {
        let (t, irq) = self.after_reload();
        let before = t.selected();
        let counted = Timer { div: ((t.div + 1) % 65536) as u16, ..t };
        (counted.after_edge(before), irq)
    }

    /// The state after `n` T-cycles of counting.
    pub closed spec fn ticked(self, n: nat) -> Timer
        decreases n,
    {
        if n == 0 {
            self
        } else {
            self.ticked((n - 1) as nat).one_tick().0
        }
    }

    /// The interrupts raised during `n` T-cycles of counting.
    pub closed spec fn tick_irq(self, n: nat) -> u8
        decreases n,
    {
        if n == 0 {
            0
        } else {
            self.tick_irq((n - 1) as nat) | self.ticked((n - 1) as nat).one_tick().1
        }
    }

    /// `t_cycles` ticks of the timer: nothing at all while it is frozen.
    pub closed spec fn tick_spec(self, t_cycles: u32) -> (Timer, u8) {
        if self.frozen {
            (self, 0)
        } else {
            (self.ticked(t_cycles as nat), self.tick_irq(t_cycles as nat))
        }
    }

    pub closed spec fn with_div_reset(self) -> Timer {
        let before = self.selected();
        Timer { div: 0, ..self }.after_edge(before)
    }

    pub closed spec fn with_frozen(self, frozen: bool) -> Timer {
        Timer { frozen, ..self }
    }

    pub closed spec fn is_frozen(self) -> bool {
        self.frozen
    }

    pub closed spec fn read_spec(self, addr: u16) -> u8 {
        if addr == 0xFF04 {
            (self.div / 256) as u8
        } else if addr == 0xFF05 {
            self.tima
        } else if addr == 0xFF06 {
            self.tma
        } else if addr == 0xFF07 {
            self.tac | 0xF8
        } else {
            0xFF
        }
    }

    pub closed spec fn write_spec(self, addr: u16, value: u8) -> Timer {
        if addr == 0xFF04 {
            self.with_div_reset()
        } else if addr == 0xFF05 {
            if self.reload_in > 0 {
                Timer { reload_in: 0, tima: value, ..self }
            } else if self.reloaded_for == 0 {
                Timer { tima: value, ..self }
            } else {
                self
            }
        } else if addr == 0xFF06 {
            Timer {
                tma: value,
                tima: if self.reloaded_for > 0 {
                    value
                } else {
                    self.tima
                },
                ..self
            }
        } else if addr == 0xFF07 {
            let before = self.selected();
            Timer { tac: value & 0x07, ..self }.after_edge(before)
        } else {
            self
        }
    }

    pub fn new() -> (r: Self)
        ensures
            r == Timer::initial(),
    {
        Self {
            div: 0xABCC,
            tima: 0,
            tma: 0,
            tac: 0xF8,
            reload_in: 0,
            reloaded_for: 0,
            frozen: false,
        }
    }

    /// Set DIV back to 0. A write to FF04 does this, and so does STOP.
    pub fn reset_div(&mut self)
        ensures
            *final(self) == old(self).with_div_reset(),
    {
        let before = self.selected_bit();
        self.div = 0;
        self.step_on_falling_edge(before);  // dropping the selected bit to 0 counts as a tick
    }

    /// Stop or restart counting. The CPU freezes the timer for as long as it is in STOP.
    pub fn freeze(&mut self, frozen: bool)
        ensures
            *final(self) == old(self).with_frozen(frozen),
    {
        self.frozen = frozen;
    }

    pub fn tick(&mut self, t_cycles: u32) -> (irq: u8)
        ensures
            (*final(self), irq) == old(self).tick_spec(t_cycles),
            irq == 0 || irq == IF_TIMER,
    {
        if self.frozen {
            return 0;
        }
        let ghost start = *self;
        let mut irq: u8 = 0;
        let mut i: u32 = 0;
        while i < t_cycles
            invariant
                i <= t_cycles,
                !start.frozen,
                *self == start.ticked(i as nat),
                irq == start.tick_irq(i as nat),
                irq == 0 || irq == IF_TIMER,
            decreases t_cycles - i,
        {
            let raised = self.finish_reload();
            proof {
                assert(raised == 0 || raised == IF_TIMER);
                lemma_or_bits();
            }
            irq = irq | raised;
            let before = self.selected_bit();
            self.div = self.div.wrapping_add(1);
            self.step_on_falling_edge(before);
            i = i + 1;
        }
        irq
    }

    // An overflow refills TIMA one M-cycle late, and only then asks for the interrupt.
    fn finish_reload(&mut self) -> (irq: u8)
        ensures
            (*final(self), irq) == old(self).after_reload(),
    {
        self.reloaded_for = self.reloaded_for.saturating_sub(1);
        if self.reload_in == 0 {
            return 0;
        }
        self.reload_in = self.reload_in - 1;
        if self.reload_in > 0 {
            return 0;
        }
        self.tima = self.tma;
        self.reloaded_for = 4;
        IF_TIMER
    }

    // The bit of DIV that TAC picks. TIMA steps each time it falls from 1 to 0.
    fn selected_bit(&self) -> (r: bool)
        ensures
            r == self.selected(),
    {
        let bit: u16 = match self.tac & 0x03 {
            0 => 9,
            1 => 3,
            2 => 5,
            _ => 7,
        };
        (self.div >> bit) & 1 == 1
    }

    // Step TIMA when the picked bit drops to 0. On the Color, switching the timer off never counts.
    fn step_on_falling_edge(&mut self, before: bool)
        ensures
            *final(self) == old(self).after_edge(before),
    {
        if before && !self.selected_bit() && self.tac & 0x04 != 0 {
            let next = self.tima.wrapping_add(1);
            let overflow = self.tima == 255;
            self.tima = next;
            if overflow {
                self.reload_in = 4;  // tima reads 00 until then
            }
        }
    }

    pub fn read(&self, addr: u16) -> (r: u8)
        ensures
            r == self.read_spec(addr),
    {
        match addr {
            0xFF04 => (self.div / 256) as u8,
            0xFF05 => self.tima,
            0xFF06 => self.tma,
            0xFF07 => self.tac | 0xF8,
            _ => 0xFF,
        }
    }

    pub fn write(&mut self, addr: u16, value: u8)
        ensures
            *final(self) == old(self).write_spec(addr, value),
    {
        match addr {
            0xFF04 => self.reset_div(),
            // In the 00 cycle a write cancels the reload; right after a reload it is ignored.
            0xFF05 => {
                if self.reload_in > 0 {
                    self.reload_in = 0;
                    self.tima = value;
                } else if self.reloaded_for == 0 {
                    self.tima = value;
                }
            },
            // Right after a reload, a new TMA goes straight into TIMA too.
            0xFF06 => {
                self.tma = value;
                if self.reloaded_for > 0 {
                    self.tima = value;
                }
            },
            // Picking a different bit can also look like a fall from 1 to 0.
            0xFF07 => {
                let before = self.selected_bit();
                self.tac = value & 0x07;
                self.step_on_falling_edge(before);
            },
            _ => {},
        }
    }

    /// The whole 16-bit divider; FF04 shows its top byte.
    pub closed spec fn divider(self) -> u16 {
        self.div
    }

    /// What the readings say: FF04 is the divider's top byte, and the divider bit that
    /// counts TIMA is the one that FF07's low bits pick.
    pub proof fn lemma_readings(self)
        ensures
            self.read_spec(0xFF04) == self.divider() / 256,
            self.selected() == divider_bit(self.read_spec(0xFF07), self.divider()),
    {
        let tac = self.tac;
        lemma_tac_bits(tac);
    }

    /// Writing DIV drops every divider bit to 0, so it counts TIMA once when the selected
    /// bit was set and the timer is on.
    pub proof fn lemma_div_write_counts(self, value: u8)
        ensures
            self.write_spec(0xFF04, value).read_spec(0xFF05) == if divider_bit(
                self.read_spec(0xFF07),
                self.divider(),
            ) && self.read_spec(0xFF07) & 0x04 != 0 {
                ((self.read_spec(0xFF05) + 1) % 256) as u8
            } else {
                self.read_spec(0xFF05)
            },
    {
        self.lemma_readings();
        let tac = self.tac;
        lemma_tac_bits(tac);
        assert(forall|b: u16| b < 16 ==> (0u16 >> b) & 1 == 0) by (bit_vector);
    }

    /// Writing TAC can look like the selected bit falling: it counts TIMA once when the bit
    /// picked before was set, the bit picked now is clear, and the timer is left on.
    /// Switching the timer off never counts.
    pub proof fn lemma_tac_write_counts(self, value: u8)
        ensures
            self.write_spec(0xFF07, value).read_spec(0xFF05) == if divider_bit(
                self.read_spec(0xFF07),
                self.divider(),
            ) && !divider_bit(value, self.divider()) && value & 0x04 != 0 {
                ((self.read_spec(0xFF05) + 1) % 256) as u8
            } else {
                self.read_spec(0xFF05)
            },
    {
        self.lemma_readings();
        assert((value & 0x07) & 0x03 == value & 0x03 && (value & 0x07) & 0x04 == value & 0x04)
            by (bit_vector);
    }

    /// Freezing or thawing changes no reading. A thawed timer counts as a running one does,
    /// and thawing a timer that ran before it was frozen gives back exactly that timer.
    pub proof fn lemma_freeze_keeps_readings(self, frozen: bool, addr: u16, t_cycles: u32)
        ensures
            self.with_frozen(frozen).read_spec(addr) == self.read_spec(addr),
            self.with_frozen(frozen).is_frozen() == frozen,
            !self.is_frozen() ==> self.with_frozen(true).with_frozen(false) == self,
            !self.with_frozen(false).is_frozen(),
            self.with_frozen(false).tick_spec(t_cycles) == (
                self.with_frozen(false).ticked(t_cycles as nat),
                self.with_frozen(false).tick_irq(t_cycles as nat),
            ),
    {
    }

    /// The timer as it is at power on: DIV reads 0xAB, TIMA and TMA 0, TAC 0xF8, and it runs.
    pub proof fn lemma_initial_readings()
        ensures
            Timer::initial().read_spec(0xFF04) == 0xAB,
            Timer::initial().read_spec(0xFF05) == 0,
            Timer::initial().read_spec(0xFF06) == 0,
            Timer::initial().read_spec(0xFF07) == 0xF8,
            !Timer::initial().is_frozen(),
    {
        lemma_tac_bits(0xF8);
    }

    /// Writing TMA and reading it back gives the value written.
    pub proof fn lemma_tma_round_trip(self, value: u8)
        ensures
            self.write_spec(0xFF06, value).read_spec(0xFF06) == value,
    {
    }

    /// Writing DIV sets it to zero, whatever was written.
    pub proof fn lemma_div_write_resets(self, value: u8)
        ensures
            self.write_spec(0xFF04, value).read_spec(0xFF04) == 0,
    {
    }

    /// TAC reads back with its top 5 bits set and its low 3 bits as written.
    pub proof fn lemma_tac_round_trip(self, value: u8)
        ensures
            self.write_spec(0xFF07, value).read_spec(0xFF07) == (value & 0x07) | 0xF8,
    {
    }

    /// A frozen timer stands still and raises nothing, however long it is ticked.
    pub proof fn lemma_frozen_stands_still(self, t_cycles: u32)
        requires
            self.is_frozen(),
        ensures
            self.tick_spec(t_cycles) == (self, 0u8),
    {
    }

    /// T-cycles until an overflowed TIMA is refilled from TMA; 0 when no refill is waiting.
    pub closed spec fn reload_countdown(self) -> u8 {
        self.reload_in
    }

    /// One T-cycle of a running timer, as its registers show it. A refill that was one cycle
    /// away happens first: TIMA takes TMA's value and the timer interrupt is raised. Then
    /// the divider counts on, and TIMA counts when that makes the divider bit that FF07
    /// picks fall from 1 to 0 with the timer on. Counting past 0xFF leaves 0x00 in TIMA and
    /// starts a refill four cycles away; TMA and TAC stay as they are.
    pub proof fn lemma_one_tick(self)
        requires
            !self.is_frozen(),
        ensures
            self.tick_spec(1).1 == if self.reload_countdown() == 1 {
                IF_TIMER
            } else {
                0
            },
            self.tick_spec(1).0.divider() == (self.divider() + 1) % 65536,
            self.tick_spec(1).0.read_spec(0xFF05) == if counts_on_tick(
                self.read_spec(0xFF07),
                self.divider(),
            ) {
                ((refilled(self.reload_countdown(), self.read_spec(0xFF05), self.read_spec(0xFF06))
                    + 1) % 256) as u8
            } else {
                refilled(self.reload_countdown(), self.read_spec(0xFF05), self.read_spec(0xFF06))
            },
            self.tick_spec(1).0.reload_countdown() == if counts_on_tick(
                self.read_spec(0xFF07),
                self.divider(),
            ) && refilled(self.reload_countdown(), self.read_spec(0xFF05), self.read_spec(0xFF06))
                == 255 {
                4
            } else if self.reload_countdown() > 0 {
                (self.reload_countdown() - 1) as u8
            } else {
                0
            },
            self.tick_spec(1).0.read_spec(0xFF06) == self.read_spec(0xFF06),
            self.tick_spec(1).0.read_spec(0xFF07) == self.read_spec(0xFF07),
            !self.tick_spec(1).0.is_frozen(),
    {
        let tac = self.tac;
        lemma_tac_bits(tac);
        lemma_or_bits();
        assert(self.ticked(0) == self && self.tick_irq(0) == 0);
        let t = self.after_reload().0;
        let counted = Timer { div: ((t.div + 1) % 65536) as u16, ..t };
        assert(t.selected() == divider_bit(self.read_spec(0xFF07), self.divider()));
        assert(counted.selected() == divider_bit(
            self.read_spec(0xFF07),
            ((self.divider() + 1) % 65536) as u16,
        ));
    }

    /// T-cycles left of the M-cycle in which TIMA was just refilled from TMA; 0 outside it.
    pub closed spec fn refill_window(self) -> u8 {
        self.reloaded_for
    }

    /// Writes around an overflow. While a refill is waiting (TIMA reads 0x00), a TIMA write
    /// lands and cancels the refill, so no timer interrupt comes of it. In the M-cycle right
    /// after a refill a TIMA write is ignored, and a TMA write goes into TIMA too. Otherwise a
    /// TIMA write simply lands and a TMA write leaves TIMA alone. Neither changes DIV or TAC.
    pub proof fn lemma_overflow_writes(self, value: u8)
        ensures
            self.reload_countdown() > 0 ==> self.write_spec(0xFF05, value).read_spec(0xFF05)
                == value && self.write_spec(0xFF05, value).reload_countdown() == 0,
            self.reload_countdown() == 0 && self.refill_window() > 0 ==> self.write_spec(
                0xFF05,
                value,
            ).read_spec(0xFF05) == self.read_spec(0xFF05),
            self.reload_countdown() == 0 && self.refill_window() == 0 ==> self.write_spec(
                0xFF05,
                value,
            ).read_spec(0xFF05) == value,
            self.write_spec(0xFF06, value).read_spec(0xFF05) == if self.refill_window() > 0 {
                value
            } else {
                self.read_spec(0xFF05)
            },
            self.write_spec(0xFF05, value).divider() == self.divider(),
            self.write_spec(0xFF05, value).read_spec(0xFF07) == self.read_spec(0xFF07),
            self.write_spec(0xFF06, value).divider() == self.divider(),
            self.write_spec(0xFF06, value).read_spec(0xFF07) == self.read_spec(0xFF07),
    {
    }

    /// How often a running timer counts. TIMA steps on exactly those cycles that bring the
    /// divider to a multiple of 1024, 16, 64 or 256 for FF07's low bits 0 to 3 (4096, 262144,
    /// 65536 or 16384 Hz), and only while FF07 bit 2 switches the timer on.
    pub proof fn lemma_count_rate(self)
        requires
            !self.is_frozen(),
        ensures
            counts_on_tick(self.read_spec(0xFF07), self.divider()) == (self.read_spec(0xFF07)
                & 0x04 != 0 && (self.divider() + 1) % count_period(self.read_spec(0xFF07)) == 0),
            self.tick_spec(1).0.read_spec(0xFF05) == if self.read_spec(0xFF07) & 0x04 != 0 && (
            self.divider() + 1) % count_period(self.read_spec(0xFF07)) == 0 {
                ((refilled(self.reload_countdown(), self.read_spec(0xFF05), self.read_spec(0xFF06))
                    + 1) % 256) as u8
            } else {
                refilled(self.reload_countdown(), self.read_spec(0xFF05), self.read_spec(0xFF06))
            },
    {
        self.lemma_one_tick();
        let tac = self.read_spec(0xFF07);
        let div = self.div;
        let next: u16 = ((div + 1) % 65536) as u16;
        assert(next == div.wrapping_add(1));
        assert((((div >> 9u16) & 1 == 1 && (next >> 9u16) & 1 != 1) <==> div & 1023 == 1023) && (((
        div >> 3u16) & 1 == 1 && (next >> 3u16) & 1 != 1) <==> div & 15 == 15) && (((div >> 5u16)
            & 1 == 1 && (next >> 5u16) & 1 != 1) <==> div & 63 == 63) && (((div >> 7u16) & 1 == 1
            && (next >> 7u16) & 1 != 1) <==> div & 255 == 255)) by (bit_vector)
            requires
                next == div.wrapping_add(1),
        ;
        assert(div & 1023 == div % 1024 && div & 15 == div % 16 && div & 63 == div % 64 && div
            & 255 == div % 256) by (bit_vector);
        assert((div + 1) % 1024 == 0 <==> div % 1024 == 1023);
        assert((div + 1) % 16 == 0 <==> div % 16 == 15);
        assert((div + 1) % 64 == 0 <==> div % 64 == 63);
        assert((div + 1) % 256 == 0 <==> div % 256 == 255);
    }

    /// Counting stays as it is: a running timer never freezes itself.
    proof fn lemma_ticked_runs(self, n: nat)
        ensures
            self.ticked(n).frozen == self.frozen,
        decreases n,
    {
        if n > 0 {
            self.lemma_ticked_runs((n - 1) as nat);
        }
    }

    /// Ticking `n + 1` cycles is ticking `n` and then one more; the interrupts raised are
    /// those of both.
    pub proof fn lemma_tick_by_tick(self, n: u32)
        requires
            n < u32::MAX,
        ensures
            self.tick_spec((n + 1) as u32) == (
                self.tick_spec(n).0.tick_spec(1).0,
                self.tick_spec(n).1 | self.tick_spec(n).0.tick_spec(1).1,
            ),
    {
        lemma_or_bits();
        self.lemma_ticked_runs(n as nat);
        let s = self.ticked(n as nat);
        assert(s.ticked(0) == s && s.tick_irq(0) == 0);
        assert(s.ticked(1) == s.one_tick().0);
        assert(s.tick_irq(1) == (0u8 | s.one_tick().1));

    }

    /// Ticking `n` and then `m` cycles is the same as ticking `n + m` cycles.
    pub proof fn lemma_ticks_compose(self, n: nat, m: nat)
        ensures
            self.ticked(n).ticked(m) == self.ticked(n + m),
        decreases m,
    {
        if m > 0 {
            self.lemma_ticks_compose(n, (m - 1) as nat);
        }
    }
}

impl Default for Timer {
    fn default() -> (r: Self)
        ensures
            r == Timer::initial(),
    {
        Self::new()
    }
}

} // verus!
