//! The sound chip. It only remembers register values for now, and its output is silence.
//!
//! Every sample it makes is silent, so the queue is kept as a count of the sample values
//! waiting for the host, two per sample (left, right).
use crate::{AUDIO_SAMPLE_RATE, T_CYCLES_PER_SECOND};
use vstd::prelude::*;

verus! {

pub const REGISTER_BASE: u16 = 0xFF10;

pub const REGISTER_COUNT: usize = 0x30;

/// About a second of sound, so a host that stops collecting cannot make this grow forever.
pub const MAX_QUEUED_SAMPLES: usize = 96_000;

pub struct Apu {
    registers: Vec<u8>,
    queued: usize,  // silent sample values waiting for the host
    /// Counts in whole numbers, so deciding when to emit a sample never drifts.
    sample_accumulator: u32,
}

pub struct ApuView {
    pub registers: Seq<u8>,
    pub queued: nat,
    pub accumulator: nat,
}

impl ApuView {
    pub open spec fn wf(self) -> bool {
        &&& self.registers.len() == REGISTER_COUNT
        &&& self.queued <= MAX_QUEUED_SAMPLES
        &&& self.queued % 2 == 0
        &&& self.accumulator < T_CYCLES_PER_SECOND
    }

    /// One T-cycle: the accumulator gains the sample rate, and each time it passes the clock
    /// rate a left and right sample are queued, unless the queue is full.
    pub open spec fn one_tick(self) -> ApuView {
        let acc = self.accumulator + AUDIO_SAMPLE_RATE;
        if acc >= T_CYCLES_PER_SECOND {
            ApuView {
                accumulator: (acc - T_CYCLES_PER_SECOND) as nat,
                queued: if self.queued < MAX_QUEUED_SAMPLES {
                    self.queued + 2
                } else {
                    self.queued
                },
                ..self
            }
        } else {
            ApuView { accumulator: acc as nat, ..self }
        }
    }

    pub open spec fn ticked(self, n: nat) -> ApuView
        decreases n,
    {
        if n == 0 {
            self
        } else {
            self.ticked((n - 1) as nat).one_tick()
        }
    }

    pub open spec fn read_spec(self, addr: u16) -> u8 {
        self.registers[addr - REGISTER_BASE]
    }

    pub open spec fn write_spec(self, addr: u16, value: u8) -> ApuView {
        ApuView { registers: self.registers.update(addr - REGISTER_BASE, value), ..self }
    }
}

/// The sample values queued after `n` ticks from an accumulator at `accumulator` with `queued`
/// already waiting: two for each time the running total passes the clock rate, up to the cap.
pub open spec fn queued_after(queued: nat, accumulator: nat, n: nat) -> nat {
    let made = 2 * ((accumulator + n * AUDIO_SAMPLE_RATE) / (T_CYCLES_PER_SECOND as int));
    if queued + made <= MAX_QUEUED_SAMPLES {
        (queued + made) as nat
    } else {
        MAX_QUEUED_SAMPLES as nat
    }
}

/// The sound chip counts in whole numbers: after `n` ticks it has made exactly one sample
/// for each time `n` ticks of 48000 took the running total past 4194304, so over a second
/// of ticks it makes the sample rate with no drift, and the queue never passes its cap.
pub proof fn lemma_sample_rate(v: ApuView, n: nat)
    requires
        v.wf(),
    ensures
        v.ticked(n).wf(),
        v.ticked(n).registers == v.registers,
        v.ticked(n).accumulator == (v.accumulator + n * AUDIO_SAMPLE_RATE) % (
        T_CYCLES_PER_SECOND as int),
        v.ticked(n).queued == queued_after(v.queued, v.accumulator, n),
    decreases n,
{
    let c = T_CYCLES_PER_SECOND as int;
    let total = v.accumulator + n * AUDIO_SAMPLE_RATE;
    if n == 0 {
        vstd::arithmetic::div_mod::lemma_fundamental_div_mod_converse(
            v.accumulator as int,
            c,
            0,
            v.accumulator as int,
        );
    } else {
        let k = (n - 1) as nat;
        lemma_sample_rate(v, k);
        let before = v.accumulator + k * AUDIO_SAMPLE_RATE;
        let q = before / c;
        let r = before % c;
        vstd::arithmetic::div_mod::lemma_fundamental_div_mod(before, c);
        assert(total == before + AUDIO_SAMPLE_RATE) by (nonlinear_arith)
            requires
                total == v.accumulator + n * AUDIO_SAMPLE_RATE,
                before == v.accumulator + k * AUDIO_SAMPLE_RATE,
                n == k + 1,
        {
        }
        if r + AUDIO_SAMPLE_RATE >= c {
            vstd::arithmetic::div_mod::lemma_fundamental_div_mod_converse(
                total,
                c,
                q + 1,
                r + AUDIO_SAMPLE_RATE - c,
            );
        } else {
            vstd::arithmetic::div_mod::lemma_fundamental_div_mod_converse(
                total,
                c,
                q,
                r + AUDIO_SAMPLE_RATE,
            );
        }
    }
}

impl View for Apu {
    type V = ApuView;

    closed spec fn view(&self) -> ApuView {
        ApuView {
            registers: self.registers@,
            queued: self.queued as nat,
            accumulator: self.sample_accumulator as nat,
        }
    }
}

impl Apu {
    pub fn new() -> (r: Self)
        ensures
            r@ == (ApuView { registers: Seq::new(0x30, |i: int| 0u8), queued: 0, accumulator: 0 }),
            r@.wf(),
    {
        let r = Self { registers: vec![0u8; REGISTER_COUNT], queued: 0, sample_accumulator: 0 };
        assert(r.registers@ =~= Seq::new(0x30, |i: int| 0u8));
        r
    }

    pub fn tick(&mut self, t_cycles: u32)
        requires
            old(self)@.wf(),
        ensures
            final(self)@ == old(self)@.ticked(t_cycles as nat),
            final(self)@.wf(),
    {
        let ghost start = self@;
        let mut i: u32 = 0;
        while i < t_cycles
            invariant
                i <= t_cycles,
                self@ == start.ticked(i as nat),
                self@.wf(),
            decreases t_cycles - i,
        {
            self.sample_accumulator = self.sample_accumulator + AUDIO_SAMPLE_RATE;
            if self.sample_accumulator >= T_CYCLES_PER_SECOND {
                self.sample_accumulator = self.sample_accumulator - T_CYCLES_PER_SECOND;
                if self.queued < MAX_QUEUED_SAMPLES {
                    self.queued = self.queued + 2;
                }
            }
            i = i + 1;
        }
    }

    /// Hands the waiting samples to the host: how many sample values there are, ordered
    /// left, right, left, right, each one silence. The queue is empty afterwards.
    pub fn drain(&mut self) -> (count: usize)
        ensures
            count == old(self)@.queued,
            final(self)@ == (ApuView { queued: 0, ..old(self)@ }),
    {
        let count = self.queued;
        self.queued = 0;
        count
    }

    pub fn read(&self, addr: u16) -> (r: u8)
        requires
            0xFF10 <= addr < 0xFF40,
            self@.wf(),
        ensures
            r == self@.read_spec(addr),
    {
        self.registers[(addr - REGISTER_BASE) as usize]
    }

    pub fn write(&mut self, addr: u16, value: u8)
        requires
            0xFF10 <= addr < 0xFF40,
            old(self)@.wf(),
        ensures
            final(self)@ == old(self)@.write_spec(addr, value),
            final(self)@.wf(),
    {
        self.registers.set((addr - REGISTER_BASE) as usize, value);
    }
}

impl Default for Apu {
    fn default() -> (r: Self)
        ensures
            r@ == (ApuView { registers: Seq::new(0x30, |i: int| 0u8), queued: 0, accumulator: 0 }),
            r@.wf(),
    {
        Self::new()
    }
}

} // verus!
