//! The SM83 processor. Each memory access ticks the rest of the machine first, as hardware does.
//!
//! What an instruction does is stated over a `Machine`: the CPU, the bus as seen through its
//! view, and a flag that records whether the run reached a point where the console stops
//! (an opcode with no instruction, a cartridge chip whose banking is not written yet, a
//! palette slot stepped on from 0xFF, or a full tick counter). Once set, the flag stays set.
pub mod alu;
pub mod exec;
pub mod registers;

use crate::bus::{
    home, lemma_read_after_write, lemma_tick_keeps_ram, lemma_tick_keeps_requests,
    lemma_write_elsewhere, lemma_write_keeps_requests, ram_address, Bus, BusView,
};
use registers::{high_byte, join, low_byte, post_boot_registers, Registers};
use vstd::prelude::*;

verus! {

/// The console stopped: the step asked for something the machine cannot do.
#[derive(Debug, Clone, Copy, PartialEq, Eq, Structural)]
pub struct Crash;

pub struct Cpu {
    pub regs: Registers,  // the registers on the chip itself: a, f, b to l, sp, pc
    pub ime: bool,  // master switch: while false the CPU ignores every interrupt
    pub ime_pending: bool,  // EI only takes effect after the next instruction
    pub halted: bool,  // asleep until an interrupt arrives
    pub stopped: bool,  // deep sleep after STOP, until a button is pressed
    pub halt_bug: bool,  // the next fetch forgets to move PC on
}

/// The CPU as the boot ROM leaves it.
pub open spec fn post_boot_cpu() -> Cpu {
    Cpu {
        regs: post_boot_registers(),
        ime: false,
        ime_pending: false,
        halted: false,
        stopped: false,
        halt_bug: false,
    }
}

/// The CPU, the bus, and whether the run so far reached a point where the console stops.
pub struct Machine {
    pub cpu: Cpu,
    pub bus: BusView,
    pub fault: bool,
}

/// A machine that has not stopped.
pub open spec fn start(cpu: Cpu, bus: BusView) -> Machine {
    Machine { cpu, bus, fault: false }
}

/// An exec run ended as the machine `m` says: with an error exactly when `m` stopped, and
/// otherwise with the CPU and bus that `m` holds.
pub open spec fn ran(m: Machine, cpu: Cpu, bus: BusView, ok: bool) -> bool {
    if m.fault {
        !ok
    } else {
        ok && cpu == m.cpu && bus == m.bus
    }
}

/// As `ran`, for a run that also hands back a value.
pub open spec fn gave<T>(mv: (Machine, T), cpu: Cpu, bus: BusView, r: Result<T, Crash>) -> bool {
    &&& ran(mv.0, cpu, bus, r is Ok)
    &&& (r matches Ok(v) ==> v == mv.1)
}

pub open spec fn inc16(value: u16) -> u16 {
    ((value + 1) % 65536) as u16
}

pub open spec fn dec16(value: u16) -> u16 {
    if value == 0 {
        0xFFFF
    } else {
        (value - 1) as u16
    }
}

/// The lowest of the five interrupt bits that is set: 0 for VBlank up to 4 for the joypad.
pub open spec fn lowest_bit(pending: u8) -> u32 {
    if pending & 0x01 != 0 {
        0
    } else if pending & 0x02 != 0 {
        1
    } else if pending & 0x04 != 0 {
        2
    } else if pending & 0x08 != 0 {
        3
    } else {
        4
    }
}

/// Interrupts are answered by priority: of the five interrupt bits that are set, the one
/// picked is the lowest, so VBlank goes first and the joypad last.
pub proof fn lemma_lowest_bit(pending: u8)
    requires
        pending & 0x1F != 0,
    ensures
        lowest_bit(pending) < 5,
        (pending >> lowest_bit(pending) as u8) & 1 == 1,
        forall|j: u8| j < lowest_bit(pending) ==> #[trigger] ((pending >> j) & 1) == 0,
{
    assert((pending & 0x01 != 0 <==> (pending >> 0u8) & 1 == 1) && (pending & 0x02 != 0 <==> (
    pending >> 1u8) & 1 == 1) && (pending & 0x04 != 0 <==> (pending >> 2u8) & 1 == 1) && (pending
        & 0x08 != 0 <==> (pending >> 3u8) & 1 == 1) && (pending & 0x01 == 0 && pending & 0x02 == 0
        && pending & 0x04 == 0 && pending & 0x08 == 0 && pending & 0x1F != 0 ==> (pending >> 4u8)
        & 1 == 1)) by (bit_vector);
    assert forall|j: u8| j < lowest_bit(pending) implies #[trigger] ((pending >> j) & 1) == 0 by {
        assert((pending & 0x01 == 0 ==> (pending >> 0u8) & 1 == 0) && (pending & 0x02 == 0 ==> (
        pending >> 1u8) & 1 == 0) && (pending & 0x04 == 0 ==> (pending >> 2u8) & 1 == 0) && (
        pending & 0x08 == 0 ==> (pending >> 3u8) & 1 == 0)) by (bit_vector);
        assert(j == 0 || j == 1 || j == 2 || j == 3);
    }
}

impl Machine {
    pub open spec fn with_cpu(self, cpu: Cpu) -> Machine {
        Machine { cpu, ..self }
    }

    pub open spec fn with_regs(self, regs: Registers) -> Machine {
        Machine { cpu: Cpu { regs, ..self.cpu }, ..self }
    }

    pub open spec fn with_bus(self, bus: BusView) -> Machine {
        Machine { bus, ..self }
    }

    pub open spec fn with_pc(self, pc: u16) -> Machine {
        self.with_regs(Registers { pc, ..self.cpu.regs })
    }

    pub open spec fn with_sp(self, sp: u16) -> Machine {
        self.with_regs(Registers { sp, ..self.cpu.regs })
    }

    /// The rest of the machine moves on by `t_cycles`.
    pub open spec fn tick(self, t_cycles: u32) -> Machine {
        Machine {
            bus: self.bus.tick_spec(t_cycles),
            fault: self.fault || !self.bus.can_tick(t_cycles),
            ..self
        }
    }

    /// One M-cycle where the CPU thinks instead of touching memory.
    pub closed spec fn idle(self) -> Machine {
        self.tick(4)
    }

    /// One M-cycle that reads a byte, after the rest of the machine has moved on.
    pub closed spec fn read8(self, addr: u16) -> (Machine, u8) {
        let m = self.idle();
        (Machine { fault: m.fault || !m.bus.readable(addr), ..m }, m.bus.read_spec(addr))
    }

    /// One M-cycle that writes a byte, after the rest of the machine has moved on.
    pub closed spec fn write8(self, addr: u16, value: u8) -> Machine {
        let m = self.idle();
        Machine {
            bus: m.bus.write_spec(addr, value),
            fault: m.fault || !m.bus.writable(addr),
            ..m
        }
    }

    /// Read the byte at PC and move PC on, unless the HALT bug holds PC back this once.
    pub closed spec fn fetch8(self) -> (Machine, u8) {
        let addr = self.cpu.regs.pc;
        let cpu = if self.cpu.halt_bug {
            Cpu { halt_bug: false, ..self.cpu }
        } else {
            Cpu { regs: Registers { pc: inc16(addr), ..self.cpu.regs }, ..self.cpu }
        };
        self.with_cpu(cpu).read8(addr)
    }

    /// Two fetches, low byte first.
    pub closed spec fn fetch16(self) -> (Machine, u16) {
        let (m1, low) = self.fetch8();
        let (m2, high) = m1.fetch8();
        (m2, join(high, low))
    }

    /// SP steps down before each write: the high byte goes in first, so it ends up on top.
    pub closed spec fn push16(self, value: u16) -> Machine {
        let sp1 = dec16(self.cpu.regs.sp);
        let m1 = self.with_sp(sp1).write8(sp1, high_byte(value));
        let sp2 = dec16(sp1);
        m1.with_sp(sp2).write8(sp2, low_byte(value))
    }

    /// The low byte comes off first, and SP steps up after each read.
    pub closed spec fn pop16(self) -> (Machine, u16) {
        let (m1, low) = self.read8(self.cpu.regs.sp);
        let m2 = m1.with_sp(inc16(m1.cpu.regs.sp));
        let (m3, high) = m2.read8(m2.cpu.regs.sp);
        (m3.with_sp(inc16(m3.cpu.regs.sp)), join(high, low))
    }

    /// Answer a waiting interrupt: save PC, then jump to that interrupt's address, in 5
    /// M-cycles. A waiting interrupt always wakes a halted CPU, even with interrupts off.
    pub closed spec fn service_interrupt(self) -> (Machine, bool) {
        if self.bus.pending() == 0 {
            (self, false)
        } else {
            let m = self.with_cpu(Cpu { halted: false, ..self.cpu });
            if !m.cpu.ime {
                (m, false)
            } else {
                let m1 = m.with_cpu(Cpu { ime: false, ..m.cpu }).idle().idle();
                let pc = m1.cpu.regs.pc;
                let sp1 = dec16(m1.cpu.regs.sp);
                let m2 = m1.with_sp(sp1).write8(sp1, high_byte(pc));
                // Only chosen now, because that write can land on IE and cancel the interrupt.
                let pending = m2.bus.pending();
                let sp2 = dec16(sp1);
                let m3 = m2.with_sp(sp2).write8(sp2, low_byte(pc)).idle();
                if pending == 0 {
                    (m3.with_pc(0x0000), true)
                } else {
                    let index = lowest_bit(pending);
                    let bus = BusView {
                        interrupt_flag: m3.bus.interrupt_flag & !((1u8 << index) as u8),
                        ..m3.bus
                    };
                    (m3.with_bus(bus).with_pc((0x0040 + 0x08 * index) as u16), true)
                }
            }
        }
    }

    /// One step of the CPU: an interrupt, a tick of sleep, or one instruction.
    pub closed spec fn step(self) -> Machine {
        let (m1, serviced) = self.service_interrupt();
        if serviced {
            m1
        } else {
            let m2 = if m1.cpu.stopped && m1.bus.joypad.any_held_spec() {
                Machine {
                    cpu: Cpu { stopped: false, ..m1.cpu },
                    bus: BusView { timer: m1.bus.timer.with_frozen(false), ..m1.bus },
                    ..m1
                }
            } else {
                m1
            };
            // The screen keeps going while asleep, so the host still gets frames.
            if m2.cpu.halted || m2.cpu.stopped {
                m2.tick(4)
            } else {
                let ime_was_pending = m2.cpu.ime_pending;
                let (m3, opcode) = m2.fetch8();
                let m4 = m3.execute(opcode);
                if ime_was_pending {
                    m4.with_cpu(Cpu { ime: true, ime_pending: false, ..m4.cpu })
                } else {
                    m4
                }
            }
        }
    }
}

/// `after` comes out of `before` by running on: a stopped console stays stopped, and the tick
/// counter never runs back.
pub open spec fn runs_on(before: Machine, after: Machine) -> bool {
    &&& before.fault ==> after.fault
    &&& before.bus.t_cycles <= after.bus.t_cycles
}

/// Each machine cycle runs on, and costs 4 ticks: one for thinking, one per byte read or
/// written.
pub proof fn lemma_cycles_run_on()
    ensures
        forall|m: Machine, t: u32|
            (m.fault ==> (#[trigger] m.tick(t)).fault) && m.tick(t).bus.t_cycles == m.bus.t_cycles
                + t,
        forall|m: Machine|
            runs_on(m, #[trigger] m.idle()) && m.idle().bus.t_cycles == m.bus.t_cycles + 4,
        forall|m: Machine, a: u16|
            runs_on(m, (#[trigger] m.read8(a)).0) && m.read8(a).0.bus.t_cycles == m.bus.t_cycles
                + 4,
        forall|m: Machine, a: u16, v: u8|
            runs_on(m, #[trigger] m.write8(a, v)) && m.write8(a, v).bus.t_cycles
                == m.bus.t_cycles + 4,
        forall|m: Machine|
            runs_on(m, (#[trigger] m.fetch8()).0) && m.fetch8().0.bus.t_cycles == m.bus.t_cycles
                + 4,
        forall|m: Machine|
            runs_on(m, (#[trigger] m.fetch16()).0) && m.fetch16().0.bus.t_cycles
                == m.bus.t_cycles + 8,
        forall|m: Machine, v: u16|
            runs_on(m, #[trigger] m.push16(v)) && m.push16(v).bus.t_cycles == m.bus.t_cycles + 8,
        forall|m: Machine|
            runs_on(m, (#[trigger] m.pop16()).0) && m.pop16().0.bus.t_cycles == m.bus.t_cycles
                + 8,
{
    crate::bus::lemma_clock();
}

/// What PUSH puts on the stack POP takes back off, and SP ends where it started, whenever
/// the two stack bytes sit in RAM; and with room on the tick counter the pair never stops
/// the console.
pub proof fn lemma_push_then_pop(m: Machine, value: u16)
    requires
        m.bus.ram_sized(),
        ram_address(dec16(m.cpu.regs.sp)),
        ram_address(dec16(dec16(m.cpu.regs.sp))),
    ensures
        m.push16(value).pop16().1 == value,
        m.push16(value).pop16().0.cpu.regs.sp == m.cpu.regs.sp,
        !m.fault && m.bus.t_cycles + 16 <= u64::MAX ==> !m.push16(value).pop16().0.fault,
{
    let sp1 = dec16(m.cpu.regs.sp);
    let sp2 = dec16(sp1);
    assert(home(sp1) != home(sp2));
    let a = m.with_sp(sp1).idle();
    lemma_tick_keeps_ram(m.bus, 4, sp1);
    lemma_read_after_write(a.bus, sp1, high_byte(value));
    let m1 = m.with_sp(sp1).write8(sp1, high_byte(value));
    let b = m1.with_sp(sp2).idle();
    lemma_tick_keeps_ram(m1.bus, 4, sp2);
    lemma_tick_keeps_ram(m1.bus, 4, sp1);
    lemma_read_after_write(b.bus, sp2, low_byte(value));
    lemma_write_elsewhere(b.bus, sp2, sp1, low_byte(value));
    let m2 = m1.with_sp(sp2).write8(sp2, low_byte(value));
    assert(m2 == m.push16(value));
    let c = m2.idle();
    lemma_tick_keeps_ram(m2.bus, 4, sp2);
    lemma_tick_keeps_ram(m2.bus, 4, sp1);
    lemma_read_after_write(c.bus, sp2, 0);
    let (m3, low) = m2.read8(sp2);
    assert(low == low_byte(value));
    let m4 = m3.with_sp(inc16(sp2));
    assert(inc16(sp2) == sp1);
    lemma_tick_keeps_ram(m4.bus, 4, sp1);
    lemma_read_after_write(m4.idle().bus, sp1, 0);
    let (m5, high) = m4.read8(sp1);
    assert(high == high_byte(value));
    assert(join(high_byte(value), low_byte(value)) == value);
    assert(inc16(sp1) == m.cpu.regs.sp);
    lemma_cycles_run_on();
    crate::bus::lemma_clock();
}

/// A waiting, allowed interrupt with IME on is always answered, whatever else is going on:
/// the step saves PC on the stack, jumps to one of the five interrupt addresses, switches IME
/// off, wakes the CPU, and takes 5 M-cycles; with room on the tick counter it never stops the
/// console. This holds whenever the two stack bytes sit in RAM below IE.
pub proof fn lemma_interrupt_answered(m: Machine)
    requires
        m.cpu.ime,
        m.bus.pending() != 0,
        m.bus.ram_sized(),
        ram_address(dec16(m.cpu.regs.sp)),
        dec16(m.cpu.regs.sp) != 0xFFFF,
        ram_address(dec16(dec16(m.cpu.regs.sp))),
    ensures
        !m.step().cpu.ime,
        !m.step().cpu.halted,
        m.step().cpu.regs.sp == dec16(dec16(m.cpu.regs.sp)),
        m.step().cpu.regs.pc == 0x40 || m.step().cpu.regs.pc == 0x48 || m.step().cpu.regs.pc
            == 0x50 || m.step().cpu.regs.pc == 0x58 || m.step().cpu.regs.pc == 0x60,
        m.step().cpu.regs.pc <= 0x40 + 8 * lowest_bit(m.bus.pending()),
        m.step().bus.t_cycles == m.bus.t_cycles + 20,
        !m.fault && m.bus.t_cycles + 20 <= u64::MAX ==> !m.step().fault,
{
    lemma_cycles_run_on();
    crate::bus::lemma_clock();
    let sp1 = dec16(m.cpu.regs.sp);
    let sp2 = dec16(sp1);
    let b1 = m.bus.tick_spec(4);
    let b2 = b1.tick_spec(4);
    lemma_tick_keeps_requests(m.bus, 4);
    lemma_tick_keeps_requests(b1, 4);
    lemma_tick_keeps_requests(b2, 4);
    lemma_tick_keeps_ram(m.bus, 4, sp1);
    lemma_tick_keeps_ram(b1, 4, sp1);
    lemma_tick_keeps_ram(b2, 4, sp1);
    let a = b2.tick_spec(4);
    let pc = m.cpu.regs.pc;
    lemma_write_keeps_requests(a, sp1, high_byte(pc));
    lemma_read_after_write(a, sp1, high_byte(pc));
    let c = a.write_spec(sp1, high_byte(pc));
    assert(c.pending() != 0);
    lemma_tick_keeps_ram(c, 4, sp2);
    lemma_read_after_write(c.tick_spec(4), sp2, low_byte(pc));
    assert(lowest_bit(c.pending()) <= 4);
    lemma_requests_kept(
        m.bus.interrupt_flag,
        b1.interrupt_flag,
        b2.interrupt_flag,
        c.interrupt_flag,
        m.bus.interrupt_enable,
    );
}

// Interrupt requests only gather while an interrupt is being answered, so the one picked is
// never of lower priority than the best one waiting at the start.
proof fn lemma_requests_kept(f0: u8, f1: u8, f2: u8, f3: u8, enable: u8)
    requires
        f1 & f0 == f0,
        f2 & f1 == f1,
        f3 & f2 == f2,
        f0 & enable & 0x1F != 0,
    ensures
        lowest_bit(f3 & enable & 0x1F) <= lowest_bit(f0 & enable & 0x1F),
{
    let p = f0 & enable & 0x1F;
    let q = f3 & enable & 0x1F;
    assert(p & 0x1F != 0 && q & 0x1F != 0 && forall|i: u8| #[trigger] ((p >> i) & 1) == 1 ==> (q
        >> i) & 1 == 1) by (bit_vector)
        requires
            f1 & f0 == f0,
            f2 & f1 == f1,
            f3 & f2 == f2,
            p == f0 & enable & 0x1F,
            q == f3 & enable & 0x1F,
            f0 & enable & 0x1F != 0,
    ;
    lemma_lowest_bit(p);
    let i = lowest_bit(p) as u8;
    assert((q >> i) & 1 == 1);
    lemma_lowest_bit(q);
    if lowest_bit(q) > lowest_bit(p) {
        assert((q >> i) & 1 == 0);
    }
}

/// A step of the CPU runs on, and always by at least one M-cycle.
pub proof fn lemma_step_advances(m: Machine)
    ensures
        runs_on(m, m.step()),
        m.step().bus.t_cycles >= m.bus.t_cycles + 4,
{
    lemma_cycles_run_on();
    exec::lemma_execute_runs_on();
}

fn lowest_pending(pending: u8) -> (r: u32)
    ensures
        r == lowest_bit(pending),
        r <= 4,
{
    if pending & 0x01 != 0 {
        0
    } else if pending & 0x02 != 0 {
        1
    } else if pending & 0x04 != 0 {
        2
    } else if pending & 0x08 != 0 {
        3
    } else {
        4
    }
}

impl Cpu {
    pub fn new() -> (r: Self)
        ensures
            r == post_boot_cpu(),
    {
        Self {
            regs: Registers::post_boot_cgb(),
            ime: false,
            ime_pending: false,
            halted: false,
            stopped: false,
            halt_bug: false,
        }
    }

    pub fn step(&mut self, bus: &mut Bus) -> (r: Result<(), Crash>)
        requires
            old(bus)@.wf(),
        ensures
            ran(start(*old(self), old(bus)@).step(), *final(self), final(bus)@, r is Ok),
            final(bus)@.wf(),
    {
        proof {
            lemma_cycles_run_on();
            exec::lemma_execute_runs_on();
        }
        let serviced = self.service_interrupt(bus)?;
        if serviced {
            return Ok(());
        }
        if self.stopped && bus.any_button_held() {
            self.stopped = false;
            bus.freeze_timer(false);
        }
        // The screen keeps going while asleep, so the host still gets frames.
        if self.halted || self.stopped {
            return self.idle(bus);
        }
        let ime_was_pending = self.ime_pending;
        let opcode = self.fetch8(bus)?;
        self.execute(opcode, bus)?;
        if ime_was_pending {
            self.ime = true;
            self.ime_pending = false;
        }
        Ok(())
    }

    /// Answer a waiting interrupt: save PC, then jump to that interrupt's address. 5 M-cycles.
    fn service_interrupt(&mut self, bus: &mut Bus) -> (r: Result<bool, Crash>)
        requires
            old(bus)@.wf(),
        ensures
            gave(start(*old(self), old(bus)@).service_interrupt(), *final(self), final(bus)@, r),
            final(bus)@.wf(),
    {
        proof {
            lemma_cycles_run_on();
        }
        if bus.pending_interrupts() == 0 {
            return Ok(false);
        }
        // A waiting interrupt wakes the CPU up even when interrupts are switched off.
        self.halted = false;
        if !self.ime {
            return Ok(false);
        }
        self.ime = false;
        self.idle(bus)?;
        self.idle(bus)?;
        let pc = self.regs.pc;
        self.regs.sp = self.regs.sp.wrapping_sub(1);
        let sp = self.regs.sp;
        self.write8(bus, sp, (pc / 256) as u8)?;
        // Only chosen now, because that write can land on IE and cancel the interrupt.
        let pending = bus.pending_interrupts();
        self.regs.sp = self.regs.sp.wrapping_sub(1);
        let sp = self.regs.sp;
        self.write8(bus, sp, (pc % 256) as u8)?;
        self.idle(bus)?;
        if pending == 0 {
            self.regs.pc = 0x0000;  // cancelled halfway, so it lands at the very start of memory
        } else {
            let index = lowest_pending(pending);
            bus.acknowledge(index);
            self.regs.pc = 0x0040 + 0x08 * index as u16;
        }
        Ok(true)
    }

    pub(crate) fn read8(&mut self, bus: &mut Bus, addr: u16) -> (r: Result<u8, Crash>)
        requires
            old(bus)@.wf(),
        ensures
            gave(start(*old(self), old(bus)@).read8(addr), *final(self), final(bus)@, r),
            final(bus)@.wf(),
    {
        self.idle(bus)?;
        if !bus.can_read(addr) {
            return Err(Crash);
        }
        Ok(bus.read(addr))
    }

    pub(crate) fn write8(&mut self, bus: &mut Bus, addr: u16, value: u8) -> (r: Result<(), Crash>)
        requires
            old(bus)@.wf(),
        ensures
            ran(start(*old(self), old(bus)@).write8(addr, value), *final(self), final(bus)@, r is Ok),
            final(bus)@.wf(),
    {
        self.idle(bus)?;
        if !bus.can_write(addr) {
            return Err(Crash);
        }
        bus.write(addr, value);
        Ok(())
    }

    /// One M-cycle where the CPU thinks instead of touching memory.
    pub(crate) fn idle(&mut self, bus: &mut Bus) -> (r: Result<(), Crash>)
        requires
            old(bus)@.wf(),
        ensures
            ran(start(*old(self), old(bus)@).idle(), *final(self), final(bus)@, r is Ok),
            final(bus)@.wf(),
    {
        if !bus.can_tick(4) {
            return Err(Crash);
        }
        bus.tick(4);
        Ok(())
    }

    pub(crate) fn fetch8(&mut self, bus: &mut Bus) -> (r: Result<u8, Crash>)
        requires
            old(bus)@.wf(),
        ensures
            gave(start(*old(self), old(bus)@).fetch8(), *final(self), final(bus)@, r),
            final(bus)@.wf(),
    {
        let addr = self.regs.pc;
        if self.halt_bug {
            self.halt_bug = false;  // PC stays put this once, so the same byte is read again
        } else {
            self.regs.pc = addr.wrapping_add(1);
        }
        self.read8(bus, addr)
    }

    pub(crate) fn fetch16(&mut self, bus: &mut Bus) -> (r: Result<u16, Crash>)
        requires
            old(bus)@.wf(),
        ensures
            gave(start(*old(self), old(bus)@).fetch16(), *final(self), final(bus)@, r),
            final(bus)@.wf(),
    {
        let low = self.fetch8(bus)? as u16;
        let high = self.fetch8(bus)? as u16;
        Ok(high * 256 + low)
    }

    pub(crate) fn push16(&mut self, bus: &mut Bus, value: u16) -> (r: Result<(), Crash>)
        requires
            old(bus)@.wf(),
        ensures
            ran(start(*old(self), old(bus)@).push16(value), *final(self), final(bus)@, r is Ok),
            final(bus)@.wf(),
    {
        self.regs.sp = self.regs.sp.wrapping_sub(1);
        let sp = self.regs.sp;
        self.write8(bus, sp, (value / 256) as u8)?;
        self.regs.sp = self.regs.sp.wrapping_sub(1);
        let sp = self.regs.sp;
        self.write8(bus, sp, (value % 256) as u8)
    }

    pub(crate) fn pop16(&mut self, bus: &mut Bus) -> (r: Result<u16, Crash>)
        requires
            old(bus)@.wf(),
        ensures
            gave(start(*old(self), old(bus)@).pop16(), *final(self), final(bus)@, r),
            final(bus)@.wf(),
    {
        let sp = self.regs.sp;
        let low = self.read8(bus, sp)? as u16;
        self.regs.sp = self.regs.sp.wrapping_add(1);
        let sp = self.regs.sp;
        let high = self.read8(bus, sp)? as u16;
        self.regs.sp = self.regs.sp.wrapping_add(1);
        Ok(high * 256 + low)
    }
}

impl Default for Cpu {
    fn default() -> (r: Self)
        ensures
            r == post_boot_cpu(),
    {
        Self::new()
    }
}

} // verus!
