//! One arm per opcode, each doing the same steps the real chip does, so timing falls out for free.
//!
//! Opcode reference: <https://gbdev.io/gb-opcodes/optables/>
use super::alu::{
    add_offset, add_offset_spec, add_wide, add_wide_spec, daa, daa_spec, dec, dec_spec, inc,
    inc_spec, offset_by, shift, shift_spec,
};
use super::registers::{Flags, Reg16, Reg8, Registers};
use super::{dec16, gave, inc16, ran, runs_on, start, Cpu, Crash, Machine};
use crate::bus::{Bus, BusView};
use vstd::prelude::*;

verus! {

/// Opcodes number the pairs BC DE HL SP, but push and pop use AF in place of SP.
pub open spec fn pair_of(bits: u8, stack: bool) -> Reg16 {
    if bits & 0x03 == 0 {
        Reg16::BC
    } else if bits & 0x03 == 1 {
        Reg16::DE
    } else if bits & 0x03 == 2 {
        Reg16::HL
    } else if stack {
        Reg16::AF
    } else {
        Reg16::SP
    }
}

/// Opcodes number the registers B C D E H L (HL) A; `None` is the byte HL points at.
pub open spec fn operand_of(bits: u8) -> Option<Reg8> {
    let k = bits & 0x07;
    if k == 0 {
        Some(Reg8::B)
    } else if k == 1 {
        Some(Reg8::C)
    } else if k == 2 {
        Some(Reg8::D)
    } else if k == 3 {
        Some(Reg8::E)
    } else if k == 4 {
        Some(Reg8::H)
    } else if k == 5 {
        Some(Reg8::L)
    } else if k == 6 {
        None
    } else {
        Some(Reg8::A)
    }
}

/// The flag test named by bits 3 and 4 of the opcode: NZ Z NC C.
pub open spec fn condition_holds(f: Flags, opcode: u8) -> bool {
    let k = (opcode >> 3u8) & 0x03;
    if k == 0 {
        !f.z
    } else if k == 1 {
        f.z
    } else if k == 2 {
        !f.c
    } else {
        f.c
    }
}

/// The address in the pair named by bits 4 and 5 of the opcode, and the registers after HL
/// has stepped on, up for HL+ and down for HL-.
pub open spec fn pointer_of(regs: Registers, opcode: u8) -> (Registers, u16) {
    let hl = regs.get16(Reg16::HL);
    let k = (opcode >> 4u8) & 0x03;
    if k == 0 {
        (regs, regs.get16(Reg16::BC))
    } else if k == 1 {
        (regs, regs.get16(Reg16::DE))
    } else if k == 2 {
        (regs.set16(Reg16::HL, inc16(hl)), hl)
    } else {
        (regs.set16(Reg16::HL, dec16(hl)), hl)
    }
}

/// The eleven opcodes with no instruction behind them; the real chip locks up on them.
pub open spec fn illegal_opcode(opcode: u8) -> bool {
    opcode == 0xD3 || opcode == 0xDB || opcode == 0xDD || opcode == 0xE3 || opcode == 0xE4
        || opcode == 0xEB || opcode == 0xEC || opcode == 0xED || opcode == 0xF4 || opcode == 0xFC
        || opcode == 0xFD
}







impl Machine {
    pub open spec fn regs(self) -> Registers {
        self.cpu.regs
    }

    /// The eight sums on A: bits 3 to 5 of `kind` pick ADD ADC SUB SBC AND XOR OR CP.
    #[verifier::opaque]
    pub open spec fn alu(self, kind: u8, value: u8) -> Machine {
        let (result, flags) = super::alu::alu_spec(kind, self.regs().a, value, self.regs().f.c);
        self.with_regs(Registers { a: result, f: flags, ..self.regs() })
    }

    /// Read a signed byte and, if asked, move PC by it, counting from the next instruction.
    #[verifier::opaque]
    pub open spec fn jump_relative(self, take: bool) -> Machine {
        let (m1, offset) = self.fetch8();
        if take {
            let m2 = m1.idle();
            m2.with_pc(offset_by(m2.regs().pc, offset))
        } else {
            m1
        }
    }

    /// Read an address and, if asked, push the way back and jump there.
    #[verifier::opaque]
    pub open spec fn call(self, take: bool) -> Machine {
        let (m1, address) = self.fetch16();
        if take {
            let m2 = m1.idle();
            m2.push16(m2.regs().pc).with_pc(address)
        } else {
            m1
        }
    }

    /// Take the saved address off the stack and jump back to it.
    #[verifier::opaque]
    pub open spec fn ret(self) -> Machine {
        let (m1, address) = self.pop16();
        m1.idle().with_pc(address)
    }

    /// Move A to or from one address.
    #[verifier::opaque]
    pub open spec fn move_a(self, address: u16, into_a: bool) -> Machine {
        if into_a {
            let (m1, value) = self.read8(address);
            m1.with_regs(Registers { a: value, ..m1.regs() })
        } else {
            self.write8(address, self.regs().a)
        }
    }

    /// The pair named by bits 4 and 5 of the opcode; HL steps after being used, never before.
    pub open spec fn pointer(self, opcode: u8) -> (Machine, u16) {
        let (regs, address) = pointer_of(self.regs(), opcode);
        (self.with_regs(regs), address)
    }

    /// Reading a register is free; reading through HL costs an M-cycle.
    #[verifier::opaque]
    pub open spec fn read_operand(self, bits: u8) -> (Machine, u8) {
        match operand_of(bits) {
            Some(reg) => (self, self.regs().get8(reg)),
            None => self.read8(self.regs().get16(Reg16::HL)),
        }
    }

    /// Writing a register is free; writing through HL costs an M-cycle.
    #[verifier::opaque]
    pub open spec fn write_operand(self, bits: u8, value: u8) -> Machine {
        match operand_of(bits) {
            Some(reg) => self.with_regs(self.regs().set8(reg, value)),
            None => self.write8(self.regs().get16(Reg16::HL), value),
        }
    }

    pub open spec fn with_flags(self, f: Flags) -> Machine {
        self.with_regs(Registers { f, ..self.regs() })
    }

    /// The CB opcodes: two bits of kind, three bits of bit number, three bits of target.
    #[verifier::opaque]
    pub open spec fn execute_cb(self, opcode: u8) -> Machine {
        let bit: u8 = (1u8 << ((opcode >> 3u8) & 0x07)) as u8;
        let kind = opcode >> 6u8;
        let (m1, value) = self.read_operand(opcode);
        if kind == 1 {
            m1.with_flags(Flags { z: value & bit == 0, n: false, h: true, ..m1.regs().f })
        } else if kind == 2 {
            m1.write_operand(opcode, value & !bit)
        } else if kind == 3 {
            m1.write_operand(opcode, value | bit)
        } else {
            let (result, flags) = shift_spec(opcode >> 3u8, value, m1.regs().f.c);
            m1.with_flags(flags).write_operand(opcode, result)
        }
    }

    /// Jumps, sleep and the interrupt switch.
    #[verifier::opaque]
    pub open spec fn execute_jump(self, opcode: u8) -> Machine {
        let r = self.regs();
        match opcode {
            0x00 => self,
            // STOP changes speed if a game asked for it, otherwise sleeps until a button.
            0x10 => {
                let m1 = self.fetch8().0;
                let bus = BusView { timer: m1.bus.timer.with_div_reset(), ..m1.bus };
                if bus.key1 & 0x01 != 0 {
                    m1.with_bus(BusView { double_speed: !bus.double_speed, key1: 0, ..bus })
                } else {
                    Machine {
                        cpu: Cpu { stopped: true, ..m1.cpu },
                        bus: BusView { timer: bus.timer.with_frozen(true), ..bus },
                        ..m1
                    }
                }
            },
            // HALT sleeps, unless interrupts are off and one is waiting: then it trips.
            0x76 => {
                if !self.cpu.ime && self.bus.pending() != 0 {
                    self.with_cpu(Cpu { halt_bug: true, ..self.cpu })
                } else {
                    self.with_cpu(Cpu { halted: true, ..self.cpu })
                }
            },
            0xC3 => {
                let (m1, address) = self.fetch16();
                m1.idle().with_pc(address)
            },
            0xC2 | 0xCA | 0xD2 | 0xDA => {
                let (m1, address) = self.fetch16();
                if condition_holds(m1.regs().f, opcode) {
                    m1.idle().with_pc(address)
                } else {
                    m1
                }
            },
            0x18 => self.jump_relative(true),
            0x20 | 0x28 | 0x30 | 0x38 => self.jump_relative(condition_holds(r.f, opcode)),
            0xE9 => self.with_pc(r.get16(Reg16::HL)),
            0xF3 => self.with_cpu(Cpu { ime: false, ime_pending: false, ..self.cpu }),
            0xFB => self.with_cpu(Cpu { ime_pending: true, ..self.cpu }),
            // Not an instruction of this group: `execute` never sends one here.
            _ => Machine { fault: true, ..self },
        }
    }

    /// Calls and returns, which go through the stack.
    #[verifier::opaque]
    pub open spec fn execute_call(self, opcode: u8) -> Machine {
        let r = self.regs();
        match opcode {
            0xCD => self.call(true),
            0xC4 | 0xCC | 0xD4 | 0xDC => self.call(condition_holds(r.f, opcode)),
            0xC9 => self.ret(),
            0xC0 | 0xC8 | 0xD0 | 0xD8 => {
                let m1 = self.idle();
                if condition_holds(m1.regs().f, opcode) {
                    m1.ret()
                } else {
                    m1
                }
            },
            0xD9 => {
                let m1 = self.ret();
                m1.with_cpu(Cpu { ime: true, ..m1.cpu })
            },
            0xC7 | 0xCF | 0xD7 | 0xDF | 0xE7 | 0xEF | 0xF7 | 0xFF => {
                let m1 = self.idle();
                m1.push16(m1.regs().pc).with_pc((opcode & 0x38) as u16)
            },
            // Not an instruction of this group: `execute` never sends one here.
            _ => Machine { fault: true, ..self },
        }
    }

    /// The other instructions on SP, and the stack pointer to memory.
    #[verifier::opaque]
    pub open spec fn execute_stack(self, opcode: u8) -> Machine {
        match opcode {
            0x08 => {
                let (m1, address) = self.fetch16();
                let sp = m1.regs().sp;
                m1.write8(address, super::registers::low_byte(sp)).write8(
                    inc16(address),
                    super::registers::high_byte(sp),
                )
            },
            0xF9 => {
                let m1 = self.idle();
                m1.with_sp(m1.regs().get16(Reg16::HL))
            },
            0xC5 | 0xD5 | 0xE5 | 0xF5 => {
                let m1 = self.idle();
                m1.push16(m1.regs().get16(pair_of(opcode >> 4u8, true)))
            },
            0xC1 | 0xD1 | 0xE1 | 0xF1 => {
                let (m1, value) = self.pop16();
                m1.with_regs(m1.regs().set16(pair_of(opcode >> 4u8, true), value))
            },
            0xF8 => {
                let (m1, offset) = self.fetch8();
                let m2 = m1.idle();
                let (result, flags) = add_offset_spec(m2.regs().sp, offset);
                m2.with_regs(Registers { f: flags, ..m2.regs().set16(Reg16::HL, result) })
            },
            0xE8 => {
                let (m1, offset) = self.fetch8();
                let m2 = m1.idle().idle();
                let (result, flags) = add_offset_spec(m2.regs().sp, offset);
                m2.with_regs(Registers { sp: result, f: flags, ..m2.regs() })
            },
            // Not an instruction of this group: `execute` never sends one here.
            _ => Machine { fault: true, ..self },
        }
    }

    /// Loads and sums on whole register pairs.
    #[verifier::opaque]
    pub open spec fn execute_pairs(self, opcode: u8) -> Machine {
        let r = self.regs();
        match opcode {
            0x01 | 0x11 | 0x21 | 0x31 => {
                let (m1, value) = self.fetch16();
                m1.with_regs(m1.regs().set16(pair_of(opcode >> 4u8, false), value))
            },
            0x03 | 0x13 | 0x23 | 0x33 => {
                let reg = pair_of(opcode >> 4u8, false);
                let value = r.get16(reg);
                let m1 = self.idle();
                m1.with_regs(m1.regs().set16(reg, inc16(value)))
            },
            0x0B | 0x1B | 0x2B | 0x3B => {
                let reg = pair_of(opcode >> 4u8, false);
                let value = r.get16(reg);
                let m1 = self.idle();
                m1.with_regs(m1.regs().set16(reg, dec16(value)))
            },
            0x09 | 0x19 | 0x29 | 0x39 => {
                let value = r.get16(pair_of(opcode >> 4u8, false));
                let m1 = self.idle();
                let (result, flags) = add_wide_spec(
                    m1.regs().get16(Reg16::HL),
                    value,
                    m1.regs().f.z,
                );
                m1.with_regs(Registers { f: flags, ..m1.regs().set16(Reg16::HL, result) })
            },
            // Not an instruction of this group: `execute` never sends one here.
            _ => Machine { fault: true, ..self },
        }
    }

    /// Moves of one byte between registers and memory.
    #[verifier::opaque]
    pub open spec fn execute_load(self, opcode: u8) -> Machine {
        let r = self.regs();
        match opcode {
            0xEA | 0xFA => {
                let (m1, address) = self.fetch16();
                m1.move_a(address, opcode & 0x10 != 0)
            },
            0xE0 | 0xF0 => {
                let (m1, offset) = self.fetch8();
                m1.move_a((0xFF00 + offset) as u16, opcode & 0x10 != 0)
            },
            0xE2 | 0xF2 => self.move_a((0xFF00 + r.c) as u16, opcode & 0x10 != 0),
            0x02 | 0x12 | 0x22 | 0x32 | 0x0A | 0x1A | 0x2A | 0x3A => {
                let (m1, address) = self.pointer(opcode);
                if opcode & 0x08 == 0 {
                    m1.write8(address, m1.regs().a)
                } else {
                    let (m2, value) = m1.read8(address);
                    m2.with_regs(Registers { a: value, ..m2.regs() })
                }
            },
            0x06 | 0x0E | 0x16 | 0x1E | 0x26 | 0x2E | 0x36 | 0x3E => {
                let (m1, value) = self.fetch8();
                m1.write_operand(opcode >> 3u8, value)
            },
            x if 0x40 <= x && x <= 0x7F => {
                let (m1, value) = self.read_operand(opcode);
                m1.write_operand(opcode >> 3u8, value)
            },
            // Not an instruction of this group: `execute` never sends one here.
            _ => Machine { fault: true, ..self },
        }
    }

    /// The eight sums on A, and INC and DEC on one byte.
    #[verifier::opaque]
    pub open spec fn execute_sums(self, opcode: u8) -> Machine {
        match opcode {
            x if 0x80 <= x && x <= 0xBF => {
                let (m1, value) = self.read_operand(opcode);
                m1.alu(opcode >> 3u8, value)
            },
            0x04 | 0x0C | 0x14 | 0x1C | 0x24 | 0x2C | 0x34 | 0x3C => {
                let (m1, value) = self.read_operand(opcode >> 3u8);
                let (result, flags) = inc_spec(value, m1.regs().f.c);
                m1.with_flags(flags).write_operand(opcode >> 3u8, result)
            },
            0x05 | 0x0D | 0x15 | 0x1D | 0x25 | 0x2D | 0x35 | 0x3D => {
                let (m1, value) = self.read_operand(opcode >> 3u8);
                let (result, flags) = dec_spec(value, m1.regs().f.c);
                m1.with_flags(flags).write_operand(opcode >> 3u8, result)
            },
            0xC6 | 0xCE | 0xD6 | 0xDE | 0xE6 | 0xEE | 0xF6 | 0xFE => {
                let (m1, value) = self.fetch8();
                m1.alu(opcode >> 3u8, value)
            },
            // Not an instruction of this group: `execute` never sends one here.
            _ => Machine { fault: true, ..self },
        }
    }

    /// Rotates and flag work on A, the CB page, and the empty slots.
    #[verifier::opaque]
    pub open spec fn execute_math(self, opcode: u8) -> Machine {
        let r = self.regs();
        match opcode {
            // RLCA RRCA RLA RRA: the first four CB rotates, on A only, and Z always stays off.
            0x07 | 0x0F | 0x17 | 0x1F => {
                let (result, flags) = shift_spec(opcode >> 3u8, r.a, r.f.c);
                self.with_regs(Registers { a: result, f: Flags { z: false, ..flags }, ..r })
            },
            0x27 => {
                let (result, flags) = daa_spec(r.a, r.f);
                self.with_regs(Registers { a: result, f: flags, ..r })
            },
            0x2F => self.with_regs(Registers { a: !r.a, f: Flags { n: true, h: true, ..r.f }, ..r }),
            0x37 => self.with_flags(Flags { n: false, h: false, c: true, ..r.f }),
            0x3F => self.with_flags(Flags { n: false, h: false, c: !r.f.c, ..r.f }),
            0xCB => {
                let (m1, cb_opcode) = self.fetch8();
                m1.execute_cb(cb_opcode)
            },
            // Only the 11 empty slots land here. The real chip locks up on them.
            _ => Machine { fault: true, ..self },
        }
    }

    /// What one instruction does, starting just after its opcode was fetched.
    #[verifier::opaque]
    pub open spec fn execute(self, opcode: u8) -> Machine {
        match opcode {
            0x00 | 0x10 | 0x76 | 0xC3 | 0xC2 | 0xCA | 0xD2 | 0xDA | 0x18 | 0x20 | 0x28 | 0x30
            | 0x38 | 0xE9 | 0xF3 | 0xFB => self.execute_jump(opcode),
            0xCD | 0xC4 | 0xCC | 0xD4 | 0xDC | 0xC9 | 0xC0 | 0xC8 | 0xD0 | 0xD8 | 0xD9 | 0xC7
            | 0xCF | 0xD7 | 0xDF | 0xE7 | 0xEF | 0xF7 | 0xFF => self.execute_call(opcode),
            0x08 | 0xF9 | 0xC5 | 0xD5 | 0xE5 | 0xF5 | 0xC1 | 0xD1 | 0xE1 | 0xF1 | 0xF8 | 0xE8 => {
                self.execute_stack(opcode)
            },
            0x01 | 0x11 | 0x21 | 0x31 | 0x03 | 0x13 | 0x23 | 0x33 | 0x0B | 0x1B | 0x2B | 0x3B
            | 0x09 | 0x19 | 0x29 | 0x39 => self.execute_pairs(opcode),
            0xEA | 0xFA | 0xE0 | 0xF0 | 0xE2 | 0xF2 | 0x02 | 0x12 | 0x22 | 0x32 | 0x0A | 0x1A
            | 0x2A | 0x3A | 0x06 | 0x0E | 0x16 | 0x1E | 0x26 | 0x2E | 0x36 | 0x3E => {
                self.execute_load(opcode)
            },
            x if 0x40 <= x && x <= 0x7F => self.execute_load(opcode),
            0x04 | 0x0C | 0x14 | 0x1C | 0x24 | 0x2C | 0x34 | 0x3C | 0x05 | 0x0D | 0x15 | 0x1D
            | 0x25 | 0x2D | 0x35 | 0x3D | 0xC6 | 0xCE | 0xD6 | 0xDE | 0xE6 | 0xEE | 0xF6 | 0xFE => {
                self.execute_sums(opcode)
            },
            x if 0x80 <= x && x <= 0xBF => self.execute_sums(opcode),
            _ => self.execute_math(opcode),
        }
    }
}

/// The steps that instructions are made of all run on.
proof fn lemma_parts_run_on()
    ensures
        forall|m: Machine, k: u8, v: u8| runs_on(m, #[trigger] m.alu(k, v)),
        forall|m: Machine, t: bool| runs_on(m, #[trigger] m.jump_relative(t)),
        forall|m: Machine, t: bool| runs_on(m, #[trigger] m.call(t)),
        forall|m: Machine| runs_on(m, #[trigger] m.ret()),
        forall|m: Machine, a: u16, i: bool| runs_on(m, #[trigger] m.move_a(a, i)),
        forall|m: Machine, b: u8| runs_on(m, (#[trigger] m.read_operand(b)).0),
        forall|m: Machine, b: u8, v: u8| runs_on(m, #[trigger] m.write_operand(b, v)),
        forall|m: Machine, op: u8| runs_on(m, #[trigger] m.execute_cb(op)),
{
    super::lemma_cycles_run_on();
    reveal(Machine::alu);
    reveal(Machine::jump_relative);
    reveal(Machine::call);
    reveal(Machine::ret);
    reveal(Machine::move_a);
    reveal(Machine::read_operand);
    reveal(Machine::write_operand);
    assert forall|m: Machine, op: u8| runs_on(m, #[trigger] m.execute_cb(op)) by {
        reveal(Machine::execute_cb);
    }
}

proof fn lemma_jump_runs_on()
    ensures
        forall|m: Machine, opcode: u8| runs_on(m, #[trigger] m.execute_jump(opcode)),
{
    super::lemma_cycles_run_on();
    lemma_parts_run_on();
    reveal(Machine::execute_jump);
}

proof fn lemma_call_runs_on()
    ensures
        forall|m: Machine, opcode: u8| runs_on(m, #[trigger] m.execute_call(opcode)),
{
    super::lemma_cycles_run_on();
    lemma_parts_run_on();
    reveal(Machine::execute_call);
}

proof fn lemma_stack_runs_on()
    ensures
        forall|m: Machine, opcode: u8| runs_on(m, #[trigger] m.execute_stack(opcode)),
{
    super::lemma_cycles_run_on();
    lemma_parts_run_on();
    reveal(Machine::execute_stack);
}

proof fn lemma_pairs_runs_on()
    ensures
        forall|m: Machine, opcode: u8| runs_on(m, #[trigger] m.execute_pairs(opcode)),
{
    super::lemma_cycles_run_on();
    lemma_parts_run_on();
    reveal(Machine::execute_pairs);
}

proof fn lemma_load_runs_on()
    ensures
        forall|m: Machine, opcode: u8| runs_on(m, #[trigger] m.execute_load(opcode)),
{
    super::lemma_cycles_run_on();
    lemma_parts_run_on();
    reveal(Machine::execute_load);
}

proof fn lemma_sums_runs_on()
    ensures
        forall|m: Machine, opcode: u8| runs_on(m, #[trigger] m.execute_sums(opcode)),
{
    super::lemma_cycles_run_on();
    lemma_parts_run_on();
    reveal(Machine::execute_sums);
}

proof fn lemma_math_runs_on()
    ensures
        forall|m: Machine, opcode: u8| runs_on(m, #[trigger] m.execute_math(opcode)),
{
    super::lemma_cycles_run_on();
    lemma_parts_run_on();
    reveal(Machine::execute_math);
}

/// Every instruction runs on: once the console has stopped, no instruction starts it again,
/// and the tick counter never runs back.
pub proof fn lemma_execute_runs_on()
    ensures
        forall|m: Machine, opcode: u8| runs_on(m, #[trigger] m.execute(opcode)),
{
    lemma_jump_runs_on();
    lemma_call_runs_on();
    lemma_stack_runs_on();
    lemma_pairs_runs_on();
    lemma_load_runs_on();
    lemma_sums_runs_on();
    lemma_math_runs_on();
    reveal(Machine::execute);
}

/// HALT puts the CPU to sleep, unless interrupts are off and one is already waiting: then
/// it trips, and the next fetch reads the same byte again. Nothing else changes.
pub proof fn lemma_halt(m: Machine)
    ensures
        m.execute(0x76) == (if !m.cpu.ime && m.bus.pending() != 0 {
            m.with_cpu(Cpu { halt_bug: true, ..m.cpu })
        } else {
            m.with_cpu(Cpu { halted: true, ..m.cpu })
        }),
{
    reveal(Machine::execute);
    reveal(Machine::execute_jump);
}

/// DI switches interrupts off at once and cancels an EI still waiting; EI only asks for
/// them to come on once the next instruction is done. Neither touches anything else.
pub proof fn lemma_interrupt_switch(m: Machine)
    ensures
        m.execute(0xF3) == m.with_cpu(Cpu { ime: false, ime_pending: false, ..m.cpu }),
        m.execute(0xFB) == m.with_cpu(Cpu { ime_pending: true, ..m.cpu }),
{
    reveal(Machine::execute);
    reveal(Machine::execute_jump);
}

/// BIT b,r (CB 40 to CB 7F, b = (opcode - 0x40) / 8): Z is set exactly when bit b of the
/// operand is 0, N is cleared and H set; C and every register are kept, and nothing is
/// written back.
pub proof fn lemma_bit_test(m: Machine, opcode: u8)
    requires
        0x40 <= opcode < 0x80,
    ensures
        (m.execute_cb(opcode) == m.read_operand(opcode).0.with_regs(
            Registers {
                f: Flags {
                    z: (m.read_operand(opcode).1 >> ((opcode - 0x40) / 8) as u8) & 1 == 0,
                    n: false,
                    h: true,
                    c: m.read_operand(opcode).0.regs().f.c,
                },
                ..m.read_operand(opcode).0.regs()
            },
        )),
{
    reveal(Machine::execute_cb);
    let value = m.read_operand(opcode).1;
    let k: u8 = ((opcode - 0x40) / 8) as u8;
    assert((opcode >> 3u8) & 0x07 == k && opcode >> 6u8 == 1) by (bit_vector)
        requires
            0x40 <= opcode < 0x80,
            k == (opcode - 0x40) / 8,
    ;
    assert((value & ((1u8 << k) as u8) == 0) == ((value >> k) & 1 == 0)) by (bit_vector)
        requires
            k < 8,
    ;
}

/// RES b,r (CB 80 to CB BF) and SET b,r (CB C0 to CB FF), b = (opcode % 64) / 8: the
/// operand is written back with bit b cleared or set and its other seven bits as they were;
/// the flags are left alone.
pub proof fn lemma_bit_change(m: Machine, opcode: u8)
    requires
        0x80 <= opcode,
    ensures
        exists|w: u8|
            {
                &&& m.execute_cb(opcode) == m.read_operand(opcode).0.write_operand(opcode, w)
                &&& (w >> ((opcode % 64) / 8) as u8) & 1 == if opcode >= 0xC0 {
                    1u8
                } else {
                    0u8
                }
                &&& forall|j: u8|
                    j < 8 && j != (opcode % 64) / 8 ==> #[trigger] ((w >> j) & 1) == (
                    m.read_operand(opcode).1 >> j) & 1
            },
{
    reveal(Machine::execute_cb);
    let value = m.read_operand(opcode).1;
    let k: u8 = ((opcode % 64) / 8) as u8;
    assert((opcode >> 3u8) & 0x07 == k && (opcode >> 6u8 == 2 <==> opcode < 0xC0) && (opcode
        >> 6u8 == 3 <==> opcode >= 0xC0)) by (bit_vector)
        requires
            0x80 <= opcode,
            k == (opcode % 64) / 8,
    ;
    let bit: u8 = (1u8 << k) as u8;
    let w: u8 = if opcode >= 0xC0 {
        value | bit
    } else {
        value & !bit
    };
    assert((w >> k) & 1 == if opcode >= 0xC0 {
        1u8
    } else {
        0u8
    }) by (bit_vector)
        requires
            k < 8,
            bit == 1u8 << k,
            w == if opcode >= 0xC0 {
                value | bit
            } else {
                value & !bit
            },
    ;
    assert forall|j: u8| j < 8 && j != k implies #[trigger] ((w >> j) & 1) == (value >> j) & 1 by {
        assert((w >> j) & 1 == (value >> j) & 1) by (bit_vector)
            requires
                k < 8,
                j < 8,
                j != k,
                bit == 1u8 << k,
                w == if opcode >= 0xC0 {
                    value | bit
                } else {
                    value & !bit
                },
        ;
    }
    assert(m.execute_cb(opcode) == m.read_operand(opcode).0.write_operand(opcode, w));
}

/// The four jump conditions: opcode bit 4 picks the flag tested (Z when clear, C when set)
/// and bit 3 whether that flag must be set (NZ, Z, NC, C).
pub proof fn lemma_conditions(f: Flags, opcode: u8)
    ensures
        condition_holds(f, opcode) == if opcode & 0x10 == 0 {
            f.z == (opcode & 0x08 != 0)
        } else {
            f.c == (opcode & 0x08 != 0)
        },
{
    let k = (opcode >> 3u8) & 0x03;
    assert((k == 0 <==> (opcode & 0x10 == 0 && opcode & 0x08 == 0)) && (k == 1 <==> (opcode & 0x10
        == 0 && opcode & 0x08 != 0)) && (k == 2 <==> (opcode & 0x10 != 0 && opcode & 0x08 == 0))
        && k <= 3) by (bit_vector)
        requires
            k == (opcode >> 3u8) & 0x03,
    ;
}

/// The pointer loads through BC, DE, HL+ and HL- (opcode bits 4 and 5): the address is the
/// pair's value; HL+ and HL- then move HL one up or down, round 65536, and change no other
/// register.
pub proof fn lemma_pointer_steps(regs: Registers, opcode: u8)
    ensures
        ({
            let (after, address) = pointer_of(regs, opcode);
            let hl = regs.h * 256 + regs.l;
            &&& (opcode / 16) % 4 == 0 ==> address == regs.b * 256 + regs.c && after == regs
            &&& (opcode / 16) % 4 == 1 ==> address == regs.d * 256 + regs.e && after == regs
            &&& (opcode / 16) % 4 == 2 ==> address == hl && after == regs.set16(
                Reg16::HL,
                ((hl + 1) % 65536) as u16,
            )
            &&& (opcode / 16) % 4 == 3 ==> address == hl && after == regs.set16(
                Reg16::HL,
                ((hl + 65535) % 65536) as u16,
            )
        }),
{
    assert((opcode >> 4u8) & 0x03 == (opcode / 16) % 4) by (bit_vector);
}

proof fn lemma_bit_index()
    by (bit_vector)
    ensures
        forall|x: u8| #[trigger] ((x >> 3u8) & 0x07) < 8,
{
}

// Opcodes number the pairs BC DE HL SP, but push and pop use AF in place of SP.
fn pair(bits: u8, stack: bool) -> (r: Reg16)
    ensures
        r == pair_of(bits, stack),
{
    match bits & 0x03 {
        0 => Reg16::BC,
        1 => Reg16::DE,
        2 => Reg16::HL,
        _ => if stack {
            Reg16::AF
        } else {
            Reg16::SP
        },
    }
}

// Opcodes number the registers B C D E H L (HL) A. The mask keeps this to 0 to 7.
fn operand(bits: u8) -> (r: Option<Reg8>)
    ensures
        r == operand_of(bits),
{
    match bits & 0x07 {
        0 => Some(Reg8::B),
        1 => Some(Reg8::C),
        2 => Some(Reg8::D),
        3 => Some(Reg8::E),
        4 => Some(Reg8::H),
        5 => Some(Reg8::L),
        6 => None,  // the byte HL points at, not a register
        _ => Some(Reg8::A),  // 7, the only value left after & 0x07
    }
}

impl Cpu {
    pub(crate) fn execute(&mut self, opcode: u8, bus: &mut Bus) -> (r: Result<(), Crash>)
        requires
            old(bus)@.wf(),
        ensures
            ran(start(*old(self), old(bus)@).execute(opcode), *final(self), final(bus)@, r is Ok),
            final(bus)@.wf(),
    {
        proof {
            reveal(Machine::execute);
        }
        match opcode {
            0x00 | 0x10 | 0x76 | 0xC3 | 0xC2 | 0xCA | 0xD2 | 0xDA | 0x18 | 0x20 | 0x28 | 0x30
            | 0x38 | 0xE9 | 0xF3 | 0xFB => {
                self.execute_jump(opcode, bus)
            },
            0xCD | 0xC4 | 0xCC | 0xD4 | 0xDC | 0xC9 | 0xC0 | 0xC8 | 0xD0 | 0xD8 | 0xD9 | 0xC7
            | 0xCF | 0xD7 | 0xDF | 0xE7 | 0xEF | 0xF7 | 0xFF => {
                self.execute_call(opcode, bus)
            },
            0x08 | 0xF9 | 0xC5 | 0xD5 | 0xE5 | 0xF5 | 0xC1 | 0xD1 | 0xE1 | 0xF1 | 0xF8 | 0xE8 => {
                self.execute_stack(opcode, bus)
            },
            0x01 | 0x11 | 0x21 | 0x31 | 0x03 | 0x13 | 0x23 | 0x33 | 0x0B | 0x1B | 0x2B | 0x3B
            | 0x09 | 0x19 | 0x29 | 0x39 => {
                self.execute_pairs(opcode, bus)
            },
            0xEA | 0xFA | 0xE0 | 0xF0 | 0xE2 | 0xF2 | 0x02 | 0x12 | 0x22 | 0x32 | 0x0A | 0x1A
            | 0x2A | 0x3A | 0x06 | 0x0E | 0x16 | 0x1E | 0x26 | 0x2E | 0x36 | 0x3E | 0x40..=0x7F => {
                self.execute_load(opcode, bus)
            },
            0x80..=0xBF | 0x04 | 0x0C | 0x14 | 0x1C | 0x24 | 0x2C | 0x34 | 0x3C | 0x05 | 0x0D
            | 0x15 | 0x1D | 0x25 | 0x2D | 0x35 | 0x3D | 0xC6 | 0xCE | 0xD6 | 0xDE | 0xE6 | 0xEE
            | 0xF6 | 0xFE => {
                self.execute_sums(opcode, bus)
            },
            _ => self.execute_math(opcode, bus),
        }
    }

    // Jumps, sleep and the interrupt switch.
    #[verifier::spinoff_prover]
    #[verifier::rlimit(100)]
    fn execute_jump(&mut self, opcode: u8, bus: &mut Bus) -> (r: Result<(), Crash>)
        requires
            old(bus)@.wf(),
        ensures
            ran(
                start(*old(self), old(bus)@).execute_jump(opcode),
                *final(self),
                final(bus)@,
                r is Ok,
            ),
            final(bus)@.wf(),
    {
        proof {
            reveal(Machine::execute_jump);
            super::lemma_cycles_run_on();
            lemma_parts_run_on();
        }
        match opcode {
            // 0x00 NOP
            0x00 => Ok(()),
            // 0x10 STOP - changes speed if a game asked for it, otherwise sleeps until a button.
            0x10 => {
                self.fetch8(bus)?;  // STOP is followed by a byte that nothing uses
                bus.reset_timer_div();
                if bus.speed_switch_armed() {
                    bus.switch_speed();
                } else {
                    self.stopped = true;
                    bus.freeze_timer(true);
                }
                Ok(())
            },
            // 0x76 HALT - sleeps, unless interrupts are off and one is waiting, then it trips.
            0x76 => {
                let waiting = bus.pending_interrupts() != 0;
                if !self.ime && waiting {
                    self.halt_bug = true;
                } else {
                    self.halted = true;
                }
                Ok(())
            },
            // 0xC3 JP nn - jump to the address after the opcode.
            0xC3 => {
                let addr = self.fetch16(bus)?;
                self.idle(bus)?;
                self.regs.pc = addr;
                Ok(())
            },
            // JP cc,nn - the address is always read; a jump that happens costs one more cycle.
            0xC2 | 0xCA | 0xD2 | 0xDA => {
                let address = self.fetch16(bus)?;
                if self.condition(opcode) {
                    self.idle(bus)?;
                    self.regs.pc = address;
                }
                Ok(())
            },
            // 0x18 JR e8 - jump a short way forwards or back.
            0x18 => self.jump_relative(bus, true),
            // JR cc,e8 - the same, only if the flag test passes.
            0x20 | 0x28 | 0x30 | 0x38 => {
                let take = self.condition(opcode);
                self.jump_relative(bus, take)
            },
            // 0xE9 JP HL - the address is already in HL, so nothing is read.
            0xE9 => {
                self.regs.pc = self.regs.hl();
                Ok(())
            },
            // 0xF3 DI - switch interrupts off at once.
            0xF3 => {
                self.ime = false;
                self.ime_pending = false;
                Ok(())
            },
            // 0xFB EI - switches interrupts on after the next instruction
            0xFB => {
                self.ime_pending = true;
                Ok(())
            },
            // Not an instruction of this group: `execute` never sends one here.
            _ => Err(Crash),
        }
    }

    // Calls and returns, which go through the stack.
    #[verifier::spinoff_prover]
    #[verifier::rlimit(100)]
    fn execute_call(&mut self, opcode: u8, bus: &mut Bus) -> (r: Result<(), Crash>)
        requires
            old(bus)@.wf(),
        ensures
            ran(
                start(*old(self), old(bus)@).execute_call(opcode),
                *final(self),
                final(bus)@,
                r is Ok,
            ),
            final(bus)@.wf(),
    {
        proof {
            reveal(Machine::execute_call);
            super::lemma_cycles_run_on();
            lemma_parts_run_on();
        }
        match opcode {
            // 0xCD CALL nn - save where to come back to, then jump.
            0xCD => self.call(bus, true),
            // CALL cc,nn - the same, only if the flag test passes.
            0xC4 | 0xCC | 0xD4 | 0xDC => {
                let take = self.condition(opcode);
                self.call(bus, take)
            },
            // 0xC9 RET - take the saved address off the stack and go back.
            0xC9 => self.ret(bus),
            // RET cc - checking the flag costs a cycle, whether it returns or not.
            0xC0 | 0xC8 | 0xD0 | 0xD8 => {
                self.idle(bus)?;
                if self.condition(opcode) {
                    self.ret(bus)?;
                }
                Ok(())
            },
            // 0xD9 RETI - return, and switch interrupts on at once, with no delay.
            0xD9 => {
                self.ret(bus)?;
                self.ime = true;
                Ok(())
            },
            // RST - a one-byte CALL to one of eight fixed addresses, named by the opcode bits.
            0xC7 | 0xCF | 0xD7 | 0xDF | 0xE7 | 0xEF | 0xF7 | 0xFF => {
                self.idle(bus)?;
                let back = self.regs.pc;
                self.push16(bus, back)?;
                self.regs.pc = (opcode & 0x38) as u16;
                Ok(())
            },
            // Not an instruction of this group: `execute` never sends one here.
            _ => Err(Crash),
        }
    }

    // The other instructions on SP, and the stack pointer to memory.
    #[verifier::spinoff_prover]
    #[verifier::rlimit(100)]
    fn execute_stack(&mut self, opcode: u8, bus: &mut Bus) -> (r: Result<(), Crash>)
        requires
            old(bus)@.wf(),
        ensures
            ran(
                start(*old(self), old(bus)@).execute_stack(opcode),
                *final(self),
                final(bus)@,
                r is Ok,
            ),
            final(bus)@.wf(),
    {
        proof {
            reveal(Machine::execute_stack);
            super::lemma_cycles_run_on();
            lemma_parts_run_on();
        }
        match opcode {
            // 0x08 LD (nn),SP - the stack pointer goes to memory, low byte first.
            0x08 => {
                let address = self.fetch16(bus)?;
                let sp = self.regs.sp;
                self.write8(bus, address, (sp % 256) as u8)?;
                self.write8(bus, address.wrapping_add(1), (sp / 256) as u8)
            },
            // 0xF9 LD SP,HL - the idle cycle is the 16-bit value moving across.
            0xF9 => {
                self.idle(bus)?;
                self.regs.sp = self.regs.hl();
                Ok(())
            },
            // PUSH rr - the idle cycle is SP being stepped down before the writes.
            0xC5 | 0xD5 | 0xE5 | 0xF5 => {
                self.idle(bus)?;
                let value = self.regs.read16(pair(opcode >> 4u8, true));
                self.push16(bus, value)
            },
            // POP rr
            0xC1 | 0xD1 | 0xE1 | 0xF1 => {
                let value = self.pop16(bus)?;
                self.regs.write16(pair(opcode >> 4u8, true), value);
                Ok(())
            },
            // 0xF8 LD HL,SP+e8 - the only load that touches the flags.
            0xF8 => {
                let offset = self.fetch8(bus)?;
                self.idle(bus)?;
                let (result, flags) = add_offset(self.regs.sp, offset);
                self.regs.set_hl(result);
                self.regs.f = flags;
                Ok(())
            },
            // 0xE8 ADD SP,e8 - the same sum, kept in SP. One more idle cycle than 0xF8.
            0xE8 => {
                let offset = self.fetch8(bus)?;
                self.idle(bus)?;
                self.idle(bus)?;
                let (result, flags) = add_offset(self.regs.sp, offset);
                self.regs.sp = result;
                self.regs.f = flags;
                Ok(())
            },
            // Not an instruction of this group: `execute` never sends one here.
            _ => Err(Crash),
        }
    }

    // Loads and sums on whole register pairs.
    #[verifier::spinoff_prover]
    #[verifier::rlimit(100)]
    fn execute_pairs(&mut self, opcode: u8, bus: &mut Bus) -> (r: Result<(), Crash>)
        requires
            old(bus)@.wf(),
        ensures
            ran(
                start(*old(self), old(bus)@).execute_pairs(opcode),
                *final(self),
                final(bus)@,
                r is Ok,
            ),
            final(bus)@.wf(),
    {
        proof {
            reveal(Machine::execute_pairs);
            super::lemma_cycles_run_on();
            lemma_parts_run_on();
        }
        match opcode {
            // LD rr,nn - the two bytes after the opcode go into a pair.
            0x01 | 0x11 | 0x21 | 0x31 => {
                let value = self.fetch16(bus)?;
                self.regs.write16(pair(opcode >> 4u8, false), value);
                Ok(())
            },
            // INC rr - no flags change at all, unlike the 8-bit version.
            0x03 | 0x13 | 0x23 | 0x33 => {
                let register = pair(opcode >> 4u8, false);
                let value = self.regs.read16(register);
                self.idle(bus)?;
                self.regs.write16(register, value.wrapping_add(1));
                Ok(())
            },
            // DEC rr
            0x0B | 0x1B | 0x2B | 0x3B => {
                let register = pair(opcode >> 4u8, false);
                let value = self.regs.read16(register);
                self.idle(bus)?;
                self.regs.write16(register, value.wrapping_sub(1));
                Ok(())
            },
            // ADD HL,rr - H and C come from bits 11 and 15, and Z is left alone.
            0x09 | 0x19 | 0x29 | 0x39 => {
                let value = self.regs.read16(pair(opcode >> 4u8, false));
                self.idle(bus)?;
                let (result, flags) = add_wide(self.regs.hl(), value, self.regs.f.z);
                self.regs.set_hl(result);
                self.regs.f = flags;
                Ok(())
            },
            // Not an instruction of this group: `execute` never sends one here.
            _ => Err(Crash),
        }
    }

    // Moves of one byte between registers and memory.
    #[verifier::spinoff_prover]
    #[verifier::rlimit(100)]
    fn execute_load(&mut self, opcode: u8, bus: &mut Bus) -> (r: Result<(), Crash>)
        requires
            old(bus)@.wf(),
        ensures
            ran(
                start(*old(self), old(bus)@).execute_load(opcode),
                *final(self),
                final(bus)@,
                r is Ok,
            ),
            final(bus)@.wf(),
    {
        proof {
            reveal(Machine::execute_load);
            super::lemma_cycles_run_on();
            lemma_parts_run_on();
        }
        match opcode {
            // 0xEA / 0xFA LD (nn),A and LD A,(nn) - a full 16-bit address.
            0xEA | 0xFA => {
                let address = self.fetch16(bus)?;
                self.move_a(bus, address, opcode & 0x10 != 0)
            },
            // 0xE0 / 0xF0 LDH (n),A and LDH A,(n) - one byte names a spot on the FF00 page.
            0xE0 | 0xF0 => {
                let offset = self.fetch8(bus)? as u16;
                self.move_a(bus, 0xFF00 + offset, opcode & 0x10 != 0)
            },
            // 0xE2 / 0xF2 LDH (C),A and LDH A,(C) - the same page, addressed by C.
            0xE2 | 0xF2 => {
                let address = 0xFF00 + self.regs.c as u16;
                self.move_a(bus, address, opcode & 0x10 != 0)
            },
            // LD A,(rr) and LD (rr),A - A moves to or from the byte a pair points at.
            0x02 | 0x12 | 0x22 | 0x32 | 0x0A | 0x1A | 0x2A | 0x3A => {
                let address = self.pointer(opcode);
                if opcode & 0x08 == 0 {
                    let value = self.regs.a;
                    self.write8(bus, address, value)
                } else {
                    self.regs.a = self.read8(bus, address)?;
                    Ok(())
                }
            },
            // LD r,n - the byte after the opcode goes straight into a register.
            0x06 | 0x0E | 0x16 | 0x1E | 0x26 | 0x2E | 0x36 | 0x3E => {
                let value = self.fetch8(bus)?;
                self.write_operand(bus, opcode >> 3u8, value)
            },
            // 0x40-0x7F LD r,r' - both operands come from the opcode's own bits.
            0x40..=0x7F => {
                let value = self.read_operand(bus, opcode)?;
                self.write_operand(bus, opcode >> 3u8, value)
            },
            // Not an instruction of this group: `execute` never sends one here.
            _ => Err(Crash),
        }
    }

    // The eight sums on A, and INC and DEC on one byte.
    #[verifier::spinoff_prover]
    #[verifier::rlimit(100)]
    fn execute_sums(&mut self, opcode: u8, bus: &mut Bus) -> (r: Result<(), Crash>)
        requires
            old(bus)@.wf(),
        ensures
            ran(
                start(*old(self), old(bus)@).execute_sums(opcode),
                *final(self),
                final(bus)@,
                r is Ok,
            ),
            final(bus)@.wf(),
    {
        proof {
            reveal(Machine::execute_sums);
            reveal(Machine::alu);
            super::lemma_cycles_run_on();
            lemma_parts_run_on();
        }
        match opcode {
            // 0x80-0xBF - eight sums on A, each against a register or the byte HL points at.
            0x80..=0xBF => {
                let value = self.read_operand(bus, opcode)?;
                self.alu(opcode >> 3u8, value);
                Ok(())
            },
            // INC r - bits 3 to 5 name the register, as in the LD block.
            0x04 | 0x0C | 0x14 | 0x1C | 0x24 | 0x2C | 0x34 | 0x3C => {
                let value = self.read_operand(bus, opcode >> 3u8)?;
                let (result, flags) = inc(value, self.regs.f.c);
                self.regs.f = flags;
                self.write_operand(bus, opcode >> 3u8, result)
            },
            // DEC r
            0x05 | 0x0D | 0x15 | 0x1D | 0x25 | 0x2D | 0x35 | 0x3D => {
                let value = self.read_operand(bus, opcode >> 3u8)?;
                let (result, flags) = dec(value, self.regs.f.c);
                self.regs.f = flags;
                self.write_operand(bus, opcode >> 3u8, result)
            },
            // ADD A,n through CP n - the same eight sums, against the byte after the opcode.
            0xC6 | 0xCE | 0xD6 | 0xDE | 0xE6 | 0xEE | 0xF6 | 0xFE => {
                let value = self.fetch8(bus)?;
                self.alu(opcode >> 3u8, value);
                Ok(())
            },
            // Not an instruction of this group: `execute` never sends one here.
            _ => Err(Crash),
        }
    }

    // Rotates and flag work on A, the CB page, and the empty slots.
    #[verifier::spinoff_prover]
    #[verifier::rlimit(100)]
    fn execute_math(&mut self, opcode: u8, bus: &mut Bus) -> (r: Result<(), Crash>)
        requires
            old(bus)@.wf(),
        ensures
            ran(
                start(*old(self), old(bus)@).execute_math(opcode),
                *final(self),
                final(bus)@,
                r is Ok,
            ),
            final(bus)@.wf(),
    {
        proof {
            reveal(Machine::execute_math);
            super::lemma_cycles_run_on();
            lemma_parts_run_on();
        }
        match opcode {
            // RLCA RRCA RLA RRA - the first four CB rotates, on A only, and Z always stays off.
            0x07 | 0x0F | 0x17 | 0x1F => {
                let (result, flags) = shift(opcode >> 3u8, self.regs.a, self.regs.f.c);
                self.regs.a = result;
                self.regs.f = Flags { z: false, ..flags };
                Ok(())
            },
            // 0x27 DAA - turn the last sum back into two decimal digits.
            0x27 => {
                let (result, flags) = daa(self.regs.a, self.regs.f);
                self.regs.a = result;
                self.regs.f = flags;
                Ok(())
            },
            // 0x2F CPL - flip every bit of A.
            0x2F => {
                self.regs.a = !self.regs.a;
                self.regs.f.n = true;
                self.regs.f.h = true;
                Ok(())
            },
            // 0x37 SCF - set the carry flag.
            0x37 => {
                self.regs.f.n = false;
                self.regs.f.h = false;
                self.regs.f.c = true;
                Ok(())
            },
            // 0x3F CCF - flip the carry flag.
            0x3F => {
                self.regs.f.n = false;
                self.regs.f.h = false;
                self.regs.f.c = !self.regs.f.c;
                Ok(())
            },
            0xCB => {
                let cb_opcode = self.fetch8(bus)?;
                self.execute_cb(cb_opcode, bus)
            },
            // Only the 11 empty slots land here. The real chip locks up on them.
            _ => Err(Crash),
        }
    }

    // Read a signed byte and, if asked, move PC by it, counting from the next instruction.
    fn jump_relative(&mut self, bus: &mut Bus, take: bool) -> (r: Result<(), Crash>)
        requires
            old(bus)@.wf(),
        ensures
            ran(start(*old(self), old(bus)@).jump_relative(take), *final(self), final(bus)@, r is Ok),
            final(bus)@.wf(),
    {
        proof {
            reveal(Machine::jump_relative);
        }
        let offset = self.fetch8(bus)?;
        if take {
            self.idle(bus)?;
            self.regs.pc = super::alu::move_by(self.regs.pc, offset);
        }
        Ok(())
    }

    // Read an address and, if asked, push the way back and jump there.
    fn call(&mut self, bus: &mut Bus, take: bool) -> (r: Result<(), Crash>)
        requires
            old(bus)@.wf(),
        ensures
            ran(start(*old(self), old(bus)@).call(take), *final(self), final(bus)@, r is Ok),
            final(bus)@.wf(),
    {
        proof {
            reveal(Machine::call);
        }
        let address = self.fetch16(bus)?;
        if take {
            self.idle(bus)?;
            let back = self.regs.pc;  // already past the address, so this is the next instruction
            self.push16(bus, back)?;
            self.regs.pc = address;
        }
        Ok(())
    }

    // Take the saved address off the stack and jump back to it.
    fn ret(&mut self, bus: &mut Bus) -> (r: Result<(), Crash>)
        requires
            old(bus)@.wf(),
        ensures
            ran(start(*old(self), old(bus)@).ret(), *final(self), final(bus)@, r is Ok),
            final(bus)@.wf(),
    {
        proof {
            reveal(Machine::ret);
        }
        let address = self.pop16(bus)?;
        self.idle(bus)?;
        self.regs.pc = address;
        Ok(())
    }

    // Bits 3 and 4 of the opcode name the test: NZ Z NC C.
    fn condition(&self, opcode: u8) -> (r: bool)
        ensures
            r == condition_holds(self.regs.f, opcode),
    {
        match (opcode >> 3u8) & 0x03 {
            0 => !self.regs.f.z,
            1 => self.regs.f.z,
            2 => !self.regs.f.c,
            _ => self.regs.f.c,
        }
    }

    // Move A to or from one address. Callers pick the direction from bit 4 of the opcode.
    fn move_a(&mut self, bus: &mut Bus, address: u16, into_a: bool) -> (r: Result<(), Crash>)
        requires
            old(bus)@.wf(),
        ensures
            ran(
                start(*old(self), old(bus)@).move_a(address, into_a),
                *final(self),
                final(bus)@,
                r is Ok,
            ),
            final(bus)@.wf(),
    {
        proof {
            reveal(Machine::move_a);
        }
        if into_a {
            self.regs.a = self.read8(bus, address)?;
            Ok(())
        } else {
            let value = self.regs.a;
            self.write8(bus, address, value)
        }
    }

    // The pair named by bits 4 and 5. HL steps after being used, never before.
    fn pointer(&mut self, opcode: u8) -> (r: u16)
        ensures
            (final(self).regs, r) == pointer_of(old(self).regs, opcode),
            *final(self) == (Cpu { regs: final(self).regs, ..*old(self) }),
    {
        let hl = self.regs.hl();
        match (opcode >> 4u8) & 0x03 {
            0 => self.regs.bc(),
            1 => self.regs.de(),
            2 => {
                self.regs.set_hl(hl.wrapping_add(1));
                hl
            },
            _ => {
                self.regs.set_hl(hl.wrapping_sub(1));
                hl
            },
        }
    }

    // Reading a register is free; reading through HL costs an M-cycle.
    fn read_operand(&mut self, bus: &mut Bus, bits: u8) -> (r: Result<u8, Crash>)
        requires
            old(bus)@.wf(),
        ensures
            gave(start(*old(self), old(bus)@).read_operand(bits), *final(self), final(bus)@, r),
            final(bus)@.wf(),
    {
        proof {
            reveal(Machine::read_operand);
        }
        match operand(bits) {
            Some(register) => Ok(self.regs.read8(register)),
            None => {
                let address = self.regs.hl();
                self.read8(bus, address)
            },
        }
    }

    // Writing a register is free; writing through HL costs an M-cycle.
    fn write_operand(&mut self, bus: &mut Bus, bits: u8, value: u8) -> (r: Result<(), Crash>)
        requires
            old(bus)@.wf(),
        ensures
            ran(
                start(*old(self), old(bus)@).write_operand(bits, value),
                *final(self),
                final(bus)@,
                r is Ok,
            ),
            final(bus)@.wf(),
    {
        proof {
            reveal(Machine::write_operand);
        }
        match operand(bits) {
            Some(register) => {
                self.regs.write8(register, value);
                Ok(())
            },
            None => {
                let address = self.regs.hl();
                self.write8(bus, address, value)
            },
        }
    }

    // CB opcodes split into two bits of kind, three bits of bit number, three bits of target.
    fn execute_cb(&mut self, opcode: u8, bus: &mut Bus) -> (r: Result<(), Crash>)
        requires
            old(bus)@.wf(),
        ensures
            ran(start(*old(self), old(bus)@).execute_cb(opcode), *final(self), final(bus)@, r is Ok),
            final(bus)@.wf(),
    {
        proof {
            reveal(Machine::execute_cb);
            lemma_bit_index();
            super::lemma_cycles_run_on();
            lemma_parts_run_on();
        }
        let bit: u8 = 1u8 << ((opcode >> 3u8) & 0x07);
        match opcode >> 6u8 {
            // BIT b,r - Z says whether that bit is off. Nothing is written back.
            1 => {
                let value = self.read_operand(bus, opcode)?;
                self.regs.f.z = value & bit == 0;
                self.regs.f.n = false;
                self.regs.f.h = true;
                Ok(())
            },
            // RES b,r - turn one bit off.
            2 => {
                let value = self.read_operand(bus, opcode)?;
                self.write_operand(bus, opcode, value & !bit)
            },
            // SET b,r - turn one bit on.
            3 => {
                let value = self.read_operand(bus, opcode)?;
                self.write_operand(bus, opcode, value | bit)
            },
            // Rotates and shifts - bits 3 to 5 pick which of the eight.
            _ => {
                let value = self.read_operand(bus, opcode)?;
                let (result, flags) = shift(opcode >> 3u8, value, self.regs.f.c);
                self.regs.f = flags;
                self.write_operand(bus, opcode, result)
            },
        }
    }
}

} // verus!
