//! The CPU's registers: the handful of values it can work on directly.
use vstd::prelude::*;

verus! {

/// The flag register `F`: `Z N H C` live in the top 4 bits, the bottom 4 are always zero.
#[derive(Debug, Clone, Copy, Default, PartialEq, Eq, Structural)]
pub struct Flags {
    pub z: bool,  // the last sum came out zero
    pub n: bool,  // the last sum was a subtraction; only DAA looks at it
    pub h: bool,  // the low 4 bits overflowed; only DAA looks at it
    pub c: bool,  // the result did not fit in 8 bits, or 16 for the wider sums
}

/// The byte that `F` holds for the given flags: Z is bit 7, N bit 6, H bit 5, C bit 4.
pub open spec fn flags_byte(f: Flags) -> u8 {
    ((if f.z { 0x80int } else { 0 }) + (if f.n { 0x40int } else { 0 }) + (if f.h {
        0x20int
    } else {
        0
    }) + (if f.c { 0x10int } else { 0 })) as u8
}

/// The flags that a byte in `F` stands for; the bottom 4 bits mean nothing.
pub open spec fn flags_of(value: u8) -> Flags {
    Flags {
        z: value & 0x80 != 0,
        n: value & 0x40 != 0,
        h: value & 0x20 != 0,
        c: value & 0x10 != 0,
    }
}

impl Flags {
    pub fn bits(self) -> (r: u8)
        ensures
            r == flags_byte(self),
    {
        (if self.z { 0x80u8 } else { 0 }) + (if self.n { 0x40u8 } else { 0 }) + (if self.h {
            0x20u8
        } else {
            0
        }) + (if self.c { 0x10u8 } else { 0 })
    }

    /// Throws away the bottom 4 bits, exactly like the real chip.
    pub fn from_bits(value: u8) -> (r: Self)
        ensures
            r == flags_of(value),
    {
        Self { z: value & 0x80 != 0, n: value & 0x40 != 0, h: value & 0x20 != 0, c: value & 0x10 != 0 }
    }
}

/// Turning flags into a byte and back gives the same flags.
pub proof fn lemma_flags_round_trip(f: Flags)
    ensures
        flags_of(flags_byte(f)) == f,
{
    let b = flags_byte(f);
    let (z, n, h, c) = (f.z, f.n, f.h, f.c);
    assert(z == (b & 0x80 != 0) && n == (b & 0x40 != 0) && h == (b & 0x20 != 0) && c == (b & 0x10
        != 0)) by (bit_vector)
        requires
            b == ((if z { 0x80u8 } else { 0u8 }) + (if n { 0x40u8 } else { 0u8 }) + (if h {
                0x20u8
            } else {
                0u8
            }) + (if c { 0x10u8 } else { 0u8 })),
    ;
}

/// A byte read back through the flags keeps its top 4 bits and loses the bottom 4.
pub proof fn lemma_flags_drop_low_nibble(value: u8)
    ensures
        flags_byte(flags_of(value)) == value & 0xF0,
        flags_byte(flags_of(value)) == value - value % 16,
{
    let f = flags_of(value);
    let b = flags_byte(f);
    assert(b == ((if value & 0x80 != 0 { 0x80u8 } else { 0u8 }) + (if value & 0x40 != 0 {
        0x40u8
    } else {
        0u8
    }) + (if value & 0x20 != 0 { 0x20u8 } else { 0u8 }) + (if value & 0x10 != 0 {
        0x10u8
    } else {
        0u8
    })));
    assert(((if value & 0x80 != 0 { 0x80u8 } else { 0u8 }) + (if value & 0x40 != 0 {
        0x40u8
    } else {
        0u8
    }) + (if value & 0x20 != 0 { 0x20u8 } else { 0u8 }) + (if value & 0x10 != 0 {
        0x10u8
    } else {
        0u8
    })) == value & 0xF0 && value & 0xF0 == value - value % 16) by (bit_vector);
}

/// An 8-bit register. Opcodes always list them in the order `B C D E H L (HL) A`.
#[derive(Debug, Clone, Copy, PartialEq, Eq, Structural)]
pub enum Reg8 {
    A,
    B,
    C,
    D,
    E,
    H,
    L,
}

#[derive(Debug, Clone, Copy, PartialEq, Eq, Structural)]
pub enum Reg16 {
    AF,
    BC,
    DE,
    HL,
    SP,
}

#[derive(Debug, Clone, Copy, PartialEq, Eq, Structural)]
pub struct Registers {
    pub a: u8,  // accumulator: almost every sum ends up here
    pub f: Flags,  // how the last sum turned out
    pub b: u8,  // spare byte, pairs with c
    pub c: u8,  // spare byte, pairs with b
    pub d: u8,  // spare byte, pairs with e
    pub e: u8,  // spare byte, pairs with d
    pub h: u8,  // spare byte, pairs with l to point at memory
    pub l: u8,  // spare byte, pairs with h to point at memory
    pub sp: u16,  // stack pointer: top of the scratch pile
    pub pc: u16,  // program counter: which byte the CPU runs next
}

/// Two bytes read as one 16-bit number, the first one high.
pub open spec fn join(high: u8, low: u8) -> u16 {
    (high * 256 + low) as u16
}

/// The high byte of a 16-bit number.
pub open spec fn high_byte(value: u16) -> u8 {
    (value / 256) as u8
}

/// The low byte of a 16-bit number.
pub open spec fn low_byte(value: u16) -> u8 {
    (value % 256) as u8
}

/// Where the boot ROM leaves the CPU.
pub open spec fn post_boot_registers() -> Registers {
    Registers {
        a: 0x11,
        f: flags_of(0x80),
        b: 0x00,
        c: 0x00,
        d: 0xFF,
        e: 0x56,
        h: 0x00,
        l: 0x0D,
        sp: 0xFFFE,
        pc: 0x0100,
    }
}

impl Registers {
    pub open spec fn get8(self, reg: Reg8) -> u8 {
        match reg {
            Reg8::A => self.a,
            Reg8::B => self.b,
            Reg8::C => self.c,
            Reg8::D => self.d,
            Reg8::E => self.e,
            Reg8::H => self.h,
            Reg8::L => self.l,
        }
    }

    pub open spec fn set8(self, reg: Reg8, value: u8) -> Registers {
        match reg {
            Reg8::A => Registers { a: value, ..self },
            Reg8::B => Registers { b: value, ..self },
            Reg8::C => Registers { c: value, ..self },
            Reg8::D => Registers { d: value, ..self },
            Reg8::E => Registers { e: value, ..self },
            Reg8::H => Registers { h: value, ..self },
            Reg8::L => Registers { l: value, ..self },
        }
    }

    pub open spec fn get16(self, reg: Reg16) -> u16 {
        match reg {
            Reg16::AF => join(self.a, flags_byte(self.f)),
            Reg16::BC => join(self.b, self.c),
            Reg16::DE => join(self.d, self.e),
            Reg16::HL => join(self.h, self.l),
            Reg16::SP => self.sp,
        }
    }

    pub open spec fn set16(self, reg: Reg16, value: u16) -> Registers {
        match reg {
            Reg16::AF => Registers { a: high_byte(value), f: flags_of(low_byte(value)), ..self },
            Reg16::BC => Registers { b: high_byte(value), c: low_byte(value), ..self },
            Reg16::DE => Registers { d: high_byte(value), e: low_byte(value), ..self },
            Reg16::HL => Registers { h: high_byte(value), l: low_byte(value), ..self },
            Reg16::SP => Registers { sp: value, ..self },
        }
    }

    /// Where the boot ROM leaves the CPU, so we can skip it. Games read `a = 0x11` to spot a Color.
    pub fn post_boot_cgb() -> (r: Self)
        ensures
            r == post_boot_registers(),
    {
        Self {
            a: 0x11,
            f: Flags::from_bits(0x80),
            b: 0x00,
            c: 0x00,
            d: 0xFF,
            e: 0x56,
            h: 0x00,
            l: 0x0D,
            sp: 0xFFFE,
            pc: 0x0100,  // where the cartridge starts running
        }
    }

    pub fn af(&self) -> (r: u16)
        ensures
            r == self.get16(Reg16::AF),
    {
        (self.a as u16) * 256 + self.f.bits() as u16
    }

    pub fn bc(&self) -> (r: u16)
        ensures
            r == self.get16(Reg16::BC),
    {
        (self.b as u16) * 256 + self.c as u16
    }

    pub fn de(&self) -> (r: u16)
        ensures
            r == self.get16(Reg16::DE),
    {
        (self.d as u16) * 256 + self.e as u16
    }

    pub fn hl(&self) -> (r: u16)
        ensures
            r == self.get16(Reg16::HL),
    {
        (self.h as u16) * 256 + self.l as u16
    }

    pub fn set_af(&mut self, value: u16)
        ensures
            *final(self) == old(self).set16(Reg16::AF, value),
    {
        self.a = (value / 256) as u8;
        self.f = Flags::from_bits((value % 256) as u8);
    }

    pub fn set_bc(&mut self, value: u16)
        ensures
            *final(self) == old(self).set16(Reg16::BC, value),
    {
        self.b = (value / 256) as u8;
        self.c = (value % 256) as u8;
    }

    pub fn set_de(&mut self, value: u16)
        ensures
            *final(self) == old(self).set16(Reg16::DE, value),
    {
        self.d = (value / 256) as u8;
        self.e = (value % 256) as u8;
    }

    pub fn set_hl(&mut self, value: u16)
        ensures
            *final(self) == old(self).set16(Reg16::HL, value),
    {
        self.h = (value / 256) as u8;
        self.l = (value % 256) as u8;
    }

    pub fn read8(&self, reg: Reg8) -> (r: u8)
        ensures
            r == self.get8(reg),
    {
        match reg {
            Reg8::A => self.a,
            Reg8::B => self.b,
            Reg8::C => self.c,
            Reg8::D => self.d,
            Reg8::E => self.e,
            Reg8::H => self.h,
            Reg8::L => self.l,
        }
    }

    pub fn write8(&mut self, reg: Reg8, value: u8)
        ensures
            *final(self) == old(self).set8(reg, value),
    {
        match reg {
            Reg8::A => self.a = value,
            Reg8::B => self.b = value,
            Reg8::C => self.c = value,
            Reg8::D => self.d = value,
            Reg8::E => self.e = value,
            Reg8::H => self.h = value,
            Reg8::L => self.l = value,
        }
    }

    pub fn read16(&self, reg: Reg16) -> (r: u16)
        ensures
            r == self.get16(reg),
    {
        match reg {
            Reg16::AF => self.af(),
            Reg16::BC => self.bc(),
            Reg16::DE => self.de(),
            Reg16::HL => self.hl(),
            Reg16::SP => self.sp,
        }
    }

    pub fn write16(&mut self, reg: Reg16, value: u16)
        ensures
            *final(self) == old(self).set16(reg, value),
    {
        match reg {
            Reg16::AF => self.set_af(value),
            Reg16::BC => self.set_bc(value),
            Reg16::DE => self.set_de(value),
            Reg16::HL => self.set_hl(value),
            Reg16::SP => self.sp = value,
        }
    }
}

impl Default for Registers {
    fn default() -> (r: Self)
        ensures
            r == post_boot_registers(),
    {
        Self::post_boot_cgb()
    }
}

/// Writing a pair and reading it back gives the value written, except that `F` keeps
/// only its top 4 bits; the other registers are left as they were.
pub proof fn lemma_pair_round_trip(regs: Registers, reg: Reg16, value: u16)
    ensures
        regs.set16(reg, value).get16(reg) == (if reg is AF {
            (value - value % 16) as u16
        } else {
            value
        }),
        reg !is AF ==> regs.set16(reg, value).f == regs.f,
        reg !is SP ==> regs.set16(reg, value).sp == regs.sp,
        regs.set16(reg, value).pc == regs.pc,
{
    if reg is AF {
        lemma_flags_drop_low_nibble(low_byte(value));
    }
}

/// Writing one 8-bit register and reading it back gives the value written, and no other
/// register changes.
pub proof fn lemma_register_round_trip(regs: Registers, reg: Reg8, other: Reg8, value: u8)
    ensures
        regs.set8(reg, value).get8(reg) == value,
        other != reg ==> regs.set8(reg, value).get8(other) == regs.get8(other),
{
}

/// Each register pair is its first register as the high byte and its second as the low one
/// (A and F for AF), and setting a pair sets its two halves to those bytes of the value;
/// in F, Z is bit 7, N bit 6, H bit 5 and C bit 4.
pub proof fn lemma_pair_halves(regs: Registers, value: u16)
    ensures
        regs.get16(Reg16::BC) == regs.b * 256 + regs.c,
        regs.get16(Reg16::DE) == regs.d * 256 + regs.e,
        regs.get16(Reg16::HL) == regs.h * 256 + regs.l,
        regs.get16(Reg16::AF) == regs.a * 256 + 128 * (if regs.f.z { 1int } else { 0 }) + 64 * (
        if regs.f.n { 1int } else { 0 }) + 32 * (if regs.f.h { 1int } else { 0 }) + 16 * (if regs.f.c {
            1int
        } else {
            0
        }),
        regs.set16(Reg16::BC, value).b * 256 + regs.set16(Reg16::BC, value).c == value,
        regs.set16(Reg16::DE, value).d * 256 + regs.set16(Reg16::DE, value).e == value,
        regs.set16(Reg16::HL, value).h * 256 + regs.set16(Reg16::HL, value).l == value,
        regs.set16(Reg16::AF, value).a == value / 256,
{
}

} // verus!
