//! The eight sums on A, and the flags each one leaves behind.
use super::registers::{Flags, Registers};
use super::Cpu;
use vstd::arithmetic::div_mod::lemma_fundamental_div_mod_converse;
use vstd::prelude::*;

verus! {

pub open spec fn bit(b: bool) -> int {
    if b {
        1
    } else {
        0
    }
}

/// A byte plus another byte plus an optional carry.
pub open spec fn add_spec(a: u8, b: u8, carry: bool) -> (u8, Flags) {
    let sum = a + b + bit(carry);
    let result = (sum % 256) as u8;
    (
        result,
        Flags {
            z: result == 0,
            n: false,
            h: a % 16 + b % 16 + bit(carry) > 15,
            c: sum > 255,
        },
    )
}

/// A byte minus another byte minus an optional borrow.
pub open spec fn sub_spec(a: u8, b: u8, carry: bool) -> (u8, Flags) {
    let difference = a - b - bit(carry);
    let result = (if difference < 0 { difference + 256 } else { difference }) as u8;
    (
        result,
        Flags {
            z: result == 0,
            n: true,
            h: a % 16 < b % 16 + bit(carry),
            c: a < b + bit(carry),
        },
    )
}

pub open spec fn logic_spec(result: u8, half: bool) -> (u8, Flags) {
    (result, Flags { z: result == 0, n: false, h: half, c: false })
}

pub open spec fn inc_spec(value: u8, carry: bool) -> (u8, Flags) {
    let result = ((value + 1) % 256) as u8;
    (result, Flags { z: result == 0, n: false, h: value % 16 == 15, c: carry })
}

pub open spec fn dec_spec(value: u8, carry: bool) -> (u8, Flags) {
    let result = (if value == 0 { 255 } else { value - 1 }) as u8;
    (result, Flags { z: result == 0, n: true, h: value % 16 == 0, c: carry })
}

pub open spec fn add_wide_spec(a: u16, b: u16, zero: bool) -> (u16, Flags) {
    let sum = a + b;
    (
        (sum % 65536) as u16,
        Flags { z: zero, n: false, h: a % 4096 + b % 4096 > 4095, c: sum > 65535 },
    )
}

/// A byte read as a signed number from -128 to 127.
pub open spec fn signed(offset: u8) -> int {
    if offset < 128 {
        offset as int
    } else {
        offset - 256
    }
}

/// A 16-bit number moved by a signed byte, wrapping round at both ends.
pub open spec fn offset_by(value: u16, offset: u8) -> u16 {
    ((value + signed(offset) + 65536) % 65536) as u16
}

pub open spec fn add_offset_spec(sp: u16, offset: u8) -> (u16, Flags) {
    (
        offset_by(sp, offset),
        Flags { z: false, n: false, h: sp % 16 + offset % 16 > 15, c: sp % 256 + offset > 255 },
    )
}

pub open spec fn daa_spec(a: u8, flags: Flags) -> (u8, Flags) {
    let (result, carry) = if flags.n {
        let adjust = (if flags.c { 0x60int } else { 0 }) + (if flags.h { 0x06int } else { 0 });
        ((if a >= adjust { a - adjust } else { a - adjust + 256 }) as u8, flags.c)
    } else {
        let high = flags.c || a > 0x99;
        let adjust = (if high { 0x60int } else { 0 }) + (if flags.h || a % 16 > 9 {
            0x06int
        } else {
            0
        });
        (((a + adjust) % 256) as u8, high)
    };
    (result, Flags { z: result == 0, n: flags.n, h: false, c: carry })
}

/// The eight rotates and shifts, picked by the low 3 bits of `kind`: the result, and the
/// bit that falls off.
pub open spec fn shift_result(kind: u8, value: u8, carry: bool) -> (int, int) {
    let k = kind % 8;
    let value = value as int;
    if k == 0 {
        ((value * 2) % 256 + value / 128, value / 128)  // RLC

    } else if k == 1 {
        (value / 2 + (value % 2) * 128, value % 2)  // RRC

    } else if k == 2 {
        ((value * 2) % 256 + bit(carry), value / 128)  // RL

    } else if k == 3 {
        (value / 2 + bit(carry) * 128, value % 2)  // RR

    } else if k == 4 {
        ((value * 2) % 256, value / 128)  // SLA

    } else if k == 5 {
        (value / 2 + (value / 128) * 128, value % 2)  // SRA

    } else if k == 6 {
        ((value % 16) * 16 + value / 16, 0)  // SWAP

    } else {
        (value / 2, value % 2)  // SRL

    }
}

pub open spec fn shift_spec(kind: u8, value: u8, carry: bool) -> (u8, Flags) {
    let (result, out) = shift_result(kind, value, carry);
    (result as u8, Flags { z: result == 0, n: false, h: false, c: out != 0 })
}

/// The eight sums on A, picked by the low 3 bits of `kind`: ADD ADC SUB SBC AND XOR OR CP.
pub open spec fn alu_spec(kind: u8, a: u8, value: u8, carry: bool) -> (u8, Flags) {
    let k = kind % 8;
    if k == 0 {
        add_spec(a, value, false)
    } else if k == 1 {
        add_spec(a, value, carry)
    } else if k == 2 {
        sub_spec(a, value, false)
    } else if k == 3 {
        sub_spec(a, value, carry)
    } else if k == 4 {
        logic_spec(a & value, true)
    } else if k == 5 {
        logic_spec(a ^ value, false)
    } else if k == 6 {
        logic_spec(a | value, false)
    } else {
        (a, sub_spec(a, value, false).1)
    }
}

proof fn lemma_masks8()
    by (bit_vector)
    ensures
        forall|x: u8| #[trigger] (x & 0x0F) == x % 16,
        forall|x: u8| #[trigger] (x & 0x07) == x % 8,
{
}

proof fn lemma_masks16()
    by (bit_vector)
    ensures
        forall|x: u16| #[trigger] (x & 0x0F) == x % 16,
        forall|x: u16| #[trigger] (x & 0xFF) == x % 256,
        forall|x: u16| #[trigger] (x & 0x0FFF) == x % 4096,
{
}

proof fn lemma_masks()
    ensures
        forall|x: u8| #[trigger] (x & 0x0F) == x % 16,
        forall|x: u8| #[trigger] (x & 0x07) == x % 8,
        forall|x: u16| #[trigger] (x & 0x0F) == x % 16,
        forall|x: u16| #[trigger] (x & 0xFF) == x % 256,
        forall|x: u16| #[trigger] (x & 0x0FFF) == x % 4096,
{
    lemma_masks8();
    lemma_masks16();
}

proof fn lemma_shift_bits(v: u8, c: u8)
    requires
        c <= 1,
    ensures
        ((v << 1u8) | (v >> 7u8)) == (v * 2) % 256 + v / 128,
        ((v >> 1u8) | (v << 7u8)) == v / 2 + (v % 2) * 128,
        ((v << 1u8) | c) == (v * 2) % 256 + c,
        ((v >> 1u8) | (c << 7u8)) == v / 2 + c * 128,
        (v << 1u8) == (v * 2) % 256,
        ((v >> 1u8) | (v & 0x80)) == v / 2 + (v / 128) * 128,
        ((v << 4u8) | (v >> 4u8)) == (v % 16) * 16 + v / 16,
        (v >> 1u8) == v / 2,
        (v >> 7u8) == v / 128,
        (v & 1) == v % 2,
{
    assert(((v << 1u8) | (v >> 7u8)) == (v * 2) % 256 + v / 128 && ((v >> 1u8) | (v << 7u8)) == v
        / 2 + (v % 2) * 128 && ((v << 1u8) | c) == (v * 2) % 256 + c && ((v >> 1u8) | (c << 7u8))
        == v / 2 + c * 128 && (v << 1u8) == (v * 2) % 256 && ((v >> 1u8) | (v & 0x80)) == v / 2 + (v
        / 128) * 128 && ((v << 4u8) | (v >> 4u8)) == (v % 16) * 16 + v / 16 && (v >> 1u8) == v / 2
        && (v >> 7u8) == v / 128 && (v & 1) == v % 2) by (bit_vector)
        requires
            c <= 1,
    ;
}

// Add two bytes plus an optional carry, noting both kinds of overflow.
pub fn add(a: u8, b: u8, carry: bool) -> (r: (u8, Flags))
    ensures
        r == add_spec(a, b, carry),
{
    proof {
        lemma_masks();
    }
    let carry: u16 = if carry { 1 } else { 0 };
    let sum: u16 = a as u16 + b as u16 + carry;
    let result = (sum % 256) as u8;
    let flags = Flags {
        z: result == 0,
        n: false,
        h: (a & 0x0F) as u16 + (b & 0x0F) as u16 + carry > 0x0F,  // the low four bits overflowed
        c: sum > 0xFF,
    };
    (result, flags)
}

// Subtract a byte and an optional borrow, noting both kinds of borrow.
pub fn sub(a: u8, b: u8, carry: bool) -> (r: (u8, Flags))
    ensures
        r == sub_spec(a, b, carry),
{
    proof {
        lemma_masks();
    }
    let carry: u16 = if carry { 1 } else { 0 };
    let result = a.wrapping_sub(b).wrapping_sub(carry as u8);
    let flags = Flags {
        z: result == 0,
        n: true,
        h: ((a & 0x0F) as u16) < (b & 0x0F) as u16 + carry,  // the low four bits had to borrow
        c: (a as u16) < b as u16 + carry,
    };
    (result, flags)
}

// AND, XOR and OR never carry. AND is the odd one that always sets H.
pub fn logic(result: u8, half: bool) -> (r: (u8, Flags))
    ensures
        r == logic_spec(result, half),
{
    let flags = Flags { z: result == 0, n: false, h: half, c: false };
    (result, flags)
}

// Add one. The carry flag is left as it was.
pub fn inc(value: u8, carry: bool) -> (r: (u8, Flags))
    ensures
        r == inc_spec(value, carry),
{
    proof {
        lemma_masks();
    }
    let result = value.wrapping_add(1);
    let flags = Flags { z: result == 0, n: false, h: value & 0x0F == 0x0F, c: carry };
    (result, flags)
}

// Subtract one. The carry flag is left as it was.
pub fn dec(value: u8, carry: bool) -> (r: (u8, Flags))
    ensures
        r == dec_spec(value, carry),
{
    proof {
        lemma_masks();
    }
    let result = value.wrapping_sub(1);
    let flags = Flags { z: result == 0, n: true, h: value & 0x0F == 0x00, c: carry };
    (result, flags)
}

// Add two 16-bit numbers. H comes from bit 11, C from bit 15, and Z is left as it was.
pub fn add_wide(a: u16, b: u16, zero: bool) -> (r: (u16, Flags))
    ensures
        r == add_wide_spec(a, b, zero),
{
    proof {
        lemma_masks();
    }
    let sum: u32 = a as u32 + b as u32;
    let flags = Flags {
        z: zero,
        n: false,
        h: (a & 0x0FFF) + (b & 0x0FFF) > 0x0FFF,
        c: sum > 0xFFFF,
    };
    ((sum % 65536) as u16, flags)
}

/// A 16-bit number moved by a signed byte, wrapping round at both ends.
pub fn move_by(value: u16, offset: u8) -> (r: u16)
    ensures
        r == offset_by(value, offset),
{
    if offset < 128 {
        value.wrapping_add(offset as u16)
    } else {
        value.wrapping_sub(256 - offset as u16)
    }
}

// SP plus a signed byte. Both carries come from the low byte, not the whole address.
pub fn add_offset(sp: u16, offset: u8) -> (r: (u16, Flags))
    ensures
        r == add_offset_spec(sp, offset),
{
    proof {
        lemma_masks();
    }
    let result = move_by(sp, offset);
    let low = offset as u16;
    let flags = Flags {
        z: false,
        n: false,
        h: (sp & 0x0F) + (low & 0x0F) > 0x0F,
        c: (sp & 0xFF) + low > 0xFF,
    };
    (result, flags)
}

// Fix A after adding or subtracting two decimal numbers stored one digit per nibble.
pub fn daa(a: u8, flags: Flags) -> (r: (u8, Flags))
    ensures
        r == daa_spec(a, flags),
{
    proof {
        lemma_masks();
    }
    let mut adjust: u8 = 0;
    let mut carry = flags.c;
    let result = if flags.n {
        if flags.c {
            adjust = adjust + 0x60;
        }
        if flags.h {
            adjust = adjust + 0x06;
        }
        a.wrapping_sub(adjust)
    } else {
        if flags.c || a > 0x99 {
            adjust = adjust + 0x60;
            carry = true;
        }
        if flags.h || a & 0x0F > 0x09 {
            adjust = adjust + 0x06;
        }
        a.wrapping_add(adjust)
    };
    let flags = Flags { z: result == 0, n: flags.n, h: false, c: carry };
    (result, flags)
}

// The eight CB rotates and shifts, picked by bits 3 to 5. C catches the bit that falls off.
pub fn shift(kind: u8, value: u8, carry: bool) -> (r: (u8, Flags))
    ensures
        r == shift_spec(kind, value, carry),
{
    proof {
        lemma_masks();
        lemma_shift_bits(value, if carry { 1 } else { 0 });
    }
    let carry: u8 = if carry { 1 } else { 0 };
    let (result, out) = match kind & 0x07 {
        0 => ((value << 1u8) | (value >> 7u8), value >> 7u8),  // RLC: bit 7 wraps to bit 0
        1 => ((value >> 1u8) | (value << 7u8), value & 1),  // RRC: bit 0 wraps to bit 7
        2 => ((value << 1u8) | carry, value >> 7u8),  // RL: the old carry comes in
        3 => ((value >> 1u8) | (carry << 7u8), value & 1),  // RR
        4 => (value << 1u8, value >> 7u8),  // SLA: a zero comes in
        5 => ((value >> 1u8) | (value & 0x80), value & 1),  // SRA: bit 7 stays put
        6 => ((value << 4u8) | (value >> 4u8), 0),  // SWAP: the halves trade places
        _ => (value >> 1u8, value & 1),  // SRL: a zero comes in at the top
    };
    let flags = Flags { z: result == 0, n: false, h: false, c: out != 0 };
    (result, flags)
}

impl Cpu {
    // Bits 3 to 5 of the opcode pick the sum: ADD ADC SUB SBC AND XOR OR CP.
    pub fn alu(&mut self, kind: u8, value: u8)
        ensures
            ({
                let (result, flags) = alu_spec(kind, old(self).regs.a, value, old(self).regs.f.c);
                *final(self) == (Cpu {
                    regs: Registers { a: result, f: flags, ..old(self).regs },
                    ..*old(self)
                })
            }),
    {
        proof {
            lemma_masks();
        }
        let a = self.regs.a;
        let carry = self.regs.f.c;
        let (result, flags) = match kind & 0x07 {
            0 => self::add(a, value, false),
            1 => self::add(a, value, carry),
            2 => self::sub(a, value, false),
            3 => self::sub(a, value, carry),
            4 => logic(a & value, true),
            5 => logic(a ^ value, false),
            6 => logic(a | value, false),
            _ => (a, self::sub(a, value, false).1),  // CP: subtract for the flags, keep A
        };
        self.regs.a = result;
        self.regs.f = flags;
    }
}

/// Decimal addition: two numbers from 0 to 99, each stored as two decimal digits, added
/// and then fixed by DAA, give the decimal digits of their sum; C is set exactly when the
/// sum reaches 100, and Z when the last two digits are zero.
#[verifier::rlimit(50)]
pub proof fn lemma_daa_fixes_addition(a_tens: u8, a_ones: u8, b_tens: u8, b_ones: u8)
    requires
        a_tens < 10,
        a_ones < 10,
        b_tens < 10,
        b_ones < 10,
    ensures
        ({
            let a = a_tens * 10 + a_ones;
            let b = b_tens * 10 + b_ones;
            let s = (a + b) % 100;
            let (sum, flags) = add_spec(
                (a_tens * 16 + a_ones) as u8,
                (b_tens * 16 + b_ones) as u8,
                false,
            );
            let (fixed, after) = daa_spec(sum, flags);
            &&& fixed == (s / 10) * 16 + s % 10
            &&& after.c == (a + b >= 100)
            &&& after.z == (s == 0)
        }),
{
    let x = (a_tens * 16 + a_ones) as u8;
    let y = (b_tens * 16 + b_ones) as u8;
    let (at, ao, bt, bo) = (a_tens as int, a_ones as int, b_tens as int, b_ones as int);
    lemma_fundamental_div_mod_converse(x as int, 16, at, ao);
    lemma_fundamental_div_mod_converse(y as int, 16, bt, bo);
    let low_carry = ao + bo >= 10;
    let low = if low_carry { ao + bo - 10 } else { ao + bo };
    let tens = at + bt + (if low_carry { 1int } else { 0 });
    let high_carry = tens >= 10;
    let hi = if high_carry { tens - 10 } else { tens };
    let total = at * 10 + ao + bt * 10 + bo;
    lemma_fundamental_div_mod_converse(total, 100, if high_carry { 1 } else { 0 }, hi * 10 + low);
    lemma_fundamental_div_mod_converse(hi * 10 + low, 10, hi, low);
    let raw = x + y;
    let (sum, flags) = add_spec(x, y, false);
    let (fixed, after) = daa_spec(sum, flags);
    if raw < 256 {
        lemma_fundamental_div_mod_converse(raw, 256, 0, raw);
    } else {
        lemma_fundamental_div_mod_converse(raw, 256, 1, raw - 256);
    }
    if !low_carry && !high_carry {
        lemma_fundamental_div_mod_converse(sum as int, 16, at + bt, ao + bo);
        lemma_fundamental_div_mod_converse(sum as int, 256, 0, sum as int);
        assert(fixed == 16 * hi + low);
    } else if low_carry && !high_carry {
        if ao + bo < 16 {
            lemma_fundamental_div_mod_converse(sum as int, 16, at + bt, ao + bo);
        } else {
            lemma_fundamental_div_mod_converse(sum as int, 16, at + bt + 1, ao + bo - 16);
        }
        lemma_fundamental_div_mod_converse(sum + 6, 256, 0, sum + 6);
        assert(fixed == 16 * hi + low);
    } else if !low_carry && high_carry {
        let t = if raw < 256 { at + bt } else { at + bt - 16 };
        lemma_fundamental_div_mod_converse(sum as int, 16, t, ao + bo);
        if raw < 256 {
            lemma_fundamental_div_mod_converse(sum + 0x60, 256, 1, 16 * hi + low);
        } else {
            lemma_fundamental_div_mod_converse(sum + 0x60, 256, 0, 16 * hi + low);
        }
        assert(fixed == 16 * hi + low);
    } else {
        let t = if raw < 256 { at + bt } else { at + bt - 16 };
        if ao + bo < 16 {
            lemma_fundamental_div_mod_converse(sum as int, 16, t, ao + bo);
        } else {
            lemma_fundamental_div_mod_converse(sum as int, 16, t + 1, ao + bo - 16);
        }
        if raw < 256 {
            lemma_fundamental_div_mod_converse(sum + 0x66, 256, 1, 16 * hi + low);
        } else {
            lemma_fundamental_div_mod_converse(sum + 0x66, 256, 0, 16 * hi + low);
        }
        assert(fixed == 16 * hi + low);
    }
}

/// Decimal subtraction: two numbers from 0 to 99, each stored as two decimal digits,
/// subtracted and then fixed by DAA, give the decimal digits of the difference counted
/// modulo 100; C is set exactly when the second was larger, and N stays set.
#[verifier::rlimit(50)]
pub proof fn lemma_daa_fixes_subtraction(a_tens: u8, a_ones: u8, b_tens: u8, b_ones: u8)
    requires
        a_tens < 10,
        a_ones < 10,
        b_tens < 10,
        b_ones < 10,
    ensures
        ({
            let a = a_tens * 10 + a_ones;
            let b = b_tens * 10 + b_ones;
            let d = (a + 100 - b) % 100;
            let (difference, flags) = sub_spec(
                (a_tens * 16 + a_ones) as u8,
                (b_tens * 16 + b_ones) as u8,
                false,
            );
            let (fixed, after) = daa_spec(difference, flags);
            &&& fixed == (d / 10) * 16 + d % 10
            &&& after.c == (a < b)
            &&& after.n
        }),
{
    let x = (a_tens * 16 + a_ones) as u8;
    let y = (b_tens * 16 + b_ones) as u8;
    let (at, ao, bt, bo) = (a_tens as int, a_ones as int, b_tens as int, b_ones as int);
    lemma_fundamental_div_mod_converse(x as int, 16, at, ao);
    lemma_fundamental_div_mod_converse(y as int, 16, bt, bo);
    let borrow = ao < bo;
    let low = if borrow { ao + 10 - bo } else { ao - bo };
    let tens = at - bt - (if borrow { 1int } else { 0 });
    let hi = if tens < 0 { tens + 10 } else { tens };
    let total = at * 10 + ao + 100 - bt * 10 - bo;
    assert(total == 100 + tens * 10 + low);
    lemma_fundamental_div_mod_converse(total, 100, if tens < 0 { 0 } else { 1 }, hi * 10 + low);
    lemma_fundamental_div_mod_converse(hi * 10 + low, 10, hi, low);
    let d = x - y;
    assert(d == 16 * tens + low + (if borrow { 6int } else { 0 }));
    assert(x < y <==> tens < 0);
    let (difference, flags) = sub_spec(x, y, false);
    let (fixed, after) = daa_spec(difference, flags);
    assert(fixed == 16 * hi + low);
}

/// A left rotation is undone by a right rotation, and SWAP undoes itself.
pub proof fn lemma_rotations_undo(value: u8, carry: bool)
    ensures
        shift_spec(1, shift_spec(0, value, carry).0, carry).0 == value,
        shift_spec(0, shift_spec(1, value, carry).0, carry).0 == value,
        shift_spec(6, shift_spec(6, value, carry).0, carry).0 == value,
        shift_spec(3, shift_spec(2, value, carry).0, shift_spec(2, value, carry).1.c).0 == value,
{
    let v = value as int;
    let (q, m) = (v / 128, v % 128);
    let (q2, m2) = (v / 2, v % 2);
    let (h, l) = (v / 16, v % 16);
    lemma_fundamental_div_mod_converse(v, 128, q, m);
    lemma_fundamental_div_mod_converse(2 * v, 256, q, 2 * m);
    lemma_fundamental_div_mod_converse(2 * m + q, 2, m, q);
    lemma_fundamental_div_mod_converse(2 * m + bit(carry), 2, m, bit(carry));
    lemma_fundamental_div_mod_converse(v, 2, q2, m2);
    lemma_fundamental_div_mod_converse(q2 + m2 * 128, 128, m2, q2);
    lemma_fundamental_div_mod_converse(2 * (q2 + m2 * 128), 256, m2, 2 * q2);
    lemma_fundamental_div_mod_converse(v, 16, h, l);
    lemma_fundamental_div_mod_converse(l * 16 + h, 16, l, h);
}

// A sum of two bytes and a carry: its low byte, and the low nibble of that, carry out as
// the plain sums do.
#[verifier::rlimit(30)]
proof fn lemma_byte_sum(x: int, y: int, cin: int)
    requires
        0 <= x < 256,
        0 <= y < 256,
        0 <= cin <= 1,
    ensures
        (x + y + cin) % 256 + 256 * (if x + y + cin > 255 { 1int } else { 0 }) == x + y + cin,
        ((x + y + cin) % 256) % 16 + 16 * (if x % 16 + y % 16 + cin > 15 { 1int } else { 0 })
            == x % 16 + y % 16 + cin,
{
    let t = x + y + cin;
    let r = if t > 255 {
        t - 256
    } else {
        t
    };
    assert(t % 256 == r);
    let (qx, qy) = (x / 16, y / 16);
    assert(x == 16 * qx + x % 16 && y == 16 * qy + y % 16);
    let low = x % 16 + y % 16 + cin;
    assert(r == 16 * (qx + qy - (if t > 255 { 16int } else { 0 })) + low);
    if low > 15 {
        assert(r == 16 * (qx + qy - (if t > 255 { 16int } else { 0 }) + 1) + (low - 16));
        assert(r % 16 == low - 16);
    } else {
        assert(r % 16 == low);
    }
}

// A difference of two bytes and a borrow, taken round 256: its low nibble borrows as the
// plain differences do.
proof fn lemma_byte_difference(x: int, y: int, cin: int)
    requires
        0 <= x < 256,
        0 <= y < 256,
        0 <= cin <= 1,
    ensures
        ({
            let d = x - y - cin;
            let r = if d < 0 {
                d + 256
            } else {
                d
            };
            &&& r - 256 * (if x < y + cin { 1int } else { 0 }) == d
            &&& r % 16 - 16 * (if x % 16 < y % 16 + cin { 1int } else { 0 }) == x % 16 - y % 16 - cin
        }),
{
}

/// The eight sums on A as the arithmetic they are. ADD and ADC: the result plus 256 for a
/// carry out is A plus the operand (plus the carry in for ADC), and the low nibbles add up the
/// same way with 16 for H. SUB and SBC: the result minus 256 for a borrow is A minus the
/// operand (minus the carry in for SBC), and the low nibbles the same way with H. CP sets
/// the flags SUB would and keeps A. AND, XOR and OR give the bitwise result with C cleared
/// and H set by AND alone. Z says whether the result is 0; only the subtractions set N.
pub proof fn lemma_alu_arithmetic(kind: u8, a: u8, value: u8, carry: bool)
    ensures
        ({
            let (r, f) = alu_spec(kind, a, value, carry);
            let cin = if kind % 8 == 1 || kind % 8 == 3 {
                bit(carry)
            } else {
                0
            };
            &&& kind % 8 <= 1 ==> r + 256 * bit(f.c) == a + value + cin && r % 16 + 16 * bit(f.h)
                == a % 16 + value % 16 + cin && !f.n
            &&& 2 <= kind % 8 <= 3 ==> r - 256 * bit(f.c) == a - value - cin && r % 16 - 16 * bit(
                f.h,
            ) == a % 16 - value % 16 - cin && f.n
            &&& kind % 8 <= 6 ==> f.z == (r == 0)
            &&& kind % 8 == 4 ==> r == a & value && !f.n && f.h && !f.c
            &&& kind % 8 == 5 ==> r == a ^ value && !f.n && !f.h && !f.c
            &&& kind % 8 == 6 ==> r == a | value && !f.n && !f.h && !f.c
            &&& kind % 8 == 7 ==> r == a && f == alu_spec(2, a, value, carry).1
        }),
{
    let k = kind % 8;
    let cin = if k == 1 || k == 3 {
        bit(carry)
    } else {
        0
    };
    lemma_byte_sum(a as int, value as int, cin);
    lemma_byte_difference(a as int, value as int, cin);
}

/// The rotates and shifts as the arithmetic they are, with C the bit that falls off: RLC
/// moves every bit up and bit 7 round into bit 0, RL moves C into bit 0 in its place, SLA
/// moves a 0 in; RRC moves every bit down and bit 0 round into bit 7, RR moves C into bit 7,
/// SRA keeps bit 7, SRL moves a 0 in; SWAP trades the nibbles and clears C. Z says whether
/// the result is 0, and N and H are cleared.
#[verifier::rlimit(30)]
pub proof fn lemma_shift_arithmetic(kind: u8, value: u8, carry: bool)
    ensures
        ({
            let (r, f) = shift_spec(kind, value, carry);
            let (v, c, cin) = (value as int, bit(f.c), bit(carry));
            &&& !f.n && !f.h && f.z == (r == 0)
            &&& kind % 8 == 0 ==> r + 256 * c == 2 * v + c
            &&& kind % 8 == 1 ==> 2 * r + c == v + 256 * c
            &&& kind % 8 == 2 ==> r + 256 * c == 2 * v + cin
            &&& kind % 8 == 3 ==> 2 * r + c == v + 256 * cin
            &&& kind % 8 == 4 ==> r + 256 * c == 2 * v
            &&& kind % 8 == 5 ==> 2 * r + c == v + 256 * (if v >= 128 {
                1int
            } else {
                0
            })
            &&& kind % 8 == 6 ==> r == 16 * (v % 16) + v / 16 && c == 0
            &&& kind % 8 == 7 ==> 2 * r + c == v
        }),
{
    let v = value as int;
    assert(v == 128 * (v / 128) + v % 128 && v == 2 * (v / 2) + v % 2);
    assert(v % 128 < 128 && v / 128 <= 1 && v / 2 < 128);
    let (out_high, out_low) = (v / 128, v % 2);
    assert((v * 2) % 256 == 2 * (v % 128)) by {
        if v >= 128 {
            assert(v * 2 == 256 + 2 * (v % 128));
        }
    }
    assert(0 <= 16 * (v % 16) + v / 16 < 256);
}

/// INC and DEC as the arithmetic they are: the result is one more or one less, round 256;
/// H is the carry out of (or the borrow into) the low nibble; Z says whether the result is
/// 0; N is set by DEC alone; C is left as it was.
pub proof fn lemma_step_arithmetic(value: u8, carry: bool)
    ensures
        ({
            let (r, f) = inc_spec(value, carry);
            &&& r == (value + 1) % 256
            &&& r % 16 + 16 * bit(f.h) == value % 16 + 1
            &&& f.z == (r == 0) && !f.n && f.c == carry
        }),
        ({
            let (r, f) = dec_spec(value, carry);
            &&& r == (value + 255) % 256
            &&& r % 16 - 16 * bit(f.h) == value % 16 - 1
            &&& f.z == (r == 0) && f.n && f.c == carry
        }),
{
    let v = value as int;
    assert(v == 16 * (v / 16) + v % 16);
    let r = ((v + 1) % 256) as int;
    if v == 255 {
        assert(r == 0);
    } else {
        assert(r == v + 1);
        if v % 16 == 15 {
            assert(r == 16 * (v / 16 + 1));
        } else {
            assert(r == 16 * (v / 16) + (v % 16 + 1));
        }
    }
    if v > 0 {
        if v % 16 == 0 {
            assert(v - 1 == 16 * (v / 16 - 1) + 15);
        } else {
            assert(v - 1 == 16 * (v / 16) + (v % 16 - 1));
        }
    }
}

/// ADD HL as the arithmetic it is: the result plus 65536 for a carry out is the sum, and the
/// low 12 bits add up the same way with 4096 for H; Z is left as it was and N cleared.
#[verifier::rlimit(30)]
pub proof fn lemma_wide_arithmetic(a: u16, b: u16, zero: bool)
    ensures
        ({
            let (r, f) = add_wide_spec(a, b, zero);
            &&& r + 65536 * bit(f.c) == a + b
            &&& r % 4096 + 4096 * bit(f.h) == a % 4096 + b % 4096
            &&& f.z == zero && !f.n
        }),
{
    let (x, y) = (a as int, b as int);
    assert(x == 4096 * (x / 4096) + x % 4096 && y == 4096 * (y / 4096) + y % 4096);
    let t = x + y;
    let r = if t > 65535 {
        t - 65536
    } else {
        t
    };
    assert(t % 65536 == r);
    let low = x % 4096 + y % 4096;
    let q = x / 4096 + y / 4096 - (if t > 65535 {
        16int
    } else {
        0
    });
    assert(r == 4096 * q + low);
    if low > 4095 {
        assert(r == 4096 * (q + 1) + (low - 4096));
    }
}

/// ADD SP,e and LD HL,SP+e as the arithmetic they are: the result is SP moved by the signed
/// byte, round 65536, while C and H are the carries of adding the byte, unsigned, to SP's low
/// byte and low nibble; Z and N are cleared.
#[verifier::rlimit(30)]
pub proof fn lemma_offset_arithmetic(sp: u16, offset: u8)
    ensures
        ({
            let (r, f) = add_offset_spec(sp, offset);
            let e = if offset < 128 {
                offset as int
            } else {
                offset - 256
            };
            &&& (r - sp - e) % 65536 == 0
            &&& r % 256 + 256 * bit(f.c) == sp % 256 + offset
            &&& r % 16 + 16 * bit(f.h) == sp % 16 + offset % 16
            &&& !f.z && !f.n
        }),
{
    let (x, o) = (sp as int, offset as int);
    let e = if o < 128 {
        o
    } else {
        o - 256
    };
    let m = x + e + 65536;
    let k: int = if m < 65536 {
        0
    } else if m < 131072 {
        1
    } else {
        2
    };
    let r = m - 65536 * k;
    assert(m % 65536 == r) by {
        vstd::arithmetic::div_mod::lemma_mod_multiples_vanish(k, r, 65536);
    }
    assert(r - x - e == 65536 * (1 - k));
    vstd::arithmetic::div_mod::lemma_mod_multiples_basic(1 - k, 65536);
    assert(x == 256 * (x / 256) + x % 256);
    let lo = x % 256 + o;
    let q = x / 256 - (if o >= 128 {
        1int
    } else {
        0
    }) + 256 - 256 * k;
    assert(r == 256 * q + lo);
    let (r8, c) = if lo > 255 {
        (lo - 256, 1int)
    } else {
        (lo, 0int)
    };
    assert(r == 256 * (q + c) + r8);
    assert(r % 256 == r8) by {
        vstd::arithmetic::div_mod::lemma_mod_multiples_vanish(q + c, r8, 256);
    }
    lemma_low_nibble(r, q + c, r8, x, o);
}

// A number that is 256 times something plus the low byte `r8` of `x % 256 + o` has the low
// nibble of `x % 16 + o % 16`, and says by it whether that nibble sum carried.
#[verifier::rlimit(30)]
proof fn lemma_low_nibble(r: int, q: int, r8: int, x: int, o: int)
    requires
        0 <= x,
        0 <= o < 256,
        r == 256 * q + r8,
        r8 == if x % 256 + o > 255 {
            x % 256 + o - 256
        } else {
            x % 256 + o
        },
    ensures
        r % 16 + 16 * (if x % 16 + o % 16 > 15 { 1int } else { 0 }) == x % 16 + o % 16,
{
    let xl = x % 256;
    assert(x == 256 * (x / 256) + xl);
    assert(x % 16 == xl % 16) by {
        vstd::arithmetic::div_mod::lemma_mod_multiples_vanish(16 * (x / 256), xl, 16);
    }
    assert(xl == 16 * (xl / 16) + xl % 16);
    assert(o == 16 * (o / 16) + o % 16);
    let nib = xl % 16 + o % 16;
    let (r4, h) = if nib > 15 {
        (nib - 16, 1int)
    } else {
        (nib, 0int)
    };
    let k = 16 * q + xl / 16 + o / 16 + h - (if xl + o > 255 { 16int } else { 0 });
    assert(r == 16 * k + r4);
    assert(r % 16 == r4) by {
        vstd::arithmetic::div_mod::lemma_mod_multiples_vanish(k, r4, 16);
    }
}

} // verus!
