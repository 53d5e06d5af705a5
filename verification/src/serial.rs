//! The link cable port. Nothing is plugged in, but test ROMs print their results through it.
use vstd::prelude::*;

verus! {

pub struct Serial {
    sb: u8,  // FF01 the byte being sent or received
    sc: u8,  // FF02 starts a transfer and picks the clock
    output: Vec<u8>,  // everything sent out; test ROMs print their result here
}

/// What the port holds: the two registers and everything sent so far.
pub struct SerialView {
    pub sb: u8,
    pub sc: u8,
    pub output: Seq<u8>,
}

impl SerialView {
    pub open spec fn read_spec(self, addr: u16) -> u8 {
        if addr == 0xFF01 {
            self.sb
        } else if addr == 0xFF02 {
            self.sc | 0x7E
        } else {
            0xFF
        }
    }

    /// Writing FF02 with bits 7 and 0 both set sends SB out on the internal clock.
    pub open spec fn write_spec(self, addr: u16, value: u8) -> SerialView {
        if addr == 0xFF01 {
            SerialView { sb: value, ..self }
        } else if addr == 0xFF02 {
            SerialView {
                sc: value,
                output: if value & 0x81 == 0x81 {
                    self.output.push(self.sb)
                } else {
                    self.output
                },
                ..self
            }
        } else {
            self
        }
    }
}

impl View for Serial {
    type V = SerialView;

    closed spec fn view(&self) -> SerialView {
        SerialView { sb: self.sb, sc: self.sc, output: self.output@ }
    }
}

impl Serial {
    pub fn new() -> (r: Self)
        ensures
            r@ == (SerialView { sb: 0, sc: 0, output: Seq::empty() }),
    {
        Self { sb: 0, sc: 0, output: Vec::new() }
    }

    /// Transfers are not timed yet, so the port never raises its interrupt.
    pub fn tick(&mut self, _t_cycles: u32) -> (irq: u8)
        ensures
            final(self)@ == old(self)@,
            irq == 0,
    {
        0
    }

    pub fn output(&self) -> (r: &[u8])
        ensures
            r@ == self@.output,
    {
        self.output.as_slice()
    }

    pub fn read(&self, addr: u16) -> (r: u8)
        ensures
            r == self@.read_spec(addr),
    {
        match addr {
            0xFF01 => self.sb,
            0xFF02 => self.sc | 0x7E,
            _ => 0xFF,
        }
    }

    pub fn write(&mut self, addr: u16, value: u8)
        ensures
            final(self)@ == old(self)@.write_spec(addr, value),
    {
        match addr {
            0xFF01 => self.sb = value,
            0xFF02 => {
                self.sc = value;
                if value & 0x81 == 0x81 {
                    self.output.push(self.sb);
                }
            },
            _ => {},
        }
    }
}

impl Default for Serial {
    fn default() -> (r: Self)
        ensures
            r@ == (SerialView { sb: 0, sc: 0, output: Seq::empty() }),
    {
        Self::new()
    }
}

/// A byte put in SB and then sent by writing 0x81 to SC lands at the end of the output,
/// after everything printed before it.
pub proof fn lemma_sent_byte_is_printed(port: SerialView, byte: u8)
    ensures
        port.write_spec(0xFF01, byte).write_spec(0xFF02, 0x81).output == port.output.push(byte),
{
    assert((0x81u8 & 0x81u8) == 0x81u8) by (bit_vector);
}

} // verus!
