//! The two pixel queues the mixer takes from.
use vstd::prelude::*;

verus! {

#[derive(Debug, Clone, Copy, Default, PartialEq, Eq, Structural)]
pub struct Pixel {
    pub color: u8,  // which of the 4 palette slots to use; the colour comes later
    pub palette: u8,  // which palette to look it up in
    pub priority: bool,  // who wins when a background pixel and a sprite land on the same spot
}

pub const CAPACITY: usize = 16;

pub struct PixelFifo {
    queue: Vec<Pixel>,  // the ring of waiting pixels
    head: usize,  // where the next pixel comes out
    len: usize,  // how many are waiting
}

pub struct FifoView {
    pub queue: Seq<Pixel>,
    pub head: nat,
    pub len: nat,
}

impl FifoView {
    pub open spec fn cleared(self) -> FifoView {
        FifoView { head: 0, len: 0, ..self }
    }
}

impl View for PixelFifo {
    type V = FifoView;

    closed spec fn view(&self) -> FifoView {
        FifoView { queue: self.queue@, head: self.head as nat, len: self.len as nat }
    }
}

/// An empty queue of 16 blank pixels.
pub open spec fn empty_fifo() -> FifoView {
    FifoView {
        queue: Seq::new(16, |i: int| Pixel { color: 0, palette: 0, priority: false }),
        head: 0,
        len: 0,
    }
}

impl PixelFifo {
    pub fn new() -> (r: Self)
        ensures
            r@ == empty_fifo(),
    {
        let blank = Pixel { color: 0, palette: 0, priority: false };
        let r = Self { queue: vec![blank; CAPACITY], head: 0, len: 0 };
        assert(r.queue@ =~= empty_fifo().queue);
        r
    }

    pub fn len(&self) -> (r: usize)
        ensures
            r == self@.len,
    {
        self.len
    }

    pub fn is_empty(&self) -> (r: bool)
        ensures
            r == (self@.len == 0),
    {
        self.len == 0
    }

    pub fn clear(&mut self)
        ensures
            final(self)@ == old(self)@.cleared(),
    {
        self.head = 0;
        self.len = 0;
    }
}

impl Default for PixelFifo {
    fn default() -> (r: Self)
        ensures
            r@ == empty_fifo(),
    {
        Self::new()
    }
}

} // verus!
