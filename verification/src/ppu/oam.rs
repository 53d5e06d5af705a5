//! Before drawing a line, the screen picks at most ten sprites that touch it.
use vstd::prelude::*;

verus! {

pub const MAX_SPRITES_PER_LINE: usize = 10;

#[derive(Debug, Clone, Copy, Default, PartialEq, Eq, Structural)]
pub struct Sprite {
    pub y: u8,  // stored 16 lower than it looks, so sprites can slide in from the top
    pub x: u8,  // stored 8 further right, so sprites can slide in from the left
    pub tile: u8,  // which picture to draw
    pub attributes: u8,  // palette, flips, and whether the background covers it
}

pub struct SpriteScan {
    sprites: Vec<Sprite>,  // the ten slots
    len: usize,  // how many of them this line filled
}

pub struct ScanView {
    pub sprites: Seq<Sprite>,
    pub len: nat,
}

impl ScanView {
    pub open spec fn wf(self) -> bool {
        self.sprites.len() == MAX_SPRITES_PER_LINE && self.len <= MAX_SPRITES_PER_LINE
    }
}

impl View for SpriteScan {
    type V = ScanView;

    closed spec fn view(&self) -> ScanView {
        ScanView { sprites: self.sprites@, len: self.len as nat }
    }
}

/// Ten blank slots, none of them filled.
pub open spec fn empty_scan() -> ScanView {
    ScanView {
        sprites: Seq::new(10, |i: int| Sprite { y: 0, x: 0, tile: 0, attributes: 0 }),
        len: 0,
    }
}

impl SpriteScan {
    pub fn new() -> (r: Self)
        ensures
            r@ == empty_scan(),
            r@.wf(),
    {
        let blank = Sprite { y: 0, x: 0, tile: 0, attributes: 0 };
        let r = Self { sprites: vec![blank; MAX_SPRITES_PER_LINE], len: 0 };
        assert(r.sprites@ =~= empty_scan().sprites);
        r
    }

    pub fn clear(&mut self)
        ensures
            final(self)@ == (ScanView { len: 0, ..old(self)@ }),
    {
        self.len = 0;
    }

    /// The sprites picked for this line, in the order they were picked.
    pub fn visible(&self) -> (r: &[Sprite])
        requires
            self@.wf(),
        ensures
            r@ == self@.sprites.subrange(0, self@.len as int),
    {
        let all = self.sprites.as_slice();
        &all[0..self.len]
    }
}

impl Default for SpriteScan {
    fn default() -> (r: Self)
        ensures
            r@ == empty_scan(),
    {
        Self::new()
    }
}

} // verus!
