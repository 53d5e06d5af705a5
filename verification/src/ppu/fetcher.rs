//! Builds background pixels 8 at a time, in five steps of two dots each.
use vstd::prelude::*;

verus! {

#[derive(Debug, Clone, Copy, PartialEq, Eq, Structural)]
pub enum FetchStep {
    TileNumber,
    TileDataLow,
    TileDataHigh,
    Sleep,
    Push,
}

impl Default for FetchStep {
    fn default() -> (r: Self)
        ensures
            r == FetchStep::TileNumber,
    {
        FetchStep::TileNumber
    }
}

#[derive(Debug, Clone, Copy, PartialEq, Eq, Structural)]
pub struct Fetcher {
    pub step: FetchStep,  // which of the five steps we are on
    pub tile_x: u8,  // how many tiles along the line we have fetched
    pub tile_number: u8,  // which picture the map told us to draw
    pub data_low: u8,  // first half of the 8 pixels
    pub data_high: u8,  // second half; the two together give each pixel its colour
    pub window_line: u8,  // the window counts its own lines, apart from the one being drawn
    pub second_dot: bool,  // every step lasts two dots; this marks the second
}

/// A fetcher with every field at its starting value.
pub open spec fn fresh_fetcher() -> Fetcher {
    Fetcher {
        step: FetchStep::TileNumber,
        tile_x: 0,
        tile_number: 0,
        data_low: 0,
        data_high: 0,
        window_line: 0,
        second_dot: false,
    }
}

impl Fetcher {
    pub open spec fn restarted(self) -> Fetcher {
        Fetcher { step: FetchStep::TileNumber, tile_x: 0, second_dot: false, ..self }
    }

    pub fn new() -> (r: Self)
        ensures
            r == fresh_fetcher(),
    {
        Fetcher {
            step: FetchStep::TileNumber,
            tile_x: 0,
            tile_number: 0,
            data_low: 0,
            data_high: 0,
            window_line: 0,
            second_dot: false,
        }
    }

    /// Start over, at the beginning of a line or when the window switches on.
    pub fn restart(&mut self)
        ensures
            *final(self) == old(self).restarted(),
    {
        self.step = FetchStep::TileNumber;
        self.tile_x = 0;
        self.second_dot = false;
    }
}

impl Default for Fetcher {
    fn default() -> (r: Self)
        ensures
            r == fresh_fetcher(),
    {
        Self::new()
    }
}

} // verus!
