//! Which pixels of the title screen hold its words: the title, its shadow, and the byline
//! underneath. Drawing the layers and fading them stays with the host.
use crate::{FRAMEBUFFER_LEN, SCREEN_HEIGHT, SCREEN_WIDTH};
use vstd::prelude::*;

verus! {

/// Marks a letter of the title in the words layer.
pub const LETTER: u8 = 1;

/// Marks a title letter's shadow in the words layer.
pub const SHADOW: u8 = 2;

/// Marks a letter of the smaller line underneath in the words layer.
pub const BYLINE: u8 = 3;

/// Characters in the title, "RUST BOY COLOR", and in the byline, "by dudustri".
pub const TITLE_LEN: usize = 14;

pub const BYLINE_LEN: usize = 11;

/// A title letter is 5 by 7 pixels, a byline letter 3 by 5, with a pixel between letters.
pub const GLYPH_WIDTH: usize = 5;

pub const GLYPH_HEIGHT: usize = 7;

pub const SMALL_WIDTH: usize = 3;

pub const SMALL_HEIGHT: usize = 5;

pub const GLYPH_GAP: usize = 1;

/// Rows between the bottom of the title and the top of the byline.
pub const GAP_BELOW_TITLE: usize = 11;

/// The title's top-left corner, centred on the screen.
pub const TITLE_X: usize = (SCREEN_WIDTH - (TITLE_LEN * (GLYPH_WIDTH + GLYPH_GAP) - GLYPH_GAP)) / 2;

pub const TITLE_Y: usize = (SCREEN_HEIGHT - GLYPH_HEIGHT) / 2;

/// The byline's top-left corner, centred below the title.
pub const BYLINE_X: usize = (SCREEN_WIDTH - (BYLINE_LEN * (SMALL_WIDTH + GLYPH_GAP) - GLYPH_GAP)) / 2;

pub const BYLINE_Y: usize = TITLE_Y + GLYPH_HEIGHT + GAP_BELOW_TITLE;


/// The rows of a title letter, top first, each with its leftmost pixel in bit 4.
pub open spec fn letter_rows(c: char) -> Seq<u8> {
    match c {
        'R' => seq![0b11110u8, 0b10001, 0b10001, 0b11110, 0b10100, 0b10010, 0b10001],
        'U' => seq![0b10001u8, 0b10001, 0b10001, 0b10001, 0b10001, 0b10001, 0b01110],
        'S' => seq![0b01111u8, 0b10000, 0b10000, 0b01110, 0b00001, 0b00001, 0b11110],
        'T' => seq![0b11111u8, 0b00100, 0b00100, 0b00100, 0b00100, 0b00100, 0b00100],
        'B' => seq![0b11110u8, 0b10001, 0b10001, 0b11110, 0b10001, 0b10001, 0b11110],
        'O' => seq![0b01110u8, 0b10001, 0b10001, 0b10001, 0b10001, 0b10001, 0b01110],
        'Y' => seq![0b10001u8, 0b10001, 0b01010, 0b00100, 0b00100, 0b00100, 0b00100],
        'C' => seq![0b01110u8, 0b10001, 0b10000, 0b10000, 0b10000, 0b10001, 0b01110],
        'L' => seq![0b10000u8, 0b10000, 0b10000, 0b10000, 0b10000, 0b10000, 0b11111],
        _ => seq![0b00000u8, 0b00000, 0b00000, 0b00000, 0b00000, 0b00000, 0b00000],
    }
}

/// The rows of a byline letter, top first, each with its leftmost pixel in bit 2.
pub open spec fn byline_rows(c: char) -> Seq<u8> {
    match c {
        'b' => seq![0b100u8, 0b110, 0b101, 0b110, 0b000],
        'y' => seq![0b000u8, 0b101, 0b101, 0b011, 0b110],
        'd' => seq![0b001u8, 0b011, 0b101, 0b011, 0b000],
        'u' => seq![0b000u8, 0b101, 0b101, 0b111, 0b000],
        's' => seq![0b000u8, 0b011, 0b010, 0b110, 0b000],
        't' => seq![0b010u8, 0b111, 0b010, 0b011, 0b000],
        'r' => seq![0b000u8, 0b110, 0b101, 0b100, 0b000],
        'i' => seq![0b010u8, 0b000, 0b010, 0b010, 0b000],
        _ => seq![0b000u8, 0b000, 0b000, 0b000, 0b000],
    }
}

/// The title, one character at a time.
pub open spec fn title_char(i: int) -> char {
    if i == 0 {
        'R'
    } else if i == 1 {
        'U'
    } else if i == 2 {
        'S'
    } else if i == 3 {
        'T'
    } else if i == 4 {
        ' '
    } else if i == 5 {
        'B'
    } else if i == 6 {
        'O'
    } else if i == 7 {
        'Y'
    } else if i == 8 {
        ' '
    } else if i == 9 {
        'C'
    } else if i == 10 {
        'O'
    } else if i == 11 {
        'L'
    } else if i == 12 {
        'O'
    } else if i == 13 {
        'R'
    } else {
        ' '
    }
}

/// The byline, one character at a time.
pub open spec fn byline_char(i: int) -> char {
    if i == 0 {
        'b'
    } else if i == 1 {
        'y'
    } else if i == 2 {
        ' '
    } else if i == 3 {
        'd'
    } else if i == 4 {
        'u'
    } else if i == 5 {
        'd'
    } else if i == 6 {
        'u'
    } else if i == 7 {
        's'
    } else if i == 8 {
        't'
    } else if i == 9 {
        'r'
    } else if i == 10 {
        'i'
    } else {
        ' '
    }
}

/// Whether pixel `column` of a row of a glyph `width` pixels wide is set.
pub open spec fn pixel_set(bits: u8, width: int, column: int) -> bool {
    (bits >> ((width - 1 - column) as u8)) & 1 == 1
}

/// Whether the title, drawn with its top-left corner at (`x0`, `y0`), covers pixel (`x`, `y`).
pub open spec fn title_covers(x0: int, y0: int, x: int, y: int) -> bool {
    let (dx, dy) = (x - x0, y - y0);
    let step = (GLYPH_WIDTH + GLYPH_GAP) as int;
    &&& 0 <= dx
    &&& 0 <= dy < GLYPH_HEIGHT
    &&& dx / step < TITLE_LEN
    &&& dx % step < GLYPH_WIDTH
    &&& pixel_set(
        letter_rows(title_char(dx / step))[dy],
        GLYPH_WIDTH as int,
        dx % step,
    )
}

/// Whether the byline covers pixel (`x`, `y`).
pub open spec fn byline_covers(x: int, y: int) -> bool {
    let (dx, dy) = (x - BYLINE_X, y - BYLINE_Y);
    let step = (SMALL_WIDTH + GLYPH_GAP) as int;
    &&& 0 <= dx
    &&& 0 <= dy < SMALL_HEIGHT
    &&& dx / step < BYLINE_LEN
    &&& dx % step < SMALL_WIDTH
    &&& pixel_set(
        byline_rows(byline_char(dx / step))[dy],
        SMALL_WIDTH as int,
        dx % step,
    )
}

/// The layer of pixel (`x`, `y`): the byline, else a title letter, else the letters' shadow
/// one pixel down and right, else the picture (0). Later layers are drawn over earlier ones.
pub open spec fn layer_at(x: int, y: int) -> u8 {
    if byline_covers(x, y) {
        BYLINE
    } else if title_covers(TITLE_X as int, TITLE_Y as int, x, y) {
        LETTER
    } else if title_covers(TITLE_X + 1, TITLE_Y + 1, x, y) {
        SHADOW
    } else {
        0
    }
}

/// The words layer: one byte per pixel, row by row, naming the layer that pixel belongs to.
pub open spec fn words_mask() -> Seq<u8> {
    Seq::new(
        (SCREEN_WIDTH * SCREEN_HEIGHT) as nat,
        |i: int| layer_at(i % SCREEN_WIDTH as int, i / SCREEN_WIDTH as int),
    )
}


fn letter_row(c: char, row: usize) -> (r: u8)
    requires
        row < 7,
    ensures
        r == letter_rows(c)[row as int],
{
    let rows: Vec<u8> = match c {
        'R' => vec![0b11110u8, 0b10001, 0b10001, 0b11110, 0b10100, 0b10010, 0b10001],
        'U' => vec![0b10001u8, 0b10001, 0b10001, 0b10001, 0b10001, 0b10001, 0b01110],
        'S' => vec![0b01111u8, 0b10000, 0b10000, 0b01110, 0b00001, 0b00001, 0b11110],
        'T' => vec![0b11111u8, 0b00100, 0b00100, 0b00100, 0b00100, 0b00100, 0b00100],
        'B' => vec![0b11110u8, 0b10001, 0b10001, 0b11110, 0b10001, 0b10001, 0b11110],
        'O' => vec![0b01110u8, 0b10001, 0b10001, 0b10001, 0b10001, 0b10001, 0b01110],
        'Y' => vec![0b10001u8, 0b10001, 0b01010, 0b00100, 0b00100, 0b00100, 0b00100],
        'C' => vec![0b01110u8, 0b10001, 0b10000, 0b10000, 0b10000, 0b10001, 0b01110],
        'L' => vec![0b10000u8, 0b10000, 0b10000, 0b10000, 0b10000, 0b10000, 0b11111],
        _ => vec![0b00000u8, 0b00000, 0b00000, 0b00000, 0b00000, 0b00000, 0b00000],
    };
    proof {
        assert(rows@ =~= letter_rows(c));
    }
    rows[row]
}

fn byline_row(c: char, row: usize) -> (r: u8)
    requires
        row < 5,
    ensures
        r == byline_rows(c)[row as int],
{
    let rows: Vec<u8> = match c {
        'b' => vec![0b100u8, 0b110, 0b101, 0b110, 0b000],
        'y' => vec![0b000u8, 0b101, 0b101, 0b011, 0b110],
        'd' => vec![0b001u8, 0b011, 0b101, 0b011, 0b000],
        'u' => vec![0b000u8, 0b101, 0b101, 0b111, 0b000],
        's' => vec![0b000u8, 0b011, 0b010, 0b110, 0b000],
        't' => vec![0b010u8, 0b111, 0b010, 0b011, 0b000],
        'r' => vec![0b000u8, 0b110, 0b101, 0b100, 0b000],
        'i' => vec![0b010u8, 0b000, 0b010, 0b010, 0b000],
        _ => vec![0b000u8, 0b000, 0b000, 0b000, 0b000],
    };
    proof {
        assert(rows@ =~= byline_rows(c));
    }
    rows[row]
}

fn title_char_at(i: usize) -> (r: char)
    ensures
        r == title_char(i as int),
{
    match i {
        0 => 'R',
        1 => 'U',
        2 => 'S',
        3 => 'T',
        4 => ' ',
        5 => 'B',
        6 => 'O',
        7 => 'Y',
        8 => ' ',
        9 => 'C',
        10 => 'O',
        11 => 'L',
        12 => 'O',
        13 => 'R',
        _ => ' ',
    }
}

fn byline_char_at(i: usize) -> (r: char)
    ensures
        r == byline_char(i as int),
{
    match i {
        0 => 'b',
        1 => 'y',
        2 => ' ',
        3 => 'd',
        4 => 'u',
        5 => 'd',
        6 => 'u',
        7 => 's',
        8 => 't',
        9 => 'r',
        10 => 'i',
        _ => ' ',
    }
}

fn pixel_in(bits: u8, width: usize, column: usize) -> (r: bool)
    requires
        column < width <= 8,
    ensures
        r == pixel_set(bits, width as int, column as int),
{
    (bits >> ((width - 1 - column) as u8)) & 1 == 1
}

fn covered_by_title(x0: usize, y0: usize, x: usize, y: usize) -> (r: bool)
    requires
        x0 <= 1000,
        y0 <= 1000,
    ensures
        r == title_covers(x0 as int, y0 as int, x as int, y as int),
{
    if x < x0 || y < y0 || y - y0 >= GLYPH_HEIGHT {
        return false;
    }
    let (dx, dy) = (x - x0, y - y0);
    let letter = dx / (GLYPH_WIDTH + GLYPH_GAP);
    let column = dx % (GLYPH_WIDTH + GLYPH_GAP);
    if letter >= TITLE_LEN || column >= GLYPH_WIDTH {
        return false;
    }
    pixel_in(letter_row(title_char_at(letter), dy), GLYPH_WIDTH, column)
}

fn covered_by_byline(x: usize, y: usize) -> (r: bool)
    ensures
        r == byline_covers(x as int, y as int),
{
    if x < BYLINE_X || y < BYLINE_Y || y - BYLINE_Y >= SMALL_HEIGHT {
        return false;
    }
    let (dx, dy) = (x - BYLINE_X, y - BYLINE_Y);
    let letter = dx / (SMALL_WIDTH + GLYPH_GAP);
    let column = dx % (SMALL_WIDTH + GLYPH_GAP);
    if letter >= BYLINE_LEN || column >= SMALL_WIDTH {
        return false;
    }
    pixel_in(byline_row(byline_char_at(letter), dy), SMALL_WIDTH, column)
}

/// The layer of one pixel of the title screen.
pub fn layer(x: usize, y: usize) -> (r: u8)
    ensures
        r == layer_at(x as int, y as int),
{
    if covered_by_byline(x, y) {
        BYLINE
    } else if covered_by_title(TITLE_X, TITLE_Y, x, y) {
        LETTER
    } else if covered_by_title(TITLE_X + 1, TITLE_Y + 1, x, y) {
        SHADOW
    } else {
        0
    }
}

/// The words layer of the title screen: one byte per pixel, row by row, saying whether that
/// pixel is a title letter, its shadow, the byline, or the picture underneath.
pub fn words_layer() -> (r: Vec<u8>)
    ensures
        r@ == words_mask(),
        r@.len() == FRAMEBUFFER_LEN / 4,
{
    let mut mask: Vec<u8> = Vec::with_capacity(SCREEN_WIDTH * SCREEN_HEIGHT);
    let mut i: usize = 0;
    while i < SCREEN_WIDTH * SCREEN_HEIGHT
        invariant
            i <= SCREEN_WIDTH * SCREEN_HEIGHT,
            mask@ =~= words_mask().take(i as int),
        decreases SCREEN_WIDTH * SCREEN_HEIGHT - i,
    {
        mask.push(layer(i % SCREEN_WIDTH, i / SCREEN_WIDTH));
        i = i + 1;
    }
    mask
}

/// Every pixel of the words layer names one of the four layers.
pub proof fn lemma_layer_numbers(x: int, y: int)
    ensures
        layer_at(x, y) == 0 || layer_at(x, y) == LETTER || layer_at(x, y) == SHADOW
            || layer_at(x, y) == BYLINE,
{
}

} // verus!
