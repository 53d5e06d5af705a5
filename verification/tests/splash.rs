use rustboy_core::splash::{layer, words_layer, BYLINE, LETTER, SHADOW};
use rustboy_core::{FRAMEBUFFER_LEN, SCREEN_HEIGHT, SCREEN_WIDTH};

const WORDS: &str = "RUST BOY COLOR";
const TEXT_SCALE: usize = 1;
const CREDIT: &str = "by dudustri";
const GLYPH_WIDTH: usize = 5;
const GLYPH_HEIGHT: usize = 7;
const GLYPH_GAP: usize = 1;
const SMALL_WIDTH: usize = 3;
const SMALL_HEIGHT: usize = 5;
const GAP_BELOW_TITLE: usize = 11;

// A 5 by 7 letter for every character the title needs.
fn glyph(c: char) -> [&'static str; GLYPH_HEIGHT] {
    match c {
        'R' => [
            "11110", "10001", "10001", "11110", "10100", "10010", "10001",
        ],
        'U' => [
            "10001", "10001", "10001", "10001", "10001", "10001", "01110",
        ],
        'S' => [
            "01111", "10000", "10000", "01110", "00001", "00001", "11110",
        ],
        'T' => [
            "11111", "00100", "00100", "00100", "00100", "00100", "00100",
        ],
        'B' => [
            "11110", "10001", "10001", "11110", "10001", "10001", "11110",
        ],
        'O' => [
            "01110", "10001", "10001", "10001", "10001", "10001", "01110",
        ],
        'Y' => [
            "10001", "10001", "01010", "00100", "00100", "00100", "00100",
        ],
        'C' => [
            "01110", "10001", "10000", "10000", "10000", "10001", "01110",
        ],
        'L' => [
            "10000", "10000", "10000", "10000", "10000", "10000", "11111",
        ],
        _ => ["00000"; GLYPH_HEIGHT],
    }
}

// A 3 by 5 box per byline character. Lower case, so most letters only fill the middle rows.
fn small_glyph(c: char) -> [&'static str; SMALL_HEIGHT] {
    match c {
        'b' => ["100", "110", "101", "110", "000"],
        'y' => ["000", "101", "101", "011", "110"],
        'd' => ["001", "011", "101", "011", "000"],
        'u' => ["000", "101", "101", "111", "000"],
        's' => ["000", "011", "010", "110", "000"],
        't' => ["010", "111", "010", "011", "000"],
        'r' => ["000", "110", "101", "100", "000"],
        'i' => ["010", "000", "010", "010", "000"],
        _ => ["000"; SMALL_HEIGHT],
    }
}

fn text_width(words: &str, scale: usize) -> usize {
    (words.chars().count() * (GLYPH_WIDTH + GLYPH_GAP) - GLYPH_GAP) * scale
}

fn small_width(words: &str) -> usize {
    words.chars().count() * (SMALL_WIDTH + GLYPH_GAP) - GLYPH_GAP
}

// Same idea as `stamp`, with the smaller alphabet and no shadow.
fn stamp_small(mask: &mut [u8], words: &str, x0: usize, y0: usize, value: u8) {
    let mut x = x0;
    for c in words.chars() {
        for (row, bits) in small_glyph(c).iter().enumerate() {
            for (column, bit) in bits.bytes().enumerate() {
                if bit == b'1' {
                    let (px, py) = (x + column, y0 + row);
                    if px < SCREEN_WIDTH && py < SCREEN_HEIGHT {
                        mask[py * SCREEN_WIDTH + px] = value;
                    }
                }
            }
        }
        x += SMALL_WIDTH + GLYPH_GAP;
    }
}

// Paint the words into the mask, one glyph pixel at a time.
fn stamp(mask: &mut [u8], words: &str, x0: usize, y0: usize, scale: usize, value: u8) {
    let mut x = x0;
    for c in words.chars() {
        for (row, bits) in glyph(c).iter().enumerate() {
            for (column, bit) in bits.bytes().enumerate() {
                if bit != b'1' {
                    continue;
                }
                for dy in 0..scale {
                    for dx in 0..scale {
                        let px = x + column * scale + dx;
                        let py = y0 + row * scale + dy;
                        if px < SCREEN_WIDTH && py < SCREEN_HEIGHT {
                            mask[py * SCREEN_WIDTH + px] = value;
                        }
                    }
                }
            }
        }
        x += (GLYPH_WIDTH + GLYPH_GAP) * scale;
    }
}


// The mask the way a build step stamps it, glyph by glyph, for comparison.
fn stamped() -> Vec<u8> {
    let mut mask = vec![0u8; SCREEN_WIDTH * SCREEN_HEIGHT];
    let text_width = text_width(WORDS, TEXT_SCALE);
    let x0 = (SCREEN_WIDTH - text_width) / 2;
    let y0 = (SCREEN_HEIGHT - GLYPH_HEIGHT * TEXT_SCALE) / 2;
    stamp(&mut mask, WORDS, x0 + TEXT_SCALE, y0 + TEXT_SCALE, TEXT_SCALE, SHADOW);
    stamp(&mut mask, WORDS, x0, y0, TEXT_SCALE, LETTER);
    let credit_x = (SCREEN_WIDTH - small_width(CREDIT)) / 2;
    let credit_y = y0 + GLYPH_HEIGHT * TEXT_SCALE + GAP_BELOW_TITLE;
    stamp_small(&mut mask, CREDIT, credit_x, credit_y, BYLINE);
    mask
}

#[test]
fn the_build_script_used_the_same_layer_numbers() {
    let text = words_layer();
    assert!(text
        .iter()
        .all(|&v| matches!(v, 0 | LETTER | SHADOW | BYLINE)));
    assert!(text.contains(&LETTER));
    assert!(text.contains(&SHADOW));
    assert!(text.contains(&BYLINE));
}

#[test]
fn the_words_layer_is_one_byte_a_pixel() {
    assert_eq!(words_layer().len(), FRAMEBUFFER_LEN / 4);
}

#[test]
fn the_words_layer_is_the_stamped_title_and_byline() {
    assert_eq!(words_layer(), stamped());
}

#[test]
fn the_title_starts_centred() {
    // "R" begins at (38, 68), its shadow one pixel down and right.
    assert_eq!(layer(38, 68), LETTER);
    assert_eq!(layer(39, 68), LETTER);
    assert_eq!(layer(39, 69), SHADOW);
    assert_eq!(layer(41, 72), SHADOW);
    assert_eq!(layer(37, 68), 0);
    assert_eq!(layer(58, 86), BYLINE);
}
