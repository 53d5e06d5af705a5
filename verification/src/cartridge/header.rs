//! The block at 0100-014F where every cartridge describes itself.
use super::CartridgeError;
use vstd::prelude::*;

verus! {

pub const TITLE_START: usize = 0x0134;

pub const TITLE_END: usize = 0x0144;

pub const CGB_FLAG: usize = 0x0143;

pub const CARTRIDGE_TYPE: usize = 0x0147;

pub const ROM_SIZE: usize = 0x0148;

pub const RAM_SIZE: usize = 0x0149;

pub const HEADER_END: usize = 0x0150;

#[derive(Debug, Clone, Copy, PartialEq, Eq, Structural)]
pub enum CgbFlag {
    /// An original Game Boy game; a Color runs it in compatibility mode.
    Classic,
    /// Uses Color features, but still works on an original Game Boy.
    Enhanced,
    /// Color only; it refuses to run on an original Game Boy.
    Only,
}

#[derive(Debug, Clone, PartialEq, Eq)]
pub struct Header {
    pub title: String,
    pub cgb: CgbFlag,
    pub cartridge_type: u8,
    pub rom_size: usize,
    pub ram_size: usize,
}

pub open spec fn cgb_flag_of(byte: u8) -> CgbFlag {
    if byte == 0x80 {
        CgbFlag::Enhanced
    } else if byte == 0xC0 {
        CgbFlag::Only
    } else {
        CgbFlag::Classic
    }
}

/// A character a title may hold: a printable ASCII character or a space.
pub open spec fn printable(byte: u8) -> bool {
    0x20 <= byte <= 0x7E
}

/// Where the first zero byte at or after `i` sits, or the length when there is none.
pub open spec fn zero_index(s: Seq<u8>, i: nat) -> nat
    decreases s.len() - i,
{
    if i >= s.len() || s[i as int] == 0 {
        i
    } else {
        zero_index(s, i + 1)
    }
}

/// The printable bytes of `s`, in order.
pub open spec fn printable_bytes(s: Seq<u8>) -> Seq<u8>
    decreases s.len(),
{
    if s.len() == 0 {
        s
    } else {
        let kept = printable_bytes(s.drop_last());
        if printable(s.last()) {
            kept.push(s.last())
        } else {
            kept
        }
    }
}

/// `s` with its trailing spaces taken off.
pub open spec fn trim_spaces(s: Seq<u8>) -> Seq<u8>
    decreases s.len(),
{
    if s.len() > 0 && s.last() == 0x20 {
        trim_spaces(s.drop_last())
    } else {
        s
    }
}

/// The title: the bytes from 0134 up to the first zero, stopping one byte early on a
/// Color cartridge because the Color flag sits on the title's last byte; unprintable bytes
/// are dropped and trailing spaces trimmed.
pub open spec fn title_bytes(rom: Seq<u8>) -> Seq<u8> {
    let end = if cgb_flag_of(rom[CGB_FLAG as int]) == CgbFlag::Classic {
        TITLE_END
    } else {
        CGB_FLAG
    };
    let region = rom.subrange(TITLE_START as int, end as int);
    trim_spaces(printable_bytes(region.take(zero_index(region, 0) as int)))
}

pub open spec fn chars_of(bytes: Seq<u8>) -> Seq<char> {
    bytes.map_values(|b: u8| b as char)
}

/// 32 KiB doubled once for every step of the size code, up to 8 steps.
pub open spec fn rom_size_of(code: u8) -> nat
    decreases code,
{
    if code == 0 {
        0x8000
    } else if code > 8 {
        rom_size_of(8)
    } else {
        2 * rom_size_of((code - 1) as u8)
    }
}

pub open spec fn ram_size_of(code: u8) -> nat {
    if code == 0x02 {
        0x2000
    } else if code == 0x03 {
        0x8000
    } else if code == 0x04 {
        0x20000
    } else if code == 0x05 {
        0x10000
    } else {
        0
    }
}

/// What a ROM says about itself, for a ROM long enough to hold a header.
pub open spec fn header_matches(h: Header, rom: Seq<u8>) -> bool {
    &&& h.title@ == chars_of(title_bytes(rom))
    &&& h.cgb == cgb_flag_of(rom[CGB_FLAG as int])
    &&& h.cartridge_type == rom[CARTRIDGE_TYPE as int]
    &&& h.rom_size == rom_size_of(rom[ROM_SIZE as int])
    &&& h.ram_size == ram_size_of(rom[RAM_SIZE as int])
}

/// Appends one character to a string.
#[verifier::external_body]
fn push_char(s: &mut String, c: char)
    ensures
        final(s)@ == old(s)@.push(c),
{
    s.push(c);
}

fn rom_size_code(code: u8) -> (r: usize)
    ensures
        r == rom_size_of(code),
{
    let steps = if code > 8 {
        8
    } else {
        code
    };
    let mut size: usize = 0x8000;
    let mut k: u8 = 0;
    while k < steps
        invariant
            k <= steps <= 8,
            steps == (if code > 8 { 8 } else { code }),
            size == rom_size_of(k),
        decreases steps - k,
    {
        assert(rom_size_of((k + 1) as u8) == 2 * rom_size_of(k));
        proof {
            lemma_rom_sizes();
        }
        size = size * 2;
        k = k + 1;
    }
    assert(code > 8 ==> rom_size_of(code) == rom_size_of(8));
    size
}

proof fn lemma_rom_sizes()
    ensures
        rom_size_of(0) == 0x8000,
        rom_size_of(1) == 0x10000,
        rom_size_of(2) == 0x20000,
        rom_size_of(3) == 0x40000,
        rom_size_of(4) == 0x80000,
        rom_size_of(5) == 0x100000,
        rom_size_of(6) == 0x200000,
        rom_size_of(7) == 0x400000,
        rom_size_of(8) == 0x800000,
{
    reveal_with_fuel(rom_size_of, 9);
}

impl Header {
    pub fn parse(rom: &[u8]) -> (r: Result<Self, CartridgeError>)
        ensures
            rom@.len() < HEADER_END ==> r == Err::<Header, CartridgeError>(
                CartridgeError::TooSmall(rom@.len() as usize),
            ),
            rom@.len() >= HEADER_END ==> (r matches Ok(h) && header_matches(h, rom@)),
    {
        if rom.len() < HEADER_END {
            return Err(CartridgeError::TooSmall(rom.len()));
        }
        // The Color flag sits on the title's last byte, so Color titles are one character shorter.

        let cgb = match rom[CGB_FLAG] {
            0x80 => CgbFlag::Enhanced,
            0xC0 => CgbFlag::Only,
            _ => CgbFlag::Classic,
        };
        let title_end = if cgb == CgbFlag::Classic {
            TITLE_END
        } else {
            CGB_FLAG
        };
        let ghost region = rom@.subrange(TITLE_START as int, title_end as int);
        // Up to the first zero, keeping only printable characters.
        let mut kept: Vec<u8> = Vec::new();
        let mut i = TITLE_START;
        while i < title_end
            invariant
                TITLE_START <= i <= title_end <= rom@.len(),
                region == rom@.subrange(TITLE_START as int, title_end as int),
                zero_index(region, 0) == zero_index(region, (i - TITLE_START) as nat),
                kept@ == printable_bytes(region.take((i - TITLE_START) as int)),
            ensures
                TITLE_START <= i <= title_end,
                i < title_end ==> rom@[i as int] == 0,
                zero_index(region, 0) == zero_index(region, (i - TITLE_START) as nat),
                kept@ == printable_bytes(region.take((i - TITLE_START) as int)),
            decreases title_end - i,
        {
            let byte = rom[i];
            if byte == 0 {
                break;
            }
            let ghost k = (i - TITLE_START) as int;
            assert(region[k] == byte);
            assert(region.take(k + 1).drop_last() =~= region.take(k));
            if 0x20 <= byte && byte <= 0x7E {
                kept.push(byte);
            }
            i = i + 1;
        }
        let ghost z = (i - TITLE_START) as int;
        assert(i < title_end ==> region[z] == 0);
        assert(zero_index(region, z as nat) == z);
        assert(region.take(zero_index(region, 0) as int) == region.take(z));
        // Trailing spaces go.
        let mut n = kept.len();
        assert(kept@.take(n as int) =~= kept@);
        while n > 0 && kept[n - 1] == 0x20
            invariant
                n <= kept@.len(),
                trim_spaces(kept@.take(n as int)) == trim_spaces(kept@),
            decreases n,
        {
            assert(kept@.take(n as int).drop_last() =~= kept@.take(n - 1));
            n = n - 1;
        }
        assert(trim_spaces(kept@.take(n as int)) == kept@.take(n as int));
        let mut title = String::new();
        let mut j: usize = 0;
        while j < n
            invariant
                j <= n <= kept@.len(),
                title@ == chars_of(kept@.take(j as int)),
            decreases n - j,
        {
            assert(kept@.take(j + 1) =~= kept@.take(j as int).push(kept@[j as int]));
            assert(chars_of(kept@.take(j + 1)) =~= chars_of(kept@.take(j as int)).push(
                kept@[j as int] as char,
            ));
            push_char(&mut title, kept[j] as char);
            j = j + 1;
        }
        let ram_size = match rom[RAM_SIZE] {
            0x02 => 0x2000,
            0x03 => 0x8000,
            0x04 => 0x20000,
            0x05 => 0x10000,
            _ => 0,
        };
        Ok(
            Self {
                title,
                cgb,
                cartridge_type: rom[CARTRIDGE_TYPE],
                rom_size: rom_size_code(rom[ROM_SIZE]),
                ram_size,
            },
        )
    }
}

/// A title holds only printable characters and never ends in a space.
pub proof fn lemma_title_is_clean(rom: Seq<u8>)
    requires
        rom.len() >= HEADER_END,
    ensures
        forall|i: int| 0 <= i < title_bytes(rom).len() ==> printable(#[trigger] title_bytes(rom)[i]),
        title_bytes(rom).len() > 0 ==> title_bytes(rom).last() != 0x20,
{
    let end = if cgb_flag_of(rom[CGB_FLAG as int]) == CgbFlag::Classic {
        TITLE_END
    } else {
        CGB_FLAG
    };
    let region = rom.subrange(TITLE_START as int, end as int);
    let s = region.take(zero_index(region, 0) as int);
    lemma_printable_bytes_printable(s);
    lemma_trim_keeps_prefix(printable_bytes(s));
}

proof fn lemma_printable_bytes_printable(s: Seq<u8>)
    ensures
        forall|i: int|
            0 <= i < printable_bytes(s).len() ==> printable(#[trigger] printable_bytes(s)[i]),
    decreases s.len(),
{
    if s.len() > 0 {
        lemma_printable_bytes_printable(s.drop_last());
        let kept = printable_bytes(s.drop_last());
        assert forall|i: int| 0 <= i < printable_bytes(s).len() implies printable(
            #[trigger] printable_bytes(s)[i],
        ) by {
            if printable(s.last()) {
                assert(printable_bytes(s) == kept.push(s.last()));
                if i < kept.len() {
                    assert(printable(kept[i]));
                }
            } else {
                assert(printable(kept[i]));
            }
        }
    }
}

proof fn lemma_trim_keeps_prefix(s: Seq<u8>)
    ensures
        trim_spaces(s).len() <= s.len(),
        forall|i: int| 0 <= i < trim_spaces(s).len() ==> #[trigger] trim_spaces(s)[i] == s[i],
        trim_spaces(s).len() > 0 ==> trim_spaces(s).last() != 0x20,
    decreases s.len(),
{
    if s.len() > 0 && s.last() == 0x20 {
        lemma_trim_keeps_prefix(s.drop_last());
        assert forall|i: int| 0 <= i < trim_spaces(s).len() implies #[trigger] trim_spaces(s)[i]
            == s[i] by {
            assert(trim_spaces(s) == trim_spaces(s.drop_last()));
            assert(trim_spaces(s.drop_last())[i] == s.drop_last()[i]);
        }
    }
}

/// Save RAM comes in whole 8 KiB banks, and the header's RAM size byte (0x0149) counts
/// them: code 2 is one bank, 3 is four, 4 is sixteen and 5 is eight; any other code means
/// the cartridge has no save RAM.
pub proof fn lemma_ram_size_in_banks(h: Header, rom: Seq<u8>)
    requires
        rom.len() >= HEADER_END,
        header_matches(h, rom),
    ensures
        h.ram_size == 0x2000 * (if rom[0x0149] == 2 {
            1int
        } else if rom[0x0149] == 3 {
            4
        } else if rom[0x0149] == 4 {
            16
        } else if rom[0x0149] == 5 {
            8
        } else {
            0
        }),
{
}

/// ROM sizes double with each step of the header's ROM size byte (0x0148): 32 KiB for code
/// 0, up to 8 MiB for code 8 and above.
pub proof fn lemma_rom_size_doubles(h: Header, rom: Seq<u8>)
    requires
        rom.len() >= HEADER_END,
        header_matches(h, rom),
    ensures
        h.rom_size == 0x8000 * vstd::arithmetic::power2::pow2(
            if rom[0x0148] > 8 {
                8nat
            } else {
                rom[0x0148] as nat
            },
        ),
{
    lemma_rom_sizes();
    vstd::arithmetic::power2::lemma2_to64();
    assert(rom[0x0148] > 8 ==> rom_size_of(rom[0x0148]) == rom_size_of(8));
}

} // verus!
