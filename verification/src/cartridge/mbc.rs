//! Cartridges hold more than fits in the address space; these chips swap the pieces in and out.
use super::CartridgeError;
use vstd::prelude::*;

verus! {

pub const ROM_BANK: usize = 0x4000;  // one ROM bank, the size of the 4000-7FFF window

pub const RAM_BANK: usize = 0x2000;  // one RAM bank, the size of the A000-BFFF window

#[derive(Debug, Clone, Copy, PartialEq, Eq, Structural)]
pub enum Mbc {
    /// No chip at all, just a flat 32 KiB. Only `Cartridge::test_ram` sets `writable`.
    RomOnly { writable: bool },
    Mbc1 {
        rom_bank: u8,  // low 5 bits of the ROM bank number, never 0
        ram_bank: u8,  // 2 bits: the RAM bank, or the top of the ROM bank number
        ram_enabled: bool,  // save RAM only answers after a game writes 0xA
        advanced_mode: bool,  // lets those 2 bits also move bank 0 and the RAM bank
    },
    Mbc3 { rom_bank: u8, ram_bank: u8, ram_enabled: bool },
    Mbc5 { rom_bank: u16, ram_bank: u8, ram_enabled: bool },
}

/// The chip a cartridge type code names, or `None` for a code no chip here handles.
pub open spec fn mapper_for(code: u8) -> Option<Mbc> {
    if code == 0x00 || code == 0x08 || code == 0x09 {
        Some(Mbc::RomOnly { writable: false })
    } else if 0x01 <= code <= 0x03 {
        Some(Mbc::Mbc1 { rom_bank: 1, ram_bank: 0, ram_enabled: false, advanced_mode: false })
    } else if 0x0F <= code <= 0x13 {
        Some(Mbc::Mbc3 { rom_bank: 1, ram_bank: 0, ram_enabled: false })
    } else if 0x19 <= code <= 0x1E {
        Some(Mbc::Mbc5 { rom_bank: 1, ram_bank: 0, ram_enabled: false })
    } else {
        None
    }
}

impl Mbc {
    /// Whether banking is written for this chip yet: MBC3 and MBC5 banking is not.
    pub open spec fn implemented(self) -> bool {
        self is RomOnly || self is Mbc1
    }

    /// The register values an MBC1 can hold: a ROM bank from 1 to 31 and a 2-bit RAM bank.
    pub open spec fn wf(self) -> bool {
        self matches Mbc::Mbc1 { rom_bank, ram_bank, .. } ==> 1 <= rom_bank <= 31 && ram_bank
            <= 3
    }

    /// The position in the ROM file that an address the CPU asked for lands on.
    pub open spec fn rom_offset_spec(self, addr: u16, rom_len: usize) -> usize {
        match self {
            Mbc::Mbc1 { rom_bank, ram_bank, advanced_mode, .. } => {
                let upper = ((ram_bank as usize) * 32) as usize;
                let bank = if addr <= 0x3FFF {
                    if advanced_mode {
                        upper
                    } else {
                        0
                    }
                } else {
                    upper | (rom_bank as usize)
                };
                let banks = if rom_len / ROM_BANK > 1 {
                    rom_len / ROM_BANK
                } else {
                    1
                };
                ((bank % banks) * ROM_BANK + ((addr as usize) & 0x3FFF)) as usize
            },
            _ => addr as usize,
        }
    }

    /// The position in save RAM, or `None` while the game has it switched off.
    pub open spec fn ram_offset_spec(self, addr: u16, ram_len: usize) -> Option<usize> {
        match self {
            Mbc::Mbc1 { ram_bank, ram_enabled, advanced_mode, .. } => {
                if !ram_enabled {
                    None
                } else {
                    let bank = if advanced_mode {
                        ram_bank as usize
                    } else {
                        0
                    };
                    let offset = bank * RAM_BANK + (addr - 0xA000);
                    Some((if ram_len > 0 { offset % (ram_len as int) } else { offset }) as usize)
                }
            },
            _ => {
                let offset = addr - 0xA000;
                Some((if ram_len > 0 { offset % (ram_len as int) } else { offset }) as usize)
            },
        }
    }

    /// The chip after a game writes `value` to ROM address `addr`.
    pub open spec fn control_spec(self, addr: u16, value: u8) -> Mbc {
        match self {
            Mbc::Mbc1 { rom_bank, ram_bank, ram_enabled, advanced_mode } => {
                if addr <= 0x1FFF {
                    Mbc::Mbc1 { rom_bank, ram_bank, ram_enabled: value & 0x0F == 0x0A, advanced_mode }
                } else if addr <= 0x3FFF {
                    Mbc::Mbc1 {
                        rom_bank: if value & 0x1F == 0 {
                            1
                        } else {
                            value & 0x1F
                        },
                        ram_bank,
                        ram_enabled,
                        advanced_mode,
                    }
                } else if addr <= 0x5FFF {
                    Mbc::Mbc1 { rom_bank, ram_bank: value & 0x03, ram_enabled, advanced_mode }
                } else {
                    Mbc::Mbc1 { rom_bank, ram_bank, ram_enabled, advanced_mode: value & 0x01 != 0 }
                }
            },
            _ => self,
        }
    }

    pub fn from_cartridge_type(code: u8) -> (r: Result<Self, CartridgeError>)
        ensures
            r == (match mapper_for(code) {
                Some(m) => Ok::<Mbc, CartridgeError>(m),
                None => Err(CartridgeError::UnsupportedMapper(code)),
            }),
            r matches Ok(m) ==> m.wf(),
    {
        match code {
            0x00 | 0x08 | 0x09 => Ok(Self::RomOnly { writable: false }),
            0x01..=0x03 => Ok(
                Self::Mbc1 { rom_bank: 1, ram_bank: 0, ram_enabled: false, advanced_mode: false },
            ),
            0x0F..=0x13 => Ok(Self::Mbc3 { rom_bank: 1, ram_bank: 0, ram_enabled: false }),
            0x19..=0x1E => Ok(Self::Mbc5 { rom_bank: 1, ram_bank: 0, ram_enabled: false }),
            other => Err(CartridgeError::UnsupportedMapper(other)),
        }
    }

    /// Whether this chip's banking is written yet.
    pub fn is_implemented(&self) -> (r: bool)
        ensures
            r == self.implemented(),
    {
        match self {
            Self::RomOnly { .. } | Self::Mbc1 { .. } => true,
            _ => false,
        }
    }

    /// Turns an address the CPU asked for into a position in the ROM file.
    pub fn rom_offset(&self, addr: u16, rom_len: usize) -> (r: usize)
        requires
            self.implemented(),
        ensures
            r == self.rom_offset_spec(addr, rom_len),
    {
        match *self {
            Self::RomOnly { .. } => addr as usize,
            Self::Mbc1 { rom_bank, ram_bank, advanced_mode, .. } => {
                let upper = (ram_bank as usize) * 32;
                let bank = match addr {
                    0x0000..=0x3FFF => {
                        if advanced_mode {
                            upper
                        } else {
                            0
                        }
                    },
                    _ => upper | rom_bank as usize,
                };
                // A bank past the end of the ROM wraps back round to the start.
                let banks = if rom_len / ROM_BANK > 1 {
                    rom_len / ROM_BANK
                } else {
                    1
                };
                proof {
                    lemma_bank_offset_fits(bank, banks, rom_len);
                    lemma_low_bits();
                }
                (bank % banks) * ROM_BANK + (addr as usize & 0x3FFF)
            },
            // MBC3 and MBC5 banking is not written yet.
            _ => addr as usize,
        }
    }

    /// The same for save RAM, or `None` while the game has it switched off.
    pub fn ram_offset(&self, addr: u16, ram_len: usize) -> (r: Option<usize>)
        requires
            self.implemented(),
            addr >= 0xA000,
        ensures
            r == self.ram_offset_spec(addr, ram_len),
    {
        let offset = match *self {
            Self::RomOnly { .. } => addr as usize - 0xA000,
            Self::Mbc1 { ram_bank, ram_enabled, advanced_mode, .. } => {
                if !ram_enabled {
                    return None;
                }
                let bank = if advanced_mode {
                    ram_bank as usize
                } else {
                    0
                };
                bank * RAM_BANK + (addr as usize - 0xA000)
            },
            _ => addr as usize - 0xA000,
        };
        Some(
            if ram_len > 0 {
                offset % ram_len
            } else {
                offset
            },
        )
    }

    /// Writing to ROM stores nothing: it is how a game gives this chip orders.
    pub fn write_control(&mut self, addr: u16, value: u8)
        requires
            old(self).implemented(),
        ensures
            *final(self) == old(self).control_spec(addr, value),
            old(self).wf() ==> final(self).wf(),
    {
        proof {
            lemma_low_bits();
        }
        match self {
            Self::RomOnly { .. } => {},
            Self::Mbc1 { rom_bank, ram_bank, ram_enabled, advanced_mode } => match addr {
                0x0000..=0x1FFF => *ram_enabled = value & 0x0F == 0x0A,
                // Asking for bank 0 here gives bank 1, since bank 0 already has its own window.
                0x2000..=0x3FFF => {
                    let low = value & 0x1F;
                    *rom_bank = if low == 0 {
                        1
                    } else {
                        low
                    };
                },
                0x4000..=0x5FFF => *ram_bank = value & 0x03,
                _ => *advanced_mode = value & 0x01 != 0,
            },
            _ => {},
        }
    }
}

proof fn lemma_low_bits()
    by (bit_vector)
    ensures
        forall|x: u8| #[trigger] (x & 0x1F) <= 31,
        forall|x: u8| #[trigger] (x & 0x03) <= 3,
        forall|x: usize| #[trigger] (x & 0x3FFF) <= 0x3FFF,
{
}

proof fn lemma_bank_offset_fits(bank: usize, banks: usize, rom_len: usize)
    requires
        banks >= 1,
        banks == 1 || banks * ROM_BANK <= rom_len,
    ensures
        (bank % banks) * ROM_BANK + 0x3FFF <= usize::MAX,
        (bank % banks) * ROM_BANK <= (banks - 1) * ROM_BANK,
{
    assert((bank % banks) * ROM_BANK <= (banks - 1) * ROM_BANK) by (nonlinear_arith)
        requires
            banks >= 1,
    ;
    assert(banks == 1 || banks * ROM_BANK <= usize::MAX);
}

/// With its registers in range, the bank an MBC1 shows at 4000-7FFF is numbered by the RAM
/// bank register in the upper bits and the ROM bank register in the lower 5.
pub proof fn lemma_mbc1_bank_number(rom_bank: u8, ram_bank: u8)
    requires
        1 <= rom_bank <= 31,
        ram_bank <= 3,
    ensures
        (((ram_bank as usize) * 32) as usize | (rom_bank as usize)) == ram_bank * 32 + rom_bank,
{
    let upper = ((ram_bank as usize) * 32) as usize;
    let low = rom_bank as usize;
    assert((upper | low) == upper + low) by (bit_vector)
        requires
            upper % 32 == 0,
            low < 32,
    ;
}

/// However a game writes to an MBC1, its ROM bank register never holds 0 and its RAM bank
/// register stays within 2 bits.
pub proof fn lemma_mbc1_registers_stay_in_range(mbc: Mbc, addr: u16, value: u8)
    requires
        mbc is Mbc1,
        mbc.wf(),
    ensures
        mbc.control_spec(addr, value).wf(),
{
    lemma_low_bits();
}

/// Every read an MBC1 or a bare 32 KiB cartridge makes from a ROM of at least one bank
/// lands inside the ROM file (for the bare one, as long as the address is inside it).
pub proof fn lemma_rom_offset_in_file(mbc: Mbc, addr: u16, rom_len: usize)
    requires
        mbc.implemented(),
        rom_len >= ROM_BANK,
        mbc is Mbc1 || (addr as usize) < rom_len,
    ensures
        mbc.rom_offset_spec(addr, rom_len) < rom_len,
{
    if let Mbc::Mbc1 { rom_bank, ram_bank, advanced_mode, .. } = mbc {
        let banks = rom_len / ROM_BANK;
        lemma_low_bits();
        let upper = ((ram_bank as usize) * 32) as usize;
        let bank: usize = if addr <= 0x3FFF {
            if advanced_mode {
                upper
            } else {
                0
            }
        } else {
            upper | (rom_bank as usize)
        };
        assert((bank % banks) * ROM_BANK + ROM_BANK <= banks * ROM_BANK) by (nonlinear_arith)
            requires
                banks >= 1,
        ;
        assert(banks * ROM_BANK <= rom_len) by (nonlinear_arith)
            requires
                banks == rom_len / ROM_BANK,
        ;
    }
}

/// Save RAM on an MBC1. After a game writes 0x0A to 0000-1FFF, picks RAM bank `bank` at
/// 4000-5FFF and a banking mode at 6000-7FFF, an address of A000-BFFF lands in save RAM at
/// `bank * 0x2000 + (addr - 0xA000)` (wrapped to the RAM's size) in advanced mode (mode bit
/// 1), and at `addr - 0xA000` in simple mode, whatever bank was picked. After any other value
/// at 0000-1FFF, save RAM does not answer.
pub proof fn lemma_mbc1_ram_banking(
    mbc: Mbc,
    enable: u8,
    bank: u8,
    mode: u8,
    addr: u16,
    ram_len: usize,
)
    requires
        mbc is Mbc1,
        0xA000 <= addr <= 0xBFFF,
        ram_len > 0,
    ensures
        ({
            let chip = mbc.control_spec(0x0000, enable).control_spec(0x4000, bank).control_spec(
                0x6000,
                mode,
            );
            chip.ram_offset_spec(addr, ram_len) == if enable & 0x0F != 0x0A {
                None
            } else if mode & 0x01 == 1 {
                Some((((bank % 4) * 0x2000 + addr - 0xA000) % (ram_len as int)) as usize)
            } else {
                Some(((addr - 0xA000) % (ram_len as int)) as usize)
            }
        }),
{
    assert(bank & 0x03 == bank % 4 && (mode & 0x01 != 0) == (mode & 0x01 == 1)) by (bit_vector);
}

/// ROM on an MBC1. After a game writes `low` at 2000-3FFF, `high` at 4000-5FFF and a banking
/// mode at 6000-7FFF, the window at 4000-7FFF shows bank `(high % 4) * 32 + (low % 32)`, with
/// a 0 in the low 5 bits read as 1, and the window at 0000-3FFF shows bank `(high % 4) * 32`
/// in advanced mode (mode bit 1) and bank 0 in simple mode. Bank numbers wrap round the
/// number of whole banks in the file (at least one).
pub proof fn lemma_mbc1_rom_banking(
    mbc: Mbc,
    low: u8,
    high: u8,
    mode: u8,
    addr: u16,
    rom_len: usize,
)
    requires
        mbc is Mbc1,
        addr <= 0x7FFF,
    ensures
        ({
            let chip = mbc.control_spec(0x2000, low).control_spec(0x4000, high).control_spec(
                0x6000,
                mode,
            );
            let upper = (high % 4) * 32;
            let bank = if addr <= 0x3FFF {
                if mode % 2 == 1 {
                    upper
                } else {
                    0
                }
            } else {
                upper + if low % 32 == 0 {
                    1
                } else {
                    low % 32
                }
            };
            let banks: int = if rom_len / 0x4000 > 1 {
                (rom_len / 0x4000) as int
            } else {
                1
            };
            chip.rom_offset_spec(addr, rom_len) == (bank % banks) * 0x4000 + addr % 0x4000
        }),
{
    assert(high & 0x03 == high % 4 && low & 0x1F == low % 32 && (mode & 0x01 != 0) == (mode % 2
        == 1) && (addr as usize) & 0x3FFF == (addr as usize) % 0x4000) by (bit_vector);
    let rb: u8 = if low & 0x1F == 0 {
        1
    } else {
        low & 0x1F
    };
    assert(1 <= rb <= 31);
    lemma_mbc1_bank_number(rb, high & 0x03);
}

} // verus!
