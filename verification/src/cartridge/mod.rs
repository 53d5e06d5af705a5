//! The game cartridge: its ROM, its save RAM, and the chip that swaps banks between them.
pub mod header;
pub mod mbc;

pub use header::{CgbFlag, Header};
pub use mbc::Mbc;

use header::{header_matches, HEADER_END};
use mbc::mapper_for;
use vstd::prelude::*;

verus! {

#[derive(Debug, Clone, Copy, PartialEq, Eq, Structural)]
pub enum CartridgeError {
    /// The file is too short to even hold a cartridge header.
    TooSmall(usize),
    UnsupportedMapper(u8),
}

#[derive(Debug)]
pub struct Cartridge {
    pub header: Header,  // what the game says about itself
    rom: Vec<u8>,  // the whole game file
    ram: Vec<u8>,  // save data, kept alive by a battery in the cart
    mbc: Mbc,  // the chip that swaps banks in and out
}

pub struct CartridgeView {
    pub header: Header,
    pub rom: Seq<u8>,
    pub ram: Seq<u8>,
    pub mbc: Mbc,
}

impl View for Cartridge {
    type V = CartridgeView;

    closed spec fn view(&self) -> CartridgeView {
        CartridgeView { header: self.header, rom: self.rom@, ram: self.ram@, mbc: self.mbc }
    }
}

impl CartridgeView {
    pub open spec fn wf(self) -> bool {
        self.mbc.wf()
    }

    /// Whether the chip's banking is written yet, so that reads and writes can be answered.
    pub open spec fn implemented(self) -> bool {
        self.mbc.implemented()
    }

    pub open spec fn read_rom_spec(self, addr: u16) -> u8 {
        let offset = self.mbc.rom_offset_spec(addr, self.rom.len() as usize);
        if offset < self.rom.len() {
            self.rom[offset as int]
        } else {
            0xFF
        }
    }

    pub open spec fn write_rom_spec(self, addr: u16, value: u8) -> CartridgeView {
        if self.mbc == (Mbc::RomOnly { writable: true }) {
            if (addr as int) < self.rom.len() {
                CartridgeView { rom: self.rom.update(addr as int, value), ..self }
            } else {
                self
            }
        } else {
            CartridgeView { mbc: self.mbc.control_spec(addr, value), ..self }
        }
    }

    pub open spec fn read_ram_spec(self, addr: u16) -> u8 {
        match self.mbc.ram_offset_spec(addr, self.ram.len() as usize) {
            Some(offset) => if offset < self.ram.len() {
                self.ram[offset as int]
            } else {
                0xFF
            },
            None => 0xFF,
        }
    }

    pub open spec fn write_ram_spec(self, addr: u16, value: u8) -> CartridgeView {
        match self.mbc.ram_offset_spec(addr, self.ram.len() as usize) {
            Some(offset) => if offset < self.ram.len() {
                CartridgeView { ram: self.ram.update(offset as int, value), ..self }
            } else {
                self
            },
            None => self,
        }
    }
}

/// The cartridge a ROM makes, for a ROM that holds a header and names a known chip.
pub open spec fn cartridge_from(c: CartridgeView, rom: Seq<u8>) -> bool {
    &&& header_matches(c.header, rom)
    &&& c.rom == rom
    &&& c.ram == Seq::new(c.header.ram_size as nat, |i: int| 0u8)
    &&& Some(c.mbc) == mapper_for(rom[header::CARTRIDGE_TYPE as int])
}

/// A fake 32 KiB cartridge that can be written to.
pub open spec fn test_cartridge(c: CartridgeView) -> bool {
    &&& c.header.title@ == seq!['T', 'E', 'S', 'T']
    &&& c.header.cgb == CgbFlag::Only
    &&& c.header.cartridge_type == 0
    &&& c.header.rom_size == 0x8000
    &&& c.header.ram_size == 0x2000
    &&& c.rom == Seq::new(0x8000, |i: int| 0xFFu8)
    &&& c.ram == Seq::new(0x2000, |i: int| 0u8)
    &&& c.mbc == Mbc::RomOnly { writable: true }
}

impl Cartridge {
    pub fn new(rom: Vec<u8>) -> (r: Result<Self, CartridgeError>)
        ensures
            rom@.len() < HEADER_END ==> r == Err::<Cartridge, CartridgeError>(
                CartridgeError::TooSmall(rom@.len() as usize),
            ),
            rom@.len() >= HEADER_END && mapper_for(rom@[header::CARTRIDGE_TYPE as int]) is None
                ==> r == Err::<Cartridge, CartridgeError>(
                CartridgeError::UnsupportedMapper(rom@[header::CARTRIDGE_TYPE as int]),
            ),
            rom@.len() >= HEADER_END && mapper_for(rom@[header::CARTRIDGE_TYPE as int]) is Some
                ==> (r matches Ok(c) && cartridge_from(c@, rom@) && c@.wf()),
    {
        let header = match Header::parse(rom.as_slice()) {
            Ok(h) => h,
            Err(e) => return Err(e),
        };
        let mbc = match Mbc::from_cartridge_type(header.cartridge_type) {
            Ok(m) => m,
            Err(e) => return Err(e),
        };
        let ram = vec![0u8; header.ram_size];
        let r = Self { header, rom, ram, mbc };
        assert(r.ram@ =~= Seq::new(r.header.ram_size as nat, |i: int| 0u8));
        Ok(r)
    }

    /// A fake 32 KiB cartridge we can write to, so tests can place opcodes anywhere.
    pub fn test_ram() -> (r: Self)
        ensures
            test_cartridge(r@),
            r@.wf(),
    {
        proof {
            reveal_strlit("TEST");
        }
        let r = Self {
            header: Header {
                title: "TEST".to_owned(),
                cgb: CgbFlag::Only,
                cartridge_type: 0x00,
                rom_size: 0x8000,
                ram_size: 0x2000,
            },
            rom: vec![0xFFu8; 0x8000],
            ram: vec![0u8; 0x2000],
            mbc: Mbc::RomOnly { writable: true },
        };
        assert(r.rom@ =~= Seq::new(0x8000, |i: int| 0xFFu8));
        assert(r.header.title@ =~= seq!['T', 'E', 'S', 'T']);
        assert(r.ram@ =~= Seq::new(0x2000, |i: int| 0u8));
        r
    }

    /// Whether the chip's banking is written yet.
    pub fn is_implemented(&self) -> (r: bool)
        ensures
            r == self@.implemented(),
    {
        self.mbc.is_implemented()
    }

    pub fn read_rom(&self, addr: u16) -> (r: u8)
        requires
            self@.implemented(),
        ensures
            r == self@.read_rom_spec(addr),
    {
        let offset = self.mbc.rom_offset(addr, self.rom.len());
        if offset < self.rom.len() {
            self.rom[offset]
        } else {
            0xFF
        }
    }

    pub fn write_rom(&mut self, addr: u16, value: u8)
        requires
            old(self)@.implemented(),
        ensures
            final(self)@ == old(self)@.write_rom_spec(addr, value),
            old(self)@.wf() ==> final(self)@.wf(),
            final(self)@.implemented(),
    {
        if let Mbc::RomOnly { writable: true } = self.mbc {
            let offset = addr as usize;
            if offset < self.rom.len() {
                self.rom.set(offset, value);
            }
            return ;
        }
        self.mbc.write_control(addr, value);
    }

    pub fn read_ram(&self, addr: u16) -> (r: u8)
        requires
            self@.implemented(),
            addr >= 0xA000,
        ensures
            r == self@.read_ram_spec(addr),
    {
        match self.mbc.ram_offset(addr, self.ram.len()) {
            Some(offset) => if offset < self.ram.len() {
                self.ram[offset]
            } else {
                0xFF
            },
            None => 0xFF,
        }
    }

    pub fn write_ram(&mut self, addr: u16, value: u8)
        requires
            old(self)@.implemented(),
            addr >= 0xA000,
        ensures
            final(self)@ == old(self)@.write_ram_spec(addr, value),
    {
        if let Some(offset) = self.mbc.ram_offset(addr, self.ram.len()) {
            if offset < self.ram.len() {
                self.ram.set(offset, value);
            }
        }
    }

    /// The save data, for the host to keep on disk.
    /// The name the game gives itself.
    pub fn title(&self) -> (r: &str)
        ensures
            r@ == self@.header.title@,
    {
        self.header.title.as_str()
    }

    pub fn ram(&self) -> (r: &[u8])
        ensures
            r@ == self@.ram,
    {
        self.ram.as_slice()
    }

    /// Copies saved data back in: as much of it as fits, from the start.
    pub fn load_ram(&mut self, data: &[u8])
        ensures
            final(self)@ == (CartridgeView {
                ram: Seq::new(
                    old(self)@.ram.len(),
                    |i: int|
                        if i < data@.len() {
                            data@[i]
                        } else {
                            old(self)@.ram[i]
                        },
                ),
                ..old(self)@
            }),
    {
        let len = if data.len() < self.ram.len() {
            data.len()
        } else {
            self.ram.len()
        };
        let ghost before = self@;
        let mut i: usize = 0;
        while i < len
            invariant
                i <= len,
                len <= data@.len(),
                len <= before.ram.len(),
                len == data@.len() || len == before.ram.len(),
                self@ == (CartridgeView { ram: self@.ram, ..before }),
                self@.ram.len() == before.ram.len(),
                forall|k: int|
                    0 <= k < before.ram.len() ==> #[trigger] self@.ram[k] == (if k < i {
                        data@[k]
                    } else {
                        before.ram[k]
                    }),
            decreases len - i,
        {
            self.ram.set(i, data[i]);
            i = i + 1;
        }
        assert(self@.ram =~= Seq::new(
            before.ram.len(),
            |k: int|
                if k < data@.len() {
                    data@[k]
                } else {
                    before.ram[k]
                },
        ));
    }
}

/// With save RAM switched on, a byte written to an MBC1 cartridge's RAM reads back as
/// written; with it switched off, writes are lost and reads give 0xFF.
pub proof fn lemma_mbc1_ram_round_trip(c: CartridgeView, addr: u16, value: u8)
    requires
        c.mbc is Mbc1,
        0xA000 <= addr <= 0xBFFF,
        c.ram.len() > 0,
    ensures
        c.mbc->Mbc1_ram_enabled ==> c.write_ram_spec(addr, value).read_ram_spec(addr) == value,
        !c.mbc->Mbc1_ram_enabled ==> c.write_ram_spec(addr, value) == c,
        !c.mbc->Mbc1_ram_enabled ==> c.read_ram_spec(addr) == 0xFF,
{
    if c.mbc->Mbc1_ram_enabled {
        let offset = c.mbc.ram_offset_spec(addr, c.ram.len() as usize);
        assert(offset matches Some(o) && o < c.ram.len());
    }
}

} // verus!
