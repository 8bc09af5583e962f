use vstd::prelude::*;
use crate::membus::cartridge::{ascii_text, ram_size_spec, rom_size_spec, utf8_lossy};

verus! {

/// Header offset of the cartridge type.
pub const CARTRIDGE_TYPE: usize = 0x147;
/// Header offset of the ROM size code.
pub const ROM_SIZE: usize = 0x148;
/// Header offset of the RAM size code.
pub const RAM_SIZE: usize = 0x149;
/// Bytes in one external RAM bank.
pub const RAM_BANK_LEN: usize = 8 * 1024;

pub enum CartridgeType {
    RomOnly,
    Mbc1,
    Mbc2,
    Mmm01,
    Mbc3,
    Mbc5,
}

/// Memory bank controller for a header cartridge type code.
pub open spec fn cartridge_type_spec(code: u8) -> Option<CartridgeType> {
    if code == 0x00 || code == 0x08 || code == 0x09 {
        Some(CartridgeType::RomOnly)
    } else if code == 0x01 || code == 0x02 || code == 0x03 {
        Some(CartridgeType::Mbc1)
    } else if code == 0x05 || code == 0x06 {
        Some(CartridgeType::Mbc2)
    } else if code == 0x0B || code == 0x0C || code == 0x0D {
        Some(CartridgeType::Mmm01)
    } else if code == 0x0F || code == 0x10 {
        Some(CartridgeType::Mbc3)
    } else if code == 0x11 || code == 0x12 || code == 0x13 {
        Some(CartridgeType::Mbc5)
    } else {
        None
    }
}

/// Number of ROM banks for a header ROM size code.
pub open spec fn rom_banks_spec(code: u8) -> Option<u16> {
    match rom_size_spec(code) {
        Some((_, banks)) => Some(banks),
        None => None,
    }
}

/// External RAM size in bytes for a header RAM size code.
pub open spec fn ram_bytes_spec(code: u8) -> Option<usize> {
    match ram_size_spec(code) {
        Some((size, _)) => Some(size),
        None => None,
    }
}

/// ROM size in bytes for the codes 0x00-0x08: 32 KiB doubled per step.
pub open spec fn rom_bytes_spec(code: u8) -> usize {
    if code == 0 {
        32768
    } else if code == 1 {
        65536
    } else if code == 2 {
        131072
    } else if code == 3 {
        262144
    } else if code == 4 {
        524288
    } else if code == 5 {
        1048576
    } else if code == 6 {
        2097152
    } else if code == 7 {
        4194304
    } else {
        8388608
    }
}

/// A ROM image that loads: header present, with a supported type, ROM size and RAM size.
pub open spec fn loadable(data: Seq<u8>) -> bool {
    &&& data.len() > RAM_SIZE
    &&& cartridge_type_spec(data[CARTRIDGE_TYPE as int]) is Some
    &&& rom_banks_spec(data[ROM_SIZE as int]) is Some
    &&& ram_bytes_spec(data[RAM_SIZE as int]) is Some
}

/// A cartridge with its ROM, RAM and header data in public fields.
pub struct Cartridge {
    pub rom: Vec<u8>,
    pub ram: Vec<u8>,
    pub rom_banks: u16,
    pub ram_banks: u8,
    pub cart_type: CartridgeType,
}

impl Cartridge {
    /// The header bytes 0x100..0x150, as far as the ROM reaches; empty when the ROM ends
    /// at or before 0x100.
    pub open spec fn header_spec(self) -> Seq<u8> {
        if self.rom@.len() <= 0x100 {
            Seq::empty()
        } else {
            let end = if self.rom@.len() < 0x150 { self.rom@.len() as int } else { 0x150int };
            self.rom@.subrange(0x100, end)
        }
    }

    /// The title bytes 0x134..0x144, as far as the ROM reaches.
    pub open spec fn title_spec(self) -> Seq<u8> {
        let end = if self.rom@.len() < 0x144 { self.rom@.len() as int } else { 0x144int };
        if 0x134 >= end {
            Seq::empty()
        } else {
            self.rom@.subrange(0x134, end)
        }
    }

    /// Loads a ROM image; the image must be loadable.
    pub fn new(data: Vec<u8>) -> (r: Self)
        requires
            loadable(data@),
        ensures
            r.rom@ == data@,
            r.ram@ == Seq::new(ram_bytes_spec(data@[RAM_SIZE as int]).unwrap() as nat, |i: int| 0u8),
            r.rom_banks == rom_banks_spec(data@[ROM_SIZE as int]).unwrap(),
            r.ram_banks == ram_bytes_spec(data@[RAM_SIZE as int]).unwrap() / RAM_BANK_LEN,
            r.cart_type == cartridge_type_spec(data@[CARTRIDGE_TYPE as int]).unwrap(),
    {
        let mut cart = Cartridge {
            rom: Vec::new(),
            ram: Vec::new(),
            rom_banks: 0,
            ram_banks: 0,
            cart_type: CartridgeType::RomOnly,
        };
        cart.load(data);
        cart
    }

    fn load(&mut self, rom: Vec<u8>)
        requires
            loadable(rom@),
        ensures
            final(self).rom@ == rom@,
            final(self).ram@ == Seq::new(ram_bytes_spec(rom@[RAM_SIZE as int]).unwrap() as nat, |i: int| 0u8),
            final(self).rom_banks == rom_banks_spec(rom@[ROM_SIZE as int]).unwrap(),
            final(self).ram_banks == ram_bytes_spec(rom@[RAM_SIZE as int]).unwrap() / RAM_BANK_LEN,
            final(self).cart_type == cartridge_type_spec(rom@[CARTRIDGE_TYPE as int]).unwrap(),
    {
        let cart_type = Self::parse_cartridge_type(&rom).unwrap();
        let rom_banks = Self::parse_rom_banks(rom[ROM_SIZE]).unwrap();
        let ram_size = Self::parse_ram_size(rom[RAM_SIZE]).unwrap();

        self.ram = vec![0u8; ram_size];
        assert(self.ram@ =~= Seq::new(ram_size as nat, |i: int| 0u8));
        self.rom = rom;
        self.cart_type = cart_type;
        self.rom_banks = rom_banks;
        self.ram_banks = if ram_size == 0 { 0 } else { (ram_size / RAM_BANK_LEN) as u8 };
    }

    pub fn get_header(&self) -> (r: &[u8])
        ensures
            r@ == self.header_spec(),
    {
        if self.rom.len() <= 0x100 {
            return &[];
        }
        let end = if self.rom.len() < 0x150 { self.rom.len() } else { 0x150 };
        &self.rom.as_slice()[0x100..end]
    }

    /// The title decoded as UTF-8 with invalid sequences replaced; empty when the ROM
    /// does not reach it.
    pub fn get_title(&self) -> (r: String)
        ensures
            r@ == (if self.title_spec().len() == 0 {
                Seq::empty()
            } else {
                utf8_lossy(self.title_spec())
            }),
            (forall|i: int| 0 <= i < self.title_spec().len() ==> self.title_spec()[i] < 0x80) ==> r@
                == ascii_text(self.title_spec()),
    {
        let start: usize = 0x134;
        let end: usize = if self.rom.len() < 0x144 { self.rom.len() } else { 0x144 };
        if start >= end {
            return String::new();
        }
        let title_bytes = &self.rom.as_slice()[start..end];
        crate::membus::cartridge::string_from_utf8_lossy(title_bytes)
    }

    fn parse_ram_size(header_value: u8) -> (r: Option<usize>)
        ensures
            r == ram_bytes_spec(header_value),
    {
        let ram_size = match header_value {
            0x00 => 0,
            0x01 => 0,
            0x02 => RAM_BANK_LEN,
            0x03 => 4 * RAM_BANK_LEN,
            0x04 => 16 * RAM_BANK_LEN,
            0x05 => 8 * RAM_BANK_LEN,
            _ => return None,
        };
        Some(ram_size)
    }

    fn parse_rom_banks(header_value: u8) -> (r: Option<u16>)
        ensures
            r == rom_banks_spec(header_value),
    {
        let num_banks = match header_value {
            0x00 => 2,
            0x01 => 4,
            0x02 => 8,
            0x03 => 16,
            0x04 => 32,
            0x05 => 64,
            0x06 => 128,
            0x52 => 72,
            0x53 => 80,
            0x54 => 96,
            _ => return None,
        };
        Some(num_banks)
    }

    fn rom_size_from_header(header_value: u8) -> (r: usize)
        requires
            header_value <= 0x08,
        ensures
            r == rom_bytes_spec(header_value),
    {
        match header_value {
            0x00 => 32 * 1024,
            0x01 => 64 * 1024,
            0x02 => 128 * 1024,
            0x03 => 256 * 1024,
            0x04 => 512 * 1024,
            0x05 => 1024 * 1024,
            0x06 => 2048 * 1024,
            0x07 => 4096 * 1024,
            _ => 8192 * 1024,
        }
    }

    fn parse_cartridge_type(rom: &[u8]) -> (r: Option<CartridgeType>)
        ensures
            rom@.len() > CARTRIDGE_TYPE ==> r == cartridge_type_spec(rom@[CARTRIDGE_TYPE as int]),
            rom@.len() <= CARTRIDGE_TYPE ==> r is None,
    {
        if rom.len() <= CARTRIDGE_TYPE {
            return None;
        }
        let cart_type = match rom[CARTRIDGE_TYPE] {
            0x00 => CartridgeType::RomOnly,
            0x01 => CartridgeType::Mbc1,
            0x02 => CartridgeType::Mbc1,
            0x03 => CartridgeType::Mbc1,
            0x05 => CartridgeType::Mbc2,
            0x06 => CartridgeType::Mbc2,
            0x08 => CartridgeType::RomOnly,
            0x09 => CartridgeType::RomOnly,
            0x0B => CartridgeType::Mmm01,
            0x0C => CartridgeType::Mmm01,
            0x0D => CartridgeType::Mmm01,
            0x0F => CartridgeType::Mbc3,
            0x10 => CartridgeType::Mbc3,
            0x11 => CartridgeType::Mbc5,
            0x12 => CartridgeType::Mbc5,
            0x13 => CartridgeType::Mbc5,
            _ => return None,
        };
        Some(cart_type)
    }
}

/// The images that load: a header with ROM size code 0x00-0x06 or 0x52-0x54, RAM size
/// code 0x00-0x05, and cartridge type 0x00, 0x08, 0x09 (no controller), 0x01-0x03
/// (MBC1), 0x05-0x06 (MBC2), 0x0B-0x0D (MMM01), 0x0F-0x10 (MBC3) or 0x11-0x13 (MBC5),
/// each mapped to that controller.
pub proof fn lemma_loadable_headers(data: Seq<u8>)
    requires
        data.len() > RAM_SIZE,
    ensures
        loadable(data) <==> ({
            let rom = data[ROM_SIZE as int];
            let ram = data[RAM_SIZE as int];
            let ty = data[CARTRIDGE_TYPE as int];
            &&& rom <= 0x06 || 0x52 <= rom <= 0x54
            &&& ram <= 0x05
            &&& ty <= 0x03 || ty == 0x05 || ty == 0x06 || ty == 0x08 || ty == 0x09 || 0x0B <= ty <= 0x0D
                || 0x0F <= ty <= 0x13
        }),
        ({
            let ty = data[CARTRIDGE_TYPE as int];
            &&& (ty == 0x00 || ty == 0x08 || ty == 0x09) ==> cartridge_type_spec(ty) == Some(CartridgeType::RomOnly)
            &&& 0x01 <= ty <= 0x03 ==> cartridge_type_spec(ty) == Some(CartridgeType::Mbc1)
            &&& (ty == 0x05 || ty == 0x06) ==> cartridge_type_spec(ty) == Some(CartridgeType::Mbc2)
            &&& 0x0B <= ty <= 0x0D ==> cartridge_type_spec(ty) == Some(CartridgeType::Mmm01)
            &&& (ty == 0x0F || ty == 0x10) ==> cartridge_type_spec(ty) == Some(CartridgeType::Mbc3)
            &&& 0x11 <= ty <= 0x13 ==> cartridge_type_spec(ty) == Some(CartridgeType::Mbc5)
        }),
{
}

} // verus!
