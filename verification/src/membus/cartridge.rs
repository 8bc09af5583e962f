use vstd::prelude::*;

verus! {

broadcast use vstd::string::to_string_from_display_ensures_for_str;

/// Header offset of the cartridge type.
pub const CARTRIDGE_TYPE: usize = 0x147;
/// Header offset of the ROM size code.
pub const INDEX_ROM_SIZE: usize = 0x148;
/// Header offset of the RAM size code.
pub const INDEX_RAM_SIZE: usize = 0x149;
/// Bytes in one external RAM bank.
pub const RAM_BANK_LEN: usize = 8 * 1024;

pub enum CartridgeType {
    RomOnly,
    Mbc1,
    Mbc2,
    Mmm01,
    Mbc3,
    Mbc5,
}

/// ROM size in bytes and number of banks for a header ROM size code.
pub open spec fn rom_size_spec(code: u8) -> Option<(usize, u16)> {
    if code == 0x00 {
        Some((32768usize, 2u16))
    } else if code == 0x01 {
        Some((65536usize, 4u16))
    } else if code == 0x02 {
        Some((131072usize, 8u16))
    } else if code == 0x03 {
        Some((262144usize, 16u16))
    } else if code == 0x04 {
        Some((524288usize, 32u16))
    } else if code == 0x05 {
        Some((1048576usize, 64u16))
    } else if code == 0x06 {
        Some((2097152usize, 128u16))
    } else if code == 0x52 {
        Some((73728usize, 72u16))
    } else if code == 0x53 {
        Some((81920usize, 80u16))
    } else if code == 0x54 {
        Some((98304usize, 96u16))
    } else {
        None
    }
}

/// External RAM size in bytes and number of banks for a header RAM size code.
pub open spec fn ram_size_spec(code: u8) -> Option<(usize, u8)> {
    if code == 0x00 || code == 0x01 {
        Some((0usize, 0u8))
    } else if code == 0x02 {
        Some((8192usize, 1u8))
    } else if code == 0x03 {
        Some((32768usize, 4u8))
    } else if code == 0x04 {
        Some((131072usize, 16u8))
    } else if code == 0x05 {
        Some((65536usize, 8u8))
    } else {
        None
    }
}

/// Memory bank controller for a header cartridge type code.
pub open spec fn cart_type_spec(code: u8) -> Option<CartridgeType> {
    if code == 0x00 || code == 0x08 || code == 0x09 {
        Some(CartridgeType::RomOnly)
    } else if code == 0x01 || code == 0x02 || code == 0x03 {
        Some(CartridgeType::Mbc1)
    } else if code == 0x05 || code == 0x06 {
        Some(CartridgeType::Mbc2)
    } else if code == 0x0B || code == 0x0C || code == 0x0D {
        Some(CartridgeType::Mmm01)
    } else if code == 0x0F || code == 0x10 {
        Some(CartridgeType::Mbc3)
    } else if code == 0x11 || code == 0x12 || code == 0x13 {
        Some(CartridgeType::Mbc5)
    } else {
        None
    }
}

/// The text that `String::from_utf8_lossy` makes of the bytes.
pub uninterp spec fn utf8_lossy(bytes: Seq<u8>) -> Seq<char>;

/// Bytes below 0x80 each stand for the character with the same code.
pub open spec fn ascii_text(bytes: Seq<u8>) -> Seq<char> {
    bytes.map_values(|b: u8| b as char)
}

/// Decodes bytes as UTF-8, replacing invalid sequences.
///
/// Calls `String::from_utf8_lossy`. The contract names the result after the bytes and
/// states one plain fact of UTF-8: bytes that are all ASCII (below 0x80) decode to the
/// characters with the same codes. What it makes of other bytes is left unsaid.
#[verifier::external_body]
pub(crate) fn string_from_utf8_lossy(bytes: &[u8]) -> (s: String)
    ensures
        s@ == utf8_lossy(bytes@),
        (forall|i: int| 0 <= i < bytes@.len() ==> bytes@[i] < 0x80) ==> s@ == ascii_text(bytes@),
{
    String::from_utf8_lossy(bytes).into_owned()
}

/// A cartridge as plain values.
pub ghost struct CartridgeState {
    pub rom: Seq<u8>,
    pub ram: Seq<u8>,
    pub rom_banks: u16,
    pub ram_banks: u8,
    pub cart_type: CartridgeType,
}

impl CartridgeState {
    pub open spec fn read_rom_spec(self, addr: u16) -> u8 {
        if addr < self.rom.len() {
            self.rom[addr as int]
        } else {
            0xFF
        }
    }

    /// Whether `addr` falls on a byte of external RAM, which starts at 0xA000.
    pub open spec fn in_ram(self, addr: u16) -> bool {
        0xA000 <= addr && addr - 0xA000 < self.ram.len()
    }

    /// A read of external RAM at `addr`; 0xFF below 0xA000 and beyond the RAM.
    pub open spec fn read_ram_spec(self, addr: u16) -> u8 {
        if self.in_ram(addr) {
            self.ram[addr - 0xA000]
        } else {
            0xFF
        }
    }

    /// A write of external RAM at `addr`; ignored below 0xA000 and beyond the RAM.
    pub open spec fn write_ram_spec(self, addr: u16, value: u8) -> CartridgeState {
        if self.in_ram(addr) {
            CartridgeState { ram: self.ram.update(addr - 0xA000, value), ..self }
        } else {
            self
        }
    }

    /// The title bytes: header bytes 0x134..0x144, as far as the ROM reaches.
    pub open spec fn title_bytes(self) -> Seq<u8> {
        let end = if self.rom.len() < 0x144 { self.rom.len() as int } else { 0x144int };
        if 0x134 >= end {
            Seq::empty()
        } else {
            self.rom.subrange(0x134, end)
        }
    }
}

/// The error messages of `Cartridge::new`.
pub open spec fn rom_size_error() -> Seq<char> {
    "Invalid ROM size in cartridge header"@
}

pub open spec fn ram_size_error() -> Seq<char> {
    "Invalid RAM size in cartridge header"@
}

pub open spec fn cart_type_error() -> Seq<char> {
    "Unsupported cartridge type"@
}

/// Header bytes that `Cartridge::new` can read: the ROM size code always, and the RAM
/// size code when the ROM size code is valid.
pub open spec fn header_readable(data: Seq<u8>) -> bool {
    &&& data.len() > INDEX_ROM_SIZE
    &&& rom_size_spec(data[INDEX_ROM_SIZE as int]) is Some ==> data.len() > INDEX_RAM_SIZE
}

/// The header's ROM size, RAM size and cartridge type codes are all supported.
pub open spec fn header_valid(data: Seq<u8>) -> bool {
    &&& rom_size_spec(data[INDEX_ROM_SIZE as int]) is Some
    &&& ram_size_spec(data[INDEX_RAM_SIZE as int]) is Some
    &&& cart_type_spec(data[CARTRIDGE_TYPE as int]) is Some
}

/// The message for the first unsupported header field, checked in the order ROM size,
/// RAM size, cartridge type.
pub open spec fn header_error(data: Seq<u8>) -> Seq<char> {
    if rom_size_spec(data[INDEX_ROM_SIZE as int]) is None {
        rom_size_error()
    } else if ram_size_spec(data[INDEX_RAM_SIZE as int]) is None {
        ram_size_error()
    } else {
        cart_type_error()
    }
}

/// The cartridge made from a ROM image with a valid header: the image as ROM, zeroed
/// RAM of the size the header gives, the bank counts, and (as every cartridge is
/// treated for now) no bank controller.
pub open spec fn loaded_state(data: Seq<u8>) -> CartridgeState {
    let (ram_size, ram_banks) = ram_size_spec(data[INDEX_RAM_SIZE as int]).unwrap();
    let (_, rom_banks) = rom_size_spec(data[INDEX_ROM_SIZE as int]).unwrap();
    CartridgeState {
        rom: data,
        ram: Seq::new(ram_size as nat, |i: int| 0u8),
        rom_banks,
        ram_banks,
        cart_type: CartridgeType::RomOnly,
    }
}

pub struct Cartridge {
    rom: Vec<u8>,
    ram: Vec<u8>,
    rom_banks: u16,
    ram_banks: u8,
    cart_type: CartridgeType,
}

impl View for Cartridge {
    type V = CartridgeState;

    closed spec fn view(&self) -> CartridgeState {
        CartridgeState {
            rom: self.rom@,
            ram: self.ram@,
            rom_banks: self.rom_banks,
            ram_banks: self.ram_banks,
            cart_type: self.cart_type,
        }
    }
}

impl Cartridge {
    /// Builds a cartridge from the ROM image's bytes: checks the ROM size, the RAM size
    /// and the cartridge type in the header, in this order, and allocates zeroed RAM.
    pub fn new(data: Vec<u8>) -> (r: Result<Self, String>)
        requires
            header_readable(data@),
        ensures
            r is Ok <==> header_valid(data@),
            r matches Err(e) ==> e@ == header_error(data@),
            r matches Ok(c) ==> c@ == loaded_state(data@),
    {
        let rom_info = Self::parse_rom_size_and_banks(&data);
        if rom_info.is_none() {
            return Err("Invalid ROM size in cartridge header".to_string());
        }
        let (_rom_size, rom_banks) = rom_info.unwrap();
        let ram_info = Self::parse_ram_size_and_banks(&data);
        if ram_info.is_none() {
            return Err("Invalid RAM size in cartridge header".to_string());
        }
        let (ram_size, ram_banks) = ram_info.unwrap();
        let cart_type = Self::parse_cartridge_type(&data);
        if cart_type.is_none() {
            return Err("Unsupported cartridge type".to_string());
        }
        let ram = vec![0u8; ram_size];
        assert(ram@ =~= Seq::new(ram_size as nat, |i: int| 0u8));
        let cart = Cartridge {
            rom: data,
            ram,
            rom_banks,
            ram_banks,
            cart_type: CartridgeType::RomOnly,
        };
        Ok(cart)
    }

    /// Whether `new` can read the header of this image: the ROM size code is present,
    /// and so is the RAM size code when the ROM size code is supported.
    pub fn header_is_readable(data: &[u8]) -> (r: bool)
        ensures
            r == header_readable(data@),
    {
        if data.len() <= INDEX_ROM_SIZE {
            return false;
        }
        match Self::parse_rom_size_and_banks(data) {
            Some(_) => data.len() > INDEX_RAM_SIZE,
            None => true,
        }
    }

    /// The title from the header (bytes 0x134..0x144) decoded as UTF-8, invalid
    /// sequences replaced; empty when the ROM does not reach the title.
    pub fn get_title(&self) -> (r: String)
        ensures
            r@ == (if self@.title_bytes().len() == 0 {
                Seq::empty()
            } else {
                utf8_lossy(self@.title_bytes())
            }),
            (forall|i: int| 0 <= i < self@.title_bytes().len() ==> self@.title_bytes()[i] < 0x80)
                ==> r@ == ascii_text(self@.title_bytes()),
    {
        let start: usize = 0x134;
        let end: usize = if self.rom.len() < 0x144 { self.rom.len() } else { 0x144 };
        if start >= end {
            return String::new();
        }
        let title_bytes = &self.rom.as_slice()[start..end];
        string_from_utf8_lossy(title_bytes)
    }

    pub fn get_ram_size(&self) -> (r: usize)
        ensures
            r == self@.ram.len(),
    {
        self.ram.len()
    }

    fn parse_ram_size_and_banks(data: &[u8]) -> (r: Option<(usize, u8)>)
        requires
            data@.len() > INDEX_RAM_SIZE,
        ensures
            r == ram_size_spec(data@[INDEX_RAM_SIZE as int]),
    {
        let ram_size = match data[INDEX_RAM_SIZE] {
            0x00 => (0, 0),
            0x01 => (0, 0),
            0x02 => (RAM_BANK_LEN, 1),
            0x03 => (4 * RAM_BANK_LEN, 4),
            0x04 => (16 * RAM_BANK_LEN, 16),
            0x05 => (8 * RAM_BANK_LEN, 8),
            _ => return None,
        };
        Some(ram_size)
    }

    fn parse_rom_size_and_banks(data: &[u8]) -> (r: Option<(usize, u16)>)
        requires
            data@.len() > INDEX_ROM_SIZE,
        ensures
            r == rom_size_spec(data@[INDEX_ROM_SIZE as int]),
    {
        let num_banks = match data[INDEX_ROM_SIZE] {
            0x00 => (32 * 1024, 2),
            0x01 => (64 * 1024, 4),
            0x02 => (128 * 1024, 8),
            0x03 => (256 * 1024, 16),
            0x04 => (512 * 1024, 32),
            0x05 => (1024 * 1024, 64),
            0x06 => (2048 * 1024, 128),
            0x52 => (72 * 1024, 72),
            0x53 => (80 * 1024, 80),
            0x54 => (96 * 1024, 96),
            _ => return None,
        };
        Some(num_banks)
    }

    fn parse_cartridge_type(rom: &[u8]) -> (r: Option<CartridgeType>)
        ensures
            rom@.len() > CARTRIDGE_TYPE ==> r == cart_type_spec(rom@[CARTRIDGE_TYPE as int]),
            rom@.len() <= CARTRIDGE_TYPE ==> r is None,
    {
        if rom.len() <= CARTRIDGE_TYPE {
            return None;
        }
        let cart_type = match rom[CARTRIDGE_TYPE] {
            0x00 => CartridgeType::RomOnly,
            0x01 => CartridgeType::Mbc1,
            0x02 => CartridgeType::Mbc1,
            0x03 => CartridgeType::Mbc1,
            0x05 => CartridgeType::Mbc2,
            0x06 => CartridgeType::Mbc2,
            0x08 => CartridgeType::RomOnly,
            0x09 => CartridgeType::RomOnly,
            0x0B => CartridgeType::Mmm01,
            0x0C => CartridgeType::Mmm01,
            0x0D => CartridgeType::Mmm01,
            0x0F => CartridgeType::Mbc3,
            0x10 => CartridgeType::Mbc3,
            0x11 => CartridgeType::Mbc5,
            0x12 => CartridgeType::Mbc5,
            0x13 => CartridgeType::Mbc5,
            _ => return None,
        };
        Some(cart_type)
    }

    pub fn read_rom(&self, addr: u16) -> (r: u8)
        ensures
            r == self@.read_rom_spec(addr),
    {
        if (addr as usize) < self.rom.len() {
            return self.rom[addr as usize];
        }
        0xFF
    }

    /// Read external RAM (0xA000..0xBFFF). Return 0xFF otherwise
    pub fn read_ext_ram(&self, addr: u16) -> (r: u8)
        ensures
            r == self@.read_ram_spec(addr),
    {
        if addr < 0xA000 {
            return 0xFF;
        }
        let idx = addr as usize - 0xA000;
        if idx < self.ram.len() {
            self.ram[idx]
        } else {
            0xFF
        }
    }

    /// Write to external RAM (0xA000..0xBFFF). Ignore otherwise.
    pub fn write_ram(&mut self, addr: u16, value: u8)
        ensures
            final(self)@ == old(self)@.write_ram_spec(addr, value),
    {
        if addr < 0xA000 {
            return;
        }
        let idx = addr as usize - 0xA000;
        if idx < self.ram.len() {
            self.ram.set(idx, value);
        }
    }
}

/// External RAM reads back what was last written at an address inside it, a write
/// leaves every other address as it was, and a write below 0xA000 or beyond the RAM
/// changes nothing.
pub proof fn lemma_ext_ram_read_after_write(c: CartridgeState, addr: u16, other: u16, value: u8)
    ensures
        c.in_ram(addr) ==> c.write_ram_spec(addr, value).read_ram_spec(addr) == value,
        other != addr ==> c.write_ram_spec(addr, value).read_ram_spec(other) == c.read_ram_spec(
            other,
        ),
        !c.in_ram(addr) ==> c.write_ram_spec(addr, value) == c,
{
}

/// The headers that load: ROM size codes 0x00-0x06 and 0x52-0x54, RAM size codes
/// 0x00-0x05, and cartridge type codes 0x00, 0x08, 0x09 (no controller), 0x01-0x03
/// (MBC1), 0x05-0x06 (MBC2), 0x0B-0x0D (MMM01), 0x0F-0x10 (MBC3) and 0x11-0x13 (MBC5).
pub proof fn lemma_supported_headers(data: Seq<u8>)
    requires
        data.len() > INDEX_RAM_SIZE,
    ensures
        header_valid(data) <==> ({
            let rom = data[INDEX_ROM_SIZE as int];
            let ram = data[INDEX_RAM_SIZE as int];
            let ty = data[CARTRIDGE_TYPE as int];
            &&& rom <= 0x06 || 0x52 <= rom <= 0x54
            &&& ram <= 0x05
            &&& ty <= 0x03 || ty == 0x05 || ty == 0x06 || ty == 0x08 || ty == 0x09 || 0x0B <= ty <= 0x0D
                || 0x0F <= ty <= 0x13
        }),
        ({
            let ty = data[CARTRIDGE_TYPE as int];
            &&& (ty == 0x00 || ty == 0x08 || ty == 0x09) ==> cart_type_spec(ty) == Some(CartridgeType::RomOnly)
            &&& 0x01 <= ty <= 0x03 ==> cart_type_spec(ty) == Some(CartridgeType::Mbc1)
            &&& (ty == 0x05 || ty == 0x06) ==> cart_type_spec(ty) == Some(CartridgeType::Mbc2)
            &&& 0x0B <= ty <= 0x0D ==> cart_type_spec(ty) == Some(CartridgeType::Mmm01)
            &&& (ty == 0x0F || ty == 0x10) ==> cart_type_spec(ty) == Some(CartridgeType::Mbc3)
            &&& 0x11 <= ty <= 0x13 ==> cart_type_spec(ty) == Some(CartridgeType::Mbc5)
        }),
{
}

} // verus!
