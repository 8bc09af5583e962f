use vstd::prelude::*;
use crate::interrupts::InterruptType;
use crate::io::{IoRegisters, IoState, lemma_low_byte};
use crate::joypad::{JoypadState, UserInput};
use crate::ppu::{Ppu, PpuState, OAM_SIZE};

pub mod cartridge;

pub use self::cartridge::Cartridge;
use self::cartridge::CartridgeState;

verus! {

/// 8 KiB of work RAM.
pub const WRAM_SIZE: usize = 1024 * 8;
/// FF80-FFFE (127 bytes)
pub const HRAM_SIZE: usize = 0x7F;

/// The memory bus and everything behind it, as plain values.
pub ghost struct BusState {
    pub cart: CartridgeState,
    pub ppu: PpuState,
    pub io: IoState,
    pub wram: Seq<u8>,
    pub hram: Seq<u8>,
    /// FFFF: enabled interrupts.
    pub ie: u8,
    /// The last write to the external RAM window, as (address, value).
    pub last_ext_ram_write: Option<(u16, u8)>,
}

/// Whether an address of the I/O page (FF00-FF7F) belongs to the PPU registers.
pub open spec fn is_ppu_reg(addr: u16) -> bool {
    0x40 <= addr % 256 <= 0x4B
}

impl BusState {
    pub open spec fn wf(self) -> bool {
        &&& self.ppu.wf()
        &&& self.io.wf()
        &&& self.wram.len() == WRAM_SIZE
        &&& self.hram.len() == HRAM_SIZE
    }

    /// The memory map: ROM, VRAM, external RAM, WRAM and its echo, OAM, an unusable
    /// gap (reads 0xFF), I/O and PPU registers, HRAM and IE.
    #[verifier::opaque]
    pub open spec fn read_spec(self, addr: u16) -> u8 {
        if addr <= 0x7FFF {
            self.cart.read_rom_spec(addr)
        } else if addr <= 0x9FFF {
            self.ppu.read_vram_spec(addr as int)
        } else if addr <= 0xBFFF {
            self.cart.read_ram_spec(addr)
        } else if addr <= 0xDFFF {
            self.wram[addr - 0xC000]
        } else if addr <= 0xFDFF {
            self.wram[addr - 0xE000]
        } else if addr <= 0xFE9F {
            self.ppu.read_oam_spec(addr - 0xFE00)
        } else if addr <= 0xFEFF {
            0xFF
        } else if addr <= 0xFF7F {
            if is_ppu_reg(addr) {
                self.ppu.read_reg_spec(addr)
            } else {
                self.io.read_spec(addr)
            }
        } else if addr <= 0xFFFE {
            self.hram[addr - 0xFF80]
        } else {
            self.ie
        }
    }

    /// OAM after a DMA transfer from page `page`: the 160 bytes read from `page` * 256 on.
    #[verifier::opaque]
    pub open spec fn dma_spec(self, page: u8) -> BusState {
        BusState {
            ppu: PpuState {
                oam: Seq::new(OAM_SIZE as nat, |i: int| self.read_spec((page as int * 256 + i) as u16)),
                ..self.ppu
            },
            ..self
        }
    }

    /// The effect of a CPU write. ROM and the unusable gap ignore writes; a write to
    /// FF46 also starts an OAM DMA transfer from the written page.
    #[verifier::opaque]
    pub open spec fn write_spec(self, addr: u16, value: u8) -> BusState {
        if addr <= 0x7FFF {
            self
        } else if addr <= 0x9FFF {
            BusState { ppu: self.ppu.write_vram_spec(addr as int, value), ..self }
        } else if addr <= 0xBFFF {
            BusState {
                last_ext_ram_write: Some((addr, value)),
                cart: self.cart.write_ram_spec(addr, value),
                ..self
            }
        } else if addr <= 0xDFFF {
            BusState { wram: self.wram.update(addr - 0xC000, value), ..self }
        } else if addr <= 0xFDFF {
            BusState { wram: self.wram.update(addr - 0xE000, value), ..self }
        } else if addr <= 0xFE9F {
            BusState { ppu: self.ppu.write_oam_spec(addr - 0xFE00, value), ..self }
        } else if addr <= 0xFEFF {
            self
        } else if addr <= 0xFF7F {
            let b = if is_ppu_reg(addr) {
                BusState { ppu: self.ppu.write_reg_spec(addr, value), ..self }
            } else {
                BusState { io: self.io.write_spec(addr, value), ..self }
            };
            if addr == 0xFF46 {
                b.dma_spec(value)
            } else {
                b
            }
        } else if addr <= 0xFFFE {
            BusState { hram: self.hram.update(addr - 0xFF80, value), ..self }
        } else {
            BusState { ie: value, ..self }
        }
    }

    /// One step: the timer steps, the PPU advances by `cycles`, and the interrupts
    /// they signal are requested in IF.
    pub open spec fn step_spec(self, cycles: u32) -> BusState {
        let io1 = self.io.step_spec();
        let (p, vblank, stat) = self.ppu.step_spec(cycles);
        let io2 = if vblank { io1.request_spec(InterruptType::VBlank) } else { io1 };
        let io3 = if stat { io2.request_spec(InterruptType::LCDSTAT) } else { io2 };
        BusState { io: io3, ppu: p, ..self }
    }

    pub open spec fn can_step(self) -> bool {
        self.io.can_step()
    }

    /// What nothing that runs on the bus undoes: the ROM image stays as it was, and the
    /// characters sent over the serial port stay at the front of the serial output.
    pub open spec fn evolves_to(self, later: BusState) -> bool {
        &&& later.cart.rom == self.cart.rom
        &&& self.io.serial_out.is_prefix_of(later.io.serial_out)
    }
}

pub struct MemoryBus {
    cartridge: Cartridge,
    ppu: Ppu,
    io: IoRegisters,
    wram: [u8; WRAM_SIZE],
    hram: [u8; HRAM_SIZE],
    ie: u8,
    last_ext_ram_write: Option<(u16, u8)>,
}

impl View for MemoryBus {
    type V = BusState;

    closed spec fn view(&self) -> BusState {
        BusState {
            cart: self.cartridge@,
            ppu: self.ppu@,
            io: self.io@,
            wram: self.wram@,
            hram: self.hram@,
            ie: self.ie,
            last_ext_ram_write: self.last_ext_ram_write,
        }
    }
}

impl MemoryBus {
    /// Well-formed: the plain-value invariant holds and the PPU's tile cache is current.
    pub closed spec fn wf(self) -> bool {
        &&& self@.wf()
        &&& self.ppu.wf()
    }

    /// A well-formed bus has a well-formed model: the laws on `BusState` apply to it.
    pub proof fn lemma_wf_view(&self)
        requires
            self.wf(),
        ensures
            self@.wf(),
    {
    }

    pub fn new(cartridge: Cartridge) -> (r: Self)
        ensures
            r.wf(),
            r@.cart == cartridge@,
            r@.ppu == Ppu::new_state(),
            r@.io == IoRegisters::new_state(),
            r@.wram == Seq::new(WRAM_SIZE as nat, |i: int| 0u8),
            r@.hram == Seq::new(HRAM_SIZE as nat, |i: int| 0u8),
            r@.ie == 0,
            r@.last_ext_ram_write is None,
    {
        let r = Self {
            cartridge,
            ppu: Ppu::new(),
            wram: [0; WRAM_SIZE],
            hram: [0; HRAM_SIZE],
            io: IoRegisters::new(),
            ie: 0,
            last_ext_ram_write: None,
        };
        assert(r.wram@ =~= Seq::new(WRAM_SIZE as nat, |i: int| 0u8));
        assert(r.hram@ =~= Seq::new(HRAM_SIZE as nat, |i: int| 0u8));
        r
    }

    pub fn ppu(&self) -> (r: &Ppu)
        ensures
            r@ == self@.ppu,
            self.wf() ==> r.wf(),
    {
        &self.ppu
    }

    pub fn step(&mut self, cycles: u32)
        requires
            old(self).wf(),
            old(self)@.can_step(),
        ensures
            final(self).wf(),
            final(self)@ == old(self)@.step_spec(cycles),
    {
        self.io.step(cycles);

        let (entered_vblank, entered_stat_irq) = self.ppu.step(cycles);
        if entered_vblank {
            self.io.request_interrupt(InterruptType::VBlank);
        }
        if entered_stat_irq {
            self.io.request_interrupt(InterruptType::LCDSTAT);
        }
    }

    /// Whether the timer can take its next step.
    pub fn can_step(&self) -> (r: bool)
        ensures
            r == self@.can_step(),
    {
        self.io.can_step()
    }

    pub fn serial_output(&self) -> (r: &str)
        ensures
            r@ == self@.io.serial_out,
    {
        self.io.serial_output()
    }

    pub fn last_ext_ram_write(&self) -> (r: Option<(u16, u8)>)
        ensures
            r == self@.last_ext_ram_write,
    {
        self.last_ext_ram_write
    }

    pub fn press_input(&mut self, input: UserInput)
        requires
            old(self).wf(),
        ensures
            final(self).wf(),
            final(self)@ == (BusState {
                io: IoState {
                    joypad: JoypadState { keys: old(self)@.io.joypad.keys & !input.key_mask(), ..old(self)@.io.joypad },
                    ..old(self)@.io
                },
                ..old(self)@
            }),
    {
        self.io.press_input(input);
    }

    pub fn release_input(&mut self, input: UserInput)
        requires
            old(self).wf(),
        ensures
            final(self).wf(),
            final(self)@ == (BusState {
                io: IoState {
                    joypad: JoypadState { keys: old(self)@.io.joypad.keys | input.key_mask(), ..old(self)@.io.joypad },
                    ..old(self)@.io
                },
                ..old(self)@
            }),
    {
        self.io.release_input(input);
    }

    pub fn read_byte(&self, addr: u16) -> (r: u8)
        requires
            self.wf(),
        ensures
            r == self@.read_spec(addr),
    {
        proof {
            reveal(BusState::read_spec);
        }
        match addr {
            // 16KiB ROM banks
            0x0000..=0x3FFF => self.cartridge.read_rom(addr),
            0x4000..=0x7FFF => self.cartridge.read_rom(addr),
            // VRAM
            0x8000..=0x9FFF => self.ppu.read_vram(addr as usize),
            // 8KiB external RAM
            0xA000..=0xBFFF => self.cartridge.read_ext_ram(addr),
            // 8KiB WRAM
            0xC000..=0xDFFF => self.wram[addr as usize - 0xC000],
            // Echo RAM
            0xE000..=0xFDFF => self.wram[addr as usize - 0xE000],
            // OAM
            0xFE00..=0xFE9F => self.ppu.read_oam(addr as usize - 0xFE00),
            // IO and PPU registers
            0xFF00..=0xFF7F => {
                proof {
                    lemma_low_byte(addr);
                }
                match addr & 0x00FF {
                    0x00..=0x3F => self.io.read_io_reg(addr),
                    0x40..=0x4B => self.ppu.read_reg(addr),
                    _ => self.io.read_io_reg(addr),
                }
            },
            // HRAM
            0xFF80..=0xFFFE => self.hram[addr as usize - 0xFF80],
            // Interrupt enable
            0xFFFF => self.ie,
            // 0xFEA0..=0xFEFF prohibited
            _ => 0xFF,
        }
    }

    pub fn write_byte(&mut self, addr: u16, value: u8)
        requires
            old(self).wf(),
        ensures
            final(self).wf(),
            final(self)@ == old(self)@.write_spec(addr, value),
    {
        proof {
            reveal(BusState::write_spec);
        }
        match addr {
            // ROM: ignored
            0x0000..=0x7FFF => (),
            // VRAM
            0x8000..=0x9FFF => self.ppu.write_vram(addr as usize, value),
            // 8KiB external RAM
            0xA000..=0xBFFF => {
                self.last_ext_ram_write = Some((addr, value));
                self.cartridge.write_ram(addr, value)
            },
            // 8KiB WRAM
            0xC000..=0xDFFF => self.wram[addr as usize - 0xC000] = value,
            // Echo RAM
            0xE000..=0xFDFF => self.wram[addr as usize - 0xE000] = value,
            // OAM
            0xFE00..=0xFE9F => self.ppu.write_oam(addr as usize - 0xFE00, value),
            // IO and PPU registers
            0xFF00..=0xFF7F => {
                proof {
                    lemma_low_byte(addr);
                }
                match addr & 0x00FF {
                    0x00..=0x3F => self.io.write_io(addr, value),
                    0x40..=0x4B => self.ppu.write_reg(addr, value),
                    _ => self.io.write_io(addr, value),
                }

                if addr == 0xFF46 {
                    self.oam_dma(value);
                }
            },
            // HRAM
            0xFF80..=0xFFFE => self.hram[addr as usize - 0xFF80] = value,
            // Interrupt enable
            0xFFFF => self.ie = value,
            // 0xFEA0..=0xFEFF prohibited: ignored
            _ => (),
        }
    }

    /// OAM DMA: copies the 160 bytes from `page` * 256 on into OAM.
    fn oam_dma(&mut self, page: u8)
        requires
            old(self).wf(),
        ensures
            final(self).wf(),
            final(self)@ == old(self)@.dma_spec(page),
    {
        proof {
            reveal(BusState::read_spec);
            reveal(BusState::dma_spec);
        }
        let source_base = (page as u16) << 8;
        proof {
            lemma_page_base(page);
        }
        let ghost start = self@;
        let mut i: u16 = 0;
        while i < 0xA0u16
            invariant
                i <= 0xA0,
                self.wf(),
                source_base == page as int * 256,
                self@ == (BusState { ppu: PpuState { oam: self@.ppu.oam, ..start.ppu }, ..start }),
                forall|j: int| 0 <= j < i ==> #[trigger] self@.ppu.oam[j] == start.read_spec((source_base + j) as u16),
                forall|j: int| i <= j < OAM_SIZE ==> #[trigger] self@.ppu.oam[j] == start.ppu.oam[j],
            decreases 0xA0 - i,
        {
            let addr = source_base.wrapping_add(i);
            assert(self@.read_spec(addr) == start.read_spec(addr)) by {
                reveal(BusState::read_spec);
            }
            let byte = self.read_byte(addr);
            self.ppu.dma_write_oam(i as usize, byte);
            i += 1;
        }
        assert(self@.ppu.oam =~= start.dma_spec(page).ppu.oam);
    }
}

pub(crate) proof fn lemma_page_base(page: u8)
    ensures
        (page as u16) << 8u16 == page as int * 256,
{
    assert((page as u16) << 8u16 == (page as u16) * 256) by (bit_vector);
}

/// Work RAM reads back what was written, through either of its two windows;
/// HRAM and IE do too; a write to work RAM or HRAM leaves every other address of work
/// RAM and HRAM as it was; writes to ROM change nothing.
pub proof fn lemma_ram_read_after_write(b: BusState, addr: u16, other: u16, value: u8)
    requires
        b.wf(),
    ensures
        (0xC000 <= addr <= 0xDFFF || 0xFF80 <= addr <= 0xFFFE) && (0xC000 <= other <= 0xDFFF
            || 0xFF80 <= other <= 0xFFFE) && other != addr ==> b.write_spec(addr, value).read_spec(other)
            == b.read_spec(other),
        0xC000 <= addr <= 0xFDFF ==> b.write_spec(addr, value).read_spec(addr) == value,
        0xC000 <= addr <= 0xDDFF ==> b.write_spec(addr, value).read_spec((addr + 0x2000) as u16) == value,
        0xE000 <= addr <= 0xFDFF ==> b.write_spec(addr, value).read_spec((addr - 0x2000) as u16) == value,
        0xFF80 <= addr <= 0xFFFF ==> b.write_spec(addr, value).read_spec(addr) == value,
        addr <= 0x7FFF ==> b.write_spec(addr, value) == b,
{
    reveal(BusState::read_spec);
    reveal(BusState::write_spec);
}

/// A write keeps the bus well-formed.
pub proof fn lemma_write_keeps_wf(b: BusState, addr: u16, value: u8)
    requires
        b.wf(),
    ensures
        b.write_spec(addr, value).wf(),
{
    reveal(BusState::write_spec);
    reveal(BusState::dma_spec);
    let w = b.write_spec(addr, value);
    assert(w.ppu.screen == b.ppu.screen);
}

/// Every bus state evolves to itself.
pub proof fn lemma_evolves_refl(b: BusState)
    ensures
        b.evolves_to(b),
{
    assert(b.io.serial_out =~= b.io.serial_out.subrange(0, b.io.serial_out.len() as int));
}

/// Evolving is transitive.
pub proof fn lemma_evolves_trans(a: BusState, b: BusState, c: BusState)
    requires
        a.evolves_to(b),
        b.evolves_to(c),
    ensures
        a.evolves_to(c),
{
    let s = a.io.serial_out;
    assert(s =~= c.io.serial_out.subrange(0, s.len() as int)) by {
        assert forall|i: int| 0 <= i < s.len() implies s[i] == c.io.serial_out[i] by {
            assert(s[i] == b.io.serial_out.subrange(0, s.len() as int)[i]);
            assert(b.io.serial_out[i] == c.io.serial_out.subrange(0, b.io.serial_out.len() as int)[i]);
        }
    }
}

/// A write never changes the ROM image, and at most appends one character to the
/// serial output.
pub proof fn lemma_write_evolves(b: BusState, addr: u16, value: u8)
    ensures
        b.evolves_to(b.write_spec(addr, value)),
        b.write_spec(addr, value).io.serial_out == b.io.serial_out || exists|c: char|
            b.write_spec(addr, value).io.serial_out == #[trigger] b.io.serial_out.push(c),
{
    reveal(BusState::write_spec);
    reveal(BusState::dma_spec);
    lemma_evolves_refl(b);
    let w = b.write_spec(addr, value);
    if w.io.serial_out != b.io.serial_out {
        let c = b.io.io[1] as char;
        assert(w.io.serial_out == b.io.serial_out.push(c));
        assert(b.io.serial_out =~= w.io.serial_out.subrange(0, b.io.serial_out.len() as int));
    }
}

/// Every bus write evolves the bus.
pub proof fn lemma_writes_evolve()
    ensures
        forall|b: BusState, addr: u16, value: u8| #[trigger] b.evolves_to(b.write_spec(addr, value)),
{
    assert forall|b: BusState, addr: u16, value: u8| #[trigger] b.evolves_to(b.write_spec(addr, value)) by {
        lemma_write_evolves(b, addr, value);
    }
}

/// A step of the timer and the PPU evolves the bus: it leaves the ROM image and the
/// serial output as they were.
pub proof fn lemma_step_evolves(b: BusState, cycles: u32)
    ensures
        b.step_spec(cycles).cart.rom == b.cart.rom,
        b.step_spec(cycles).io.serial_out == b.io.serial_out,
        b.evolves_to(b.step_spec(cycles)),
{
    lemma_evolves_refl(b);
}

} // verus!
