use vstd::prelude::*;
use crate::cartridge::Cartridge;
use crate::interrupts::InterruptType;
use crate::io::{IO_SIZE, lemma_low_byte};
use crate::joypad::{Joypad, JoypadState};
use crate::membus::{HRAM_SIZE, WRAM_SIZE, lemma_page_base};
use crate::ppu::{Mode, Ppu, PpuState, OAM_SIZE};
use crate::timer::{TimerRegister, TimerState};

verus! {

/// The flat memory bus (ROM and RAM of the cartridge read directly, timers and joypad
/// held by the bus itself) as plain values.
pub ghost struct FlatBusState {
    pub rom: Seq<u8>,
    pub ram: Seq<u8>,
    pub ppu: PpuState,
    pub timers: TimerState,
    pub joypad: JoypadState,
    pub wram: Seq<u8>,
    pub hram: Seq<u8>,
    /// Backing bytes of FF00-FF7F for the registers without special handling.
    pub io: Seq<u8>,
    /// FF0F: requested interrupts.
    pub if_reg: u8,
    /// FFFF: enabled interrupts.
    pub ie: u8,
}

impl FlatBusState {
    pub open spec fn wf(self) -> bool {
        &&& self.ppu.wf()
        &&& self.wram.len() == WRAM_SIZE
        &&& self.hram.len() == HRAM_SIZE
        &&& self.io.len() == IO_SIZE
    }

    /// A read does not fault: ROM addresses lie within the ROM image.
    pub open spec fn can_read(self, addr: u16) -> bool {
        addr <= 0x7FFF ==> addr < self.rom.len()
    }

    /// A DMA transfer from `page` reads only addresses that can be read.
    pub open spec fn can_dma(self, page: u8) -> bool {
        page <= 0x7F ==> page as int * 256 + 0xA0 <= self.rom.len()
    }

    /// A write does not fault: VRAM is written only while the PPU is transferring pixels
    /// (when the write is ignored), and a write to FF46 starts a DMA that can read its page.
    pub open spec fn can_write(self, addr: u16, value: u8) -> bool {
        &&& 0x8000 <= addr <= 0x9FFF ==> self.ppu.mode == Mode::Transfer
        &&& addr == 0xFF46 ==> self.can_dma(value)
    }

    /// The memory map. VRAM is handed the offset within VRAM, which the PPU answers
    /// with 0xFF.
    #[verifier::opaque]
    pub open spec fn read_spec(self, addr: u16) -> u8 {
        if addr <= 0x7FFF {
            self.rom[addr as int]
        } else if addr <= 0x9FFF {
            self.ppu.read_vram_spec(addr - 0x8000)
        } else if addr <= 0xBFFF {
            if addr - 0xA000 < self.ram.len() {
                self.ram[addr - 0xA000]
            } else {
                0xFF
            }
        } else if addr <= 0xDFFF {
            self.wram[addr - 0xC000]
        } else if addr <= 0xFDFF {
            self.wram[addr - 0xE000]
        } else if addr <= 0xFE9F {
            self.ppu.read_oam_spec(addr - 0xFE00)
        } else if addr <= 0xFEFF {
            0xFF
        } else if addr <= 0xFF7F {
            let lo = addr % 256;
            if 0x40 <= lo <= 0x4B {
                self.ppu.read_reg_spec(addr)
            } else if lo == 0x00 {
                self.joypad.read_spec()
            } else if lo == 0x0F {
                self.if_reg | 0xE0
            } else if 0x04 <= lo <= 0x07 {
                self.timers.read_spec(addr)
            } else {
                self.io[addr - 0xFF00]
            }
        } else if addr <= 0xFFFE {
            self.hram[addr - 0xFF80]
        } else {
            self.ie
        }
    }

    /// OAM after a DMA transfer from `page`: the 160 bytes read from `page` * 256 on.
    #[verifier::opaque]
    pub open spec fn dma_spec(self, page: u8) -> FlatBusState {
        FlatBusState {
            ppu: PpuState {
                oam: Seq::new(OAM_SIZE as nat, |i: int| self.read_spec((page as int * 256 + i) as u16)),
                ..self.ppu
            },
            ..self
        }
    }

    /// The effect of a write. ROM and the unusable gap ignore writes; so does external
    /// RAM beyond the cartridge's RAM; a write to FF46 also starts an OAM DMA transfer.
    #[verifier::opaque]
    pub open spec fn write_spec(self, addr: u16, value: u8) -> FlatBusState {
        if addr <= 0x7FFF {
            self
        } else if addr <= 0x9FFF {
            FlatBusState { ppu: self.ppu.write_vram_spec(addr - 0x8000, value), ..self }
        } else if addr <= 0xBFFF {
            if addr - 0xA000 < self.ram.len() {
                FlatBusState { ram: self.ram.update(addr - 0xA000, value), ..self }
            } else {
                self
            }
        } else if addr <= 0xDFFF {
            FlatBusState { wram: self.wram.update(addr - 0xC000, value), ..self }
        } else if addr <= 0xFDFF {
            FlatBusState { wram: self.wram.update(addr - 0xE000, value), ..self }
        } else if addr <= 0xFE9F {
            FlatBusState { ppu: self.ppu.write_oam_spec(addr - 0xFE00, value), ..self }
        } else if addr <= 0xFEFF {
            self
        } else if 0xFF40 <= addr <= 0xFF4B {
            let b = FlatBusState { ppu: self.ppu.write_reg_spec(addr, value), ..self };
            if addr == 0xFF46 {
                b.dma_spec(value)
            } else {
                b
            }
        } else if addr <= 0xFF7F {
            let lo = addr % 256;
            if lo == 0x00 {
                FlatBusState { joypad: JoypadState { select: value & 0x30, ..self.joypad }, ..self }
            } else if lo == 0x0F {
                FlatBusState { if_reg: value & 0x1F, ..self }
            } else if 0x04 <= lo <= 0x07 {
                FlatBusState { timers: self.timers.write_spec(addr, value), ..self }
            } else {
                FlatBusState { io: self.io.update(addr - 0xFF00, value), ..self }
            }
        } else if addr <= 0xFFFE {
            FlatBusState { hram: self.hram.update(addr - 0xFF80, value), ..self }
        } else {
            FlatBusState { ie: value, ..self }
        }
    }

    /// One tick: the PPU advances by `cycles`, the timer steps, and the interrupts they
    /// signal are requested.
    pub open spec fn tick_spec(self, cycles: u32) -> FlatBusState {
        let (p, vblank, stat) = self.ppu.step_spec(cycles);
        let (t, timer_irq) = self.timers.step_spec();
        let if1 = if vblank { self.if_reg | InterruptType::VBlank.mask_spec() } else { self.if_reg };
        let if2 = if stat { if1 | InterruptType::LCDSTAT.mask_spec() } else { if1 };
        let if3 = if timer_irq { if2 | InterruptType::Timer.mask_spec() } else { if2 };
        FlatBusState { ppu: p, timers: t, if_reg: if3, ..self }
    }
}

pub struct MemoryBus {
    cartridge: Cartridge,
    ppu: Ppu,
    timers: TimerRegister,
    joypad: Joypad,
    wram: [u8; WRAM_SIZE],
    hram: [u8; HRAM_SIZE],
    io: [u8; IO_SIZE],
    if_reg: u8,
    ie: u8,
}

impl View for MemoryBus {
    type V = FlatBusState;

    closed spec fn view(&self) -> FlatBusState {
        FlatBusState {
            rom: self.cartridge.rom@,
            ram: self.cartridge.ram@,
            ppu: self.ppu@,
            timers: self.timers@,
            joypad: self.joypad@,
            wram: self.wram@,
            hram: self.hram@,
            io: self.io@,
            if_reg: self.if_reg,
            ie: self.ie,
        }
    }
}

impl MemoryBus {
    /// Well-formed: the plain-value invariant holds and the PPU's tile cache is current.
    pub closed spec fn wf(self) -> bool {
        &&& self@.wf()
        &&& self.ppu.wf()
    }

    /// A well-formed bus has a well-formed model.
    pub proof fn lemma_wf_view(&self)
        requires
            self.wf(),
        ensures
            self@.wf(),
    {
    }

    pub fn new(cartridge: Cartridge) -> (r: Self)
        ensures
            r.wf(),
            r@.rom == cartridge.rom@,
            r@.ram == cartridge.ram@,
            r@.ppu == Ppu::new_state(),
            r@.timers == (TimerState { div: 0, tima: 0, tma: 0, tac: 0, div_counter: 0, tima_counter: 0 }),
            r@.joypad == (JoypadState { select: 0x30, keys: 0xFF }),
            r@.wram == Seq::new(WRAM_SIZE as nat, |i: int| 0u8),
            r@.hram == Seq::new(HRAM_SIZE as nat, |i: int| 0u8),
            r@.io == Seq::new(IO_SIZE as nat, |i: int| 0u8),
            r@.if_reg == 0,
            r@.ie == 0,
    {
        let r = Self {
            cartridge,
            ppu: Ppu::new(),
            timers: TimerRegister::new(),
            joypad: Joypad::new(),
            wram: [0; WRAM_SIZE],
            hram: [0; HRAM_SIZE],
            io: [0; IO_SIZE],
            if_reg: 0,
            ie: 0,
        };
        assert(r.wram@ =~= Seq::new(WRAM_SIZE as nat, |i: int| 0u8));
        assert(r.hram@ =~= Seq::new(HRAM_SIZE as nat, |i: int| 0u8));
        assert(r.io@ =~= Seq::new(IO_SIZE as nat, |i: int| 0u8));
        r
    }

    pub fn ppu(&self) -> (r: &Ppu)
        ensures
            r@ == self@.ppu,
            self.wf() ==> r.wf(),
    {
        &self.ppu
    }

    /// The PPU, for changes in place; the bus stays well-formed if the PPU does.
    pub fn ppu_mut(&mut self) -> (r: &mut Ppu)
        ensures
            r@ == old(self)@.ppu,
            final(self)@ == (FlatBusState { ppu: final(r)@, ..old(self)@ }),
            old(self).wf() && final(r).wf() && final(r)@.wf() ==> final(self).wf(),
    {
        &mut self.ppu
    }

    pub fn read_byte(&self, addr: u16) -> (r: u8)
        requires
            self.wf(),
            self@.can_read(addr),
        ensures
            r == self@.read_spec(addr),
    {
        proof {
            reveal(FlatBusState::read_spec);
        }
        match addr {
            // 16KiB ROM banks
            0x0000..=0x3FFF => self.cartridge.rom[addr as usize],
            0x4000..=0x7FFF => self.cartridge.rom[addr as usize],
            // VRAM
            0x8000..=0x9FFF => self.ppu.read_vram(addr as usize - 0x8000),
            // 8KiB external RAM
            0xA000..=0xBFFF => {
                let ram_addr = addr as usize - 0xA000;
                if ram_addr < self.cartridge.ram.len() {
                    self.cartridge.ram[ram_addr]
                } else {
                    0xFF
                }
            },
            // 8KiB WRAM
            0xC000..=0xDFFF => self.wram[addr as usize - 0xC000],
            // Echo RAM
            0xE000..=0xFDFF => self.wram[addr as usize - 0xE000],
            // OAM
            0xFE00..=0xFE9F => self.ppu.read_oam(addr as usize - 0xFE00),
            // PPU registers
            0xFF40..=0xFF4B => self.ppu.read_reg(addr),
            // IO registers
            0xFF00..=0xFF7F => {
                proof {
                    lemma_low_byte(addr);
                }
                match addr & 0x00FF {
                    0x00 => self.joypad.read(),
                    0x0F => self.if_reg | 0xE0,
                    0x04..=0x07 => self.timers.read_byte(addr),
                    _ => self.io[addr as usize - 0xFF00],
                }
            },
            // HRAM
            0xFF80..=0xFFFE => self.hram[addr as usize - 0xFF80],
            // Interrupt enable
            0xFFFF => self.ie,
            // 0xFEA0..=0xFEFF prohibited
            _ => 0xFF,
        }
    }

    pub fn write_byte(&mut self, addr: u16, value: u8)
        requires
            old(self).wf(),
            old(self)@.can_write(addr, value),
        ensures
            final(self).wf(),
            final(self)@ == old(self)@.write_spec(addr, value),
    {
        proof {
            reveal(FlatBusState::write_spec);
        }
        match addr {
            // ROM: ignored
            0x0000..=0x7FFF => (),
            // VRAM
            0x8000..=0x9FFF => self.ppu.write_vram(addr as usize - 0x8000, value),
            // 8KiB external RAM
            0xA000..=0xBFFF => {
                let ram_addr = addr as usize - 0xA000;
                if ram_addr < self.cartridge.ram.len() {
                    self.cartridge.ram.set(ram_addr, value);
                }
            },
            // 8KiB WRAM
            0xC000..=0xDFFF => self.wram[addr as usize - 0xC000] = value,
            // Echo RAM
            0xE000..=0xFDFF => self.wram[addr as usize - 0xE000] = value,
            // OAM
            0xFE00..=0xFE9F => self.ppu.write_oam(addr as usize - 0xFE00, value),
            // PPU registers
            0xFF40..=0xFF4B => {
                self.ppu.write_reg(addr, value);
                if addr == 0xFF46 {
                    assert(self@.can_dma(value));
                    self.do_oam_dma(value);
                }
            },
            // IO registers
            0xFF00..=0xFF7F => {
                proof {
                    lemma_low_byte(addr);
                }
                match addr & 0xFF {
                    0x00 => self.joypad.write(value),
                    0x0F => self.if_reg = value & 0x1F,
                    0x04..=0x07 => self.timers.write_byte(addr, value),
                    _ => self.io[addr as usize - 0xFF00] = value,
                }
            },
            // HRAM
            0xFF80..=0xFFFE => self.hram[addr as usize - 0xFF80] = value,
            // Interrupt enable
            0xFFFF => self.ie = value,
            // 0xFEA0..=0xFEFF prohibited: ignored
            _ => (),
        }
    }

    /// OAM DMA: copies the 160 bytes from `page` * 256 on into OAM.
    fn do_oam_dma(&mut self, page: u8)
        requires
            old(self).wf(),
            old(self)@.can_dma(page),
        ensures
            final(self).wf(),
            final(self)@ == old(self)@.dma_spec(page),
    {
        proof {
            reveal(FlatBusState::read_spec);
            reveal(FlatBusState::dma_spec);
            lemma_page_base(page);
        }
        let base = (page as u16) << 8;
        let ghost start = self@;
        let mut i: u16 = 0;
        while i < 0xA0u16
            invariant
                i <= 0xA0,
                self.wf(),
                start.can_dma(page),
                base == page as int * 256,
                self@ == (FlatBusState { ppu: PpuState { oam: self@.ppu.oam, ..start.ppu }, ..start }),
                forall|j: int| 0 <= j < i ==> #[trigger] self@.ppu.oam[j] == start.read_spec((base + j) as u16),
                forall|j: int| i <= j < OAM_SIZE ==> #[trigger] self@.ppu.oam[j] == start.ppu.oam[j],
            decreases 0xA0 - i,
        {
            let src = base.wrapping_add(i);
            assert(self@.read_spec(src) == start.read_spec(src)) by {
                reveal(FlatBusState::read_spec);
            }
            let value = self.read_byte(src);
            self.ppu.dma_write_oam(i as usize, value);
            i += 1;
        }
        assert(self@.ppu.oam =~= start.dma_spec(page).ppu.oam);
    }

    pub fn tick(&mut self, cycles: u32)
        requires
            old(self).wf(),
            old(self)@.timers.can_step(),
        ensures
            final(self).wf(),
            final(self)@ == old(self)@.tick_spec(cycles),
    {
        let (entered_vblank, entered_stat_irq) = self.ppu.step(cycles);
        if entered_vblank {
            self.request_interrupt(InterruptType::VBlank);
        }
        if entered_stat_irq {
            self.request_interrupt(InterruptType::LCDSTAT);
        }
        if self.timers.step(cycles) {
            self.request_interrupt(InterruptType::Timer);
        }
    }

    /// Interrupts both enabled and requested (bits 0-4).
    pub fn pending_interrupts(&self) -> (r: u8)
        ensures
            r == (self@.ie & self@.if_reg) & 0x1F,
    {
        (self.ie & self.if_reg) & 0x1F
    }

    /// Clears bit `irq_bit` of IF.
    pub fn acknowledge_interrupt(&mut self, irq_bit: u8)
        requires
            irq_bit < 8,
        ensures
            final(self)@ == (FlatBusState { if_reg: old(self)@.if_reg & !(1u8 << irq_bit), ..old(self)@ }),
            final(self).wf() == old(self).wf(),
    {
        self.if_reg &= !(1 << irq_bit);
    }

    /// Sets the interrupt's bit in IF.
    pub fn request_interrupt(&mut self, irq: InterruptType)
        ensures
            final(self)@ == (FlatBusState { if_reg: old(self)@.if_reg | irq.mask_spec(), ..old(self)@ }),
            final(self).wf() == old(self).wf(),
    {
        let bit: usize = irq.into();
        proof {
            irq_mask_is_shift(irq, bit);
        }
        self.if_reg |= 1 << bit;
    }
}

proof fn irq_mask_is_shift(irq: InterruptType, bit: usize)
    requires
        bit == irq.bit_spec(),
    ensures
        bit < 5,
        (1u8 << bit) == irq.mask_spec(),
{
    match irq {
        InterruptType::VBlank => assert(1u8 << 0usize == 1u8) by (bit_vector),
        InterruptType::LCDSTAT => assert(1u8 << 1usize == 2u8) by (bit_vector),
        InterruptType::Timer => assert(1u8 << 2usize == 4u8) by (bit_vector),
        InterruptType::Serial => assert(1u8 << 3usize == 8u8) by (bit_vector),
        InterruptType::Joypad => assert(1u8 << 4usize == 16u8) by (bit_vector),
    }
}

/// Work RAM (through either window), HRAM, IE and the cartridge RAM within its size read
/// back what was written; writes to ROM change nothing.
pub proof fn lemma_flat_read_after_write(b: FlatBusState, addr: u16, value: u8)
    requires
        b.wf(),
    ensures
        0xC000 <= addr <= 0xFDFF ==> b.write_spec(addr, value).read_spec(addr) == value,
        0xFF80 <= addr <= 0xFFFF ==> b.write_spec(addr, value).read_spec(addr) == value,
        0xA000 <= addr <= 0xBFFF && addr - 0xA000 < b.ram.len() ==> b.write_spec(addr, value).read_spec(
            addr,
        ) == value,
        addr <= 0x7FFF ==> b.write_spec(addr, value) == b,
{
    reveal(FlatBusState::read_spec);
    reveal(FlatBusState::write_spec);
}

/// Requesting an interrupt and then acknowledging its bit leaves IF without that bit.
pub proof fn lemma_request_then_acknowledge(if_reg: u8, irq: InterruptType)
    ensures
        (if_reg | irq.mask_spec()) & !(1u8 << irq.bit_spec()) == if_reg & !irq.mask_spec(),
        (if_reg | irq.mask_spec()) & irq.mask_spec() != 0,
{
    irq_mask_is_shift(irq, irq.bit_spec() as usize);
    let m = irq.mask_spec();
    assert((if_reg | m) & !m == if_reg & !m) by (bit_vector);
    assert(m != 0 ==> (if_reg | m) & m != 0) by (bit_vector);
}

} // verus!
