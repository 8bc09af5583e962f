use vstd::prelude::*;
use crate::cpu::{Cpu, CpuState, Machine, machine, step_spec};
use crate::cpu::opcodes::lemma_execute_evolves;
use crate::membus::{BusState, MemoryBus, lemma_evolves_refl, lemma_evolves_trans, lemma_step_evolves};
use crate::membus::cartridge::{Cartridge, header_readable, header_valid, header_error, loaded_state};
use crate::joypad::{JoypadState, UserInput};
use crate::io::{IoRegisters, IoState};
use crate::ppu::{Ppu, SCREEN_HEIGHT, SCREEN_WIDTH};

verus! {

/// One emulator tick: a CPU step, then the timer and the PPU advanced by the cycles it
/// took.
pub open spec fn tick_spec(m: Machine) -> Machine {
    let m1 = step_spec(m);
    Machine { bus: m1.bus.step_spec(m1.cpu.step_cycles), ..m1 }
}

/// Whether a tick stays within the timer's counter ranges once the CPU has stepped.
pub open spec fn can_tick(m: Machine) -> bool {
    step_spec(m).bus.can_step()
}

/// The machine right after loading a ROM image with a valid header.
pub open spec fn power_on_state(rom: Seq<u8>) -> Machine {
    Machine {
        cpu: Cpu::new_state(),
        bus: BusState {
            cart: loaded_state(rom),
            ppu: Ppu::new_state(),
            io: IoRegisters::new_state(),
            wram: Seq::new(0x2000, |i: int| 0u8),
            hram: Seq::new(0x7F, |i: int| 0u8),
            ie: 0,
            last_ext_ram_write: None,
        },
    }
}

pub struct Emulator {
    cpu: Cpu,
    bus: MemoryBus,
}

impl View for Emulator {
    type V = Machine;

    closed spec fn view(&self) -> Machine {
        machine(self.cpu@, self.bus@)
    }
}

impl Emulator {
    pub closed spec fn wf(&self) -> bool {
        self.bus.wf()
    }

    /// A well-formed emulator has a well-formed model: the laws on `Machine` and
    /// `BusState` apply to it.
    pub proof fn lemma_wf_view(&self)
        requires
            self.wf(),
        ensures
            self@.wf(),
            self@.bus.wf(),
    {
        self.bus.lemma_wf_view();
    }

    /// The screen: 144 rows of 160 shades.
    pub fn get_display(&self) -> (r: &[[u8; 160]; 144])
        ensures
            forall|y: int, x: int|
                0 <= y < SCREEN_HEIGHT && 0 <= x < SCREEN_WIDTH ==> #[trigger] r@[y]@[x]
                    == self@.bus.ppu.screen[y][x],
            self.wf() ==> forall|y: int, x: int|
                0 <= y < SCREEN_HEIGHT && 0 <= x < SCREEN_WIDTH ==> #[trigger] r@[y]@[x] <= 3,
    {
        self.bus.ppu().get_display()
    }

    /// Builds an emulator for a ROM image: fails as `Cartridge::new` does on an
    /// unsupported header.
    pub fn new(rom: Vec<u8>) -> (r: Result<Self, String>)
        requires
            header_readable(rom@),
        ensures
            r is Ok <==> header_valid(rom@),
            r matches Err(e) ==> e@ == header_error(rom@),
            r matches Ok(emu) ==> emu.wf() && emu@ == power_on_state(rom@),
    {
        let ghost data = rom@;
        let cart = Cartridge::new(rom)?;
        let emu = Emulator { cpu: Cpu::new(), bus: MemoryBus::new(cart) };
        assert(emu@ == power_on_state(data));
        Ok(emu)
    }

    /// Runs the CPU for one instruction, then the timer and the PPU; returns the
    /// cycles the instruction took.
    pub fn tick(&mut self) -> (r: u32)
        requires
            old(self).wf(),
            can_tick(old(self)@),
        ensures
            final(self).wf(),
            final(self)@ == tick_spec(old(self)@),
            r == 0,
    {
        let cycles = self.cpu.step(&mut self.bus);
        self.bus.step(cycles);
        cycles
    }

    /// A tick that first checks, after the CPU step, that the timer can step; when it
    /// cannot, the bus is left as the CPU step left it and `None` is returned.
    pub fn try_tick(&mut self) -> (r: Option<u32>)
        requires
            old(self).wf(),
        ensures
            final(self).wf(),
            r is Some <==> can_tick(old(self)@),
            r is Some ==> final(self)@ == tick_spec(old(self)@) && r == Some(0u32),
            r is None ==> final(self)@ == step_spec(old(self)@),
    {
        let cycles = self.cpu.step(&mut self.bus);
        if !self.bus.can_step() {
            return None;
        }
        self.bus.step(cycles);
        Some(cycles)
    }

    pub fn press_input(&mut self, input: UserInput)
        requires
            old(self).wf(),
        ensures
            final(self).wf(),
            final(self)@ == (Machine {
                bus: BusState {
                    io: IoState {
                        joypad: JoypadState { keys: old(self)@.bus.io.joypad.keys & !input.key_mask(), ..old(self)@.bus.io.joypad },
                        ..old(self)@.bus.io
                    },
                    ..old(self)@.bus
                },
                ..old(self)@
            }),
    {
        self.bus.press_input(input);
    }

    pub fn release_input(&mut self, input: UserInput)
        requires
            old(self).wf(),
        ensures
            final(self).wf(),
            final(self)@ == (Machine {
                bus: BusState {
                    io: IoState {
                        joypad: JoypadState { keys: old(self)@.bus.io.joypad.keys | input.key_mask(), ..old(self)@.bus.io.joypad },
                        ..old(self)@.bus.io
                    },
                    ..old(self)@.bus
                },
                ..old(self)@
            }),
    {
        self.bus.release_input(input);
    }

    /// Ticks until the elapsed cycles reach `cycles`. Since no instruction adds to the
    /// cycle count, every tick reports 0 cycles and the loop ends only when `cycles` is 0.
    pub fn run_cycles(&mut self, cycles: u32)
        requires
            old(self).wf(),
            cycles == 0,
        ensures
            final(self).wf(),
            final(self)@ == old(self)@,
    {
        let mut elapsed = 0u32;
        while elapsed < cycles
            invariant
                cycles == 0,
                self.wf(),
                self@ == old(self)@,
            decreases cycles - elapsed,
        {
            elapsed = elapsed.saturating_add(self.tick());
        }
    }

    /// Characters the program has sent over the serial port.
    pub fn serial_output(&self) -> (r: &str)
        ensures
            r@ == self@.bus.io.serial_out,
    {
        self.bus.serial_output()
    }

    pub fn debug_cpu_pc(&self) -> (r: u16)
        ensures
            r == self@.cpu.pc,
    {
        self.cpu.pc
    }

    /// The byte the CPU would read at `addr`.
    pub fn debug_peek_byte(&self, addr: u16) -> (r: u8)
        requires
            self.wf(),
        ensures
            r == self@.bus.read_spec(addr),
    {
        self.bus.read_byte(addr)
    }

    pub fn debug_last_ext_ram_write(&self) -> (r: Option<(u16, u8)>)
        ensures
            r == self@.bus.last_ext_ram_write,
    {
        self.bus.last_ext_ram_write()
    }
}

/// A tick never changes the ROM image, and what was sent over the serial port stays at
/// the front of the serial output: the output only grows.
pub proof fn lemma_tick_keeps_rom_and_serial(m: Machine)
    ensures
        tick_spec(m).bus.cart.rom == m.bus.cart.rom,
        m.bus.io.serial_out.is_prefix_of(tick_spec(m).bus.io.serial_out),
{
    let m1 = step_spec(m);
    let m0 = Machine { cpu: CpuState { step_cycles: 0, ..m.cpu }, ..m };
    if m0.cpu.halted {
        lemma_evolves_refl(m.bus);
    } else {
        let (mf, op) = m0.fetch();
        lemma_execute_evolves(mf, op);
    }
    assert(m.bus.evolves_to(m1.bus));
    lemma_step_evolves(m1.bus, m1.cpu.step_cycles);
    lemma_evolves_trans(m.bus, m1.bus, m1.bus.step_spec(m1.cpu.step_cycles));
}

} // verus!
