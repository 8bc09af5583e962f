use vstd::prelude::*;
use crate::membus::{BusState, MemoryBus};
use crate::cpu::register::{Register, RegisterState, with_flags, word, hi_byte, lo_byte};
use crate::cpu::opcodes::execute_spec;

pub mod register;
pub mod microops;
pub mod alu;
pub mod opcodes;

verus! {

/// The CPU as plain values.
pub ghost struct CpuState {
    pub regs: RegisterState,
    pub pc: u16,
    pub sp: u16,
    /// Interrupt master enable.
    pub ime: bool,
    /// EI takes effect one instruction late; set while it is pending.
    pub ei_pending: bool,
    pub halted: bool,
    pub step_cycles: u32,
}

/// `v` reduced to 16 bits.
pub open spec fn wrap16(v: int) -> u16 {
    (v % 65536) as u16
}

/// `v` reduced to 8 bits.
pub open spec fn wrap8(v: int) -> u8 {
    (v % 256) as u8
}

/// CPU and memory together, as plain values.
pub ghost struct Machine {
    pub cpu: CpuState,
    pub bus: BusState,
}

impl Machine {
    pub open spec fn read(self, addr: u16) -> u8 {
        self.bus.read_spec(addr)
    }

    pub open spec fn write(self, addr: u16, v: u8) -> Machine {
        Machine { bus: self.bus.write_spec(addr, v), ..self }
    }

    pub open spec fn regs(self) -> RegisterState {
        self.cpu.regs
    }

    pub open spec fn with_regs(self, r: RegisterState) -> Machine {
        Machine { cpu: CpuState { regs: r, ..self.cpu }, ..self }
    }

    pub open spec fn with_pc(self, pc: u16) -> Machine {
        Machine { cpu: CpuState { pc: pc, ..self.cpu }, ..self }
    }

    pub open spec fn with_sp(self, sp: u16) -> Machine {
        Machine { cpu: CpuState { sp: sp, ..self.cpu }, ..self }
    }

    /// Sets Z, N, H and C.
    pub open spec fn with_flags(self, z: bool, n: bool, h: bool, c: bool) -> Machine {
        self.with_regs(self.regs().with_f(with_flags(self.regs().f, z, n, h, c)))
    }

    /// Reads the byte at PC and advances PC.
    pub open spec fn fetch(self) -> (Machine, u8) {
        (self.with_pc(wrap16(self.cpu.pc + 1)), self.read(self.cpu.pc))
    }

    /// Reads a little-endian 16-bit immediate at PC and advances PC by two.
    pub open spec fn imm16(self) -> (Machine, u16) {
        let (m1, lo) = self.fetch();
        let (m2, hi) = m1.fetch();
        (m2, word(hi, lo))
    }

    pub open spec fn push8(self, v: u8) -> Machine {
        let sp = wrap16(self.cpu.sp - 1);
        self.with_sp(sp).write(sp, v)
    }

    pub open spec fn pop8(self) -> (Machine, u8) {
        (self.with_sp(wrap16(self.cpu.sp + 1)), self.read(self.cpu.sp))
    }

    /// Pushes the high byte, then the low byte.
    pub open spec fn push16(self, v: u16) -> Machine {
        self.push8(hi_byte(v)).push8(lo_byte(v))
    }

    /// Pops the low byte, then the high byte.
    pub open spec fn pop16(self) -> (Machine, u16) {
        let (m1, lo) = self.pop8();
        let (m2, hi) = m1.pop8();
        (m2, word(hi, lo))
    }

    /// Operand `idx` of the encoding B, C, D, E, H, L, (HL), A; 0 for other indices.
    pub open spec fn read_r(self, idx: u8) -> u8 {
        if idx == 6 {
            self.read(self.regs().hl())
        } else {
            self.regs().get8(idx)
        }
    }

    /// Writes operand `idx`; other indices change nothing.
    pub open spec fn write_r(self, idx: u8, v: u8) -> Machine {
        if idx == 6 {
            self.write(self.regs().hl(), v)
        } else {
            self.with_regs(self.regs().set8(idx, v))
        }
    }

    pub open spec fn wf(self) -> bool {
        self.bus.wf()
    }
}

pub open spec fn machine(cpu: CpuState, bus: BusState) -> Machine {
    Machine { cpu, bus }
}

/// One CPU step: the cycle count restarts at 0; a halted CPU does nothing more;
/// otherwise the opcode at PC is fetched and executed.
pub open spec fn step_spec(m: Machine) -> Machine {
    let m0 = Machine { cpu: CpuState { step_cycles: 0, ..m.cpu }, ..m };
    if m0.cpu.halted {
        m0
    } else {
        let (m1, op) = m0.fetch();
        execute_spec(m1, op)
    }
}

pub struct Cpu {
    pub registers: Register,
    pub pc: u16,
    pub sp: u16,
    /// Interrupt master enable.
    pub ime: bool,
    /// EI is delayed by one instruction; tracks whether it is pending.
    pub ei_pending: bool,
    pub halted: bool,
    pub step_cycles: u32,
}

impl View for Cpu {
    type V = CpuState;

    open spec fn view(&self) -> CpuState {
        CpuState {
            regs: self.registers@,
            pc: self.pc,
            sp: self.sp,
            ime: self.ime,
            ei_pending: self.ei_pending,
            halted: self.halted,
            step_cycles: self.step_cycles,
        }
    }
}

impl Cpu {
    pub open spec fn new_state() -> CpuState {
        CpuState {
            regs: RegisterState { a: 0x11, b: 0, c: 0, d: 0, e: 0, h: 0, l: 0, f: 0x80 },
            pc: 0x0100,
            sp: 0xFFFE,
            ime: false,
            ei_pending: false,
            halted: false,
            step_cycles: 0,
        }
    }

    pub fn new() -> (r: Self)
        ensures
            r@ == Self::new_state(),
    {
        Self {
            registers: Register::new(),
            pc: 0x0100,
            sp: 0xFFFE,
            ime: false,
            ei_pending: false,
            halted: false,
            step_cycles: 0,
        }
    }

    fn read_byte(&mut self, bus: &mut MemoryBus, addr: u16) -> (r: u8)
        requires
            old(bus).wf(),
        ensures
            *final(bus) == *old(bus),
            *final(self) == *old(self),
            r == old(bus)@.read_spec(addr),
    {
        bus.read_byte(addr)
    }

    fn write_byte(&mut self, bus: &mut MemoryBus, addr: u16, val: u8)
        requires
            old(bus).wf(),
        ensures
            final(bus).wf(),
            *final(self) == *old(self),
            final(bus)@ == old(bus)@.write_spec(addr, val),
    {
        bus.write_byte(addr, val);
    }

    fn fetch_byte(&mut self, bus: &mut MemoryBus) -> (r: u8)
        requires
            old(bus).wf(),
        ensures
            *final(bus) == *old(bus),
            (machine(final(self)@, final(bus)@), r) == machine(old(self)@, old(bus)@).fetch(),
    {
        let byte = self.read_byte(bus, self.pc);
        self.pc = self.pc.wrapping_add(1);
        byte
    }

    fn push_u8(&mut self, bus: &mut MemoryBus, val: u8)
        requires
            old(bus).wf(),
        ensures
            final(bus).wf(),
            machine(final(self)@, final(bus)@) == machine(old(self)@, old(bus)@).push8(val),
    {
        self.sp = self.sp.wrapping_sub(1);
        self.write_byte(bus, self.sp, val);
    }

    fn pop_u8(&mut self, bus: &mut MemoryBus) -> (r: u8)
        requires
            old(bus).wf(),
        ensures
            *final(bus) == *old(bus),
            (machine(final(self)@, final(bus)@), r) == machine(old(self)@, old(bus)@).pop8(),
    {
        let val = self.read_byte(bus, self.sp);
        self.sp = self.sp.wrapping_add(1);
        val
    }

    fn push_u16(&mut self, bus: &mut MemoryBus, val: u16)
        requires
            old(bus).wf(),
        ensures
            final(bus).wf(),
            machine(final(self)@, final(bus)@) == machine(old(self)@, old(bus)@).push16(val),
    {
        proof {
            register::lemma_split(val);
        }
        let hi = (val >> 8) as u8;
        let lo = val as u8;
        self.push_u8(bus, hi);
        self.push_u8(bus, lo);
    }

    fn pop_u16(&mut self, bus: &mut MemoryBus) -> (r: u16)
        requires
            old(bus).wf(),
        ensures
            *final(bus) == *old(bus),
            (machine(final(self)@, final(bus)@), r) == machine(old(self)@, old(bus)@).pop16(),
    {
        let lo = self.pop_u8(bus) as u16;
        let hi = self.pop_u8(bus) as u16;
        proof {
            register::lemma_word(hi as u8, lo as u8);
        }
        (hi << 8) | lo
    }

    fn set_flags(&mut self, z: bool, n: bool, h: bool, c: bool)
        ensures
            final(self)@ == (CpuState {
                regs: old(self)@.regs.with_f(with_flags(old(self)@.regs.f, z, n, h, c)),
                ..old(self)@
            }),
    {
        self.registers.set_flag_z(z);
        self.registers.set_flag_n(n);
        self.registers.set_flag_h(h);
        self.registers.set_flag_c(c);
    }

    fn imm8(&mut self, bus: &mut MemoryBus) -> (r: u8)
        requires
            old(bus).wf(),
        ensures
            *final(bus) == *old(bus),
            (machine(final(self)@, final(bus)@), r) == machine(old(self)@, old(bus)@).fetch(),
    {
        self.fetch_byte(bus)
    }

    fn imm16(&mut self, bus: &mut MemoryBus) -> (r: u16)
        requires
            old(bus).wf(),
        ensures
            *final(bus) == *old(bus),
            (machine(final(self)@, final(bus)@), r) == machine(old(self)@, old(bus)@).imm16(),
    {
        let lo = self.fetch_byte(bus) as u16;
        let hi = self.fetch_byte(bus) as u16;
        proof {
            register::lemma_word(hi as u8, lo as u8);
        }
        (hi << 8) | lo
    }

    /// Reads operand `reg_index` (B, C, D, E, H, L, (HL), A); other indices read 0.
    pub fn read_reg(&mut self, bus: &mut MemoryBus, reg_index: u8) -> (r: u8)
        requires
            old(bus).wf(),
        ensures
            *final(bus) == *old(bus),
            *final(self) == *old(self),
            r == machine(old(self)@, old(bus)@).read_r(reg_index),
    {
        match reg_index {
            0 => self.registers.get_b(),
            1 => self.registers.get_c(),
            2 => self.registers.get_d(),
            3 => self.registers.get_e(),
            4 => self.registers.get_h(),
            5 => self.registers.get_l(),
            6 => {
                let hl = self.registers.get_hl();
                self.read_byte(bus, hl)
            },
            7 => self.registers.get_a(),
            _ => 0,
        }
    }

    /// Writes operand `reg_index` (B, C, D, E, H, L, (HL), A); other indices are ignored.
    pub fn write_reg(&mut self, bus: &mut MemoryBus, reg_index: u8, data: u8)
        requires
            old(bus).wf(),
        ensures
            final(bus).wf(),
            machine(final(self)@, final(bus)@) == machine(old(self)@, old(bus)@).write_r(reg_index, data),
    {
        match reg_index {
            0 => self.registers.set_b(data),
            1 => self.registers.set_c(data),
            2 => self.registers.set_d(data),
            3 => self.registers.set_e(data),
            4 => self.registers.set_h(data),
            5 => self.registers.set_l(data),
            6 => {
                let hl = self.registers.get_hl();
                self.write_byte(bus, hl, data)
            },
            7 => self.registers.set_a(data),
            _ => {},
        }
    }

    /// Executes one instruction (nothing while halted) and returns the cycles it took,
    /// as counted in `step_cycles` (no instruction adds to the count).
    pub fn step(&mut self, bus: &mut MemoryBus) -> (r: u32)
        requires
            old(bus).wf(),
        ensures
            final(bus).wf(),
            machine(final(self)@, final(bus)@) == step_spec(machine(old(self)@, old(bus)@)),
            r == final(self)@.step_cycles,
            r == 0,
    {
        self.step_cycles = 0;

        if self.halted {
            return self.step_cycles;
        }

        let opcode = self.fetch_byte(bus);
        let ghost before = machine(self@, bus@);
        crate::cpu::opcodes::execute(self, bus, opcode);
        proof {
            crate::cpu::opcodes::lemma_execute_keeps_cycles(before, opcode);
        }

        self.step_cycles
    }
}

/// Whether the two bytes below SP lie in work RAM or in HRAM, where what is written
/// reads back.
pub open spec fn stack_in_ram(sp: u16) -> bool {
    0xC002 <= sp <= 0xE000 || 0xFF82 <= sp <= 0xFFFF
}

/// Popping a 16-bit value right after pushing it gives the value back and restores SP,
/// when the stack lies in RAM.
pub proof fn lemma_push_pop(m: Machine, v: u16)
    requires
        m.wf(),
        stack_in_ram(m.cpu.sp),
    ensures
        m.push16(v).pop16().1 == v,
        m.push16(v).pop16().0.cpu == m.cpu,
{
    let sp1 = wrap16(m.cpu.sp - 1);
    let sp2 = wrap16(m.cpu.sp - 2);
    let b1 = m.bus.write_spec(sp1, hi_byte(v));
    let b2 = b1.write_spec(sp2, lo_byte(v));
    crate::membus::lemma_ram_read_after_write(m.bus, sp1, sp2, hi_byte(v));
    crate::membus::lemma_write_keeps_wf(m.bus, sp1, hi_byte(v));
    crate::membus::lemma_ram_read_after_write(b1, sp2, sp1, lo_byte(v));
    assert(b2.read_spec(sp2) == lo_byte(v));
    assert(b2.read_spec(sp1) == hi_byte(v));
    assert(word(hi_byte(v), lo_byte(v)) == v);
}

} // verus!
