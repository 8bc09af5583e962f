use vstd::prelude::*;
use crate::interrupts::{IF_UNUSED_BITS_MASK, InterruptType};
use crate::joypad::{Joypad, JoypadState, UserInput};
use crate::timer::{TimerRegister, TimerState};

verus! {

/// FF00-FF7F (128 bytes)
pub const IO_SIZE: usize = 0x80;

/// The I/O registers as plain values.
pub ghost struct IoState {
    pub joypad: JoypadState,
    pub timers: TimerState,
    /// FF0F: requested interrupts (bits 0-4).
    pub if_reg: u8,
    /// Backing bytes of FF00-FF7F for the registers without special handling.
    pub io: Seq<u8>,
    /// Characters sent over the serial port so far.
    pub serial_out: Seq<char>,
}

/// The low byte of `addr` equals `addr & 0xFF`.
pub proof fn lemma_low_byte(addr: u16)
    ensures
        addr & 0x00FF == addr % 256,
{
    assert(addr & 0x00FF == addr % 256) by (bit_vector);
}

/// Addresses that the I/O registers handle without fault: the joypad and IF registers
/// by their low byte alone, the timer registers at FF04-FF07, the rest within FF00-FF7F.
pub open spec fn io_addr_ok(addr: u16) -> bool {
    let lo = addr % 256;
    ||| lo == 0x00
    ||| lo == 0x0F
    ||| (0x04 <= lo <= 0x07 && 0xFF04 <= addr <= 0xFF07)
    ||| (!(0x04 <= lo <= 0x07) && 0xFF00 <= addr <= 0xFF7F)
}

impl IoState {
    pub open spec fn wf(self) -> bool {
        self.io.len() == IO_SIZE
    }

    pub open spec fn read_spec(self, addr: u16) -> u8 {
        let lo = addr % 256;
        if lo == 0x00 {
            self.joypad.read_spec()
        } else if lo == 0x0F {
            self.if_reg | IF_UNUSED_BITS_MASK
        } else if 0x04 <= lo <= 0x07 {
            self.timers.read_spec(addr)
        } else {
            self.io[addr - 0xFF00]
        }
    }

    /// A write; a write of 0x81 to SC (FF02) sends the byte in SB (FF01) as a character.
    pub open spec fn write_spec(self, addr: u16, value: u8) -> IoState {
        let lo = addr % 256;
        if lo == 0x00 {
            IoState { joypad: JoypadState { select: value & 0x30, ..self.joypad }, ..self }
        } else if lo == 0x0F {
            IoState { if_reg: value & 0x1F, ..self }
        } else if 0x04 <= lo <= 0x07 {
            IoState { timers: self.timers.write_spec(addr, value), ..self }
        } else {
            let io = self.io.update(addr - 0xFF00, value);
            if addr == 0xFF02 && value == 0x81 {
                IoState { io, serial_out: self.serial_out.push(self.io[1] as char), ..self }
            } else {
                IoState { io, ..self }
            }
        }
    }

    pub open spec fn request_spec(self, irq: InterruptType) -> IoState {
        IoState { if_reg: self.if_reg | irq.mask_spec(), ..self }
    }

    /// One timer step; a timer interrupt is requested when TIMA overflows.
    pub open spec fn step_spec(self) -> IoState {
        let (t, irq) = self.timers.step_spec();
        let s = IoState { timers: t, ..self };
        if irq {
            s.request_spec(InterruptType::Timer)
        } else {
            s
        }
    }

    pub open spec fn can_step(self) -> bool {
        self.timers.can_step()
    }

    /// The state after requesting the interrupts of `irqs`, in order.
    pub open spec fn request_all(self, irqs: Seq<InterruptType>) -> IoState
        decreases irqs.len(),
    {
        if irqs.len() == 0 {
            self
        } else {
            self.request_all(irqs.drop_last()).request_spec(irqs.last())
        }
    }
}

/// The masks of the interrupts in `irqs`, ORed together.
pub open spec fn masks_of(irqs: Seq<InterruptType>) -> u8
    decreases irqs.len(),
{
    if irqs.len() == 0 {
        0
    } else {
        masks_of(irqs.drop_last()) | irqs.last().mask_spec()
    }
}

proof fn lemma_request_all_if(s: IoState, irqs: Seq<InterruptType>)
    ensures
        s.request_all(irqs).if_reg == s.if_reg | masks_of(irqs),
        s.request_all(irqs).io == s.io,
    decreases irqs.len(),
{
    if irqs.len() == 0 {
        let x = s.if_reg;
        assert(x | 0u8 == x) by (bit_vector);
    } else {
        lemma_request_all_if(s, irqs.drop_last());
        let (x, m, k) = (s.if_reg, masks_of(irqs.drop_last()), irqs.last().mask_spec());
        assert((x | m) | k == x | (m | k)) by (bit_vector);
    }
}

/// IF reads as the bits it was last written with (bits 0-4), ORed with every interrupt
/// requested since, with bits 5-7 set; a timer step requests the timer interrupt exactly
/// when it fires.
pub proof fn lemma_if_after_requests(s: IoState, v: u8, irqs: Seq<InterruptType>)
    ensures
        s.request_all(irqs).read_spec(0xFF0F) == s.if_reg | masks_of(irqs) | 0xE0,
        s.write_spec(0xFF0F, v).request_all(irqs).read_spec(0xFF0F) == (v & 0x1F) | masks_of(irqs)
            | 0xE0,
        s.step_spec().if_reg == (if s.timers.step_spec().1 {
            s.if_reg | InterruptType::Timer.mask_spec()
        } else {
            s.if_reg
        }),
{
    lemma_request_all_if(s, irqs);
    lemma_request_all_if(s.write_spec(0xFF0F, v), irqs);
}

/// Appends a character to a string.
///
/// Calls `String::push`; the contract claims that the string's characters afterwards
/// are the old ones followed by `c`.
#[verifier::external_body]
fn string_push(s: &mut String, c: char)
    ensures
        final(s)@ == old(s)@.push(c),
{
    s.push(c)
}

pub struct IoRegisters {
    joypad: Joypad,
    timers: TimerRegister,
    if_reg: u8,
    io: [u8; IO_SIZE],
    serial_out: String,
}

impl View for IoRegisters {
    type V = IoState;

    closed spec fn view(&self) -> IoState {
        IoState {
            joypad: self.joypad@,
            timers: self.timers@,
            if_reg: self.if_reg,
            io: self.io@,
            serial_out: self.serial_out@,
        }
    }
}

impl IoRegisters {
    /// The state right after power-on.
    pub open spec fn new_state() -> IoState {
        IoState {
            joypad: JoypadState { select: 0x30, keys: 0xFF },
            timers: TimerState {
                div: 0,
                tima: 0,
                tma: 0,
                tac: 0,
                div_counter: 0,
                tima_counter: 0,
            },
            if_reg: 0xE1,
            io: Seq::new(IO_SIZE as nat, |i: int| 0u8),
            serial_out: Seq::empty(),
        }
    }

    pub fn new() -> (r: Self)
        ensures
            r@ == Self::new_state(),
            r@.wf(),
    {
        let r = Self {
            joypad: Joypad::new(),
            if_reg: 0xE1,
            timers: TimerRegister::new(),
            io: [0; IO_SIZE],
            serial_out: String::new(),
        };
        assert(r.io@ =~= Seq::new(IO_SIZE as nat, |i: int| 0u8));
        r
    }

    pub fn step(&mut self, cycles: u32)
        requires
            old(self)@.can_step(),
        ensures
            final(self)@ == old(self)@.step_spec(),
            final(self)@.wf(),
    {
        if self.timers.step(cycles) {
            self.request_interrupt(InterruptType::Timer);
        }
    }

    pub fn read_io_reg(&self, addr: u16) -> (r: u8)
        requires
            io_addr_ok(addr),
        ensures
            r == self@.read_spec(addr),
    {
        proof {
            lemma_low_byte(addr);
        }
        match addr & 0x00FF {
            0x00 => self.joypad.read(),
            0x0F => self.if_reg | IF_UNUSED_BITS_MASK,
            0x04..=0x07 => self.timers.read_byte(addr),
            _ => self.io[addr as usize - 0xFF00],
        }
    }

    pub fn write_io(&mut self, addr: u16, value: u8)
        requires
            io_addr_ok(addr),
        ensures
            final(self)@ == old(self)@.write_spec(addr, value),
    {
        proof {
            lemma_low_byte(addr);
        }
        match addr & 0x00FF {
            0x00 => self.joypad.write(value),
            0x0F => self.if_reg = value & 0x1F,
            0x04..=0x07 => self.timers.write_byte(addr, value),
            _ => {
                let c = self.io[0x01] as char;
                self.io[addr as usize - 0xFF00] = value;
                if addr == 0xFF02 && value == 0x81 {
                    string_push(&mut self.serial_out, c);
                }
            },
        }
    }

    /// Whether the timer can take its next step.
    pub fn can_step(&self) -> (r: bool)
        ensures
            r == self@.can_step(),
    {
        self.timers.can_step()
    }

    pub fn serial_output(&self) -> (r: &str)
        ensures
            r@ == self@.serial_out,
    {
        self.serial_out.as_str()
    }

    pub fn press_input(&mut self, input: UserInput)
        ensures
            final(self)@ == (IoState {
                joypad: JoypadState { keys: old(self)@.joypad.keys & !input.key_mask(), ..old(self)@.joypad },
                ..old(self)@
            }),
    {
        self.joypad.press_button(input);
    }

    pub fn release_input(&mut self, input: UserInput)
        ensures
            final(self)@ == (IoState {
                joypad: JoypadState { keys: old(self)@.joypad.keys | input.key_mask(), ..old(self)@.joypad },
                ..old(self)@
            }),
    {
        self.joypad.release_button(input);
    }

    pub fn request_interrupt(&mut self, interrupt: InterruptType)
        ensures
            final(self)@ == old(self)@.request_spec(interrupt),
            final(self)@.wf(),
    {
        self.if_reg = self.if_reg | interrupt.mask();
    }
}

} // verus!
