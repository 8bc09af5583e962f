use vstd::prelude::*;

verus! {

/// TAC bit 2 enables TIMA counting.
pub const TAC_INC_TIMA_FLAG: u8 = 0b100;

/// The TIMA clock selections of TAC.
pub enum Frequency {
    /// ~4096 Hz: 1024 cycles per tick.
    F4096,
    /// ~262144 Hz: 16 cycles per tick.
    F262144,
    /// ~65536 Hz: 64 cycles per tick.
    F65536,
    /// ~16384 Hz: 256 cycles per tick.
    F16384,
}

impl Frequency {
    pub open spec fn cycles_spec(self) -> usize {
        match self {
            Frequency::F4096 => 1024,
            Frequency::F262144 => 16,
            Frequency::F65536 => 64,
            Frequency::F16384 => 256,
        }
    }

    /// The number of CPU cycles per tick of the clock: the CPU clock (4194304 Hz)
    /// divided by the timer frequency.
    fn cycles_per_tick(self) -> (r: usize)
        ensures
            r == self.cycles_spec(),
    {
        match self {
            Frequency::F4096 => 1024,
            Frequency::F262144 => 16,
            Frequency::F65536 => 64,
            Frequency::F16384 => 256,
        }
    }
}

/// The timer registers as plain values.
pub ghost struct TimerState {
    /// FF04
    pub div: u8,
    /// FF05
    pub tima: u8,
    /// FF06
    pub tma: u8,
    /// FF07
    pub tac: u8,
    pub div_counter: u32,
    pub tima_counter: u32,
}

impl TimerState {
    /// Whether one more step stays within the counters' ranges: DIV's cycle counter
    /// must not be at its maximum, and an enabled TIMA must not already hold 0xFF.
    pub open spec fn can_step(self) -> bool {
        &&& self.div_counter < u32::MAX
        &&& !(self.tac & TAC_INC_TIMA_FLAG != 0 && self.tima == 0xFF)
    }

    pub open spec fn read_spec(self, addr: u16) -> u8 {
        if addr == 0xFF04 {
            self.div
        } else if addr == 0xFF05 {
            self.tima
        } else if addr == 0xFF06 {
            self.tma
        } else {
            self.tac | 0xF8
        }
    }

    pub open spec fn write_spec(self, addr: u16, val: u8) -> TimerState {
        if addr == 0xFF04 {
            TimerState { div: 0, div_counter: 0, ..self }
        } else if addr == 0xFF05 {
            TimerState { tima: val, ..self }
        } else if addr == 0xFF06 {
            TimerState { tma: val, ..self }
        } else {
            TimerState { tac: val & 0x07, ..self }
        }
    }

    /// One step: DIV advances by one (wrapping); an enabled TIMA advances by one, and on
    /// reaching 0xFF it is reloaded from TMA and a timer interrupt is requested.
    pub open spec fn step_spec(self) -> (TimerState, bool) {
        let div = ((self.div + 1) % 256) as u8;
        let counter = (self.div_counter + 1) as u32;
        let tima = if self.tac & TAC_INC_TIMA_FLAG != 0 {
            (self.tima + 1) as u8
        } else {
            self.tima
        };
        if tima >= 0xFF {
            (TimerState { div, div_counter: counter, tima: self.tma, ..self }, true)
        } else {
            (TimerState { div, div_counter: counter, tima, ..self }, false)
        }
    }
}

pub struct TimerRegister {
    div: u8,
    tima: u8,
    tma: u8,
    tac: u8,
    frequency: Frequency,
    div_counter: u32,
    tima_counter: u32,
}

impl View for TimerRegister {
    type V = TimerState;

    closed spec fn view(&self) -> TimerState {
        TimerState {
            div: self.div,
            tima: self.tima,
            tma: self.tma,
            tac: self.tac,
            div_counter: self.div_counter,
            tima_counter: self.tima_counter,
        }
    }
}

impl TimerRegister {
    /// The nominal TIMA frequency the timer was set up with (kept, not consulted).
    pub closed spec fn frequency(&self) -> Frequency {
        self.frequency
    }

    pub fn new() -> (r: TimerRegister)
        ensures
            r@ == (TimerState { div: 0, tima: 0, tma: 0, tac: 0, div_counter: 0, tima_counter: 0 }),
            r.frequency() == Frequency::F4096,
    {
        Self {
            div: 0,
            tima: 0,
            tma: 0,
            tac: 0,
            frequency: Frequency::F4096,
            div_counter: 0,
            tima_counter: 0,
        }
    }

    pub fn read_byte(&self, addr: u16) -> (r: u8)
        requires
            0xFF04 <= addr <= 0xFF07,
        ensures
            r == self@.read_spec(addr),
    {
        match addr {
            0xFF04 => self.div,
            0xFF05 => self.tima,
            0xFF06 => self.tma,
            _ => self.tac | 0xF8,
        }
    }

    pub fn write_byte(&mut self, addr: u16, val: u8)
        requires
            0xFF04 <= addr <= 0xFF07,
        ensures
            final(self)@ == old(self)@.write_spec(addr, val),
    {
        match addr {
            0xFF04 => self.reset_div(),
            0xFF05 => self.tima = val,
            0xFF06 => self.tma = val,
            _ => self.tac = val & 0x07,
        }
    }

    /// Whether the timer can take its next step.
    pub fn can_step(&self) -> (r: bool)
        ensures
            r == self@.can_step(),
    {
        self.div_counter < u32::MAX && !(self.tac & TAC_INC_TIMA_FLAG != 0 && self.tima == 0xFF)
    }

    fn reset_div(&mut self)
        ensures
            final(self)@ == (TimerState { div: 0, div_counter: 0, ..old(self)@ }),
    {
        self.div_counter = 0;
        self.div = 0;
    }

    /// Cycles per TIMA tick selected by TAC bits 0-1.
    fn clock_frequency(&self) -> (r: u16)
        ensures
            r == (if self.tac & 0x03 == 0 {
                1024u16
            } else if self.tac & 0x03 == 1 {
                16u16
            } else if self.tac & 0x03 == 2 {
                64u16
            } else {
                256u16
            }),
    {
        match self.tac & 0x03 {
            0x00 => 1024,
            0x01 => 16,
            0x02 => 64,
            _ => 256,
        }
    }

    fn tick_div(&mut self)
        requires
            old(self).div_counter < u32::MAX,
        ensures
            final(self)@ == (TimerState {
                div: ((old(self)@.div + 1) % 256) as u8,
                div_counter: (old(self)@.div_counter + 1) as u32,
                ..old(self)@
            }),
    {
        self.div = self.div.wrapping_add(1);
        self.div_counter += 1;
    }

    fn tick_tima(&mut self) -> (r: bool)
        requires
            !(old(self).tac & TAC_INC_TIMA_FLAG != 0 && old(self).tima == 0xFF),
        ensures
            ({
                let tima = if old(self)@.tac & TAC_INC_TIMA_FLAG != 0 {
                    (old(self)@.tima + 1) as u8
                } else {
                    old(self)@.tima
                };
                &&& r == (tima >= 0xFF)
                &&& final(self)@ == (TimerState {
                    tima: if tima >= 0xFF { old(self)@.tma } else { tima },
                    ..old(self)@
                })
            }),
    {
        let _frequency = self.clock_frequency();
        let mut interrupt_requested = false;
        if self.tac & TAC_INC_TIMA_FLAG != 0 {
            self.tima += 1
        }
        if self.tima >= 0xFF {
            self.tima = self.tma;
            interrupt_requested = true;
        }
        interrupt_requested
    }

    /// Advances the timer by one step (the cycle count is not used) and says whether a
    /// timer interrupt is requested.
    pub fn step(&mut self, cycles: u32) -> (r: bool)
        requires
            old(self)@.can_step(),
        ensures
            (final(self)@, r) == old(self)@.step_spec(),
    {
        self.tick_div();
        self.tick_tima()
    }
}

/// TIMA and TMA read back what was written; a write to DIV resets it to 0 whatever the
/// value; TAC reads back its low three bits with the upper five set.
pub proof fn lemma_timer_read_after_write(s: TimerState, v: u8)
    ensures
        s.write_spec(0xFF05, v).read_spec(0xFF05) == v,
        s.write_spec(0xFF06, v).read_spec(0xFF06) == v,
        s.write_spec(0xFF04, v).read_spec(0xFF04) == 0,
        s.write_spec(0xFF07, v).read_spec(0xFF07) == (v & 0x07) | 0xF8,
{
}

/// A step always advances DIV by one, and requests an interrupt exactly when TIMA ends
/// up at 0xFF (an enabled TIMA coming from 0xFE, or a stopped one already at 0xFF), in
/// which case TIMA is reloaded from TMA.
pub proof fn lemma_timer_step(s: TimerState)
    requires
        s.can_step(),
    ensures
        s.step_spec().0.div == (s.div + 1) % 256,
        s.step_spec().1 <==> (if s.tac & TAC_INC_TIMA_FLAG != 0 {
            s.tima == 0xFE
        } else {
            s.tima == 0xFF
        }),
        s.step_spec().1 ==> s.step_spec().0.tima == s.tma,
        s.tac & TAC_INC_TIMA_FLAG == 0 && s.tima != 0xFF ==> s.step_spec().0.tima == s.tima,
{
}

} // verus!
