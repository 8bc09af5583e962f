use vstd::prelude::*;
use vstd::std_specs::bits::u8_trailing_zeros;

verus! {

broadcast use vstd::std_specs::bits::axiom_u8_trailing_zeros;

/// Bits 5-7 of IF are unused and always read as 1.
pub const IF_UNUSED_BITS_MASK: u8 = 0xE0;

#[derive(Copy, Clone, Debug, PartialEq, Eq, Structural)]
pub enum InterruptType {
    VBlank,
    LCDSTAT,
    Timer,
    Serial,
    Joypad,
}

impl InterruptType {
    /// Bit position of the interrupt in IE and IF; the lower, the higher the priority.
    pub open spec fn bit_spec(self) -> u8 {
        match self {
            InterruptType::VBlank => 0,
            InterruptType::LCDSTAT => 1,
            InterruptType::Timer => 2,
            InterruptType::Serial => 3,
            InterruptType::Joypad => 4,
        }
    }

    /// The single-bit mask of the interrupt in IE and IF.
    pub open spec fn mask_spec(self) -> u8 {
        match self {
            InterruptType::VBlank => 0x01,
            InterruptType::LCDSTAT => 0x02,
            InterruptType::Timer => 0x04,
            InterruptType::Serial => 0x08,
            InterruptType::Joypad => 0x10,
        }
    }

    /// Address of the interrupt's service routine.
    pub open spec fn vector_spec(self) -> u16 {
        match self {
            InterruptType::VBlank => 0x40,
            InterruptType::LCDSTAT => 0x48,
            InterruptType::Timer => 0x50,
            InterruptType::Serial => 0x58,
            InterruptType::Joypad => 0x60,
        }
    }

    pub open spec fn from_bit_spec(bit: u8) -> Option<InterruptType> {
        if bit == 0 {
            Some(InterruptType::VBlank)
        } else if bit == 1 {
            Some(InterruptType::LCDSTAT)
        } else if bit == 2 {
            Some(InterruptType::Timer)
        } else if bit == 3 {
            Some(InterruptType::Serial)
        } else if bit == 4 {
            Some(InterruptType::Joypad)
        } else {
            None
        }
    }

    pub fn bit(self) -> (r: u8)
        ensures
            r == self.bit_spec(),
    {
        match self {
            InterruptType::VBlank => 0,
            InterruptType::LCDSTAT => 1,
            InterruptType::Timer => 2,
            InterruptType::Serial => 3,
            InterruptType::Joypad => 4,
        }
    }

    pub fn mask(self) -> (r: u8)
        ensures
            r == self.mask_spec(),
            r == 1u8 << self.bit_spec(),
    {
        proof {
            lemma_masks();
        }
        1u8 << self.bit()
    }

    pub fn vector(self) -> (r: u16)
        ensures
            r == self.vector_spec(),
    {
        match self {
            InterruptType::VBlank => 0x40,
            InterruptType::LCDSTAT => 0x48,
            InterruptType::Timer => 0x50,
            InterruptType::Serial => 0x58,
            InterruptType::Joypad => 0x60,
        }
    }

    pub fn from_bit(bit: u8) -> (r: Option<Self>)
        ensures
            r == Self::from_bit_spec(bit),
    {
        match bit {
            0 => Some(InterruptType::VBlank),
            1 => Some(InterruptType::LCDSTAT),
            2 => Some(InterruptType::Timer),
            3 => Some(InterruptType::Serial),
            4 => Some(InterruptType::Joypad),
            _ => None,
        }
    }

    /// The pending interrupt of highest priority: the one whose bit is the lowest set
    /// bit of `pending`, if that bit is one of the five interrupt bits.
    pub fn highest_priority_from_pending(pending: u8) -> (r: Option<Self>)
        ensures
            r == Self::from_bit_spec(u8_trailing_zeros(pending) as u8),
            r is Some <==> pending & 0x1F != 0,
            r matches Some(t) ==> pending & t.mask_spec() != 0 && forall|u: InterruptType|
                #![trigger u.bit_spec()]
                u.bit_spec() < t.bit_spec() ==> pending & u.mask_spec() == 0,
    {
        let bit = pending.trailing_zeros() as u8;
        proof {
            lemma_lowest_bit(pending);
        }
        Self::from_bit(bit)
    }
}

proof fn lemma_masks()
    ensures
        1u8 << 0u8 == 0x01u8,
        1u8 << 1u8 == 0x02u8,
        1u8 << 2u8 == 0x04u8,
        1u8 << 3u8 == 0x08u8,
        1u8 << 4u8 == 0x10u8,
{
    assert(1u8 << 0u8 == 0x01u8 && 1u8 << 1u8 == 0x02u8 && 1u8 << 2u8 == 0x04u8 && 1u8 << 3u8
        == 0x08u8 && 1u8 << 4u8 == 0x10u8) by (bit_vector);
}

proof fn lemma_bit_test(p: u8, j: u8) by (bit_vector)
    requires
        j < 8,
    ensures
        ((p >> j) & 1u8 == 1u8) == (p & (1u8 << j) != 0),
        ((p >> j) & 1u8 == 0u8) == (p & (1u8 << j) == 0),
{
}

proof fn lemma_low_five(p: u8) by (bit_vector)
    ensures
        (p & 0x1F != 0) == (p & 0x01 != 0 || p & 0x02 != 0 || p & 0x04 != 0 || p & 0x08 != 0 || p
            & 0x10 != 0),
{
}

proof fn lemma_lowest_bit(p: u8)
    ensures
        ({
            let tz = u8_trailing_zeros(p);
            let r = InterruptType::from_bit_spec(tz as u8);
            &&& r is Some <==> p & 0x1F != 0
            &&& r matches Some(t) ==> p & t.mask_spec() != 0 && forall|u: InterruptType|
                #![trigger u.bit_spec()]
                u.bit_spec() < t.bit_spec() ==> p & u.mask_spec() == 0
        }),
{
    let tz = u8_trailing_zeros(p);
    lemma_masks();
    lemma_low_five(p);
    assert(0 <= tz <= 8);
    let ghost r = InterruptType::from_bit_spec(tz as u8);
    assert forall|j: u8| j < 8 && j < tz implies p & (1u8 << j) == 0 by {
        assert((p >> j) & 1u8 == 0u8);
        lemma_bit_test(p, j);
    }
    if tz < 8 {
        assert((p >> (tz as u8)) & 1u8 == 1u8);
        lemma_bit_test(p, tz as u8);
    }
    if p & 0x1F != 0 {
        if tz >= 5 {
            assert(p & (1u8 << 0u8) == 0);
            assert(p & (1u8 << 1u8) == 0);
            assert(p & (1u8 << 2u8) == 0);
            assert(p & (1u8 << 3u8) == 0);
            assert(p & (1u8 << 4u8) == 0);
        }
    }
    if r is Some {
        let t = r.unwrap();
        assert forall|u: InterruptType| #![trigger u.bit_spec()]
            u.bit_spec() < t.bit_spec() implies p & u.mask_spec() == 0 by {
            assert(p & (1u8 << u.bit_spec()) == 0);
        }
    }
}

/// Each interrupt is found again from its bit, its mask is the single bit at that
/// position, and the five interrupts have distinct bits and vectors.
pub proof fn lemma_interrupt_bits(t: InterruptType, u: InterruptType)
    ensures
        InterruptType::from_bit_spec(t.bit_spec()) == Some(t),
        t.mask_spec() == 1u8 << t.bit_spec(),
        t != u ==> t.bit_spec() != u.bit_spec() && t.vector_spec() != u.vector_spec(),
        t.vector_spec() == 0x40 + 8 * t.bit_spec(),
{
    lemma_masks();
}

impl From<InterruptType> for usize {
    fn from(irq: InterruptType) -> (r: usize) {
        irq.bit() as usize
    }
}

impl vstd::std_specs::convert::FromSpecImpl<InterruptType> for usize {
    open spec fn obeys_from_spec() -> bool {
        true
    }

    open spec fn from_spec(irq: InterruptType) -> usize {
        irq.bit_spec() as usize
    }
}

} // verus!
