use vstd::prelude::*;
use crate::cpu::register::{word, lemma_word};

verus! {

/// The register file with one byte per flag, as plain values.
pub ghost struct FlagRegisterState {
    pub a: u8,
    pub b: u8,
    pub c: u8,
    pub d: u8,
    pub e: u8,
    pub h: u8,
    pub l: u8,
    pub zero: u8,
    pub subtraction: u8,
    pub half_carry: u8,
    pub carry: u8,
}

/// A register file that keeps each flag in a byte of its own.
pub struct Register {
    a: u8,
    b: u8,
    c: u8,
    d: u8,
    e: u8,
    h: u8,
    l: u8,
    zero: u8,
    subtraction: u8,
    half_carry: u8,
    carry: u8,
}

impl View for Register {
    type V = FlagRegisterState;

    closed spec fn view(&self) -> FlagRegisterState {
        FlagRegisterState {
            a: self.a,
            b: self.b,
            c: self.c,
            d: self.d,
            e: self.e,
            h: self.h,
            l: self.l,
            zero: self.zero,
            subtraction: self.subtraction,
            half_carry: self.half_carry,
            carry: self.carry,
        }
    }
}

impl Register {
    pub fn new() -> (r: Self)
        ensures
            r@ == (FlagRegisterState {
                a: 0,
                b: 0,
                c: 0,
                d: 0,
                e: 0,
                h: 0,
                l: 0,
                zero: 0,
                subtraction: 0,
                half_carry: 0,
                carry: 0,
            }),
    {
        Register {
            a: 0,
            b: 0,
            c: 0,
            d: 0,
            e: 0,
            h: 0,
            l: 0,
            zero: 0,
            subtraction: 0,
            half_carry: 0,
            carry: 0,
        }
    }

    pub fn get_bc(&self) -> (r: u16)
        ensures
            r == word(self@.b, self@.c),
    {
        proof {
            lemma_word(self.b, self.c);
        }
        (self.b as u16) << 8 | (self.c as u16)
    }

    pub fn get_de(&self) -> (r: u16)
        ensures
            r == word(self@.d, self@.e),
    {
        proof {
            lemma_word(self.d, self.e);
        }
        (self.d as u16) << 8 | (self.e as u16)
    }

    /// H shifted right by 8 (always 0) ORed with L: the result is L alone.
    pub fn get_hl(&self) -> (r: u16)
        ensures
            r == self@.l as u16,
    {
        proof {
            lemma_shift_out(self.h, self.l);
        }
        (self.h as u16) >> 8 | (self.l as u16)
    }

    pub fn get_a(&self) -> (r: u8)
        ensures
            r == self@.a,
    {
        self.a
    }

    pub fn get_b(&self) -> (r: u8)
        ensures
            r == self@.b,
    {
        self.b
    }

    pub fn get_c(&self) -> (r: u8)
        ensures
            r == self@.c,
    {
        self.c
    }

    pub fn get_d(&self) -> (r: u8)
        ensures
            r == self@.d,
    {
        self.d
    }

    pub fn get_e(&self) -> (r: u8)
        ensures
            r == self@.e,
    {
        self.e
    }

    pub fn get_h(&self) -> (r: u8)
        ensures
            r == self@.h,
    {
        self.h
    }

    pub fn get_l(&self) -> (r: u8)
        ensures
            r == self@.l,
    {
        self.l
    }

    pub fn set_a(&mut self, value: u8)
        ensures
            final(self)@ == (FlagRegisterState { a: value, ..old(self)@ }),
    {
        self.a = value;
    }

    pub fn set_b(&mut self, value: u8)
        ensures
            final(self)@ == (FlagRegisterState { b: value, ..old(self)@ }),
    {
        self.b = value;
    }

    pub fn set_c(&mut self, value: u8)
        ensures
            final(self)@ == (FlagRegisterState { c: value, ..old(self)@ }),
    {
        self.c = value;
    }

    pub fn set_d(&mut self, value: u8)
        ensures
            final(self)@ == (FlagRegisterState { d: value, ..old(self)@ }),
    {
        self.d = value;
    }

    pub fn set_e(&mut self, value: u8)
        ensures
            final(self)@ == (FlagRegisterState { e: value, ..old(self)@ }),
    {
        self.e = value;
    }

    pub fn set_h(&mut self, value: u8)
        ensures
            final(self)@ == (FlagRegisterState { h: value, ..old(self)@ }),
    {
        self.h = value;
    }

    pub fn set_l(&mut self, value: u8)
        ensures
            final(self)@ == (FlagRegisterState { l: value, ..old(self)@ }),
    {
        self.l = value;
    }

    pub fn get_zero(&self) -> (r: u8)
        ensures
            r == self@.zero,
    {
        self.zero
    }

    pub fn get_subtraction(&self) -> (r: u8)
        ensures
            r == self@.subtraction,
    {
        self.subtraction
    }

    pub fn get_half_carry(&self) -> (r: u8)
        ensures
            r == self@.half_carry,
    {
        self.half_carry
    }

    pub fn get_carry(&self) -> (r: u8)
        ensures
            r == self@.carry,
    {
        self.carry
    }
}

proof fn lemma_shift_out(h: u8, l: u8) by (bit_vector)
    ensures
        (h as u16) >> 8u16 | (l as u16) == l as u16,
{
}

} // verus!
