use vstd::prelude::*;

verus! {

/// Zero flag bit of F.
pub const FLAG_Z: u8 = 0x80;
/// Subtraction flag bit of F.
pub const FLAG_N: u8 = 0x40;
/// Half-carry flag bit of F.
pub const FLAG_H: u8 = 0x20;
/// Carry flag bit of F.
pub const FLAG_C: u8 = 0x10;

/// `f` with the bits of `mask` set when `on`, cleared otherwise.
pub open spec fn with_flag(f: u8, mask: u8, on: bool) -> u8 {
    if on {
        f | mask
    } else {
        f & !mask
    }
}

/// `f` after setting Z, N, H and C (in this order) to the given values.
pub open spec fn with_flags(f: u8, z: bool, n: bool, h: bool, c: bool) -> u8 {
    with_flag(with_flag(with_flag(with_flag(f, FLAG_Z, z), FLAG_N, n), FLAG_H, h), FLAG_C, c)
}

/// The 16-bit value whose high byte is `hi` and low byte is `lo`.
pub open spec fn word(hi: u8, lo: u8) -> u16 {
    (hi as int * 256 + lo as int) as u16
}

/// High byte of a 16-bit value.
pub open spec fn hi_byte(v: u16) -> u8 {
    (v as int / 256) as u8
}

/// Low byte of a 16-bit value.
pub open spec fn lo_byte(v: u16) -> u8 {
    (v as int % 256) as u8
}

/// The register file as plain values.
pub ghost struct RegisterState {
    pub a: u8,
    pub b: u8,
    pub c: u8,
    pub d: u8,
    pub e: u8,
    pub h: u8,
    pub l: u8,
    /// Flags: Z is bit 7, N bit 6, H bit 5, C bit 4.
    pub f: u8,
}

impl RegisterState {
    pub open spec fn af(self) -> u16 {
        word(self.a, self.f)
    }

    pub open spec fn bc(self) -> u16 {
        word(self.b, self.c)
    }

    pub open spec fn de(self) -> u16 {
        word(self.d, self.e)
    }

    pub open spec fn hl(self) -> u16 {
        word(self.h, self.l)
    }

    pub open spec fn zf(self) -> bool {
        self.f & FLAG_Z != 0
    }

    pub open spec fn nf(self) -> bool {
        self.f & FLAG_N != 0
    }

    pub open spec fn hf(self) -> bool {
        self.f & FLAG_H != 0
    }

    pub open spec fn cf(self) -> bool {
        self.f & FLAG_C != 0
    }

    /// The low nibble of F is always zero on the hardware.
    pub open spec fn wf(self) -> bool {
        self.f & 0x0F == 0
    }

    pub open spec fn with_af(self, v: u16) -> RegisterState {
        RegisterState { a: hi_byte(v), f: lo_byte(v) & 0xF0, ..self }
    }

    pub open spec fn with_bc(self, v: u16) -> RegisterState {
        RegisterState { b: hi_byte(v), c: lo_byte(v), ..self }
    }

    pub open spec fn with_de(self, v: u16) -> RegisterState {
        RegisterState { d: hi_byte(v), e: lo_byte(v), ..self }
    }

    pub open spec fn with_hl(self, v: u16) -> RegisterState {
        RegisterState { h: hi_byte(v), l: lo_byte(v), ..self }
    }

    pub open spec fn with_f(self, f: u8) -> RegisterState {
        RegisterState { f: f, ..self }
    }

    pub open spec fn with_a(self, v: u8) -> RegisterState {
        RegisterState { a: v, ..self }
    }

    /// Register `idx` of the encoding B, C, D, E, H, L, -, A (index 6 is memory).
    pub open spec fn get8(self, idx: u8) -> u8 {
        if idx == 0 {
            self.b
        } else if idx == 1 {
            self.c
        } else if idx == 2 {
            self.d
        } else if idx == 3 {
            self.e
        } else if idx == 4 {
            self.h
        } else if idx == 5 {
            self.l
        } else if idx == 7 {
            self.a
        } else {
            0
        }
    }

    /// The registers after writing `v` to register `idx` (indices 6 and above leave them unchanged).
    pub open spec fn set8(self, idx: u8, v: u8) -> RegisterState {
        if idx == 0 {
            RegisterState { b: v, ..self }
        } else if idx == 1 {
            RegisterState { c: v, ..self }
        } else if idx == 2 {
            RegisterState { d: v, ..self }
        } else if idx == 3 {
            RegisterState { e: v, ..self }
        } else if idx == 4 {
            RegisterState { h: v, ..self }
        } else if idx == 5 {
            RegisterState { l: v, ..self }
        } else if idx == 7 {
            RegisterState { a: v, ..self }
        } else {
            self
        }
    }
}

pub struct Register {
    a: u8,
    b: u8,
    c: u8,
    d: u8,
    e: u8,
    h: u8,
    l: u8,
    f: u8,
}

impl View for Register {
    type V = RegisterState;

    closed spec fn view(&self) -> RegisterState {
        RegisterState {
            a: self.a,
            b: self.b,
            c: self.c,
            d: self.d,
            e: self.e,
            h: self.h,
            l: self.l,
            f: self.f,
        }
    }
}

pub proof fn lemma_word(hi: u8, lo: u8)
    ensures
        ((hi as u16) << 8u16 | (lo as u16)) == word(hi, lo),
{
    assert(((hi as u16) << 8u16 | (lo as u16)) == (hi as u16) * 256 + (lo as u16)) by (bit_vector);
}

pub proof fn lemma_split(v: u16)
    ensures
        (v >> 8u16) as u8 == hi_byte(v),
        v as u8 == lo_byte(v),
{
    assert((v >> 8u16) as u8 == (v / 256) as u8) by (bit_vector);
    assert(v as u8 == (v % 256) as u8) by (bit_vector);
}

impl Register {
    pub fn new() -> (r: Self)
        ensures
            r@ == (RegisterState { a: 0x11, b: 0, c: 0, d: 0, e: 0, h: 0, l: 0, f: 0x80 }),
    {
        Register { a: 0x11, b: 0, c: 0, d: 0, e: 0, h: 0, l: 0, f: 0x80 }
    }

    pub fn get_af(&self) -> (r: u16)
        ensures
            r == self@.af(),
    {
        proof {
            lemma_word(self.a, self.f);
        }
        (self.a as u16) << 8 | (self.f as u16)
    }

    pub fn set_af(&mut self, value: u16)
        ensures
            final(self)@ == old(self)@.with_af(value),
    {
        proof {
            lemma_split(value);
        }
        self.a = (value >> 8) as u8;
        self.f = (value as u8) & 0xF0;
    }

    pub fn get_bc(&self) -> (r: u16)
        ensures
            r == self@.bc(),
    {
        proof {
            lemma_word(self.b, self.c);
        }
        (self.b as u16) << 8 | (self.c as u16)
    }

    pub fn set_bc(&mut self, value: u16)
        ensures
            final(self)@ == old(self)@.with_bc(value),
    {
        proof {
            lemma_split(value);
        }
        self.b = (value >> 8) as u8;
        self.c = value as u8;
    }

    pub fn get_de(&self) -> (r: u16)
        ensures
            r == self@.de(),
    {
        proof {
            lemma_word(self.d, self.e);
        }
        (self.d as u16) << 8 | (self.e as u16)
    }

    pub fn set_de(&mut self, value: u16)
        ensures
            final(self)@ == old(self)@.with_de(value),
    {
        proof {
            lemma_split(value);
        }
        self.d = (value >> 8) as u8;
        self.e = value as u8;
    }

    pub fn get_hl(&self) -> (r: u16)
        ensures
            r == self@.hl(),
    {
        proof {
            lemma_word(self.h, self.l);
        }
        (self.h as u16) << 8 | (self.l as u16)
    }

    pub fn set_hl(&mut self, value: u16)
        ensures
            final(self)@ == old(self)@.with_hl(value),
    {
        proof {
            lemma_split(value);
        }
        self.h = (value >> 8) as u8;
        self.l = value as u8;
    }

    pub fn get_a(&self) -> (r: u8)
        ensures
            r == self@.a,
    {
        self.a
    }

    pub fn set_a(&mut self, v: u8)
        ensures
            final(self)@ == (RegisterState { a: v, ..old(self)@ }),
    {
        self.a = v;
    }

    pub fn get_b(&self) -> (r: u8)
        ensures
            r == self@.b,
    {
        self.b
    }

    pub fn set_b(&mut self, v: u8)
        ensures
            final(self)@ == (RegisterState { b: v, ..old(self)@ }),
    {
        self.b = v;
    }

    pub fn get_c(&self) -> (r: u8)
        ensures
            r == self@.c,
    {
        self.c
    }

    pub fn set_c(&mut self, v: u8)
        ensures
            final(self)@ == (RegisterState { c: v, ..old(self)@ }),
    {
        self.c = v;
    }

    pub fn get_d(&self) -> (r: u8)
        ensures
            r == self@.d,
    {
        self.d
    }

    pub fn set_d(&mut self, v: u8)
        ensures
            final(self)@ == (RegisterState { d: v, ..old(self)@ }),
    {
        self.d = v;
    }

    pub fn get_e(&self) -> (r: u8)
        ensures
            r == self@.e,
    {
        self.e
    }

    pub fn set_e(&mut self, v: u8)
        ensures
            final(self)@ == (RegisterState { e: v, ..old(self)@ }),
    {
        self.e = v;
    }

    pub fn get_h(&self) -> (r: u8)
        ensures
            r == self@.h,
    {
        self.h
    }

    pub fn set_h(&mut self, v: u8)
        ensures
            final(self)@ == (RegisterState { h: v, ..old(self)@ }),
    {
        self.h = v;
    }

    pub fn get_l(&self) -> (r: u8)
        ensures
            r == self@.l,
    {
        self.l
    }

    pub fn set_l(&mut self, v: u8)
        ensures
            final(self)@ == (RegisterState { l: v, ..old(self)@ }),
    {
        self.l = v;
    }

    pub fn flag_z(&self) -> (r: bool)
        ensures
            r == self@.zf(),
    {
        (self.f & 0x80) != 0
    }

    pub fn flag_n(&self) -> (r: bool)
        ensures
            r == self@.nf(),
    {
        (self.f & 0x40) != 0
    }

    pub fn flag_h(&self) -> (r: bool)
        ensures
            r == self@.hf(),
    {
        (self.f & 0x20) != 0
    }

    pub fn flag_c(&self) -> (r: bool)
        ensures
            r == self@.cf(),
    {
        (self.f & 0x10) != 0
    }

    pub fn set_flag_z(&mut self, on: bool)
        ensures
            final(self)@ == old(self)@.with_f(with_flag(old(self)@.f, FLAG_Z, on)),
    {
        self.f = if on { self.f | 0x80 } else { self.f & !0x80 };
    }

    pub fn set_flag_n(&mut self, on: bool)
        ensures
            final(self)@ == old(self)@.with_f(with_flag(old(self)@.f, FLAG_N, on)),
    {
        self.f = if on { self.f | 0x40 } else { self.f & !0x40 };
    }

    pub fn set_flag_h(&mut self, on: bool)
        ensures
            final(self)@ == old(self)@.with_f(with_flag(old(self)@.f, FLAG_H, on)),
    {
        self.f = if on { self.f | 0x20 } else { self.f & !0x20 };
    }

    pub fn set_flag_c(&mut self, on: bool)
        ensures
            final(self)@ == old(self)@.with_f(with_flag(old(self)@.f, FLAG_C, on)),
    {
        self.f = if on { self.f | 0x10 } else { self.f & !0x10 };
    }
}

/// Masks of low bits are remainders, and bit 7 / bit 0 tests are comparisons.
pub proof fn lemma_u8_bits(x: u8) by (bit_vector)
    ensures
        x & 0x0F == x % 16,
        x & 0x03 == x % 4,
        (x & 0x80 != 0) == (x >= 128),
        (x & 0x01 != 0) == (x % 2 == 1),
{
}

/// Masks of low bits of a 16-bit value are remainders.
pub proof fn lemma_u16_bits(x: u16) by (bit_vector)
    ensures
        x & 0x000F == x % 16,
        x & 0x00FF == x % 256,
        x & 0x0FFF == x % 4096,
{
}

/// The fields of an opcode byte `xxyyyzzz`.
pub proof fn lemma_opcode_fields(op: u8) by (bit_vector)
    ensures
        op >> 6u8 == op / 64,
        (op >> 3u8) & 0x07 == (op / 8) % 8,
        op & 0x07 == op % 8,
{
}

/// Reading back a register pair gives the value written to it; AF keeps only the
/// upper nibble of its low byte.
pub proof fn lemma_pair_roundtrip(r: RegisterState, v: u16)
    ensures
        r.with_bc(v).bc() == v,
        r.with_de(v).de() == v,
        r.with_hl(v).hl() == v,
        r.with_af(v).af() == v & 0xFFF0,
        r.with_af(v).wf(),
{
    assert(((v / 256) as u8) as int * 256 + ((v % 256) as u8) as int == v);
    assert((((v / 256) as u8) as int * 256 + (((v % 256) as u8) & 0xF0u8) as int) as u16 == v & 0xFFF0)
        by (bit_vector);
    assert(((v % 256) as u8) & 0xF0u8 & 0x0F == 0) by (bit_vector);
}

/// Setting one flag gives it the requested value and leaves the other flags and the
/// low nibble of F as they were.
pub proof fn lemma_with_flag(f: u8, on: bool)
    ensures
        (with_flag(f, FLAG_Z, on) & FLAG_Z != 0) == on,
        (with_flag(f, FLAG_N, on) & FLAG_N != 0) == on,
        (with_flag(f, FLAG_H, on) & FLAG_H != 0) == on,
        (with_flag(f, FLAG_C, on) & FLAG_C != 0) == on,
        with_flag(f, FLAG_Z, on) & 0x7F == f & 0x7F,
        with_flag(f, FLAG_N, on) & 0xBF == f & 0xBF,
        with_flag(f, FLAG_H, on) & 0xDF == f & 0xDF,
        with_flag(f, FLAG_C, on) & 0xEF == f & 0xEF,
{
    assert((with_flag(f, FLAG_Z, on) & FLAG_Z != 0) == on && with_flag(f, FLAG_Z, on) & 0x7F == f & 0x7F
        && (with_flag(f, FLAG_N, on) & FLAG_N != 0) == on && with_flag(f, FLAG_N, on) & 0xBF == f & 0xBF
        && (with_flag(f, FLAG_H, on) & FLAG_H != 0) == on && with_flag(f, FLAG_H, on) & 0xDF == f & 0xDF
        && (with_flag(f, FLAG_C, on) & FLAG_C != 0) == on && with_flag(f, FLAG_C, on) & 0xEF == f & 0xEF)
        by (bit_vector);
}

/// Setting a flag never touches the low nibble of F.
pub proof fn lemma_flag_keeps_low_nibble() by (bit_vector)
    ensures
        forall|f: u8, on: bool| #[trigger] with_flag(f, FLAG_Z, on) & 0x0F == f & 0x0F,
        forall|f: u8, on: bool| #[trigger] with_flag(f, FLAG_N, on) & 0x0F == f & 0x0F,
        forall|f: u8, on: bool| #[trigger] with_flag(f, FLAG_H, on) & 0x0F == f & 0x0F,
        forall|f: u8, on: bool| #[trigger] with_flag(f, FLAG_C, on) & 0x0F == f & 0x0F,
{
}

/// Setting all four flags yields exactly the requested flags and keeps the low nibble.
pub proof fn lemma_with_flags(f: u8, z: bool, n: bool, h: bool, c: bool)
    ensures
        ({
            let g = with_flags(f, z, n, h, c);
            &&& (g & FLAG_Z != 0) == z
            &&& (g & FLAG_N != 0) == n
            &&& (g & FLAG_H != 0) == h
            &&& (g & FLAG_C != 0) == c
            &&& g & 0x0F == f & 0x0F
        }),
{
    assert((with_flags(f, z, n, h, c) & FLAG_Z != 0) == z && (with_flags(f, z, n, h, c) & FLAG_N != 0) == n
        && (with_flags(f, z, n, h, c) & FLAG_H != 0) == h && (with_flags(f, z, n, h, c) & FLAG_C != 0) == c
        && with_flags(f, z, n, h, c) & 0x0F == f & 0x0F) by (bit_vector);
}

/// The operand encoding of the 8-bit instructions: indices 0-5 and 7 name B, C, D, E,
/// H, L and A; reading and writing an index touches that register alone.
pub proof fn lemma_register_encoding(r: RegisterState, v: u8)
    ensures
        r.get8(0) == r.b && r.get8(1) == r.c && r.get8(2) == r.d && r.get8(3) == r.e,
        r.get8(4) == r.h && r.get8(5) == r.l && r.get8(7) == r.a,
        r.set8(0, v) == (RegisterState { b: v, ..r }),
        r.set8(1, v) == (RegisterState { c: v, ..r }),
        r.set8(2, v) == (RegisterState { d: v, ..r }),
        r.set8(3, v) == (RegisterState { e: v, ..r }),
        r.set8(4, v) == (RegisterState { h: v, ..r }),
        r.set8(5, v) == (RegisterState { l: v, ..r }),
        r.set8(7, v) == (RegisterState { a: v, ..r }),
{
}

} // verus!
