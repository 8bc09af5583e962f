use vstd::prelude::*;
use crate::cpu::register::{Register, RegisterState, with_flag, with_flags, FLAG_N, FLAG_H, FLAG_C, FLAG_Z, lemma_u8_bits, lemma_u16_bits};
use crate::cpu::{Cpu, CpuState, machine};
use crate::membus::MemoryBus;

verus! {

/// A + value + carry_in: the sum's low byte goes to A; Z, N = 0, H (carry out of
/// bit 3) and C (carry out of bit 7) are set.
pub open spec fn add_a_spec(r: RegisterState, value: u8, carry_in: u8) -> RegisterState {
    let sum = r.a + value + carry_in;
    let res = (sum % 256) as u8;
    RegisterState {
        a: res,
        f: with_flags(r.f, res == 0, false, r.a % 16 + value % 16 + carry_in > 15, sum > 255),
        ..r
    }
}

/// A - value - carry_in (mod 256) to A; Z, N = 1, H (borrow from bit 4), C (borrow).
pub open spec fn sub_a_spec(r: RegisterState, value: u8, carry_in: u8) -> RegisterState {
    let res = ((r.a - value - carry_in) % 256) as u8;
    RegisterState {
        a: res,
        f: with_flags(r.f, res == 0, true, r.a % 16 < value % 16 + carry_in, r.a < value + carry_in),
        ..r
    }
}

/// Bitwise AND into A; Z, N = 0, H = 1, C = 0.
pub open spec fn and_a_spec(r: RegisterState, value: u8) -> RegisterState {
    let res = r.a & value;
    RegisterState { a: res, f: with_flags(r.f, res == 0, false, true, false), ..r }
}

/// Bitwise XOR into A; Z, N = H = C = 0.
pub open spec fn xor_a_spec(r: RegisterState, value: u8) -> RegisterState {
    let res = r.a ^ value;
    RegisterState { a: res, f: with_flags(r.f, res == 0, false, false, false), ..r }
}

/// Bitwise OR into A; Z, N = H = C = 0.
pub open spec fn or_a_spec(r: RegisterState, value: u8) -> RegisterState {
    let res = r.a | value;
    RegisterState { a: res, f: with_flags(r.f, res == 0, false, false, false), ..r }
}

/// Compare: flags of A - value, A unchanged.
pub open spec fn cp_a_spec(r: RegisterState, value: u8) -> RegisterState {
    RegisterState {
        f: with_flags(r.f, r.a == value, true, r.a % 16 < value % 16, r.a < value),
        ..r
    }
}

/// HL + value (mod 65536) to HL; N = 0, H (carry out of bit 11), C (carry out of bit 15); Z kept.
pub open spec fn add_hl_spec(r: RegisterState, value: u16) -> RegisterState {
    let sum = r.hl() + value;
    let f1 = with_flag(r.f, FLAG_N, false);
    let f2 = with_flag(f1, FLAG_H, r.hl() % 4096 + value % 4096 > 4095);
    let f3 = with_flag(f2, FLAG_C, sum > 65535);
    r.with_hl((sum % 65536) as u16).with_f(f3)
}

/// Decimal adjust of A after a BCD addition (N = 0) or subtraction (N = 1).
pub open spec fn daa_spec(r: RegisterState) -> RegisterState {
    let a = r.a;
    let carry = if !r.nf() { r.cf() || a > 0x99 } else { r.cf() };
    let low = if !r.nf() { r.hf() || a % 16 > 9 } else { r.hf() };
    let adjust = (if carry { 0x60int } else { 0int }) + (if low { 0x06int } else { 0int });
    let res = if !r.nf() { ((a + adjust) % 256) as u8 } else { ((a - adjust) % 256) as u8 };
    let f1 = with_flag(r.f, FLAG_Z, res == 0);
    let f2 = with_flag(f1, FLAG_H, false);
    let f3 = with_flag(f2, FLAG_C, carry);
    RegisterState { a: res, f: f3, ..r }
}

pub fn add_a(reg: &mut Register, value: u8, carry_in: u8)
    requires
        old(reg)@.a % 16 + value % 16 + carry_in < 256,
    ensures
        final(reg)@ == add_a_spec(old(reg)@, value, carry_in),
{
    let a = reg.get_a();
    let sum: u16 = a as u16 + value as u16 + carry_in as u16;
    let res = (sum % 256) as u8;
    proof {
        lemma_u8_bits(a);
        lemma_u8_bits(value);
    }
    let half = ((a & 0x0F) + (value & 0x0F) + carry_in) > 0x0F;
    let carry = sum > 0xFF;

    reg.set_a(res);
    reg.set_flag_z(res == 0);
    reg.set_flag_n(false);
    reg.set_flag_h(half);
    reg.set_flag_c(carry);
}

pub fn sub_a(reg: &mut Register, value: u8, carry_in: u8)
    requires
        value % 16 + carry_in < 256,
    ensures
        final(reg)@ == sub_a_spec(old(reg)@, value, carry_in),
{
    let a = reg.get_a();
    let total: u16 = value as u16 + carry_in as u16;
    let res: u8 = ((a as u16 + 512 - total) % 256) as u8;
    assert(res == ((a - value - carry_in) % 256) as u8);
    proof {
        lemma_u8_bits(a);
        lemma_u8_bits(value);
    }
    let half = (a & 0x0F) < ((value & 0x0F) + carry_in);
    let carry = (a as u16) < total;

    reg.set_a(res);
    reg.set_flag_z(res == 0);
    reg.set_flag_n(true);
    reg.set_flag_h(half);
    reg.set_flag_c(carry);
}

pub fn and_a(reg: &mut Register, value: u8)
    ensures
        final(reg)@ == and_a_spec(old(reg)@, value),
{
    let res = reg.get_a() & value;
    reg.set_a(res);
    reg.set_flag_z(res == 0);
    reg.set_flag_n(false);
    reg.set_flag_h(true);
    reg.set_flag_c(false);
}

pub fn xor_a(reg: &mut Register, value: u8)
    ensures
        final(reg)@ == xor_a_spec(old(reg)@, value),
{
    let res = reg.get_a() ^ value;
    reg.set_a(res);
    reg.set_flag_z(res == 0);
    reg.set_flag_n(false);
    reg.set_flag_h(false);
    reg.set_flag_c(false);
}

pub fn or_a(reg: &mut Register, value: u8)
    ensures
        final(reg)@ == or_a_spec(old(reg)@, value),
{
    let res = reg.get_a() | value;
    reg.set_a(res);
    reg.set_flag_z(res == 0);
    reg.set_flag_n(false);
    reg.set_flag_h(false);
    reg.set_flag_c(false);
}

pub fn cp_a(reg: &mut Register, value: u8)
    ensures
        final(reg)@ == cp_a_spec(old(reg)@, value),
{
    let a = reg.get_a();
    let res = a.wrapping_sub(value);
    proof {
        lemma_u8_bits(a);
        lemma_u8_bits(value);
    }
    let half = (a & 0x0F) < (value & 0x0F);
    let carry = a < value;

    reg.set_flag_z(res == 0);
    reg.set_flag_n(true);
    reg.set_flag_h(half);
    reg.set_flag_c(carry);
}

pub fn add_hl(reg: &mut Register, value: u16)
    ensures
        final(reg)@ == add_hl_spec(old(reg)@, value),
{
    let hl = reg.get_hl();
    let res = hl.wrapping_add(value);
    proof {
        lemma_u16_bits(hl);
        lemma_u16_bits(value);
    }
    let half = ((hl & 0x0FFF) + (value & 0x0FFF)) > 0x0FFF;
    let carry = (hl as u32 + value as u32) > 0xFFFF;
    reg.set_hl(res);
    reg.set_flag_n(false);
    reg.set_flag_h(half);
    reg.set_flag_c(carry);
}

/// The 8-bit ALU operation `y` (ADD, ADC, SUB, SBC, AND, XOR, OR, CP) with operand `v`.
pub open spec fn alu_op_spec(r: RegisterState, y: u8, v: u8) -> RegisterState {
    let cin: u8 = if r.cf() { 1 } else { 0 };
    if y == 0 {
        add_a_spec(r, v, 0)
    } else if y == 1 {
        add_a_spec(r, v, cin)
    } else if y == 2 {
        sub_a_spec(r, v, 0)
    } else if y == 3 {
        sub_a_spec(r, v, cin)
    } else if y == 4 {
        and_a_spec(r, v)
    } else if y == 5 {
        xor_a_spec(r, v)
    } else if y == 6 {
        or_a_spec(r, v)
    } else {
        cp_a_spec(r, v)
    }
}

proof fn lemma_daa_adjust(c: bool, h: bool)
    ensures
        ((if c { 0x60u8 } else { 0u8 }) | (if h { 0x06u8 } else { 0u8 })) as int
            == (if c { 0x60int } else { 0int }) + (if h { 0x06int } else { 0int }),
{
    assert(((if c { 0x60u8 } else { 0u8 }) | (if h { 0x06u8 } else { 0u8 }))
        == (if c { 0x60u8 } else { 0u8 }) + (if h { 0x06u8 } else { 0u8 })) by (bit_vector);
}

pub fn daa(reg: &mut Register)
    ensures
        final(reg)@ == daa_spec(old(reg)@),
{
    let mut a = reg.get_a();
    let n = reg.flag_n();
    let mut c = reg.flag_c();
    let h = reg.flag_h();
    proof {
        lemma_u8_bits(a);
    }

    let mut adjust = 0u8;
    if !n {
        if c || a > 0x99 {
            adjust = 0x60;
            c = true;
        }
        let low = h || (a & 0x0F) > 0x09;
        if low {
            adjust = adjust | 0x06;
        }
        proof {
            lemma_daa_adjust(c, low);
        }
        a = a.wrapping_add(adjust);
    } else {
        if c {
            adjust = 0x60;
        }
        if h {
            adjust = adjust | 0x06;
        }
        proof {
            lemma_daa_adjust(c, h);
        }
        a = a.wrapping_sub(adjust);
    }

    reg.set_a(a);
    reg.set_flag_z(a == 0);
    reg.set_flag_h(false);
    reg.set_flag_c(c);
}

/// Subtracting what was just added restores A; CP sets the flags that SUB would and
/// leaves A alone; AND, OR and XOR of A with itself leave A as it was (clearing it for XOR).
pub proof fn lemma_alu_laws(r: RegisterState, v: u8)
    ensures
        sub_a_spec(add_a_spec(r, v, 0), v, 0).a == r.a,
        cp_a_spec(r, v).f == sub_a_spec(r, v, 0).f,
        cp_a_spec(r, v).a == r.a,
        xor_a_spec(r, r.a).a == 0,
        and_a_spec(r, r.a).a == r.a,
        or_a_spec(r, r.a).a == r.a,
{
    assert(r.a ^ r.a == 0 && r.a & r.a == r.a && r.a | r.a == r.a) by (bit_vector);
}

/// Every ALU operation keeps the low nibble of F as it was.
pub proof fn lemma_alu_keeps_flags_wf(r: RegisterState, y: u8, v: u8)
    requires
        r.wf(),
    ensures
        alu_op_spec(r, y, v).wf(),
        add_hl_spec(r, (v as u16)).wf(),
        daa_spec(r).wf(),
{
    crate::cpu::register::lemma_flag_keeps_low_nibble();
}

/// ALU operation `y` on A with operand `z` (B, C, D, E, H, L, (HL), A).
pub fn alu(cpu: &mut Cpu, bus: &mut MemoryBus, y: u8, z: u8)
    requires
        old(bus).wf(),
        y < 8,
    ensures
        *final(bus) == *old(bus),
        final(cpu)@ == (CpuState {
            regs: alu_op_spec(old(cpu)@.regs, y, machine(old(cpu)@, old(bus)@).read_r(z)),
            ..old(cpu)@
        }),
{
    let value = cpu.read_reg(bus, z);
    let carry_in = if cpu.registers.flag_c() { 1 } else { 0 };
    match y {
        0 => add_a(&mut cpu.registers, value, 0),
        1 => add_a(&mut cpu.registers, value, carry_in),
        2 => sub_a(&mut cpu.registers, value, 0),
        3 => sub_a(&mut cpu.registers, value, carry_in),
        4 => and_a(&mut cpu.registers, value),
        5 => xor_a(&mut cpu.registers, value),
        6 => or_a(&mut cpu.registers, value),
        _ => cp_a(&mut cpu.registers, value),
    }
}

/// A byte holding two decimal digits, one per nibble.
pub open spec fn is_bcd(x: u8) -> bool {
    x % 16 <= 9 && x / 16 <= 9
}

/// The number that the two decimal digits of a BCD byte stand for.
pub open spec fn bcd_value(x: u8) -> int {
    10 * (x / 16) + x % 16
}

/// The BCD byte of a number below 100.
pub open spec fn to_bcd(n: int) -> u8 {
    (16 * (n / 10) + n % 10) as u8
}

/// DAA after an addition, from the sum of the high digits (`h`) and the sum of the low
/// digits with the carry in (`l`): the adjusted byte holds the last two decimal digits,
/// and the decimal carry is set exactly when the sum reaches 100.
proof fn lemma_bcd_digit_sum(h: u32, l: u32) by (bit_vector)
    requires
        h < 19,
        l < 20,
    ensures
        ({
            let sum: u32 = (16u32 * h + l) as u32;
            let res: u32 = sum % 256u32;
            let carry: bool = sum > 255u32 || res > 0x99u32;
            let low: bool = l > 15u32 || res % 16u32 > 9u32;
            let adjust: u32 = ((if carry { 0x60u32 } else { 0u32 }) + (if low { 0x06u32 } else { 0u32 })) as u32;
            let s: u32 = ((10u32 * h + l) as u32) % 100u32;
            &&& ((res + adjust) as u32) % 256u32 == 16u32 * (s / 10u32) + s % 10u32
            &&& carry == ((10u32 * h + l) as u32 >= 100u32)
        }),
{
}

proof fn lemma_bcd_sum(a: u8, b: u8, cin: u8)
    requires
        is_bcd(a),
        is_bcd(b),
        cin <= 1,
    ensures
        ({
            let sum = a + b + cin;
            let res = sum % 256;
            let half = a % 16 + b % 16 + cin > 15;
            let carry = sum > 255 || res > 0x99;
            let low = half || res % 16 > 9;
            let adjust = (if carry { 0x60int } else { 0int }) + (if low { 0x06int } else { 0int });
            let s = bcd_value(a) + bcd_value(b) + cin;
            &&& ((res + adjust) % 256) as u8 == to_bcd(s % 100)
            &&& carry == (s >= 100)
        }),
{
    let h = (a / 16 + b / 16) as u32;
    let l = (a % 16 + b % 16 + cin) as u32;
    lemma_bcd_digit_sum(h, l);
    assert(a + b + cin == 16 * h + l);
    assert(bcd_value(a) + bcd_value(b) + cin == 10 * h + l);
}

proof fn lemma_daa_flags(f: u8, z1: bool, h1: bool, c1: bool, zz: bool, cc: bool) by (bit_vector)
    ensures
        ({
            let g = with_flag(with_flag(with_flag(with_flags(f, z1, false, h1, c1), FLAG_Z, zz), FLAG_H, false), FLAG_C, cc);
            &&& (g & FLAG_Z != 0) == zz
            &&& g & FLAG_N == 0
            &&& g & FLAG_H == 0
            &&& (g & FLAG_C != 0) == cc
        }),
{
}

/// Decimal adjust after adding two BCD numbers (with a carry in) gives their decimal sum:
/// A holds its last two digits, C says whether it reached 100, Z whether those digits
/// are 00, and N and H are clear.
pub proof fn lemma_daa_after_add(r: RegisterState, b: u8, cin: u8)
    requires
        is_bcd(r.a),
        is_bcd(b),
        cin <= 1,
    ensures
        ({
            let s = bcd_value(r.a) + bcd_value(b) + cin;
            let d = daa_spec(add_a_spec(r, b, cin));
            &&& d.a == to_bcd(s % 100)
            &&& d.cf() == (s >= 100)
            &&& d.zf() == (s % 100 == 0)
            &&& !d.nf()
            &&& !d.hf()
        }),
{
    let sum = r.a + b + cin;
    let res = (sum % 256) as u8;
    let half = r.a % 16 + b % 16 + cin > 15;
    let added = add_a_spec(r, b, cin);
    crate::cpu::register::lemma_with_flags(r.f, res == 0, false, half, sum > 255);
    lemma_bcd_sum(r.a, b, cin);
    let s = bcd_value(r.a) + bcd_value(b) + cin;
    let carry = sum > 255 || res > 0x99;
    let d = daa_spec(added);
    assert(d.a == to_bcd(s % 100));
    lemma_daa_flags(r.f, res == 0, half, sum > 255, d.a == 0, carry);
    assert(to_bcd(s % 100) == 0 <==> s % 100 == 0);
}

/// DAA after a subtraction, from the digits of the operands: the adjusted byte holds
/// the last two decimal digits of the difference (taken mod 100), and the borrow is set
/// exactly when the subtrahend with the borrow in exceeds the minuend.
proof fn lemma_bcd_digit_diff(ah: u32, al: u32, bh: u32, bl: u32, cin: u32) by (bit_vector)
    requires
        ah <= 9,
        al <= 9,
        bh <= 9,
        bl <= 9,
        cin <= 1,
    ensures
        ({
            let a: u32 = (16u32 * ah + al) as u32;
            let b: u32 = (16u32 * bh + bl) as u32;
            let diff: u32 = ((a + 256u32 - b - cin) as u32) % 256u32;
            let carry: bool = a < ((b + cin) as u32);
            let low: bool = al < ((bl + cin) as u32);
            let adjust: u32 = ((if carry { 0x60u32 } else { 0u32 }) + (if low { 0x06u32 } else { 0u32 })) as u32;
            let s: u32 = ((10u32 * ah + al + 100u32 - 10u32 * bh - bl - cin) as u32) % 100u32;
            &&& ((diff + 256u32 - adjust) as u32) % 256u32 == 16u32 * (s / 10u32) + s % 10u32
            &&& carry == (((10u32 * ah + al) as u32) < ((10u32 * bh + bl + cin) as u32))
        }),
{
}

proof fn lemma_daa_sub_flags(f: u8, z1: bool, h1: bool, c1: bool, zz: bool, cc: bool) by (bit_vector)
    ensures
        ({
            let g = with_flag(with_flag(with_flag(with_flags(f, z1, true, h1, c1), FLAG_Z, zz), FLAG_H, false), FLAG_C, cc);
            &&& (g & FLAG_Z != 0) == zz
            &&& g & FLAG_N != 0
            &&& g & FLAG_H == 0
            &&& (g & FLAG_C != 0) == cc
        }),
{
}

/// Decimal adjust after subtracting two BCD numbers (with a borrow in) gives their
/// decimal difference: A holds the difference mod 100 in BCD, C says whether a borrow
/// was needed (the difference is negative), Z whether A is 00; N stays set, H is clear.
pub proof fn lemma_daa_after_sub(r: RegisterState, b: u8, cin: u8)
    requires
        is_bcd(r.a),
        is_bcd(b),
        cin <= 1,
    ensures
        ({
            let s = bcd_value(r.a) - bcd_value(b) - cin;
            let d = daa_spec(sub_a_spec(r, b, cin));
            &&& d.a == to_bcd(s % 100)
            &&& d.cf() == (s < 0)
            &&& d.zf() == (s % 100 == 0)
            &&& d.nf()
            &&& !d.hf()
        }),
{
    let a = r.a;
    let sub = sub_a_spec(r, b, cin);
    let half = a % 16 < b % 16 + cin;
    let borrow = a < b + cin;
    lemma_bcd_sub_arith(a, b, cin);
    crate::cpu::register::lemma_with_flags(r.f, sub.a == 0, true, half, borrow);
    assert(sub.nf() && sub.hf() == half && sub.cf() == borrow);
    let s = bcd_value(a) - bcd_value(b) - cin;
    let d = daa_spec(sub);
    assert(d.a == to_bcd(s % 100));
    lemma_daa_sub_flags(r.f, sub.a == 0, half, borrow, d.a == 0, borrow);
    assert(to_bcd(s % 100) == 0 <==> s % 100 == 0);
}

/// The arithmetic of DAA after a BCD subtraction, on plain integers.
proof fn lemma_bcd_sub_arith(a: u8, b: u8, cin: u8)
    requires
        is_bcd(a),
        is_bcd(b),
        cin <= 1,
    ensures
        ({
            let res = ((a - b - cin) % 256) as u8;
            let carry = a < b + cin;
            let low = a % 16 < b % 16 + cin;
            let adjust = (if carry { 0x60int } else { 0int }) + (if low { 0x06int } else { 0int });
            let s = bcd_value(a) - bcd_value(b) - cin;
            &&& ((res - adjust) % 256) as u8 == to_bcd(s % 100)
            &&& carry == (s < 0)
        }),
{
    let ah: u32 = (a / 16) as u32;
    let al: u32 = (a % 16) as u32;
    let bh: u32 = (b / 16) as u32;
    let bl: u32 = (b % 16) as u32;
    lemma_bcd_digit_diff(ah, al, bh, bl, cin as u32);
    let cin32 = cin as u32;
    let a32: u32 = (16u32 * ah + al) as u32;
    let b32: u32 = (16u32 * bh + bl) as u32;
    assert(a32 == a && b32 == b);
    let diff: u32 = ((a32 + 256u32 - b32 - cin32) as u32) % 256u32;
    let carry = a < b + cin;
    let low = a % 16 < b % 16 + cin;
    assert(carry == (a32 < ((b32 + cin32) as u32)));
    assert(low == (al < ((bl + cin32) as u32)));
    let x = a - b - cin;
    lemma_small_mod(x, 256);
    assert(diff == x % 256);
    let res = (x % 256) as u8;
    let adjust = (if carry { 0x60int } else { 0int }) + (if low { 0x06int } else { 0int });
    let adjust32: u32 = ((if carry { 0x60u32 } else { 0u32 }) + (if low { 0x06u32 } else { 0u32 })) as u32;
    assert(adjust32 == adjust);
    lemma_small_mod(res - adjust, 256);
    assert((((diff + 256u32 - adjust32) as u32) % 256u32) == (res - adjust) % 256);
    let s = bcd_value(a) - bcd_value(b) - cin;
    let s32: u32 = ((10u32 * ah + al + 100u32 - 10u32 * bh - bl - cin32) as u32) % 100u32;
    assert(s == 10 * ah + al - 10 * bh - bl - cin);
    lemma_small_mod(s, 100);
    assert(s32 == s % 100);
    assert(((10u32 * ah + al) as u32) < ((10u32 * bh + bl + cin32) as u32) <==> s < 0);
}

proof fn lemma_small_mod(x: int, n: int)
    requires
        n > 0,
        -n <= x < n,
    ensures
        x % n == (x + n) % n,
        x >= 0 ==> x % n == x,
        x < 0 ==> x % n == x + n,
{
    if x >= 0 {
        vstd::arithmetic::div_mod::lemma_small_mod(x as nat, n as nat);
        vstd::arithmetic::div_mod::lemma_mod_add_multiples_vanish(x, n);
    } else {
        vstd::arithmetic::div_mod::lemma_small_mod((x + n) as nat, n as nat);
        vstd::arithmetic::div_mod::lemma_mod_add_multiples_vanish(x, n);
    }
}

} // verus!
