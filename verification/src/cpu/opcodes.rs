use vstd::prelude::*;
use crate::membus::{MemoryBus, lemma_evolves_refl, lemma_evolves_trans, lemma_writes_evolve};
use crate::cpu::{Cpu, CpuState, Machine, machine, wrap16, wrap8};
use crate::cpu::register::{
    word,
    with_flag, FLAG_Z, FLAG_N, FLAG_H, FLAG_C, hi_byte, lo_byte, lemma_u8_bits, lemma_u16_bits,
    lemma_opcode_fields, lemma_flag_keeps_low_nibble, lemma_pair_roundtrip,
};
use crate::cpu::alu::{self as alu_ops, alu_op_spec, add_hl_spec, daa_spec};
use crate::cpu::register::RegisterState;

verus! {

/// The signed value of a byte read as a two's complement offset.
pub open spec fn sext8(b: u8) -> int {
    if b < 128 {
        b as int
    } else {
        b as int - 256
    }
}

/// Register pair `idx` of the 16-bit loads and arithmetic: BC, DE, HL, SP.
pub open spec fn rr_get(m: Machine, idx: int) -> u16 {
    if idx == 0 {
        m.regs().bc()
    } else if idx == 1 {
        m.regs().de()
    } else if idx == 2 {
        m.regs().hl()
    } else {
        m.cpu.sp
    }
}

pub open spec fn rr_set(m: Machine, idx: int, v: u16) -> Machine {
    if idx == 0 {
        m.with_regs(m.regs().with_bc(v))
    } else if idx == 1 {
        m.with_regs(m.regs().with_de(v))
    } else if idx == 2 {
        m.with_regs(m.regs().with_hl(v))
    } else {
        m.with_sp(v)
    }
}

/// Register pair `idx` of PUSH and POP: BC, DE, HL, AF.
pub open spec fn stack_pair_get(m: Machine, idx: int) -> u16 {
    if idx == 3 {
        m.regs().af()
    } else {
        rr_get(m, idx)
    }
}

pub open spec fn stack_pair_set(m: Machine, idx: int, v: u16) -> Machine {
    if idx == 3 {
        m.with_regs(m.regs().with_af(v))
    } else {
        rr_set(m, idx, v)
    }
}

/// Branch condition `idx`: NZ, Z, NC, C.
pub open spec fn cond(m: Machine, idx: int) -> bool {
    if idx == 0 {
        !m.regs().zf()
    } else if idx == 1 {
        m.regs().zf()
    } else if idx == 2 {
        !m.regs().cf()
    } else {
        m.regs().cf()
    }
}

/// Relative jump by the signed offset `e`.
pub open spec fn jr_spec(m: Machine, e: u8) -> Machine {
    m.with_pc(wrap16(m.cpu.pc + sext8(e)))
}

/// Call: push PC, jump to `addr`.
pub open spec fn call_spec(m: Machine, addr: u16) -> Machine {
    m.push16(m.cpu.pc).with_pc(addr)
}

/// Shift or rotate `y` of the CB table (RLC, RRC, RL, RR, SLA, SRA, SWAP, SRL) of `v`,
/// with carry flag `carry`: the result and the new carry.
pub open spec fn shift_spec(y: u8, v: u8, carry: bool) -> (u8, bool) {
    if y == 0 {
        let c = v & 0x80 != 0;
        ((v << 1u8) | (if c { 1u8 } else { 0u8 }), c)
    } else if y == 1 {
        let c = v & 0x01 != 0;
        ((v >> 1u8) | (if c { 0x80u8 } else { 0u8 }), c)
    } else if y == 2 {
        ((v << 1u8) | (if carry { 1u8 } else { 0u8 }), v & 0x80 != 0)
    } else if y == 3 {
        ((v >> 1u8) | (if carry { 0x80u8 } else { 0u8 }), v & 0x01 != 0)
    } else if y == 4 {
        (v << 1u8, v & 0x80 != 0)
    } else if y == 5 {
        ((v >> 1u8) | (v & 0x80), v & 0x01 != 0)
    } else if y == 6 {
        ((v >> 4u8) | (v << 4u8), false)
    } else {
        (v >> 1u8, v & 0x01 != 0)
    }
}

/// The accumulator rotates RLCA, RRCA, RLA, RRA (`y` = 0..3): Z, N, H cleared.
pub open spec fn rotate_a_spec(m: Machine, y: u8) -> Machine {
    let (res, c) = shift_spec(y, m.regs().a, m.regs().cf());
    m.with_regs(m.regs().with_a(res)).with_flags(false, false, false, c)
}

/// INC of operand `r`: Z, N = 0, H (carry out of bit 3); C kept.
pub open spec fn inc8_spec(m: Machine, r: u8) -> Machine {
    let v = m.read_r(r);
    let res = wrap8(v + 1);
    let m1 = m.write_r(r, res);
    let f = with_flag(
        with_flag(with_flag(m1.regs().f, FLAG_Z, res == 0), FLAG_N, false),
        FLAG_H,
        v % 16 + 1 > 15,
    );
    m1.with_regs(m1.regs().with_f(f))
}

/// DEC of operand `r`: Z, N = 1, H (borrow from bit 4); C kept.
pub open spec fn dec8_spec(m: Machine, r: u8) -> Machine {
    let v = m.read_r(r);
    let res = wrap8(v - 1);
    let m1 = m.write_r(r, res);
    let f = with_flag(
        with_flag(with_flag(m1.regs().f, FLAG_Z, res == 0), FLAG_N, true),
        FLAG_H,
        v % 16 == 0,
    );
    m1.with_regs(m1.regs().with_f(f))
}

/// H and C of SP + e: carries out of bits 3 and 7 of the unsigned low byte.
pub open spec fn sp_offset_flags(sp: u16, e: u8) -> (bool, bool) {
    (sp % 16 + e % 16 > 15, sp % 256 + e > 255)
}

/// The CB-prefixed instruction `op`: shifts and rotates, BIT, RES, SET on operand
/// `op % 8`, with bit or operation `(op / 8) % 8`.
pub open spec fn cb_spec(m: Machine, op: u8) -> Machine {
    let x = op / 64;
    let y = ((op / 8) % 8) as u8;
    let z = (op % 8) as u8;
    let v = m.read_r(z);
    if x == 0 {
        let (res, c) = shift_spec(y, v, m.regs().cf());
        m.write_r(z, res).with_flags(res == 0, false, false, c)
    } else if x == 1 {
        let bit_set = v & (1u8 << y) != 0;
        let f = with_flag(with_flag(with_flag(m.regs().f, FLAG_Z, !bit_set), FLAG_N, false), FLAG_H, true);
        m.with_regs(m.regs().with_f(f))
    } else if x == 2 {
        m.write_r(z, v & !(1u8 << y))
    } else {
        m.write_r(z, v | (1u8 << y))
    }
}

pub open spec fn is_loads8(op: u8) -> bool {
    ||| op == 0x06 || op == 0x0E || op == 0x16 || op == 0x1E || op == 0x26 || op == 0x2E || op == 0x36 || op == 0x3E
    ||| op == 0x02 || op == 0x12 || op == 0x22 || op == 0x32
    ||| op == 0x0A || op == 0x1A || op == 0x2A || op == 0x3A
}

pub open spec fn is_loads16(op: u8) -> bool {
    op == 0x01 || op == 0x11 || op == 0x21 || op == 0x31 || op == 0x08
}

pub open spec fn is_inc_dec8(op: u8) -> bool {
    ||| op == 0x04 || op == 0x0C || op == 0x14 || op == 0x1C || op == 0x24 || op == 0x2C || op == 0x34 || op == 0x3C
    ||| op == 0x05 || op == 0x0D || op == 0x15 || op == 0x1D || op == 0x25 || op == 0x2D || op == 0x35 || op == 0x3D
}

pub open spec fn is_alu16(op: u8) -> bool {
    ||| op == 0x03 || op == 0x13 || op == 0x23 || op == 0x33
    ||| op == 0x0B || op == 0x1B || op == 0x2B || op == 0x3B
    ||| op == 0x09 || op == 0x19 || op == 0x29 || op == 0x39
}

pub open spec fn is_jr(op: u8) -> bool {
    op == 0x18 || op == 0x20 || op == 0x28 || op == 0x30 || op == 0x38
}

/// 8-bit loads: LD r,n; LD (BC)/(DE)/(HL+)/(HL-),A; LD A,(BC)/(DE)/(HL+)/(HL-).
#[verifier::opaque]
pub open spec fn loads8_spec(m: Machine, op: u8) -> Machine {
    let r = m.regs();
    if op == 0x02 {
        m.write(r.bc(), r.a)
    } else if op == 0x12 {
        m.write(r.de(), r.a)
    } else if op == 0x22 {
        let m1 = m.write(r.hl(), r.a);
        m1.with_regs(m1.regs().with_hl(wrap16(r.hl() + 1)))
    } else if op == 0x32 {
        let m1 = m.write(r.hl(), r.a);
        m1.with_regs(m1.regs().with_hl(wrap16(r.hl() - 1)))
    } else if op == 0x0A {
        m.with_regs(r.with_a(m.read(r.bc())))
    } else if op == 0x1A {
        m.with_regs(r.with_a(m.read(r.de())))
    } else if op == 0x2A {
        m.with_regs(r.with_a(m.read(r.hl())).with_hl(wrap16(r.hl() + 1)))
    } else if op == 0x3A {
        m.with_regs(r.with_a(m.read(r.hl())).with_hl(wrap16(r.hl() - 1)))
    } else {
        // LD r,n with r = op / 8
        let (m1, v) = m.fetch();
        m1.write_r(op / 8, v)
    }
}

/// 16-bit loads: LD rr,nn and LD (nn),SP.
#[verifier::opaque]
pub open spec fn loads16_spec(m: Machine, op: u8) -> Machine {
    if op == 0x08 {
        let (m1, addr) = m.imm16();
        m1.write(addr, lo_byte(m.cpu.sp)).write(wrap16(addr + 1), hi_byte(m.cpu.sp))
    } else {
        let (m1, nn) = m.imm16();
        rr_set(m1, (op / 16) as int, nn)
    }
}

/// INC r and DEC r with r = op / 8.
#[verifier::opaque]
pub open spec fn inc_dec8_spec(m: Machine, op: u8) -> Machine {
    if op % 8 == 4 {
        inc8_spec(m, op / 8)
    } else {
        dec8_spec(m, op / 8)
    }
}

/// INC rr, DEC rr and ADD HL,rr with rr = op / 16 (BC, DE, HL, SP).
#[verifier::opaque]
pub open spec fn alu16_spec(m: Machine, op: u8) -> Machine {
    let idx = (op / 16) as int;
    if op % 16 == 3 {
        rr_set(m, idx, wrap16(rr_get(m, idx) + 1))
    } else if op % 16 == 0x0B {
        rr_set(m, idx, wrap16(rr_get(m, idx) - 1))
    } else {
        m.with_regs(add_hl_spec(m.regs(), rr_get(m, idx)))
    }
}

/// JR e and JR cc,e: the offset is read first, the jump taken when the condition holds.
#[verifier::opaque]
pub open spec fn jr_family_spec(m: Machine, op: u8) -> Machine {
    let (m1, e) = m.fetch();
    if op == 0x18 || cond(m1, (op - 0x20) / 8) {
        jr_spec(m1, e)
    } else {
        m1
    }
}

/// RLCA, RRCA, RLA, RRA, NOP, STOP, DAA, CPL, SCF, CCF.
#[verifier::opaque]
pub open spec fn misc0_spec(m: Machine, op: u8) -> Machine {
    let r = m.regs();
    if op == 0x07 {
        rotate_a_spec(m, 0)
    } else if op == 0x0F {
        rotate_a_spec(m, 1)
    } else if op == 0x17 {
        rotate_a_spec(m, 2)
    } else if op == 0x1F {
        rotate_a_spec(m, 3)
    } else if op == 0x10 {
        m.fetch().0
    } else if op == 0x27 {
        m.with_regs(daa_spec(r))
    } else if op == 0x2F {
        m.with_regs(r.with_a(!r.a).with_f(with_flag(with_flag(r.f, FLAG_N, true), FLAG_H, true)))
    } else if op == 0x37 {
        m.with_regs(
            r.with_f(with_flag(with_flag(with_flag(r.f, FLAG_N, false), FLAG_H, false), FLAG_C, true)),
        )
    } else if op == 0x3F {
        m.with_regs(
            r.with_f(with_flag(with_flag(with_flag(r.f, FLAG_N, false), FLAG_H, false), FLAG_C, !r.cf())),
        )
    } else {
        // NOP
        m
    }
}

/// Opcodes 0x00-0x3F.
pub open spec fn block0_spec(m: Machine, op: u8) -> Machine {
    if is_loads8(op) {
        loads8_spec(m, op)
    } else if is_loads16(op) {
        loads16_spec(m, op)
    } else if is_inc_dec8(op) {
        inc_dec8_spec(m, op)
    } else if is_alu16(op) {
        alu16_spec(m, op)
    } else if is_jr(op) {
        jr_family_spec(m, op)
    } else {
        misc0_spec(m, op)
    }
}

/// Opcodes 0x40-0x7F: HALT, or a load between operands.
pub open spec fn block1_spec(m: Machine, op: u8) -> Machine {
    if op == 0x76 {
        Machine { cpu: CpuState { halted: true, ..m.cpu }, ..m }
    } else {
        let v = m.read_r((op % 8) as u8);
        m.write_r(((op / 8) % 8) as u8, v)
    }
}

/// Opcodes 0x80-0xBF: ALU operation `(op / 8) % 8` on A and operand `op % 8`.
pub open spec fn block2_spec(m: Machine, op: u8) -> Machine {
    m.with_regs(alu_op_spec(m.regs(), ((op / 8) % 8) as u8, m.read_r((op % 8) as u8)))
}

pub open spec fn is_io_loads(op: u8) -> bool {
    op == 0xE0 || op == 0xF0 || op == 0xE2 || op == 0xF2 || op == 0xEA || op == 0xFA
}

pub open spec fn is_stack(op: u8) -> bool {
    ||| op == 0xF8 || op == 0xF9 || op == 0xE8
    ||| op == 0xC5 || op == 0xD5 || op == 0xE5 || op == 0xF5
    ||| op == 0xC1 || op == 0xD1 || op == 0xE1 || op == 0xF1
}

pub open spec fn is_alu_imm(op: u8) -> bool {
    op == 0xC6 || op == 0xCE || op == 0xD6 || op == 0xDE || op == 0xE6 || op == 0xEE || op == 0xF6 || op == 0xFE
}

pub open spec fn is_jumps(op: u8) -> bool {
    ||| op == 0xC3 || op == 0xC2 || op == 0xCA || op == 0xD2 || op == 0xDA || op == 0xE9
    ||| op == 0xCD || op == 0xC4 || op == 0xCC || op == 0xD4 || op == 0xDC
}

pub open spec fn is_returns(op: u8) -> bool {
    op == 0xC9 || op == 0xD9 || op == 0xC0 || op == 0xC8 || op == 0xD0 || op == 0xD8
}

/// LDH (n),A; LDH A,(n); LD (C),A; LD A,(C); LD (nn),A; LD A,(nn).
#[verifier::opaque]
pub open spec fn io_loads_spec(m: Machine, op: u8) -> Machine {
    let r = m.regs();
    if op == 0xE0 {
        let (m1, n) = m.fetch();
        m1.write((0xFF00 + n) as u16, r.a)
    } else if op == 0xF0 {
        let (m1, n) = m.fetch();
        m1.with_regs(r.with_a(m1.read((0xFF00 + n) as u16)))
    } else if op == 0xE2 {
        m.write((0xFF00 + r.c) as u16, r.a)
    } else if op == 0xF2 {
        m.with_regs(r.with_a(m.read((0xFF00 + r.c) as u16)))
    } else if op == 0xEA {
        let (m1, addr) = m.imm16();
        m1.write(addr, r.a)
    } else {
        let (m1, addr) = m.imm16();
        m1.with_regs(r.with_a(m1.read(addr)))
    }
}

/// ADD SP,e; LD HL,SP+e; LD SP,HL; PUSH rr; POP rr (rr = BC, DE, HL, AF).
#[verifier::opaque]
pub open spec fn stack_spec(m: Machine, op: u8) -> Machine {
    let r = m.regs();
    if op == 0xE8 {
        let (m1, e) = m.fetch();
        let (h, c) = sp_offset_flags(m.cpu.sp, e);
        m1.with_sp(wrap16(m.cpu.sp + sext8(e))).with_flags(false, false, h, c)
    } else if op == 0xF8 {
        let (m1, e) = m.fetch();
        let (h, c) = sp_offset_flags(m.cpu.sp, e);
        m1.with_regs(r.with_hl(wrap16(m.cpu.sp + sext8(e)))).with_flags(false, false, h, c)
    } else if op == 0xF9 {
        m.with_sp(r.hl())
    } else if op == 0xC5 || op == 0xD5 || op == 0xE5 || op == 0xF5 {
        m.push16(stack_pair_get(m, (op - 0xC0) / 16))
    } else {
        let (m1, v) = m.pop16();
        stack_pair_set(m1, (op - 0xC0) / 16, v)
    }
}

/// ALU operation `(op / 8) % 8` on A with an immediate operand.
#[verifier::opaque]
pub open spec fn alu_imm_spec(m: Machine, op: u8) -> Machine {
    let (m1, v) = m.fetch();
    m1.with_regs(alu_op_spec(m1.regs(), ((op / 8) % 8) as u8, v))
}

/// JP nn, JP cc,nn, JP HL, CALL nn, CALL cc,nn: the target is read first, the jump
/// or call made when the condition holds.
#[verifier::opaque]
pub open spec fn jumps_spec(m: Machine, op: u8) -> Machine {
    if op == 0xE9 {
        m.with_pc(m.regs().hl())
    } else {
        let (m1, addr) = m.imm16();
        let taken = op == 0xC3 || op == 0xCD || cond(m1, (op - 0xC0) / 8);
        if !taken {
            m1
        } else if op == 0xC3 || op == 0xC2 || op == 0xCA || op == 0xD2 || op == 0xDA {
            m1.with_pc(addr)
        } else {
            call_spec(m1, addr)
        }
    }
}

/// RET, RETI (which also sets IME), RET cc.
#[verifier::opaque]
pub open spec fn returns_spec(m: Machine, op: u8) -> Machine {
    if op == 0xC9 || op == 0xD9 || cond(m, (op - 0xC0) / 8) {
        let (m1, addr) = m.pop16();
        let m2 = m1.with_pc(addr);
        if op == 0xD9 {
            Machine { cpu: CpuState { ime: true, ..m2.cpu }, ..m2 }
        } else {
            m2
        }
    } else {
        m
    }
}

/// RST n, the CB prefix, DI, EI, and the illegal opcodes (no effect).
#[verifier::opaque]
pub open spec fn misc3_spec(m: Machine, op: u8) -> Machine {
    if op == 0xC7 || op == 0xCF || op == 0xD7 || op == 0xDF || op == 0xE7 || op == 0xEF || op == 0xF7 || op == 0xFF {
        call_spec(m, (op - 0xC7) as u16)
    } else if op == 0xCB {
        let (m1, cb) = m.fetch();
        cb_spec(m1, cb)
    } else if op == 0xF3 {
        Machine { cpu: CpuState { ime: false, ..m.cpu }, ..m }
    } else if op == 0xFB {
        Machine { cpu: CpuState { ei_pending: true, ..m.cpu }, ..m }
    } else {
        // D3, DB, DD, E3, E4, EB, EC, ED, F4, FC, FD: not implemented
        m
    }
}

/// Opcodes 0xC0-0xFF.
pub open spec fn block3_spec(m: Machine, op: u8) -> Machine {
    if is_io_loads(op) {
        io_loads_spec(m, op)
    } else if is_stack(op) {
        stack_spec(m, op)
    } else if is_alu_imm(op) {
        alu_imm_spec(m, op)
    } else if is_jumps(op) {
        jumps_spec(m, op)
    } else if is_returns(op) {
        returns_spec(m, op)
    } else {
        misc3_spec(m, op)
    }
}

/// The effect of executing `op` (already fetched).
pub open spec fn execute_spec(m: Machine, op: u8) -> Machine {
    if op < 0x40 {
        block0_spec(m, op)
    } else if op < 0x80 {
        block1_spec(m, op)
    } else if op < 0xC0 {
        block2_spec(m, op)
    } else {
        block3_spec(m, op)
    }
}

/// Executes one already-fetched opcode.
pub fn execute(cpu: &mut Cpu, bus: &mut MemoryBus, opcode: u8)
    requires
        old(bus).wf(),
    ensures
        final(bus).wf(),
        machine(final(cpu)@, final(bus)@) == execute_spec(machine(old(cpu)@, old(bus)@), opcode),
{
    match opcode {
        0x00..=0x3F => execute_block0(cpu, bus, opcode),
        0x40..=0x7F => execute_block1(cpu, bus, opcode),
        0x80..=0xBF => execute_block2(cpu, bus, opcode),
        _ => execute_block3(cpu, bus, opcode),
    }
}

/// The byte `b` sign-extended to 16 bits.
fn sign_extend(b: u8) -> (r: u16)
    ensures
        r == wrap16(sext8(b)),
{
    if b < 128 {
        b as u16
    } else {
        b as u16 + 0xFF00
    }
}

/// SP plus the signed offset `e`, with the half-carry and carry flags of the addition
/// of the unsigned low bytes.
fn sp_plus_offset(sp: u16, e: u8) -> (r: (u16, bool, bool))
    ensures
        r.0 == wrap16(sp + sext8(e)),
        (r.1, r.2) == sp_offset_flags(sp, e),
{
    let e_u = sign_extend(e);
    proof {
        lemma_u16_bits(sp);
        lemma_u16_bits(e_u);
        assert(e_u % 16 == e % 16 && e_u % 256 == e);
    }
    let h = ((sp & 0x000F) + (e_u & 0x000F)) > 0x000F;
    let c = ((sp & 0x00FF) + (e_u & 0x00FF)) > 0x00FF;
    (sp.wrapping_add(e_u), h, c)
}

fn jr(cpu: &mut Cpu, offset: u8)
    ensures
        final(cpu)@ == (CpuState { pc: wrap16(old(cpu)@.pc + sext8(offset)), ..old(cpu)@ }),
{
    cpu.pc = cpu.pc.wrapping_add(sign_extend(offset));
}

fn rst(cpu: &mut Cpu, bus: &mut MemoryBus, addr: u16)
    requires
        old(bus).wf(),
    ensures
        final(bus).wf(),
        machine(final(cpu)@, final(bus)@) == call_spec(machine(old(cpu)@, old(bus)@), addr),
{
    let ret = cpu.pc;
    cpu.push_u16(bus, ret);
    cpu.pc = addr;
}


fn execute_block1(cpu: &mut Cpu, bus: &mut MemoryBus, opcode: u8)
    requires
        old(bus).wf(),
        0x40 <= opcode <= 0x7F,
    ensures
        final(bus).wf(),
        machine(final(cpu)@, final(bus)@) == block1_spec(machine(old(cpu)@, old(bus)@), opcode),
{
    proof {
        lemma_opcode_fields(opcode);
    }
    if opcode == 0x76 {
        cpu.halted = true;
    } else {
        let dst = (opcode >> 3) & 0x07;
        let src = opcode & 0x07;
        let value = cpu.read_reg(bus, src);
        cpu.write_reg(bus, dst, value);
    }
}

fn execute_block2(cpu: &mut Cpu, bus: &mut MemoryBus, opcode: u8)
    requires
        old(bus).wf(),
        0x80 <= opcode <= 0xBF,
    ensures
        final(bus).wf(),
        machine(final(cpu)@, final(bus)@) == block2_spec(machine(old(cpu)@, old(bus)@), opcode),
{
    proof {
        lemma_opcode_fields(opcode);
    }
    let y = (opcode >> 3) & 0x07;
    let z = opcode & 0x07;
    alu_ops::alu(cpu, bus, y, z);
}

/// Executes a CB-prefixed opcode.
pub fn exec_cb(cpu: &mut Cpu, bus: &mut MemoryBus, opcode: u8)
    requires
        old(bus).wf(),
    ensures
        final(bus).wf(),
        machine(final(cpu)@, final(bus)@) == cb_spec(machine(old(cpu)@, old(bus)@), opcode),
{
    proof {
        lemma_opcode_fields(opcode);
    }
    let x = opcode >> 6;
    let y = (opcode >> 3) & 0x07;
    let z = opcode & 0x07;

    if x == 0 {
        let value = cpu.read_reg(bus, z);
        let (res, carry) = match y {
            0 => {
                let c = (value & 0x80) != 0;
                ((value << 1) | if c { 1 } else { 0 }, c)
            },
            1 => {
                let c = (value & 0x01) != 0;
                ((value >> 1) | if c { 0x80 } else { 0 }, c)
            },
            2 => {
                let c = (value & 0x80) != 0;
                let cin = if cpu.registers.flag_c() { 1 } else { 0 };
                ((value << 1) | cin, c)
            },
            3 => {
                let c = (value & 0x01) != 0;
                let cin = if cpu.registers.flag_c() { 0x80 } else { 0 };
                ((value >> 1) | cin, c)
            },
            4 => (value << 1, (value & 0x80) != 0),
            5 => ((value >> 1) | (value & 0x80), (value & 0x01) != 0),
            6 => ((value >> 4) | (value << 4), false),
            _ => (value >> 1, (value & 0x01) != 0),
        };
        cpu.write_reg(bus, z, res);
        cpu.set_flags(res == 0, false, false, carry);
    } else if x == 1 {
        let value = cpu.read_reg(bus, z);
        let bit_set = (value & (1 << y)) != 0;
        cpu.registers.set_flag_z(!bit_set);
        cpu.registers.set_flag_n(false);
        cpu.registers.set_flag_h(true);
    } else if x == 2 {
        let value = cpu.read_reg(bus, z);
        cpu.write_reg(bus, z, value & !(1 << y));
    } else {
        let value = cpu.read_reg(bus, z);
        cpu.write_reg(bus, z, value | (1 << y));
    }
}


fn execute_block0(cpu: &mut Cpu, bus: &mut MemoryBus, opcode: u8)
    requires
        old(bus).wf(),
        opcode <= 0x3F,
    ensures
        final(bus).wf(),
        machine(final(cpu)@, final(bus)@) == block0_spec(machine(old(cpu)@, old(bus)@), opcode),
{
    match opcode {
        0x06 | 0x0E | 0x16 | 0x1E | 0x26 | 0x2E | 0x36 | 0x3E | 0x02 | 0x12 | 0x22 | 0x32 | 0x0A | 0x1A | 0x2A | 0x3A => execute_loads8(cpu, bus, opcode),
        0x01 | 0x11 | 0x21 | 0x31 | 0x08 => execute_loads16(cpu, bus, opcode),
        0x04 | 0x0C | 0x14 | 0x1C | 0x24 | 0x2C | 0x34 | 0x3C | 0x05 | 0x0D | 0x15 | 0x1D | 0x25 | 0x2D | 0x35 | 0x3D => execute_inc_dec8(cpu, bus, opcode),
        0x03 | 0x13 | 0x23 | 0x33 | 0x0B | 0x1B | 0x2B | 0x3B | 0x09 | 0x19 | 0x29 | 0x39 => execute_alu16(cpu, bus, opcode),
        0x07 | 0x17 | 0x0F | 0x1F | 0x00 | 0x10 | 0x27 | 0x2F | 0x37 | 0x3F => execute_misc0(cpu, bus, opcode),
        _ => execute_jr(cpu, bus, opcode),
    }
}

/// 8-bit loads of block 0.
#[verifier::spinoff_prover]
#[verifier::rlimit(100)]
fn execute_loads8(cpu: &mut Cpu, bus: &mut MemoryBus, opcode: u8)
    requires
        old(bus).wf(),
        opcode == 0x06 || opcode == 0x0E || opcode == 0x16 || opcode == 0x1E || opcode == 0x26 || opcode == 0x2E || opcode == 0x36 || opcode == 0x3E || opcode == 0x02 || opcode == 0x12 || opcode == 0x22 || opcode == 0x32 || opcode == 0x0A || opcode == 0x1A || opcode == 0x2A || opcode == 0x3A,
    ensures
        final(bus).wf(),
        machine(final(cpu)@, final(bus)@) == loads8_spec(machine(old(cpu)@, old(bus)@), opcode),
{
    reveal(loads8_spec);
    proof {
        lemma_opcode_fields(opcode);
        lemma_u8_bits(old(cpu)@.regs.a);
    }
    match opcode {
        0x06 | 0x0E | 0x16 | 0x1E | 0x26 | 0x2E | 0x36 | 0x3E => {
            let dst = (opcode >> 3) & 0x07;
            let value = cpu.imm8(bus);
            cpu.write_reg(bus, dst, value);
        },
        0x02 => {
            let bc = cpu.registers.get_bc();
            let a = cpu.registers.get_a();
            cpu.write_byte(bus, bc, a);
        },
        0x12 => {
            let de = cpu.registers.get_de();
            let a = cpu.registers.get_a();
            cpu.write_byte(bus, de, a);
        },
        0x22 => {
            let hl = cpu.registers.get_hl();
            let a = cpu.registers.get_a();
            cpu.write_byte(bus, hl, a);
            cpu.registers.set_hl(hl.wrapping_add(1));
        },
        0x32 => {
            let hl = cpu.registers.get_hl();
            let a = cpu.registers.get_a();
            cpu.write_byte(bus, hl, a);
            cpu.registers.set_hl(hl.wrapping_sub(1));
        },
        0x0A => {
            let bc = cpu.registers.get_bc();
            let v = cpu.read_byte(bus, bc);
            cpu.registers.set_a(v);
        },
        0x1A => {
            let de = cpu.registers.get_de();
            let v = cpu.read_byte(bus, de);
            cpu.registers.set_a(v);
        },
        0x2A => {
            let hl = cpu.registers.get_hl();
            let v = cpu.read_byte(bus, hl);
            cpu.registers.set_a(v);
            cpu.registers.set_hl(hl.wrapping_add(1));
        },
        _ => {
            let hl = cpu.registers.get_hl();
            let v = cpu.read_byte(bus, hl);
            cpu.registers.set_a(v);
            cpu.registers.set_hl(hl.wrapping_sub(1));
        },
    }
}

/// 16-bit loads of block 0.
#[verifier::spinoff_prover]
#[verifier::rlimit(100)]
fn execute_loads16(cpu: &mut Cpu, bus: &mut MemoryBus, opcode: u8)
    requires
        old(bus).wf(),
        opcode == 0x01 || opcode == 0x11 || opcode == 0x21 || opcode == 0x31 || opcode == 0x08,
    ensures
        final(bus).wf(),
        machine(final(cpu)@, final(bus)@) == loads16_spec(machine(old(cpu)@, old(bus)@), opcode),
{
    reveal(loads16_spec);
    proof {
        lemma_opcode_fields(opcode);
        lemma_u8_bits(old(cpu)@.regs.a);
    }
    match opcode {
        0x01 => {
            let nn = cpu.imm16(bus);
            cpu.registers.set_bc(nn);
        },
        0x11 => {
            let nn = cpu.imm16(bus);
            cpu.registers.set_de(nn);
        },
        0x21 => {
            let nn = cpu.imm16(bus);
            cpu.registers.set_hl(nn);
        },
        0x31 => {
            cpu.sp = cpu.imm16(bus);
        },
        _ => {
            let addr = cpu.imm16(bus);
            let sp = cpu.sp;
            proof {
                crate::cpu::register::lemma_split(sp);
            }
            cpu.write_byte(bus, addr, sp as u8);
            cpu.write_byte(bus, addr.wrapping_add(1), (sp >> 8) as u8);
        },
    }
}

/// 8-bit increments and decrements.
#[verifier::spinoff_prover]
#[verifier::rlimit(100)]
fn execute_inc_dec8(cpu: &mut Cpu, bus: &mut MemoryBus, opcode: u8)
    requires
        old(bus).wf(),
        opcode == 0x04 || opcode == 0x0C || opcode == 0x14 || opcode == 0x1C || opcode == 0x24 || opcode == 0x2C || opcode == 0x34 || opcode == 0x3C || opcode == 0x05 || opcode == 0x0D || opcode == 0x15 || opcode == 0x1D || opcode == 0x25 || opcode == 0x2D || opcode == 0x35 || opcode == 0x3D,
    ensures
        final(bus).wf(),
        machine(final(cpu)@, final(bus)@) == inc_dec8_spec(machine(old(cpu)@, old(bus)@), opcode),
{
    reveal(inc_dec8_spec);
    proof {
        lemma_opcode_fields(opcode);
        lemma_u8_bits(old(cpu)@.regs.a);
    }
    match opcode {
        0x04 | 0x0C | 0x14 | 0x1C | 0x24 | 0x2C | 0x34 | 0x3C => {
            let r = (opcode >> 3) & 0x07;
            let v = cpu.read_reg(bus, r);
            proof {
                lemma_u8_bits(v);
            }
            let res = v.wrapping_add(1);
            cpu.write_reg(bus, r, res);
            cpu.registers.set_flag_z(res == 0);
            cpu.registers.set_flag_n(false);
            cpu.registers.set_flag_h((v & 0x0F) + 1 > 0x0F);
        },
        _ => {
            let r = (opcode >> 3) & 0x07;
            let v = cpu.read_reg(bus, r);
            proof {
                lemma_u8_bits(v);
            }
            let res = v.wrapping_sub(1);
            cpu.write_reg(bus, r, res);
            cpu.registers.set_flag_z(res == 0);
            cpu.registers.set_flag_n(true);
            cpu.registers.set_flag_h((v & 0x0F) == 0);
        },
    }
}

/// 16-bit increments, decrements and additions to HL.
#[verifier::spinoff_prover]
#[verifier::rlimit(100)]
fn execute_alu16(cpu: &mut Cpu, bus: &mut MemoryBus, opcode: u8)
    requires
        old(bus).wf(),
        opcode == 0x03 || opcode == 0x13 || opcode == 0x23 || opcode == 0x33 || opcode == 0x0B || opcode == 0x1B || opcode == 0x2B || opcode == 0x3B || opcode == 0x09 || opcode == 0x19 || opcode == 0x29 || opcode == 0x39,
    ensures
        final(bus).wf(),
        machine(final(cpu)@, final(bus)@) == alu16_spec(machine(old(cpu)@, old(bus)@), opcode),
{
    reveal(alu16_spec);
    proof {
        lemma_opcode_fields(opcode);
        lemma_u8_bits(old(cpu)@.regs.a);
    }
    match opcode {
        0x03 => {
            let v = cpu.registers.get_bc();
            cpu.registers.set_bc(v.wrapping_add(1));
        },
        0x13 => {
            let v = cpu.registers.get_de();
            cpu.registers.set_de(v.wrapping_add(1));
        },
        0x23 => {
            let v = cpu.registers.get_hl();
            cpu.registers.set_hl(v.wrapping_add(1));
        },
        0x33 => cpu.sp = cpu.sp.wrapping_add(1),
        0x0B => {
            let v = cpu.registers.get_bc();
            cpu.registers.set_bc(v.wrapping_sub(1));
        },
        0x1B => {
            let v = cpu.registers.get_de();
            cpu.registers.set_de(v.wrapping_sub(1));
        },
        0x2B => {
            let v = cpu.registers.get_hl();
            cpu.registers.set_hl(v.wrapping_sub(1));
        },
        0x3B => cpu.sp = cpu.sp.wrapping_sub(1),
        0x09 => {
            let v = cpu.registers.get_bc();
            alu_ops::add_hl(&mut cpu.registers, v);
        },
        0x19 => {
            let v = cpu.registers.get_de();
            alu_ops::add_hl(&mut cpu.registers, v);
        },
        0x29 => {
            let v = cpu.registers.get_hl();
            alu_ops::add_hl(&mut cpu.registers, v);
        },
        _ => {
            let v = cpu.sp;
            alu_ops::add_hl(&mut cpu.registers, v);
        },
    }
}

/// Accumulator rotates, NOP, STOP, DAA, CPL, SCF, CCF.
#[verifier::spinoff_prover]
#[verifier::rlimit(100)]
fn execute_misc0(cpu: &mut Cpu, bus: &mut MemoryBus, opcode: u8)
    requires
        old(bus).wf(),
        opcode == 0x07 || opcode == 0x17 || opcode == 0x0F || opcode == 0x1F || opcode == 0x00 || opcode == 0x10 || opcode == 0x27 || opcode == 0x2F || opcode == 0x37 || opcode == 0x3F,
    ensures
        final(bus).wf(),
        machine(final(cpu)@, final(bus)@) == misc0_spec(machine(old(cpu)@, old(bus)@), opcode),
{
    reveal(misc0_spec);
    proof {
        lemma_opcode_fields(opcode);
        lemma_u8_bits(old(cpu)@.regs.a);
    }
    match opcode {
        0x07 => {
            let a = cpu.registers.get_a();
            let c = (a & 0x80) != 0;
            cpu.registers.set_a((a << 1) | if c { 1 } else { 0 });
            cpu.set_flags(false, false, false, c);
        },
        0x17 => {
            let a = cpu.registers.get_a();
            let cin = if cpu.registers.flag_c() { 1 } else { 0 };
            let c = (a & 0x80) != 0;
            cpu.registers.set_a((a << 1) | cin);
            cpu.set_flags(false, false, false, c);
        },
        0x0F => {
            let a = cpu.registers.get_a();
            let c = (a & 0x01) != 0;
            cpu.registers.set_a((a >> 1) | if c { 0x80 } else { 0 });
            cpu.set_flags(false, false, false, c);
        },
        0x1F => {
            let a = cpu.registers.get_a();
            let cin = if cpu.registers.flag_c() { 0x80 } else { 0 };
            let c = (a & 0x01) != 0;
            cpu.registers.set_a((a >> 1) | cin);
            cpu.set_flags(false, false, false, c);
        },
        0x00 => {},
        0x10 => {
            let _ = cpu.imm8(bus);
        },
        0x27 => alu_ops::daa(&mut cpu.registers),
        0x2F => {
            let a = cpu.registers.get_a();
            cpu.registers.set_a(!a);
            cpu.registers.set_flag_n(true);
            cpu.registers.set_flag_h(true);
        },
        0x37 => {
            cpu.registers.set_flag_n(false);
            cpu.registers.set_flag_h(false);
            cpu.registers.set_flag_c(true);
        },
        _ => {
            let c = !cpu.registers.flag_c();
            cpu.registers.set_flag_n(false);
            cpu.registers.set_flag_h(false);
            cpu.registers.set_flag_c(c);
        },
    }
}

/// Relative jumps.
#[verifier::spinoff_prover]
#[verifier::rlimit(100)]
fn execute_jr(cpu: &mut Cpu, bus: &mut MemoryBus, opcode: u8)
    requires
        old(bus).wf(),
        opcode == 0x18 || opcode == 0x20 || opcode == 0x28 || opcode == 0x30 || opcode == 0x38,
    ensures
        final(bus).wf(),
        machine(final(cpu)@, final(bus)@) == jr_family_spec(machine(old(cpu)@, old(bus)@), opcode),
{
    reveal(jr_family_spec);
    proof {
        lemma_opcode_fields(opcode);
        lemma_u8_bits(old(cpu)@.regs.a);
    }
    match opcode {
        0x18 => {
            let e = cpu.imm8(bus);
            jr(cpu, e);
        },
        0x20 => {
            let e = cpu.imm8(bus);
            if !cpu.registers.flag_z() {
                jr(cpu, e);
            }
        },
        0x28 => {
            let e = cpu.imm8(bus);
            if cpu.registers.flag_z() {
                jr(cpu, e);
            }
        },
        0x30 => {
            let e = cpu.imm8(bus);
            if !cpu.registers.flag_c() {
                jr(cpu, e);
            }
        },
        _ => {
            // 0x38
            let e = cpu.imm8(bus);
            if cpu.registers.flag_c() {
                jr(cpu, e);
            }
        },
    }
}

fn execute_block3(cpu: &mut Cpu, bus: &mut MemoryBus, opcode: u8)
    requires
        old(bus).wf(),
        opcode >= 0xC0,
    ensures
        final(bus).wf(),
        machine(final(cpu)@, final(bus)@) == block3_spec(machine(old(cpu)@, old(bus)@), opcode),
{
    match opcode {
        0xE0 | 0xF0 | 0xE2 | 0xF2 | 0xEA | 0xFA => execute_io_loads(cpu, bus, opcode),
        0xF8 | 0xF9 | 0xE8 => execute_sp_arith(cpu, bus, opcode),
        0xC5 | 0xD5 | 0xE5 | 0xF5 | 0xC1 | 0xD1 | 0xE1 | 0xF1 => execute_push_pop(cpu, bus, opcode),
        0xC6 | 0xCE | 0xD6 | 0xDE | 0xE6 | 0xEE | 0xF6 | 0xFE => execute_alu_imm(cpu, bus, opcode),
        0xC3 | 0xC2 | 0xCA | 0xD2 | 0xDA | 0xE9 | 0xCD | 0xC4 | 0xCC | 0xD4 | 0xDC => execute_jumps(cpu, bus, opcode),
        0xC9 | 0xD9 | 0xC0 | 0xC8 | 0xD0 | 0xD8 => execute_returns(cpu, bus, opcode),
        _ => execute_misc3(cpu, bus, opcode),
    }
}

/// Loads through FF00 + n, FF00 + C and absolute addresses.
#[verifier::spinoff_prover]
#[verifier::rlimit(100)]
fn execute_io_loads(cpu: &mut Cpu, bus: &mut MemoryBus, opcode: u8)
    requires
        old(bus).wf(),
        opcode == 0xE0 || opcode == 0xF0 || opcode == 0xE2 || opcode == 0xF2 || opcode == 0xEA || opcode == 0xFA,
    ensures
        final(bus).wf(),
        machine(final(cpu)@, final(bus)@) == io_loads_spec(machine(old(cpu)@, old(bus)@), opcode),
{
    reveal(io_loads_spec);
    proof {
        lemma_opcode_fields(opcode);
    }
    match opcode {
        0xE0 => {
            let n = cpu.imm8(bus);
            let addr = 0xFF00u16 + n as u16;
            let a = cpu.registers.get_a();
            cpu.write_byte(bus, addr, a);
        },
        0xF0 => {
            let n = cpu.imm8(bus);
            let addr = 0xFF00u16 + n as u16;
            let v = cpu.read_byte(bus, addr);
            cpu.registers.set_a(v);
        },
        0xE2 => {
            let addr = 0xFF00u16 + cpu.registers.get_c() as u16;
            let a = cpu.registers.get_a();
            cpu.write_byte(bus, addr, a);
        },
        0xF2 => {
            let addr = 0xFF00u16 + cpu.registers.get_c() as u16;
            let v = cpu.read_byte(bus, addr);
            cpu.registers.set_a(v);
        },
        0xEA => {
            let addr = cpu.imm16(bus);
            let a = cpu.registers.get_a();
            cpu.write_byte(bus, addr, a);
        },
        _ => {
            let addr = cpu.imm16(bus);
            let v = cpu.read_byte(bus, addr);
            cpu.registers.set_a(v);
        },
    }
}

/// ADD SP,e; LD HL,SP+e; LD SP,HL.
#[verifier::spinoff_prover]
#[verifier::rlimit(100)]
fn execute_sp_arith(cpu: &mut Cpu, bus: &mut MemoryBus, opcode: u8)
    requires
        old(bus).wf(),
        opcode == 0xF8 || opcode == 0xF9 || opcode == 0xE8,
    ensures
        final(bus).wf(),
        machine(final(cpu)@, final(bus)@) == stack_spec(machine(old(cpu)@, old(bus)@), opcode),
{
    reveal(stack_spec);
    proof {
        lemma_opcode_fields(opcode);
    }
    match opcode {
        0xF8 => {
            let e = cpu.imm8(bus);
            let (sum, h, c) = sp_plus_offset(cpu.sp, e);
            cpu.registers.set_hl(sum);
            cpu.set_flags(false, false, h, c);
        },
        0xF9 => {
            cpu.sp = cpu.registers.get_hl();
        },
        _ => {
            let e = cpu.imm8(bus);
            let (sum, h, c) = sp_plus_offset(cpu.sp, e);
            cpu.sp = sum;
            cpu.set_flags(false, false, h, c);
        },
    }
}

/// PUSH and POP.
#[verifier::spinoff_prover]
#[verifier::rlimit(100)]
fn execute_push_pop(cpu: &mut Cpu, bus: &mut MemoryBus, opcode: u8)
    requires
        old(bus).wf(),
        opcode == 0xC5 || opcode == 0xD5 || opcode == 0xE5 || opcode == 0xF5 || opcode == 0xC1 || opcode == 0xD1 || opcode == 0xE1 || opcode == 0xF1,
    ensures
        final(bus).wf(),
        machine(final(cpu)@, final(bus)@) == stack_spec(machine(old(cpu)@, old(bus)@), opcode),
{
    reveal(stack_spec);
    proof {
        lemma_opcode_fields(opcode);
    }
    match opcode {
        0xC5 => {
            let v = cpu.registers.get_bc();
            cpu.push_u16(bus, v);
        },
        0xD5 => {
            let v = cpu.registers.get_de();
            cpu.push_u16(bus, v);
        },
        0xE5 => {
            let v = cpu.registers.get_hl();
            cpu.push_u16(bus, v);
        },
        0xF5 => {
            let v = cpu.registers.get_af();
            cpu.push_u16(bus, v);
        },
        0xC1 => {
            let v = cpu.pop_u16(bus);
            cpu.registers.set_bc(v);
        },
        0xD1 => {
            let v = cpu.pop_u16(bus);
            cpu.registers.set_de(v);
        },
        0xE1 => {
            let v = cpu.pop_u16(bus);
            cpu.registers.set_hl(v);
        },
        _ => {
            let v = cpu.pop_u16(bus);
            cpu.registers.set_af(v);
        },
    }
}

/// 8-bit ALU operations with an immediate operand.
#[verifier::spinoff_prover]
#[verifier::rlimit(100)]
fn execute_alu_imm(cpu: &mut Cpu, bus: &mut MemoryBus, opcode: u8)
    requires
        old(bus).wf(),
        opcode == 0xC6 || opcode == 0xCE || opcode == 0xD6 || opcode == 0xDE || opcode == 0xE6 || opcode == 0xEE || opcode == 0xF6 || opcode == 0xFE,
    ensures
        final(bus).wf(),
        machine(final(cpu)@, final(bus)@) == alu_imm_spec(machine(old(cpu)@, old(bus)@), opcode),
{
    reveal(alu_imm_spec);
    proof {
        lemma_opcode_fields(opcode);
    }
    match opcode {
        0xC6 => {
            let v = cpu.imm8(bus);
            alu_ops::add_a(&mut cpu.registers, v, 0);
        },
        0xCE => {
            let c = if cpu.registers.flag_c() { 1 } else { 0 };
            let v = cpu.imm8(bus);
            alu_ops::add_a(&mut cpu.registers, v, c);
        },
        0xD6 => {
            let v = cpu.imm8(bus);
            alu_ops::sub_a(&mut cpu.registers, v, 0);
        },
        0xDE => {
            let c = if cpu.registers.flag_c() { 1 } else { 0 };
            let v = cpu.imm8(bus);
            alu_ops::sub_a(&mut cpu.registers, v, c);
        },
        0xE6 => {
            let v = cpu.imm8(bus);
            alu_ops::and_a(&mut cpu.registers, v);
        },
        0xEE => {
            let v = cpu.imm8(bus);
            alu_ops::xor_a(&mut cpu.registers, v);
        },
        0xF6 => {
            let v = cpu.imm8(bus);
            alu_ops::or_a(&mut cpu.registers, v);
        },
        _ => {
            let v = cpu.imm8(bus);
            alu_ops::cp_a(&mut cpu.registers, v);
        },
    }
}

/// Absolute jumps and calls.
#[verifier::spinoff_prover]
#[verifier::rlimit(100)]
fn execute_jumps(cpu: &mut Cpu, bus: &mut MemoryBus, opcode: u8)
    requires
        old(bus).wf(),
        opcode == 0xC3 || opcode == 0xC2 || opcode == 0xCA || opcode == 0xD2 || opcode == 0xDA || opcode == 0xE9 || opcode == 0xCD || opcode == 0xC4 || opcode == 0xCC || opcode == 0xD4 || opcode == 0xDC,
    ensures
        final(bus).wf(),
        machine(final(cpu)@, final(bus)@) == jumps_spec(machine(old(cpu)@, old(bus)@), opcode),
{
    reveal(jumps_spec);
    proof {
        lemma_opcode_fields(opcode);
    }
    match opcode {
        0xC3 => {
            cpu.pc = cpu.imm16(bus);
        },
        0xC2 => {
            let addr = cpu.imm16(bus);
            if !cpu.registers.flag_z() {
                cpu.pc = addr;
            }
        },
        0xCA => {
            let addr = cpu.imm16(bus);
            if cpu.registers.flag_z() {
                cpu.pc = addr;
            }
        },
        0xD2 => {
            let addr = cpu.imm16(bus);
            if !cpu.registers.flag_c() {
                cpu.pc = addr;
            }
        },
        0xDA => {
            let addr = cpu.imm16(bus);
            if cpu.registers.flag_c() {
                cpu.pc = addr;
            }
        },
        0xE9 => {
            cpu.pc = cpu.registers.get_hl();
        },
        0xCD => {
            let addr = cpu.imm16(bus);
            rst(cpu, bus, addr);
        },
        0xC4 => {
            let addr = cpu.imm16(bus);
            if !cpu.registers.flag_z() {
                rst(cpu, bus, addr);
            }
        },
        0xCC => {
            let addr = cpu.imm16(bus);
            if cpu.registers.flag_z() {
                rst(cpu, bus, addr);
            }
        },
        0xD4 => {
            let addr = cpu.imm16(bus);
            if !cpu.registers.flag_c() {
                rst(cpu, bus, addr);
            }
        },
        _ => {
            let addr = cpu.imm16(bus);
            if cpu.registers.flag_c() {
                rst(cpu, bus, addr);
            }
        },
    }
}

/// Returns.
#[verifier::spinoff_prover]
#[verifier::rlimit(100)]
fn execute_returns(cpu: &mut Cpu, bus: &mut MemoryBus, opcode: u8)
    requires
        old(bus).wf(),
        opcode == 0xC9 || opcode == 0xD9 || opcode == 0xC0 || opcode == 0xC8 || opcode == 0xD0 || opcode == 0xD8,
    ensures
        final(bus).wf(),
        machine(final(cpu)@, final(bus)@) == returns_spec(machine(old(cpu)@, old(bus)@), opcode),
{
    reveal(returns_spec);
    proof {
        lemma_opcode_fields(opcode);
    }
    match opcode {
        0xC9 => {
            cpu.pc = cpu.pop_u16(bus);
        },
        0xD9 => {
            cpu.pc = cpu.pop_u16(bus);
            cpu.ime = true;
        },
        0xC0 => {
            if !cpu.registers.flag_z() {
                cpu.pc = cpu.pop_u16(bus);
            }
        },
        0xC8 => {
            if cpu.registers.flag_z() {
                cpu.pc = cpu.pop_u16(bus);
            }
        },
        0xD0 => {
            if !cpu.registers.flag_c() {
                cpu.pc = cpu.pop_u16(bus);
            }
        },
        _ => {
            if cpu.registers.flag_c() {
                cpu.pc = cpu.pop_u16(bus);
            }
        },
    }
}

/// RST, the CB prefix, DI, EI, and the illegal opcodes (no effect).
#[verifier::spinoff_prover]
#[verifier::rlimit(100)]
fn execute_misc3(cpu: &mut Cpu, bus: &mut MemoryBus, opcode: u8)
    requires
        old(bus).wf(),
        opcode == 0xC7 || opcode == 0xCF || opcode == 0xD7 || opcode == 0xDF || opcode == 0xE7 || opcode == 0xEF || opcode == 0xF7 || opcode == 0xFF || opcode == 0xCB || opcode == 0xF3 || opcode == 0xFB || opcode == 0xD3 || opcode == 0xDB || opcode == 0xDD || opcode == 0xE3 || opcode == 0xE4 || opcode == 0xEB || opcode == 0xEC || opcode == 0xED || opcode == 0xF4 || opcode == 0xFC || opcode == 0xFD,
    ensures
        final(bus).wf(),
        machine(final(cpu)@, final(bus)@) == misc3_spec(machine(old(cpu)@, old(bus)@), opcode),
{
    reveal(misc3_spec);
    proof {
        lemma_opcode_fields(opcode);
    }
    match opcode {
        0xC7 => rst(cpu, bus, 0x00),
        0xCF => rst(cpu, bus, 0x08),
        0xD7 => rst(cpu, bus, 0x10),
        0xDF => rst(cpu, bus, 0x18),
        0xE7 => rst(cpu, bus, 0x20),
        0xEF => rst(cpu, bus, 0x28),
        0xF7 => rst(cpu, bus, 0x30),
        0xFF => rst(cpu, bus, 0x38),
        0xCB => {
            let cb = cpu.fetch_byte(bus);
            exec_cb(cpu, bus, cb);
        },
        0xF3 => cpu.ime = false,
        0xFB => cpu.ei_pending = true,
        _ => {},
    }
}



/// No instruction changes the CPU's cycle count.
pub proof fn lemma_execute_keeps_cycles(m: Machine, op: u8)
    ensures
        execute_spec(m, op).cpu.step_cycles == m.cpu.step_cycles,
{
    reveal(loads8_spec);
    reveal(loads16_spec);
    reveal(inc_dec8_spec);
    reveal(alu16_spec);
    reveal(misc0_spec);
    reveal(jr_family_spec);
    reveal(io_loads_spec);
    reveal(stack_spec);
    reveal(alu_imm_spec);
    reveal(jumps_spec);
    reveal(returns_spec);
    reveal(misc3_spec);
}


/// No instruction sets a bit of F's low nibble: it stays zero as the hardware keeps it.
pub proof fn lemma_execute_keeps_flags_wf(m: Machine, op: u8)
    requires
        m.regs().wf(),
    ensures
        execute_spec(m, op).regs().wf(),
{
    lemma_flag_keeps_low_nibble();
    lemma_keeps_flags_wf_loads8(m, op);
    lemma_keeps_flags_wf_loads16(m, op);
    lemma_keeps_flags_wf_inc_dec8(m, op);
    lemma_keeps_flags_wf_alu16(m, op);
    lemma_keeps_flags_wf_misc0(m, op);
    lemma_keeps_flags_wf_jr_family(m, op);
    lemma_keeps_flags_wf_io_loads(m, op);
    lemma_keeps_flags_wf_stack(m, op);
    lemma_keeps_flags_wf_alu_imm(m, op);
    lemma_keeps_flags_wf_jumps(m, op);
    lemma_keeps_flags_wf_returns(m, op);
    lemma_keeps_flags_wf_misc3(m, op);
}

proof fn lemma_keeps_flags_wf_loads8(m: Machine, op: u8)
    requires
        m.regs().wf(),
    ensures
        loads8_spec(m, op).regs().wf(),
{
    lemma_flag_keeps_low_nibble();
    reveal(loads8_spec);
}

proof fn lemma_keeps_flags_wf_loads16(m: Machine, op: u8)
    requires
        m.regs().wf(),
    ensures
        loads16_spec(m, op).regs().wf(),
{
    lemma_flag_keeps_low_nibble();
    reveal(loads16_spec);
}

proof fn lemma_keeps_flags_wf_inc_dec8(m: Machine, op: u8)
    requires
        m.regs().wf(),
    ensures
        inc_dec8_spec(m, op).regs().wf(),
{
    lemma_flag_keeps_low_nibble();
    reveal(inc_dec8_spec);
}

proof fn lemma_keeps_flags_wf_alu16(m: Machine, op: u8)
    requires
        m.regs().wf(),
    ensures
        alu16_spec(m, op).regs().wf(),
{
    lemma_flag_keeps_low_nibble();
    reveal(alu16_spec);
}

proof fn lemma_keeps_flags_wf_misc0(m: Machine, op: u8)
    requires
        m.regs().wf(),
    ensures
        misc0_spec(m, op).regs().wf(),
{
    lemma_flag_keeps_low_nibble();
    reveal(misc0_spec);
}

proof fn lemma_keeps_flags_wf_jr_family(m: Machine, op: u8)
    requires
        m.regs().wf(),
    ensures
        jr_family_spec(m, op).regs().wf(),
{
    lemma_flag_keeps_low_nibble();
    reveal(jr_family_spec);
}

proof fn lemma_keeps_flags_wf_io_loads(m: Machine, op: u8)
    requires
        m.regs().wf(),
    ensures
        io_loads_spec(m, op).regs().wf(),
{
    lemma_flag_keeps_low_nibble();
    reveal(io_loads_spec);
}

proof fn lemma_keeps_flags_wf_stack(m: Machine, op: u8)
    requires
        m.regs().wf(),
    ensures
        stack_spec(m, op).regs().wf(),
{
    lemma_flag_keeps_low_nibble();
    reveal(stack_spec);
    let (m1, v) = m.pop16();
    lemma_pair_roundtrip(m1.regs(), v);
    assert(stack_pair_set(m1, 3, v).regs().wf());
}

proof fn lemma_keeps_flags_wf_alu_imm(m: Machine, op: u8)
    requires
        m.regs().wf(),
    ensures
        alu_imm_spec(m, op).regs().wf(),
{
    lemma_flag_keeps_low_nibble();
    reveal(alu_imm_spec);
}

proof fn lemma_keeps_flags_wf_jumps(m: Machine, op: u8)
    requires
        m.regs().wf(),
    ensures
        jumps_spec(m, op).regs().wf(),
{
    lemma_flag_keeps_low_nibble();
    reveal(jumps_spec);
}

proof fn lemma_keeps_flags_wf_returns(m: Machine, op: u8)
    requires
        m.regs().wf(),
    ensures
        returns_spec(m, op).regs().wf(),
{
    lemma_flag_keeps_low_nibble();
    reveal(returns_spec);
}

proof fn lemma_keeps_flags_wf_misc3(m: Machine, op: u8)
    requires
        m.regs().wf(),
    ensures
        misc3_spec(m, op).regs().wf(),
{
    lemma_flag_keeps_low_nibble();
    reveal(misc3_spec);
}

/// LD r,r' (opcodes 0x40-0x7F except HALT): the operand named by bits 3-5 receives the
/// value that the operand named by bits 0-2 held (operands B, C, D, E, H, L, (HL), A).
/// PC, SP and the rest of the CPU stay; a register destination leaves the flags, every
/// other register and memory as they were; an (HL) destination leaves every register
/// and changes memory by that one write.
pub proof fn lemma_ld_r_r(m: Machine, op: u8)
    requires
        0x40 <= op <= 0x7F,
        op != 0x76,
    ensures
        ({
            let dst = (op >> 3u8) & 7u8;
            let src = op & 7u8;
            let v = if src == 6 { m.read(m.regs().hl()) } else { m.regs().get8(src) };
            let t = execute_spec(m, op);
            &&& t.cpu == (CpuState { regs: t.cpu.regs, ..m.cpu })
            &&& dst != 6 ==> {
                &&& t.regs().get8(dst) == v
                &&& t.regs().f == m.regs().f
                &&& forall|k: u8| k < 8 && k != dst && k != 6 ==> #[trigger] t.regs().get8(k) == m.regs().get8(k)
                &&& t.bus == m.bus
            }
            &&& dst == 6 ==> {
                &&& t.regs() == m.regs()
                &&& t.bus == m.bus.write_spec(m.regs().hl(), v)
            }
        }),
{
    lemma_opcode_fields(op);
}

/// The ALU block (opcodes 0x80-0xBF): bits 3-5 pick ADD, ADC, SUB, SBC, AND, XOR, OR,
/// CP, in this order, of A with the operand that bits 0-2 name. The result (mod 256)
/// goes to A (CP keeps A); Z says whether it is 0 (for CP whether A equals the operand),
/// N is set exactly for SUB, SBC and CP, C is the carry out of bit 7 or the borrow, H
/// the carry out of bit 3 or the borrow from bit 4 (set for AND, clear for XOR and OR).
/// Memory, PC, SP and every register but A and F stay.
pub proof fn lemma_alu_encoding(m: Machine, op: u8)
    requires
        0x80 <= op <= 0xBF,
    ensures
        ({
            let y = (op >> 3u8) & 7u8;
            let z = op & 7u8;
            let r = m.regs();
            let v = if z == 6 { m.read(r.hl()) } else { r.get8(z) };
            let c: int = if r.cf() { 1 } else { 0 };
            let t = execute_spec(m, op);
            let n = t.regs();
            &&& t.bus == m.bus
            &&& t.cpu == (CpuState { regs: n, ..m.cpu })
            &&& n == (RegisterState { a: n.a, f: n.f, ..r })
            &&& y == 0 ==> n.a == (r.a + v) % 256 && n.cf() == (r.a + v > 255) && n.hf() == (r.a % 16
                + v % 16 > 15) && !n.nf()
            &&& y == 1 ==> n.a == (r.a + v + c) % 256 && n.cf() == (r.a + v + c > 255) && n.hf() == (r.a
                % 16 + v % 16 + c > 15) && !n.nf()
            &&& y == 2 ==> n.a == (r.a - v) % 256 && n.cf() == (r.a < v) && n.hf() == (r.a % 16 < v % 16)
                && n.nf()
            &&& y == 3 ==> n.a == (r.a - v - c) % 256 && n.cf() == (r.a < v + c) && n.hf() == (r.a % 16
                < v % 16 + c) && n.nf()
            &&& y == 4 ==> n.a == r.a & v && !n.cf() && n.hf() && !n.nf()
            &&& y == 5 ==> n.a == r.a ^ v && !n.cf() && !n.hf() && !n.nf()
            &&& y == 6 ==> n.a == r.a | v && !n.cf() && !n.hf() && !n.nf()
            &&& y == 7 ==> n.a == r.a && n.cf() == (r.a < v) && n.hf() == (r.a % 16 < v % 16) && n.nf()
                && n.zf() == (r.a == v)
            &&& y != 7 ==> n.zf() == (n.a == 0)
        }),
{
    lemma_opcode_fields(op);
    let r = m.regs();
    let z = op & 7u8;
    let v = if z == 6 { m.read(r.hl()) } else { r.get8(z) };
    let y = (op >> 3u8) & 7u8;
    let n = execute_spec(m, op).regs();
    assert(n == alu_op_spec(r, y, v));
    let cin: u8 = if r.cf() { 1 } else { 0 };
    let sum0 = r.a + v;
    let sum1 = r.a + v + cin;
    crate::cpu::register::lemma_with_flags(r.f, (sum0 % 256) == 0, false, r.a % 16 + v % 16 > 15, sum0 > 255);
    crate::cpu::register::lemma_with_flags(r.f, (sum1 % 256) == 0, false, r.a % 16 + v % 16 + cin > 15, sum1 > 255);
    crate::cpu::register::lemma_with_flags(r.f, ((r.a - v) % 256) as u8 == 0, true, r.a % 16 < v % 16, r.a < v);
    crate::cpu::register::lemma_with_flags(r.f, ((r.a - v - cin) % 256) as u8 == 0, true, r.a % 16 < v % 16 + cin, r.a < v + cin);
    crate::cpu::register::lemma_with_flags(r.f, r.a & v == 0, false, true, false);
    crate::cpu::register::lemma_with_flags(r.f, r.a ^ v == 0, false, false, false);
    crate::cpu::register::lemma_with_flags(r.f, r.a | v == 0, false, false, false);
    crate::cpu::register::lemma_with_flags(r.f, r.a == v, true, r.a % 16 < v % 16, r.a < v);
}

/// Whether condition code `cc` (bits 3-4 of a conditional opcode: NZ, Z, NC, C) holds.
pub open spec fn condition_holds(r: RegisterState, cc: int) -> bool {
    if cc == 0 {
        !r.zf()
    } else if cc == 1 {
        r.zf()
    } else if cc == 2 {
        !r.cf()
    } else {
        r.cf()
    }
}

/// JP cc,nn (0xC2, 0xCA, 0xD2, 0xDA for NZ, Z, NC, C): taken, PC becomes the 16-bit
/// immediate (low byte first); not taken, PC moves past it.
pub proof fn lemma_jp_cc(m: Machine, op: u8)
    requires
        op == 0xC2 || op == 0xCA || op == 0xD2 || op == 0xDA,
    ensures
        execute_spec(m, op).cpu.pc == (if condition_holds(m.regs(), (op - 0xC2) / 8) {
            word(m.read(wrap16(m.cpu.pc + 1)), m.read(m.cpu.pc))
        } else {
            wrap16(m.cpu.pc + 2)
        }),
        execute_spec(m, op).cpu.sp == m.cpu.sp,
        execute_spec(m, op).bus == m.bus,
{
    reveal(jumps_spec);
}

/// JR cc,e (0x20, 0x28, 0x30, 0x38 for NZ, Z, NC, C): taken, PC moves by the signed
/// offset from the end of the instruction; not taken, PC moves past it.
pub proof fn lemma_jr_cc(m: Machine, op: u8)
    requires
        op == 0x20 || op == 0x28 || op == 0x30 || op == 0x38,
    ensures
        execute_spec(m, op).cpu.pc == (if condition_holds(m.regs(), (op - 0x20) / 8) {
            wrap16(wrap16(m.cpu.pc + 1) + sext8(m.read(m.cpu.pc)))
        } else {
            wrap16(m.cpu.pc + 1)
        }),
        execute_spec(m, op).bus == m.bus,
{
    reveal(jr_family_spec);
}

/// RET cc (0xC0, 0xC8, 0xD0, 0xD8 for NZ, Z, NC, C): taken, PC is popped (low byte
/// first) and SP moves up by two; not taken, nothing changes.
pub proof fn lemma_ret_cc(m: Machine, op: u8)
    requires
        op == 0xC0 || op == 0xC8 || op == 0xD0 || op == 0xD8,
    ensures
        condition_holds(m.regs(), (op - 0xC0) / 8) ==> execute_spec(m, op).cpu.pc == word(
            m.read(wrap16(m.cpu.sp + 1)),
            m.read(m.cpu.sp),
        ) && execute_spec(m, op).cpu.sp == wrap16(m.cpu.sp + 2),
        !condition_holds(m.regs(), (op - 0xC0) / 8) ==> execute_spec(m, op) == m,
{
    reveal(returns_spec);
}

/// No instruction changes the ROM image, and the serial output only grows.
pub proof fn lemma_execute_evolves(m: Machine, op: u8)
    ensures
        m.bus.evolves_to(execute_spec(m, op).bus),
{
    lemma_evolves_loads8(m, op);
    lemma_evolves_loads16(m, op);
    lemma_evolves_inc_dec8(m, op);
    lemma_evolves_alu16(m, op);
    lemma_evolves_misc0(m, op);
    lemma_evolves_jr_family(m, op);
    lemma_evolves_io_loads(m, op);
    lemma_evolves_stack(m, op);
    lemma_evolves_alu_imm(m, op);
    lemma_evolves_jumps(m, op);
    lemma_evolves_returns(m, op);
    lemma_evolves_misc3(m, op);
    lemma_evolves_refl(m.bus);
    lemma_writes_evolve();
}

proof fn lemma_push16_evolves(m: Machine, v: u16)
    ensures
        m.bus.evolves_to(m.push16(v).bus),
{
    let m1 = m.push8(hi_byte(v));
    lemma_writes_evolve();
    lemma_evolves_trans(m.bus, m1.bus, m1.push8(lo_byte(v)).bus);
}

proof fn lemma_evolves_loads8(m: Machine, op: u8)
    ensures
        m.bus.evolves_to(loads8_spec(m, op).bus),
{
    reveal(loads8_spec);
    lemma_evolves_refl(m.bus);
    lemma_writes_evolve();
}

proof fn lemma_evolves_loads16(m: Machine, op: u8)
    ensures
        m.bus.evolves_to(loads16_spec(m, op).bus),
{
    reveal(loads16_spec);
    lemma_evolves_refl(m.bus);
    lemma_writes_evolve();
    let (m1, addr) = m.imm16();
    let m2 = m1.write(addr, lo_byte(m.cpu.sp));
    lemma_evolves_trans(m.bus, m2.bus, m2.write(wrap16(addr + 1), hi_byte(m.cpu.sp)).bus);
}

proof fn lemma_evolves_inc_dec8(m: Machine, op: u8)
    ensures
        m.bus.evolves_to(inc_dec8_spec(m, op).bus),
{
    reveal(inc_dec8_spec);
    lemma_evolves_refl(m.bus);
    lemma_writes_evolve();
}

proof fn lemma_evolves_alu16(m: Machine, op: u8)
    ensures
        m.bus.evolves_to(alu16_spec(m, op).bus),
{
    reveal(alu16_spec);
    lemma_evolves_refl(m.bus);
}

proof fn lemma_evolves_misc0(m: Machine, op: u8)
    ensures
        m.bus.evolves_to(misc0_spec(m, op).bus),
{
    reveal(misc0_spec);
    lemma_evolves_refl(m.bus);
}

proof fn lemma_evolves_jr_family(m: Machine, op: u8)
    ensures
        m.bus.evolves_to(jr_family_spec(m, op).bus),
{
    reveal(jr_family_spec);
    lemma_evolves_refl(m.bus);
}

proof fn lemma_evolves_io_loads(m: Machine, op: u8)
    ensures
        m.bus.evolves_to(io_loads_spec(m, op).bus),
{
    reveal(io_loads_spec);
    lemma_evolves_refl(m.bus);
    lemma_writes_evolve();
}

proof fn lemma_evolves_stack(m: Machine, op: u8)
    ensures
        m.bus.evolves_to(stack_spec(m, op).bus),
{
    reveal(stack_spec);
    lemma_evolves_refl(m.bus);
    lemma_push16_evolves(m, stack_pair_get(m, (op - 0xC0) / 16));
}

proof fn lemma_evolves_alu_imm(m: Machine, op: u8)
    ensures
        m.bus.evolves_to(alu_imm_spec(m, op).bus),
{
    reveal(alu_imm_spec);
    lemma_evolves_refl(m.bus);
}

proof fn lemma_evolves_jumps(m: Machine, op: u8)
    ensures
        m.bus.evolves_to(jumps_spec(m, op).bus),
{
    reveal(jumps_spec);
    lemma_evolves_refl(m.bus);
    let (m1, addr) = m.imm16();
    lemma_push16_evolves(m1, m1.cpu.pc);
}

proof fn lemma_evolves_returns(m: Machine, op: u8)
    ensures
        m.bus.evolves_to(returns_spec(m, op).bus),
{
    reveal(returns_spec);
    lemma_evolves_refl(m.bus);
}

proof fn lemma_evolves_misc3(m: Machine, op: u8)
    ensures
        m.bus.evolves_to(misc3_spec(m, op).bus),
{
    reveal(misc3_spec);
    lemma_evolves_refl(m.bus);
    lemma_writes_evolve();
    lemma_push16_evolves(m, m.cpu.pc);
}

/// RRC undoes RLC, RR undoes RL when fed RL's carry out (and RL undoes RR likewise),
/// and SWAP undoes itself.
pub proof fn lemma_shift_inverses(v: u8, c: bool)
    ensures
        shift_spec(1, shift_spec(0, v, c).0, c).0 == v,
        shift_spec(3, shift_spec(2, v, c).0, shift_spec(2, v, c).1).0 == v,
        shift_spec(2, shift_spec(3, v, c).0, shift_spec(3, v, c).1).0 == v,
        shift_spec(6, shift_spec(6, v, c).0, c).0 == v,
{
    assert(shift_spec(1, shift_spec(0, v, c).0, c).0 == v
        && shift_spec(3, shift_spec(2, v, c).0, shift_spec(2, v, c).1).0 == v
        && shift_spec(2, shift_spec(3, v, c).0, shift_spec(3, v, c).1).0 == v
        && shift_spec(6, shift_spec(6, v, c).0, c).0 == v) by (bit_vector);
}

/// SET then BIT reports the bit as set (Z = 0); RES then BIT reports it clear (Z = 1).
pub proof fn lemma_set_res_bit(v: u8, y: u8)
    requires
        y < 8,
    ensures
        (v | (1u8 << y)) & (1u8 << y) != 0,
        (v & !(1u8 << y)) & (1u8 << y) == 0,
{
    assert((v | (1u8 << y)) & (1u8 << y) != 0 && (v & !(1u8 << y)) & (1u8 << y) == 0) by (bit_vector)
        requires
            y < 8,
    ;
}

} // verus!
