use gb_rust::cpu::Cpu;
use gb_rust::joypad::UserInput;
use gb_rust::membus::MemoryBus;
use gb_rust::{Cartridge, Emulator};

/// A 32 KiB ROM-only image with `program` at 0x100.
fn program_rom(program: &[u8]) -> Vec<u8> {
    let mut rom = vec![0u8; 0x8000];
    rom[0x100..0x100 + program.len()].copy_from_slice(program);
    rom[0x147] = 0x00;
    rom[0x148] = 0x00;
    rom[0x149] = 0x02;
    rom
}

fn machine(program: &[u8]) -> (Cpu, MemoryBus) {
    let cart = Cartridge::new(program_rom(program)).expect("valid header");
    (Cpu::new(), MemoryBus::new(cart))
}

fn run(cpu: &mut Cpu, bus: &mut MemoryBus, steps: usize) {
    for _ in 0..steps {
        assert_eq!(cpu.step(bus), 0);
    }
}

#[test]
fn emulator_prints_serial_output() {
    let program = [
        0x3E, b'H', // LD A,'H'
        0xE0, 0x01, // LDH (SB),A
        0x3E, 0x81, // LD A,0x81
        0xE0, 0x02, // LDH (SC),A
        0x3E, b'i', // LD A,'i'
        0xE0, 0x01, // LDH (SB),A
        0x3E, 0x81, // LD A,0x81
        0xE0, 0x02, // LDH (SC),A
        0x18, 0xFE, // JR -2
    ];
    let mut emu = Emulator::new(program_rom(&program)).expect("valid header");
    for _ in 0..12 {
        assert_eq!(emu.try_tick(), Some(0));
    }
    assert_eq!(emu.serial_output(), "Hi");
    assert_eq!(emu.debug_cpu_pc(), 0x110);
    assert_eq!(emu.debug_peek_byte(0xFF01), b'i');
}

#[test]
fn emulator_new_reports_header_error() {
    let mut rom = program_rom(&[]);
    rom[0x149] = 0x09;
    match Emulator::new(rom) {
        Err(e) => assert_eq!(e, "Invalid RAM size in cartridge header"),
        Ok(_) => panic!("bad RAM size accepted"),
    }
}

#[test]
fn emulator_power_on_state() {
    let emu = Emulator::new(program_rom(&[0x00])).expect("valid header");
    assert_eq!(emu.debug_cpu_pc(), 0x100);
    assert_eq!(emu.serial_output(), "");
    assert_eq!(emu.debug_last_ext_ram_write(), None);
    assert_eq!(emu.debug_peek_byte(0xFF40), 0x91);
    assert_eq!(emu.debug_peek_byte(0xFF0F), 0xE1);
    assert_eq!(emu.debug_peek_byte(0xFFFF), 0x00);
    let display = emu.get_display();
    assert!(display.iter().all(|row| row.iter().all(|&p| p == 0)));
}

#[test]
fn emulator_tick_reports_zero_cycles() {
    let mut emu = Emulator::new(program_rom(&[0x00, 0x00])).expect("valid header");
    assert_eq!(emu.tick(), 0);
    assert_eq!(emu.debug_cpu_pc(), 0x101);
    emu.run_cycles(0);
    assert_eq!(emu.debug_cpu_pc(), 0x101);
}

#[test]
fn emulator_records_external_ram_write() {
    // LD A,0x5A ; LD (0xA000),A ; JR -2
    let program = [0x3E, 0x5A, 0xEA, 0x00, 0xA0, 0x18, 0xFE];
    let mut emu = Emulator::new(program_rom(&program)).expect("valid header");
    emu.tick();
    emu.tick();
    assert_eq!(emu.debug_last_ext_ram_write(), Some((0xA000, 0x5A)));
    assert_eq!(emu.debug_peek_byte(0xA000), 0x5A);
}

#[test]
fn emulator_input_reaches_joypad_register() {
    // LD A,0x20 ; LDH (P1),A (select the direction line) ; JR -2
    let program = [0x3E, 0x20, 0xE0, 0x00, 0x18, 0xFE];
    let mut emu = Emulator::new(program_rom(&program)).expect("valid header");
    emu.tick();
    emu.tick();
    assert_eq!(emu.debug_peek_byte(0xFF00), 0xEF);
    emu.press_input(UserInput::Right);
    assert_eq!(emu.debug_peek_byte(0xFF00), 0xEE);
    emu.press_input(UserInput::A);
    assert_eq!(emu.debug_peek_byte(0xFF00), 0xEE);
    emu.release_input(UserInput::Right);
    assert_eq!(emu.debug_peek_byte(0xFF00), 0xEF);
}

#[test]
fn cpu_add_sets_all_flags() {
    // LD A,0x3A ; ADD A,0xC6
    let (mut cpu, mut bus) = machine(&[0x3E, 0x3A, 0xC6, 0xC6]);
    run(&mut cpu, &mut bus, 2);
    assert_eq!(cpu.registers.get_a(), 0x00);
    assert_eq!(cpu.registers.get_af(), 0x00B0);
    assert_eq!(cpu.pc, 0x104);
}

#[test]
fn cpu_daa_adjusts_bcd_sum() {
    // LD A,0x15 ; ADD A,0x27 ; DAA
    let (mut cpu, mut bus) = machine(&[0x3E, 0x15, 0xC6, 0x27, 0x27]);
    run(&mut cpu, &mut bus, 3);
    assert_eq!(cpu.registers.get_a(), 0x42);
    assert!(!cpu.registers.flag_c());
    assert!(!cpu.registers.flag_z());
}

#[test]
fn cpu_push_pop_roundtrip() {
    // LD BC,0x1234 ; PUSH BC ; POP DE
    let (mut cpu, mut bus) = machine(&[0x01, 0x34, 0x12, 0xC5, 0xD1]);
    run(&mut cpu, &mut bus, 2);
    assert_eq!(cpu.sp, 0xFFFC);
    assert_eq!(bus.read_byte(0xFFFD), 0x12);
    assert_eq!(bus.read_byte(0xFFFC), 0x34);
    run(&mut cpu, &mut bus, 1);
    assert_eq!(cpu.registers.get_de(), 0x1234);
    assert_eq!(cpu.sp, 0xFFFE);
}

#[test]
fn cpu_call_and_ret() {
    // CALL 0x0110 ; ... at 0x110: RET
    let mut program = vec![0xCD, 0x10, 0x01];
    program.resize(0x10, 0x00);
    program.push(0xC9);
    let (mut cpu, mut bus) = machine(&program);
    run(&mut cpu, &mut bus, 1);
    assert_eq!(cpu.pc, 0x110);
    assert_eq!(cpu.sp, 0xFFFC);
    run(&mut cpu, &mut bus, 1);
    assert_eq!(cpu.pc, 0x103);
    assert_eq!(cpu.sp, 0xFFFE);
}

#[test]
fn cpu_cb_swap_and_bit() {
    // LD B,0xF0 ; SWAP B ; BIT 7,B
    let (mut cpu, mut bus) = machine(&[0x06, 0xF0, 0xCB, 0x30, 0xCB, 0x78]);
    run(&mut cpu, &mut bus, 2);
    assert_eq!(cpu.registers.get_b(), 0x0F);
    assert!(!cpu.registers.flag_c());
    run(&mut cpu, &mut bus, 1);
    assert!(cpu.registers.flag_z());
    assert!(cpu.registers.flag_h());
    assert!(!cpu.registers.flag_n());
}

#[test]
fn cpu_jr_backwards_loops() {
    let (mut cpu, mut bus) = machine(&[0x18, 0xFE]);
    run(&mut cpu, &mut bus, 5);
    assert_eq!(cpu.pc, 0x100);
}

#[test]
fn cpu_inc_dec_flags() {
    // LD A,0x0F ; INC A ; LD B,0x01 ; DEC B
    let (mut cpu, mut bus) = machine(&[0x3E, 0x0F, 0x3C, 0x06, 0x01, 0x05]);
    run(&mut cpu, &mut bus, 2);
    assert_eq!(cpu.registers.get_a(), 0x10);
    assert!(cpu.registers.flag_h());
    assert!(!cpu.registers.flag_n());
    run(&mut cpu, &mut bus, 2);
    assert_eq!(cpu.registers.get_b(), 0x00);
    assert!(cpu.registers.flag_z());
    assert!(cpu.registers.flag_n());
}

#[test]
fn cpu_read_write_reg_through_hl() {
    let (mut cpu, mut bus) = machine(&[0x00]);
    cpu.registers.set_hl(0xC123);
    cpu.write_reg(&mut bus, 6, 0x77);
    assert_eq!(bus.read_byte(0xC123), 0x77);
    assert_eq!(cpu.read_reg(&mut bus, 6), 0x77);
    cpu.write_reg(&mut bus, 7, 0x99);
    assert_eq!(cpu.read_reg(&mut bus, 7), 0x99);
    assert_eq!(cpu.registers.get_a(), 0x99);
}

#[test]
fn cpu_halt_stops_execution() {
    // HALT ; INC A
    let (mut cpu, mut bus) = machine(&[0x76, 0x3C]);
    let a = cpu.registers.get_a();
    run(&mut cpu, &mut bus, 3);
    assert!(cpu.halted);
    assert_eq!(cpu.registers.get_a(), a);
    assert_eq!(cpu.pc, 0x101);
}

#[test]
fn bus_oam_dma_copies_page() {
    let (_, mut bus) = machine(&[]);
    // LCD off so that OAM is readable
    bus.write_byte(0xFF40, 0x00);
    for i in 0..0xA0u16 {
        bus.write_byte(0xC000 + i, (i as u8) ^ 0x5A);
    }
    bus.write_byte(0xFF46, 0xC0);
    for i in 0..0xA0u16 {
        assert_eq!(bus.read_byte(0xFE00 + i), (i as u8) ^ 0x5A);
    }
    assert_eq!(bus.read_byte(0xFF46), 0xC0);
}

#[test]
fn bus_echo_ram_and_unusable_gap() {
    let (_, mut bus) = machine(&[]);
    bus.write_byte(0xC010, 0x33);
    assert_eq!(bus.read_byte(0xE010), 0x33);
    bus.write_byte(0xE020, 0x44);
    assert_eq!(bus.read_byte(0xC020), 0x44);
    bus.write_byte(0xFEA0, 0x12);
    assert_eq!(bus.read_byte(0xFEA0), 0xFF);
    bus.write_byte(0x0000, 0x12);
    assert_eq!(bus.read_byte(0x0000), 0x00);
    bus.write_byte(0xFF80, 0x21);
    assert_eq!(bus.read_byte(0xFF80), 0x21);
    bus.write_byte(0xFFFF, 0x1F);
    assert_eq!(bus.read_byte(0xFFFF), 0x1F);
}

#[test]
fn bus_step_requests_vblank() {
    let (_, mut bus) = machine(&[]);
    bus.write_byte(0xFF0F, 0x00);
    // Each 456 cycles finish one line; the 144th line ends in VBlank.
    for _ in 0..143 {
        assert!(bus.can_step());
        bus.step(456);
    }
    assert_eq!(bus.read_byte(0xFF44), 143);
    assert_eq!(bus.read_byte(0xFF0F) & 0x01, 0x00);
    bus.step(456);
    assert_eq!(bus.read_byte(0xFF44), 144);
    assert_eq!(bus.read_byte(0xFF0F) & 0x01, 0x01);
}

#[test]
fn emulator_rom_is_read_only() {
    // LD A,0x77 ; LD (0x0100),A ; LD (0x4000),A ; JR -2
    let program = [0x3E, 0x77, 0xEA, 0x00, 0x01, 0xEA, 0x00, 0x40, 0x18, 0xFE];
    let mut emu = Emulator::new(program_rom(&program)).expect("valid header");
    for _ in 0..4 {
        emu.tick();
    }
    assert_eq!(emu.debug_peek_byte(0x0100), 0x3E);
    assert_eq!(emu.debug_peek_byte(0x4000), 0x00);
    assert_eq!(emu.debug_last_ext_ram_write(), None);
}

#[test]
fn cpu_pop_af_clears_low_flag_bits() {
    // LD BC,0x12FF ; PUSH BC ; POP AF
    let (mut cpu, mut bus) = machine(&[0x01, 0xFF, 0x12, 0xC5, 0xF1]);
    run(&mut cpu, &mut bus, 3);
    assert_eq!(cpu.registers.get_af(), 0x12F0);
}

#[test]
fn cpu_rotates_undo_each_other() {
    // LD C,0x81 ; RLC C ; RRC C ; SWAP C ; SWAP C
    let (mut cpu, mut bus) = machine(&[0x0E, 0x81, 0xCB, 0x01, 0xCB, 0x09, 0xCB, 0x31, 0xCB, 0x31]);
    run(&mut cpu, &mut bus, 2);
    assert_eq!(cpu.registers.get_c(), 0x03);
    assert!(cpu.registers.flag_c());
    run(&mut cpu, &mut bus, 1);
    assert_eq!(cpu.registers.get_c(), 0x81);
    run(&mut cpu, &mut bus, 1);
    assert_eq!(cpu.registers.get_c(), 0x18);
    run(&mut cpu, &mut bus, 1);
    assert_eq!(cpu.registers.get_c(), 0x81);
}

#[test]
fn cpu_set_res_then_bit() {
    // LD A,0x00 ; SET 3,A ; BIT 3,A ; RES 3,A ; BIT 3,A
    let (mut cpu, mut bus) = machine(&[0x3E, 0x00, 0xCB, 0xDF, 0xCB, 0x5F, 0xCB, 0x9F, 0xCB, 0x5F]);
    run(&mut cpu, &mut bus, 3);
    assert_eq!(cpu.registers.get_a(), 0x08);
    assert!(!cpu.registers.flag_z());
    run(&mut cpu, &mut bus, 2);
    assert_eq!(cpu.registers.get_a(), 0x00);
    assert!(cpu.registers.flag_z());
}

#[test]
fn cpu_sub_undoes_add_and_cp_keeps_a() {
    // LD A,0x42 ; ADD A,0x99 ; SUB 0x99 ; CP 0x42
    let (mut cpu, mut bus) = machine(&[0x3E, 0x42, 0xC6, 0x99, 0xD6, 0x99, 0xFE, 0x42]);
    run(&mut cpu, &mut bus, 3);
    assert_eq!(cpu.registers.get_a(), 0x42);
    run(&mut cpu, &mut bus, 1);
    assert_eq!(cpu.registers.get_a(), 0x42);
    assert!(cpu.registers.flag_z() && cpu.registers.flag_n());
}

#[test]
fn cpu_ei_di_reti_flags() {
    // DI ; EI ; CALL 0x0108 ; NOP ; NOP ; at 0x108: RETI
    let (mut cpu, mut bus) = machine(&[0xF3, 0xFB, 0xCD, 0x08, 0x01, 0x00, 0x00, 0x00, 0xD9]);
    run(&mut cpu, &mut bus, 1);
    assert!(!cpu.ime);
    run(&mut cpu, &mut bus, 1);
    assert!(cpu.ei_pending);
    run(&mut cpu, &mut bus, 2);
    assert!(cpu.ime);
    assert_eq!(cpu.pc, 0x105);
}
