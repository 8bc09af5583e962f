use gb_rust::cpu::alu::{add_a, add_hl, and_a, cp_a, daa, or_a, sub_a, xor_a};
use gb_rust::cpu::microops::{bus_access, halt_idle, m_cycles};
use gb_rust::cpu::register::Register;
use gb_rust::interrupts::InterruptType;
use gb_rust::io::IoRegisters;
use gb_rust::joypad::{Joypad, UserInput};
use gb_rust::ppu::Ppu;
use gb_rust::timer::TimerRegister;

fn legacy_rom(ram_code: u8) -> Vec<u8> {
    let mut rom = vec![0u8; 0x8000];
    rom[0x100] = 0xAB;
    rom[0x147] = 0x00;
    rom[0x148] = 0x00;
    rom[0x149] = ram_code;
    rom
}

#[test]
fn register_power_on_values() {
    let reg = Register::new();
    assert_eq!(reg.get_a(), 0x11);
    assert_eq!(reg.get_af(), 0x1180);
    assert!(reg.flag_z());
    assert!(!reg.flag_n() && !reg.flag_h() && !reg.flag_c());
    assert_eq!(reg.get_bc(), 0);
    assert_eq!(reg.get_de(), 0);
    assert_eq!(reg.get_hl(), 0);
}

#[test]
fn register_pairs_roundtrip() {
    let mut reg = Register::new();
    reg.set_bc(0xBEEF);
    assert_eq!(reg.get_b(), 0xBE);
    assert_eq!(reg.get_c(), 0xEF);
    assert_eq!(reg.get_bc(), 0xBEEF);
    reg.set_de(0x1234);
    assert_eq!(reg.get_d(), 0x12);
    assert_eq!(reg.get_e(), 0x34);
    reg.set_hl(0xC0DE);
    assert_eq!(reg.get_h(), 0xC0);
    assert_eq!(reg.get_l(), 0xDE);
    // The low nibble of F always reads as zero.
    reg.set_af(0x12FF);
    assert_eq!(reg.get_a(), 0x12);
    assert_eq!(reg.get_af(), 0x12F0);
}

#[test]
fn register_flags_set_and_clear() {
    let mut reg = Register::new();
    reg.set_flag_z(false);
    reg.set_flag_c(true);
    reg.set_flag_h(true);
    reg.set_flag_n(true);
    assert_eq!(reg.get_af() & 0xFF, 0x70);
    reg.set_flag_h(false);
    assert!(!reg.flag_h());
    assert!(reg.flag_c() && reg.flag_n() && !reg.flag_z());
}

#[test]
fn alu_add_with_carry_in() {
    let mut reg = Register::new();
    reg.set_a(0x01);
    add_a(&mut reg, 0xFF, 1);
    assert_eq!(reg.get_a(), 0x01);
    assert!(reg.flag_c() && reg.flag_h() && !reg.flag_z() && !reg.flag_n());
}

#[test]
fn alu_sub_borrows_from_bit_four() {
    let mut reg = Register::new();
    reg.set_a(0x10);
    sub_a(&mut reg, 0x01, 0);
    assert_eq!(reg.get_a(), 0x0F);
    assert!(reg.flag_n() && reg.flag_h() && !reg.flag_c() && !reg.flag_z());
    sub_a(&mut reg, 0x10, 0);
    assert_eq!(reg.get_a(), 0xFF);
    assert!(reg.flag_c());
}

#[test]
fn alu_logic_and_compare() {
    let mut reg = Register::new();
    reg.set_a(0xF0);
    and_a(&mut reg, 0x0F);
    assert_eq!(reg.get_a(), 0x00);
    assert!(reg.flag_z() && reg.flag_h() && !reg.flag_c());
    or_a(&mut reg, 0x81);
    assert_eq!(reg.get_a(), 0x81);
    assert!(!reg.flag_z() && !reg.flag_h());
    xor_a(&mut reg, 0x81);
    assert_eq!(reg.get_a(), 0x00);
    assert!(reg.flag_z());
    reg.set_a(0x20);
    cp_a(&mut reg, 0x21);
    assert_eq!(reg.get_a(), 0x20);
    assert!(reg.flag_c() && reg.flag_n() && reg.flag_h() && !reg.flag_z());
}

#[test]
fn alu_add_hl_keeps_zero_flag() {
    let mut reg = Register::new();
    reg.set_hl(0x0FFF);
    add_hl(&mut reg, 0x0001);
    assert_eq!(reg.get_hl(), 0x1000);
    assert!(reg.flag_h() && !reg.flag_c() && reg.flag_z());
    reg.set_hl(0xFFFF);
    add_hl(&mut reg, 0x0002);
    assert_eq!(reg.get_hl(), 0x0001);
    assert!(reg.flag_c());
}

#[test]
fn alu_daa_after_subtraction() {
    // 0x42 - 0x15 = 0x2D; DAA gives 0x27
    let mut reg = Register::new();
    reg.set_a(0x42);
    sub_a(&mut reg, 0x15, 0);
    assert_eq!(reg.get_a(), 0x2D);
    daa(&mut reg);
    assert_eq!(reg.get_a(), 0x27);
    assert!(!reg.flag_c() && !reg.flag_z());
}

#[test]
fn alu_daa_carries_past_99() {
    let mut reg = Register::new();
    reg.set_a(0x99);
    add_a(&mut reg, 0x01, 0);
    daa(&mut reg);
    assert_eq!(reg.get_a(), 0x00);
    assert!(reg.flag_c() && reg.flag_z());
}

#[test]
fn microop_cycle_counts() {
    assert_eq!(m_cycles(3), 12);
    assert_eq!(m_cycles(0), 0);
    assert_eq!(bus_access(), 4);
    assert_eq!(halt_idle(), 4);
}

#[test]
fn interrupt_bits_masks_vectors() {
    let all = [
        InterruptType::VBlank,
        InterruptType::LCDSTAT,
        InterruptType::Timer,
        InterruptType::Serial,
        InterruptType::Joypad,
    ];
    for (i, irq) in all.iter().enumerate() {
        assert_eq!(irq.bit() as usize, i);
        assert_eq!(irq.mask(), 1u8 << i);
        assert_eq!(irq.vector(), 0x40 + 8 * i as u16);
        assert_eq!(InterruptType::from_bit(i as u8), Some(*irq));
        assert_eq!(usize::from(*irq), i);
    }
    assert_eq!(InterruptType::from_bit(5), None);
}

#[test]
fn interrupt_priority_is_lowest_bit() {
    assert_eq!(InterruptType::highest_priority_from_pending(0b10100), Some(InterruptType::Timer));
    assert_eq!(InterruptType::highest_priority_from_pending(0x1F), Some(InterruptType::VBlank));
    assert_eq!(InterruptType::highest_priority_from_pending(0x10), Some(InterruptType::Joypad));
    assert_eq!(InterruptType::highest_priority_from_pending(0), None);
    assert_eq!(InterruptType::highest_priority_from_pending(0xE0), None);
}

#[test]
fn joypad_lines_and_keys() {
    let mut pad = Joypad::new();
    assert_eq!(pad.read(), 0xFF);
    // Select the button line (bit 5 low)
    pad.write(0x10);
    pad.press_button(UserInput::Start);
    assert_eq!(pad.read(), 0xD7);
    pad.press_button(UserInput::Down);
    assert_eq!(pad.read(), 0xD7);
    // Both lines selected: the lines are ANDed
    pad.write(0x00);
    assert_eq!(pad.read(), 0xC7);
    pad.release_button(UserInput::Start);
    pad.release_button(UserInput::Down);
    assert_eq!(pad.read(), 0xCF);
    // Only bits 4 and 5 of a write are kept
    pad.write(0xFF);
    assert_eq!(pad.read(), 0xFF);
}

#[test]
fn joypad_set_lines_directly() {
    let mut pad = Joypad::new();
    pad.write(0x20);
    pad.set_dpad(0x0A);
    assert_eq!(pad.read(), 0xEA);
    pad.set_buttons(0x05);
    assert_eq!(pad.read(), 0xEA);
    pad.write(0x10);
    assert_eq!(pad.read(), 0xD5);
}

#[test]
fn timer_registers_read_back() {
    let mut t = TimerRegister::new();
    t.write_byte(0xFF05, 0x12);
    t.write_byte(0xFF06, 0x34);
    t.write_byte(0xFF07, 0xFD);
    assert_eq!(t.read_byte(0xFF05), 0x12);
    assert_eq!(t.read_byte(0xFF06), 0x34);
    assert_eq!(t.read_byte(0xFF07), 0xFD);
    t.write_byte(0xFF04, 0x99);
    assert_eq!(t.read_byte(0xFF04), 0x00);
}

#[test]
fn timer_overflow_reloads_and_requests() {
    let mut t = TimerRegister::new();
    t.write_byte(0xFF07, 0x05);
    t.write_byte(0xFF05, 0xFD);
    t.write_byte(0xFF06, 0x40);
    assert!(t.can_step());
    assert!(!t.step(4));
    assert_eq!(t.read_byte(0xFF05), 0xFE);
    assert!(t.step(4));
    assert_eq!(t.read_byte(0xFF05), 0x40);
    assert_eq!(t.read_byte(0xFF04), 2);
}

#[test]
fn timer_stopped_keeps_tima() {
    let mut t = TimerRegister::new();
    t.write_byte(0xFF05, 0x10);
    assert!(!t.step(4));
    assert_eq!(t.read_byte(0xFF05), 0x10);
    assert_eq!(t.read_byte(0xFF04), 1);
}

#[test]
fn io_serial_and_interrupt_flags() {
    let mut io = IoRegisters::new();
    assert_eq!(io.read_io_reg(0xFF0F), 0xE1);
    io.write_io(0xFF01, b'A');
    io.write_io(0xFF02, 0x81);
    io.write_io(0xFF01, b'B');
    io.write_io(0xFF02, 0x80);
    assert_eq!(io.serial_output(), "A");
    assert_eq!(io.read_io_reg(0xFF01), b'B');
    io.write_io(0xFF0F, 0x00);
    io.request_interrupt(InterruptType::Timer);
    assert_eq!(io.read_io_reg(0xFF0F), 0xE4);
    io.write_io(0xFF0F, 0xFF);
    assert_eq!(io.read_io_reg(0xFF0F), 0xFF);
}

#[test]
fn io_timer_and_joypad_registers() {
    let mut io = IoRegisters::new();
    io.write_io(0xFF07, 0x04);
    io.write_io(0xFF05, 0xFE);
    io.write_io(0xFF0F, 0x00);
    assert!(io.can_step());
    io.step(4);
    assert_eq!(io.read_io_reg(0xFF0F), 0xE4);
    assert_eq!(io.read_io_reg(0xFF04), 1);
    io.write_io(0xFF00, 0x10);
    io.press_input(UserInput::A);
    assert_eq!(io.read_io_reg(0xFF00), 0xDE);
    io.release_input(UserInput::A);
    assert_eq!(io.read_io_reg(0xFF00), 0xDF);
}

#[test]
fn ppu_power_on_registers() {
    let ppu = Ppu::new();
    assert_eq!(ppu.read_reg(0xFF40), 0x91);
    assert_eq!(ppu.read_reg(0xFF47), 0xFC);
    assert_eq!(ppu.read_reg(0xFF44), 0);
    // OAM scan (mode 2), LY == LYC
    assert_eq!(ppu.read_reg(0xFF41), 0x06);
    assert_eq!(ppu.read_vram(0x8000), 0x00);
    assert_eq!(ppu.read_oam(0), 0xFF);
}

#[test]
fn ppu_renders_background_line() {
    let mut ppu = Ppu::new();
    // Tile 0, row 0: every pixel has color number 1.
    ppu.write_vram(0x8000, 0xFF);
    assert_eq!(ppu.read_vram(0x8000), 0xFF);
    assert_eq!(ppu.step(80 + 172), (false, false));
    // HBlank, LY == LYC
    assert_eq!(ppu.read_reg(0xFF41), 0x04);
    let screen = ppu.get_display();
    // BGP 0xFC gives color number 1 the shade 3.
    assert!(screen[0].iter().all(|&p| p == 3));
    assert!(screen[1].iter().all(|&p| p == 0));
}

#[test]
fn ppu_draws_sprite_over_background() {
    let mut ppu = Ppu::new();
    ppu.write_reg(0xFF40, 0x93);
    // Tile 1, row 0: color number 3.
    ppu.write_vram(0x8010, 0xFF);
    ppu.write_vram(0x8011, 0xFF);
    // Sprite 0 at the top-left corner showing tile 1.
    ppu.dma_write_oam(0, 16);
    ppu.dma_write_oam(1, 8);
    ppu.dma_write_oam(2, 1);
    ppu.dma_write_oam(3, 0);
    ppu.write_reg(0xFF48, 0xE4);
    ppu.step(80 + 172);
    let screen = ppu.get_display();
    assert!(screen[0][..8].iter().all(|&p| p == 3));
    assert!(screen[0][8..].iter().all(|&p| p == 0));
}

#[test]
fn ppu_lcd_off_resets_line() {
    let mut ppu = Ppu::new();
    ppu.step(456 * 3);
    assert_eq!(ppu.read_reg(0xFF44), 3);
    ppu.write_reg(0xFF40, 0x11);
    assert_eq!(ppu.read_reg(0xFF44), 0);
    // HBlank with the LCD off; stepping does nothing
    assert_eq!(ppu.step(1000), (false, false));
    assert_eq!(ppu.read_reg(0xFF44), 0);
    ppu.write_oam(5, 0x77);
    assert_eq!(ppu.read_oam(5), 0x77);
}

#[test]
fn ppu_enters_vblank() {
    let mut ppu = Ppu::new();
    let (vblank, _) = ppu.step(456 * 144);
    assert!(vblank);
    assert_eq!(ppu.read_reg(0xFF44), 144);
    assert_eq!(ppu.read_reg(0xFF41) & 0x03, 1);
    // Ten lines of VBlank, then line 0 again
    let (vblank, _) = ppu.step(456 * 10);
    assert!(!vblank);
    assert_eq!(ppu.read_reg(0xFF44), 0);
    assert_eq!(ppu.read_reg(0xFF41) & 0x03, 2);
}

#[test]
fn legacy_register_hl_reads_l_only() {
    let mut reg = gb_rust::register::Register::new();
    reg.set_h(0x12);
    reg.set_l(0x34);
    assert_eq!(reg.get_hl(), 0x0034);
    reg.set_b(0xAB);
    reg.set_c(0xCD);
    assert_eq!(reg.get_bc(), 0xABCD);
    reg.set_d(0x01);
    reg.set_e(0x02);
    assert_eq!(reg.get_de(), 0x0102);
    reg.set_a(0x7F);
    assert_eq!(reg.get_a(), 0x7F);
    assert_eq!(reg.get_zero(), 0);
    assert_eq!(reg.get_subtraction(), 0);
    assert_eq!(reg.get_half_carry(), 0);
    assert_eq!(reg.get_carry(), 0);
}

#[test]
fn flat_bus_memory_map() {
    let cart = gb_rust::cartridge::Cartridge::new(legacy_rom(0x02));
    let mut bus = gb_rust::bus::MemoryBus::new(cart);
    assert_eq!(bus.read_byte(0x0100), 0xAB);
    bus.write_byte(0x0100, 0x00);
    assert_eq!(bus.read_byte(0x0100), 0xAB);
    bus.write_byte(0xC000, 0x11);
    assert_eq!(bus.read_byte(0xC000), 0x11);
    assert_eq!(bus.read_byte(0xE000), 0x11);
    bus.write_byte(0xA005, 0x22);
    assert_eq!(bus.read_byte(0xA005), 0x22);
    bus.write_byte(0xFF90, 0x33);
    assert_eq!(bus.read_byte(0xFF90), 0x33);
    bus.write_byte(0xFF50, 0x44);
    assert_eq!(bus.read_byte(0xFF50), 0x44);
    // VRAM is handed its offset, which the PPU answers with 0xFF
    assert_eq!(bus.read_byte(0x8000), 0xFF);
    assert_eq!(bus.read_byte(0xFEA0), 0xFF);
    assert_eq!(bus.read_byte(0xFF40), 0x91);
    assert_eq!(bus.read_byte(0xFF00), 0xFF);
}

#[test]
fn flat_bus_without_cartridge_ram() {
    let cart = gb_rust::cartridge::Cartridge::new(legacy_rom(0x00));
    let mut bus = gb_rust::bus::MemoryBus::new(cart);
    bus.write_byte(0xA000, 0x22);
    assert_eq!(bus.read_byte(0xA000), 0xFF);
}

#[test]
fn flat_bus_interrupts() {
    let cart = gb_rust::cartridge::Cartridge::new(legacy_rom(0x00));
    let mut bus = gb_rust::bus::MemoryBus::new(cart);
    assert_eq!(bus.read_byte(0xFF0F), 0xE0);
    bus.request_interrupt(InterruptType::Timer);
    bus.request_interrupt(InterruptType::VBlank);
    assert_eq!(bus.read_byte(0xFF0F), 0xE5);
    assert_eq!(bus.pending_interrupts(), 0);
    bus.write_byte(0xFFFF, 0x04);
    assert_eq!(bus.pending_interrupts(), 0x04);
    bus.acknowledge_interrupt(2);
    assert_eq!(bus.pending_interrupts(), 0);
    assert_eq!(bus.read_byte(0xFF0F), 0xE1);
    bus.write_byte(0xFF0F, 0xFF);
    assert_eq!(bus.read_byte(0xFF0F), 0xFF);
}

#[test]
fn flat_bus_tick_and_timers() {
    let cart = gb_rust::cartridge::Cartridge::new(legacy_rom(0x00));
    let mut bus = gb_rust::bus::MemoryBus::new(cart);
    bus.write_byte(0xFF07, 0x04);
    bus.write_byte(0xFF05, 0xFE);
    bus.tick(456);
    assert_eq!(bus.read_byte(0xFF04), 1);
    assert_eq!(bus.read_byte(0xFF05), 0x00);
    assert_eq!(bus.read_byte(0xFF0F) & 0x04, 0x04);
    assert_eq!(bus.read_byte(0xFF44), 1);
    assert_eq!(bus.ppu().read_reg(0xFF44), 1);
}

#[test]
fn flat_bus_dma_and_ppu_access() {
    let cart = gb_rust::cartridge::Cartridge::new(legacy_rom(0x00));
    let mut bus = gb_rust::bus::MemoryBus::new(cart);
    bus.ppu_mut().write_reg(0xFF42, 5);
    assert_eq!(bus.read_byte(0xFF42), 5);
    bus.write_byte(0xFF40, 0x00);
    for i in 0..0xA0u16 {
        bus.write_byte(0xC100 + i, 0xA0 - i as u8);
    }
    bus.write_byte(0xFF46, 0xC1);
    for i in 0..0xA0u16 {
        assert_eq!(bus.read_byte(0xFE00 + i), 0xA0 - i as u8);
    }
    // DMA from ROM
    bus.write_byte(0xFF46, 0x01);
    assert_eq!(bus.read_byte(0xFE00), 0xAB);
}

#[test]
fn alu_daa_gives_decimal_sum() {
    // 45 + 38 + 1 = 84; 67 + 58 = 125 -> 25 with carry
    let mut reg = Register::new();
    reg.set_a(0x45);
    add_a(&mut reg, 0x38, 1);
    daa(&mut reg);
    assert_eq!(reg.get_a(), 0x84);
    assert!(!reg.flag_c() && !reg.flag_z() && !reg.flag_h() && !reg.flag_n());
    reg.set_a(0x67);
    add_a(&mut reg, 0x58, 0);
    daa(&mut reg);
    assert_eq!(reg.get_a(), 0x25);
    assert!(reg.flag_c() && !reg.flag_z());
}

#[test]
fn io_interrupt_flag_after_several_requests() {
    let mut io = IoRegisters::new();
    io.write_io(0xFF0F, 0xF2);
    io.request_interrupt(InterruptType::VBlank);
    io.request_interrupt(InterruptType::Joypad);
    io.request_interrupt(InterruptType::VBlank);
    assert_eq!(io.read_io_reg(0xFF0F), 0xE0 | 0x12 | 0x01 | 0x10);
}

#[test]
fn ppu_step_flags_follow_entered_modes() {
    let mut ppu = Ppu::new();
    // HBlank STAT source on: entering HBlank raises STAT, not VBlank.
    ppu.write_reg(0xFF41, 0x08);
    ppu.write_reg(0xFF45, 0x50);
    assert_eq!(ppu.step(80), (false, false));
    assert_eq!(ppu.step(172), (false, true));
    // Staying within HBlank enters nothing.
    assert_eq!(ppu.step(100), (false, false));
    // LY == LYC with bit 6 on raises STAT at the end of a step.
    ppu.write_reg(0xFF41, 0x40);
    ppu.write_reg(0xFF45, 0x00);
    assert_eq!(ppu.step(1), (false, true));
}
