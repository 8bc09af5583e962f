use gb_rust::Cartridge;

fn header_rom(len: usize, cart_type: u8, rom_size: u8, ram_size: u8) -> Vec<u8> {
    let mut rom = vec![0u8; len];
    rom[0x147] = cart_type;
    rom[0x148] = rom_size;
    rom[0x149] = ram_size;
    rom
}

#[test]
fn title_from_header() {
    // Prepare a minimal ROM buffer with header fields and a title at 0x134
    let mut rom = header_rom(0x150, 0x00, 0x00, 0x02);
    let title = b"TESTROM";
    rom[0x134..0x134 + title.len()].copy_from_slice(title);

    let cart = Cartridge::new(rom).expect("failed to load cartridge");
    let got = cart.get_title();
    assert!(got.starts_with("TESTROM"), "title did not start with TESTROM: {}", got);
}

#[test]
fn header_length_and_ram_read_write() {
    // Create ROM with header fields indicating 8KB external RAM
    let rom = header_rom(0x150, 0x00, 0x00, 0x02);

    // Header (0x100..0x150) should be present
    let legacy = gb_rust::cartridge::Cartridge::new(rom.clone());
    let header = legacy.get_header();
    assert_eq!(header.len(), 0x150 - 0x100);

    let mut cart = Cartridge::new(rom).expect("failed to load cartridge");

    // External RAM initial contents should be zero
    assert_eq!(cart.read_ext_ram(0xA000), 0x00);

    // Write and read back inside range
    cart.write_ram(0xA000 + 10, 0xAB);
    assert_eq!(cart.read_ext_ram(0xA000 + 10), 0xAB);

    // Out-of-range reads should return 0xFF
    let beyond = 0xA000 + cart.get_ram_size() as u16 + 1;
    assert_eq!(cart.read_ext_ram(beyond), 0xFF);
}

#[test]
fn cartridge_rejects_unknown_rom_size() {
    let rom = header_rom(0x150, 0x00, 0x07, 0x00);
    match Cartridge::new(rom) {
        Err(e) => assert_eq!(e, "Invalid ROM size in cartridge header"),
        Ok(_) => panic!("ROM size code 0x07 was accepted"),
    }
}

#[test]
fn cartridge_rejects_unknown_ram_size() {
    let rom = header_rom(0x150, 0x00, 0x00, 0x06);
    match Cartridge::new(rom) {
        Err(e) => assert_eq!(e, "Invalid RAM size in cartridge header"),
        Ok(_) => panic!("RAM size code 0x06 was accepted"),
    }
}

#[test]
fn cartridge_rejects_unknown_type() {
    let rom = header_rom(0x150, 0x04, 0x00, 0x00);
    match Cartridge::new(rom) {
        Err(e) => assert_eq!(e, "Unsupported cartridge type"),
        Ok(_) => panic!("cartridge type 0x04 was accepted"),
    }
}

#[test]
fn cartridge_checks_rom_size_first() {
    // All three fields are bad: the ROM size is reported.
    let rom = header_rom(0x150, 0x04, 0x07, 0x06);
    match Cartridge::new(rom) {
        Err(e) => assert_eq!(e, "Invalid ROM size in cartridge header"),
        Ok(_) => panic!("bad header was accepted"),
    }
}

#[test]
fn cartridge_ram_sizes_by_code() {
    let cases: [(u8, usize); 6] = [(0x00, 0), (0x01, 0), (0x02, 8192), (0x03, 32768), (0x04, 131072), (0x05, 65536)];
    for (code, size) in cases {
        let cart = Cartridge::new(header_rom(0x150, 0x00, 0x00, code)).expect("valid header");
        assert_eq!(cart.get_ram_size(), size, "RAM size code {:#04X}", code);
    }
}

#[test]
fn cartridge_title_replaces_invalid_utf8() {
    let mut rom = header_rom(0x150, 0x00, 0x00, 0x00);
    rom[0x134] = 0xFF;
    rom[0x135] = b'A';
    let cart = Cartridge::new(rom).expect("valid header");
    let title = cart.get_title();
    assert!(title.starts_with("\u{FFFD}A"), "unexpected title {:?}", title);
    assert_eq!(title.chars().count(), 16);
}

#[test]
fn cartridge_read_rom_beyond_image_is_ff() {
    let mut rom = header_rom(0x150, 0x00, 0x00, 0x00);
    rom[0x100] = 0x42;
    let cart = Cartridge::new(rom).expect("valid header");
    assert_eq!(cart.read_rom(0x100), 0x42);
    assert_eq!(cart.read_rom(0x150), 0xFF);
    assert_eq!(cart.read_rom(0x7FFF), 0xFF);
}

#[test]
fn cartridge_ram_write_beyond_size_is_ignored() {
    let mut cart = Cartridge::new(header_rom(0x150, 0x00, 0x00, 0x00)).expect("valid header");
    cart.write_ram(0xA000, 0x12);
    assert_eq!(cart.read_ext_ram(0xA000), 0xFF);
}

#[test]
fn legacy_cartridge_fields_and_title() {
    let mut rom = header_rom(0x8000, 0x01, 0x01, 0x03);
    rom[0x134..0x138].copy_from_slice(b"GAME");
    let cart = gb_rust::cartridge::Cartridge::new(rom);
    assert_eq!(cart.rom.len(), 0x8000);
    assert_eq!(cart.ram.len(), 32768);
    assert_eq!(cart.rom_banks, 4);
    assert_eq!(cart.ram_banks, 4);
    assert!(cart.get_title().starts_with("GAME"));
    assert_eq!(cart.get_header()[0x34], b'G');
}

#[test]
fn legacy_cartridge_header_of_short_rom() {
    let rom = header_rom(0x14A, 0x00, 0x00, 0x00);
    let cart = gb_rust::cartridge::Cartridge::new(rom);
    assert_eq!(cart.get_header().len(), 0x4A);
    assert_eq!(cart.ram.len(), 0);
    assert_eq!(cart.ram_banks, 0);
}

#[test]
fn cartridge_ram_outside_window_reads_ff() {
    let mut cart = Cartridge::new(header_rom(0x150, 0x00, 0x00, 0x02)).expect("valid header");
    assert_eq!(cart.read_ext_ram(0x9FFF), 0xFF);
    assert_eq!(cart.read_ext_ram(0x0000), 0xFF);
    cart.write_ram(0x9FFF, 0x12);
    cart.write_ram(0x0000, 0x34);
    assert_eq!(cart.read_ext_ram(0xA000), 0x00);
    assert_eq!(cart.read_ext_ram(0x9FFF), 0xFF);
}
