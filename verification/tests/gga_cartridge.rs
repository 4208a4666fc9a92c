use gamegirl::gga::cartridge::{Cartridge, FlashCmdStage, FlashState, SaveType, KB};

fn rom_with(marker: &[u8]) -> Vec<u8> {
    let mut rom = vec![0u8; 0x200];
    rom[0x100..0x100 + marker.len()].copy_from_slice(marker);
    rom
}

#[test]
fn detects_save_types() {
    let cases: [(&[u8], usize); 5] = [
        (b"FLASH1M_V103", 128 * KB),
        (b"FLASH_V121", 64 * KB),
        (b"FLASH512_V130", 64 * KB),
        (b"SRAM_V113", 32 * KB),
        (b"EEPROM_V124", 8 * KB),
    ];
    for (marker, size) in cases {
        let mut c = Cartridge::new();
        c.load_rom(rom_with(marker));
        assert_eq!(size, c.ram.len());
    }
    let mut c = Cartridge::new();
    c.load_rom(rom_with(b"FLASH1M_V103"));
    assert!(matches!(c.save_type, SaveType::Flash128 { bank: 0, .. }));
    let mut c = Cartridge::new();
    c.load_rom(rom_with(b"SRAM_V"));
    assert_eq!(SaveType::Sram, c.save_type);
}

#[test]
fn rom_without_marker_has_no_save() {
    let mut c = Cartridge::new();
    c.load_rom(rom_with(b"FLASH_"));
    assert_eq!(SaveType::Nothing, c.save_type);
    assert_eq!(0, c.ram.len());
    assert_eq!(0, c.read_ram(5));
}

#[test]
fn loaded_save_is_kept_and_padded() {
    let mut c = Cartridge::new();
    c.load_save(vec![1, 2, 3]);
    c.load_rom(rom_with(b"SRAM_V"));
    assert_eq!(32 * KB, c.ram.len());
    assert_eq!(2, c.read_ram(1));
    assert_eq!(0, c.read_ram(3));
}

#[test]
fn header_strings() {
    let mut rom = vec![0u8; 0x200];
    rom[0xA0..0xAC].copy_from_slice(b"POKEMON EMER");
    rom[0xAC..0xB0].copy_from_slice(b"BPEE");
    let mut c = Cartridge::new();
    c.load_rom(rom);
    assert_eq!("POKEMON EMER", c.title());
    assert_eq!("BPEE", c.game_code());
}

#[test]
fn header_string_stops_at_nul_and_keeps_latin1() {
    let mut rom = vec![0u8; 0x200];
    rom[0xA0..0xA4].copy_from_slice(&[b'A', 0xE9, b'B', 0]);
    rom[0xA4] = b'Z';
    let mut c = Cartridge::new();
    c.load_rom(rom);
    assert_eq!("A\u{e9}B", c.title());
    assert_eq!("", c.game_code());
}

fn flash_cart(marker: &[u8]) -> Cartridge {
    let mut c = Cartridge::new();
    c.load_rom(rom_with(marker));
    c
}

fn command(c: &mut Cartridge, cmd: u8) {
    c.write_ram(0x5555, 0xAA);
    c.write_ram(0x2AAA, 0x55);
    c.write_ram(0x5555, cmd);
}

#[test]
fn flash_id_mode() {
    let mut c = flash_cart(b"FLASH_V");
    command(&mut c, 0x90);
    assert_eq!(0xC2, c.read_ram(0));
    assert_eq!(0x1C, c.read_ram(1));
    command(&mut c, 0xF0);
    assert_eq!(0, c.read_ram(0));

    let mut c = flash_cart(b"FLASH1M_V");
    command(&mut c, 0x90);
    assert_eq!(0xC2, c.read_ram(0));
    assert_eq!(0x09, c.read_ram(1));
}

#[test]
fn flash_write_mode_writes_one_byte() {
    let mut c = flash_cart(b"FLASH_V");
    c.write_ram(0x10, 0x33);
    assert_eq!(0, c.read_ram(0x10));
    command(&mut c, 0xA0);
    c.write_ram(0x10, 0x33);
    assert_eq!(0x33, c.read_ram(0x10));
    c.write_ram(0x11, 0x44);
    assert_eq!(0, c.read_ram(0x11));
}

#[test]
fn flash_bank_switch() {
    let mut c = flash_cart(b"FLASH1M_V");
    command(&mut c, 0xB0);
    c.write_ram(0, 1);
    assert!(matches!(c.save_type, SaveType::Flash128 { bank: 1, .. }));
    command(&mut c, 0xA0);
    c.write_ram(0x20, 0x77);
    assert_eq!(0x77, c.ram[0x8020]);
    assert_eq!(0x77, c.read_ram(0x20));
    assert_eq!(0, c.ram[0x20]);
}

#[test]
fn flash_bank_select_ignored_without_banks() {
    let mut c = flash_cart(b"FLASH512_V");
    command(&mut c, 0xB0);
    if let SaveType::Flash64(state) = c.save_type {
        assert!(!state.bank_select);
        assert_eq!(None, state.command_stage);
    } else {
        panic!("expected 64K flash");
    }
}

#[test]
fn flash_command_stages() {
    let mut s = FlashState::new();
    let mut ram = vec![0u8; 64 * KB];
    let mut bank = 0u8;
    s.write(0x5555, 0xAA, &mut ram, false, &mut bank);
    assert_eq!(Some(FlashCmdStage::FirstWritten), s.command_stage);
    s.write(0x2AAA, 0x55, &mut ram, false, &mut bank);
    assert_eq!(Some(FlashCmdStage::SecondWritten), s.command_stage);
    s.write(0x5555, 0x12, &mut ram, false, &mut bank);
    assert_eq!(None, s.command_stage);
    assert!(!s.id_mode && !s.write_mode);
}

#[test]
fn header_string_in_a_short_rom() {
    // The ROM ends inside the title field, after its NUL.
    let mut rom = vec![0u8; 0xA3];
    rom[0xA0] = b'H';
    rom[0xA1] = b'I';
    let mut c = Cartridge::new();
    c.load_rom(rom);
    assert_eq!("HI", c.title());
}
