use remu::chip8::configs::RAMConfig;
use remu::chip8::ram::RAM;
use remu::errors::EmulatorError;

#[test]
fn ram_preloads_font_glyphs() {
    let ram = RAM::new(&RAMConfig::default());
    assert_eq!(ram.read_byte(0), Ok(0xF0));
    assert_eq!(ram.read_byte(1), Ok(0x90));
    assert_eq!(ram.read_byte(79), Ok(0x80));
    assert_eq!(ram.read_byte(80), Ok(0));
}

#[test]
fn ram_read_write_roundtrip() {
    let mut ram = RAM::new(&RAMConfig::default());
    assert_eq!(ram.write_byte(0x300, 0xAB), Ok(()));
    assert_eq!(ram.read_byte(0x300), Ok(0xAB));
}

#[test]
fn ram_out_of_bounds_reads_and_writes() {
    let mut ram = RAM::new(&RAMConfig::default());
    assert_eq!(ram.read_byte(0x1000), Err(EmulatorError::OutOfBounds));
    assert_eq!(ram.write_byte(0x1000, 1), Err(EmulatorError::OutOfBounds));
    assert_eq!(ram.read_word(0x0FFF), Err(EmulatorError::OutOfBounds));
    assert_eq!(ram.read_word(0x1000), Err(EmulatorError::OutOfBounds));
}

#[test]
fn ram_read_word_is_big_endian() {
    let mut ram = RAM::new(&RAMConfig::default());
    ram.write_byte(0x300, 0x12).unwrap();
    ram.write_byte(0x301, 0x34).unwrap();
    assert_eq!(ram.read_word(0x300), Ok(0x1234));
}

#[test]
fn ram_load_rom_copies_at_start() {
    let mut ram = RAM::new(&RAMConfig::default());
    assert_eq!(ram.load_rom_data(&[1, 2, 3]), Ok(()));
    assert_eq!(ram.read_byte(0x200), Ok(1));
    assert_eq!(ram.read_byte(0x201), Ok(2));
    assert_eq!(ram.read_byte(0x202), Ok(3));
    assert_eq!(ram.read_byte(0x203), Ok(0));
}

#[test]
fn ram_load_rom_too_large() {
    let mut ram = RAM::new(&RAMConfig { start: 0x200, size: 0x210 });
    let rom = vec![0u8; 0x11];
    assert_eq!(ram.load_rom_data(&rom), Err(EmulatorError::RomTooLarge));
    // Nothing was written.
    assert_eq!(ram.read_byte(0x200), Ok(0));
    let rom = vec![7u8; 0x10];
    assert_eq!(ram.load_rom_data(&rom), Ok(()));
    assert_eq!(ram.read_byte(0x20F), Ok(7));
}
