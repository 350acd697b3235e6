use remu::bytepusher::configs::{CPUConfig, EmulatorConfig, RAMConfig};
use remu::bytepusher::cpu::CPU;
use remu::bytepusher::emulator::Emulator;
use remu::bytepusher::keyboard::Keyboard;
use remu::bytepusher::ram::RAM;
use remu::errors::EmulatorError;
use remu::timers::GenericTimerConfig;

fn small_config() -> EmulatorConfig {
    EmulatorConfig {
        ram_config: RAMConfig { size: 0x100 },
        cpu_config: CPUConfig { timer: GenericTimerConfig { rate: 30 } },
    }
}

#[test]
fn palette_is_a_web_safe_cube() {
    let ram = RAM::new(&RAMConfig { size: 0x100 });
    assert_eq!(ram.get_color_value(0), 0x000000);
    assert_eq!(ram.get_color_value(215), 0xFFFFFF);
    assert_eq!(ram.get_color_value(216), 0);
    assert_eq!(ram.get_color_value(255), 0);
    // 1 maps to the blue step of the cube.
    assert_eq!(ram.get_color_value(1), 0x000033);
    assert_eq!(ram.get_color_value(36), 0x330000);
}

#[test]
fn triple_byte_reads_are_big_endian() {
    let mut ram = RAM::new(&RAMConfig { size: 0x100 });
    ram.write_byte(10, 0x01).unwrap();
    ram.write_byte(11, 0x02).unwrap();
    ram.write_byte(12, 0x03).unwrap();
    assert_eq!(ram.read_triple_byte(10), Ok(0x010203));
    assert_eq!(ram.read_triple_byte(0xFE), Err(EmulatorError::OutOfBounds));
    assert_eq!(ram.read_byte(0x100), Err(EmulatorError::OutOfBounds));
}

#[test]
fn rom_loads_at_address_zero() {
    let mut ram = RAM::new(&RAMConfig { size: 0x100 });
    assert_eq!(ram.load_rom_data(&[9, 8, 7]), Ok(()));
    assert_eq!(ram.read_byte(0), Ok(9));
    assert_eq!(ram.read_byte(2), Ok(7));
    let big = vec![0u8; 0x101];
    assert_eq!(ram.load_rom_data(&big), Err(EmulatorError::RomTooLarge));
}

#[test]
fn zeroed_memory_runs_a_whole_frame_in_place() {
    // All zeroes: every instruction copies byte zero onto itself and
    // jumps back to address zero.
    let mut cpu = CPU::new(&CPUConfig::default());
    let mut ram = RAM::new(&RAMConfig { size: 0x100 });
    assert_eq!(cpu.step(&mut ram), Ok(()));
    assert_eq!(cpu.get_pc(), 0);
    assert!(!cpu.halted());
    assert_eq!(ram.read_byte(0), Ok(0));
}

#[test]
fn one_instruction_copies_a_byte() {
    let mut cpu = CPU::new(&CPUConfig::default());
    let mut ram = RAM::new(&RAMConfig { size: 0x100 });
    // Program entry through the pointer at address two.
    ram.write_byte(4, 8).unwrap();
    // At 8: copy mem[0x20] to mem[0x21], then loop on address 8.
    ram.write_byte(10, 0x20).unwrap();
    ram.write_byte(13, 0x21).unwrap();
    ram.write_byte(16, 8).unwrap();
    ram.write_byte(0x20, 0xAB).unwrap();
    assert_eq!(cpu.step(&mut ram), Ok(()));
    assert_eq!(ram.read_byte(0x21), Ok(0xAB));
    assert_eq!(cpu.get_pc(), 8);
}

#[test]
fn out_of_range_operand_halts_the_machine() {
    let mut cpu = CPU::new(&CPUConfig::default());
    let mut ram = RAM::new(&RAMConfig { size: 0x100 });
    // The jump lands where no whole instruction fits.
    ram.write_byte(8, 0xFF).unwrap();
    assert_eq!(cpu.step(&mut ram), Err(EmulatorError::OutOfBounds));
    assert!(cpu.halted());
}

#[test]
fn bytepusher_emulator_runs_and_reports_pixels() {
    let mut e = Emulator::new(&small_config());
    assert_eq!(e.get_display_width(), 256);
    assert_eq!(e.get_display_height(), 256);
    assert!(e.is_running());
    assert_eq!(e.press_key(16), Err(EmulatorError::InvalidKey));
    assert_eq!(e.press_key(3), Ok(()));
    // The frame page pointer is zero, so pixel (0, 0) is byte zero.
    assert_eq!(e.get_display_pixel(0, 0), Ok(0));
    // A pixel past the tiny memory is out of bounds.
    assert_eq!(e.get_display_pixel(0, 1), Err(EmulatorError::OutOfBounds));
    // A whole frame of self-copies leaves memory untouched.
    e.update(1_000_000 / 30);
    assert!(e.is_running());
}

#[test]
fn bytepusher_rom_too_large_is_rejected() {
    let mut e = Emulator::new(&small_config());
    let big = vec![0u8; 0x101];
    assert_eq!(e.load(&big), Err(EmulatorError::RomTooLarge));
    assert_eq!(e.load(&[1, 2, 3]), Ok(()));
}
