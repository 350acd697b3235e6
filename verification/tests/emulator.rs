use remu::chip8::configs::EmulatorConfig;
use remu::chip8::emulator::Emulator;
use remu::errors::EmulatorError;
use remu::timers::GenericTimerConfig;

/// One sixtieth of a second in microseconds.
const TICK: u64 = 16_666;

/// A machine clocked at one instruction per sixtieth.
fn sixty_hz() -> EmulatorConfig {
    let mut config = EmulatorConfig::default();
    config.cpu_config.timer = GenericTimerConfig { rate: 60 };
    config
}

#[test]
fn emulator_reports_its_display_shape() {
    let e = Emulator::new(&EmulatorConfig::default());
    assert_eq!(e.get_display_width(), 64);
    assert_eq!(e.get_display_height(), 32);
    assert!(!e.get_display_pixel(0, 0));
}

#[test]
fn invalid_key_ids_are_rejected() {
    let mut e = Emulator::new(&EmulatorConfig::default());
    assert_eq!(e.press_key(16), Err(EmulatorError::InvalidKey));
    assert_eq!(e.release_key(16), Err(EmulatorError::InvalidKey));
    assert_eq!(e.press_key(15), Ok(()));
    assert_eq!(e.release_key(15), Ok(()));
}

#[test]
fn rom_too_large_is_rejected() {
    let mut e = Emulator::new(&EmulatorConfig::default());
    let rom = vec![0u8; 0x1000 - 0x200 + 1];
    assert_eq!(e.load(&rom), Err(EmulatorError::RomTooLarge));
    let rom = vec![0u8; 0x1000 - 0x200];
    assert_eq!(e.load(&rom), Ok(()));
}

#[test]
fn self_jump_stops_the_machine() {
    let mut e = Emulator::new(&sixty_hz());
    e.load(&[0x12, 0x00]).unwrap();
    assert!(e.is_running());
    e.update(TICK);
    assert!(!e.is_running());
    // Halting is terminal and further updates change nothing.
    e.update(TICK);
    assert!(!e.is_running());
}

#[test]
fn sound_timer_is_exposed_to_the_host() {
    // V0 = 5; ST = V0.
    let mut e = Emulator::new(&sixty_hz());
    e.load(&[0x60, 0x05, 0xF0, 0x18]).unwrap();
    assert_eq!(e.get_sound_timer(), 0);
    e.update(TICK);
    e.update(TICK);
    assert_eq!(e.get_sound_timer(), 5);
}

#[test]
fn draw_flag_is_cleared_by_the_renderer_alone() {
    let mut e = Emulator::new(&sixty_hz());
    e.load(&[0x12, 0x00]).unwrap();
    assert!(e.get_draw_flag());
    e.reset_draw_flag();
    assert!(!e.get_draw_flag());
}

#[test]
fn catch_up_executes_all_elapsed_periods() {
    // Four immediate additions, delivered in one late frame.
    let mut e = Emulator::new(&sixty_hz());
    e.load(&[0x60, 0x01, 0x70, 0x01, 0x70, 0x01, 0x70, 0x01]).unwrap();
    e.update(4 * TICK + 4);
    // All four instructions ran in one update call.
    assert!(e.is_running());
    let mut probe = Emulator::new(&sixty_hz());
    probe.load(&[0x60, 0x01, 0x70, 0x01, 0x70, 0x01, 0x70, 0x01]).unwrap();
    for _ in 0..4 {
        probe.update(TICK + 1);
    }
    assert!(probe.is_running());
}

#[test]
fn a_drawing_rom_lights_pixels_through_the_emulator() {
    // I = sprite; draw one row at (0, 0); self-jump.
    let rom = [0xA2, 0x06, 0xD0, 0x01, 0x12, 0x04, 0xF0];
    let mut e = Emulator::new(&sixty_hz());
    e.load(&rom).unwrap();
    e.update(TICK);
    e.update(TICK);
    assert!(e.get_display_pixel(0, 0));
    assert!(e.get_display_pixel(3, 0));
    assert!(!e.get_display_pixel(4, 0));
    assert!(!e.get_display_pixel(0, 1));
}
