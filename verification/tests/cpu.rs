use remu::chip8::configs::{CPUConfig, DisplayConfig, RAMConfig};
use remu::chip8::cpu::{CPU, CpuState};
use remu::chip8::display::Display;
use remu::chip8::insn::{Instr, decode};
use remu::chip8::keyboard::Keyboard;
use remu::chip8::ram::RAM;
use remu::errors::EmulatorError;
use remu::timers::{GenericDownTimer, GenericTimerConfig};

/// One sixtieth of a second in microseconds.
const TICK: u64 = 16_666;

fn sixty_hz_cpu() -> CPU {
    CPU::new(&CPUConfig { timer: GenericTimerConfig { rate: 60 } })
}

struct Rig {
    cpu: CPU,
    ram: RAM,
    display: Display,
    keyboard: Keyboard,
    delta: GenericDownTimer,
    sound: GenericDownTimer,
}

/// A machine clocked at one instruction per sixtieth, with `rom` loaded
/// and the program counter at `start`.
fn rig(rom: &[u8], start: usize) -> Rig {
    let mut r = Rig {
        cpu: sixty_hz_cpu(),
        ram: RAM::new(&RAMConfig { start, size: 0x1000 }),
        display: Display::new(&DisplayConfig::default()),
        keyboard: Keyboard::new(),
        delta: GenericDownTimer::new(&GenericTimerConfig { rate: 60 }),
        sound: GenericDownTimer::new(&GenericTimerConfig { rate: 60 }),
    };
    r.ram.load_rom_data(rom).unwrap();
    r.cpu.set_pc(start as u16);
    r
}

impl Rig {
    /// One instruction-cadence tick.
    fn tick(&mut self) {
        self.cpu.update(
            &mut self.ram,
            &mut self.display,
            &mut self.keyboard,
            &mut self.delta,
            &mut self.sound,
            TICK,
        );
    }

    fn step(&mut self) -> Result<(), EmulatorError> {
        self.cpu.step(
            &mut self.ram,
            &mut self.display,
            &mut self.keyboard,
            &mut self.delta,
            &mut self.sound,
        )
    }
}

#[test]
fn stack_is_strict_lifo() {
    let mut cpu = sixty_hz_cpu();
    for i in 0..16u16 {
        assert_eq!(cpu.push_stack(100 + i), Ok(()));
    }
    assert_eq!(cpu.push_stack(999), Err(EmulatorError::StackOverflow));
    for i in (0..16u16).rev() {
        assert_eq!(cpu.pop_stack(), Ok(100 + i));
    }
    assert_eq!(cpu.pop_stack(), Err(EmulatorError::StackUnderflow));
}

#[test]
fn fetch_returns_big_endian_word_and_advances_pc_by_two() {
    let mut r = rig(&[0x12, 0x34], 0x200);
    assert_eq!(r.cpu.get_pc(), 0x200);
    let w = r.cpu.fetch(&r.ram);
    assert_eq!(w, Ok(0x1234));
    assert_eq!(r.cpu.get_pc(), 0x202);
}

#[test]
fn fetch_out_of_bounds_fails() {
    let mut r = rig(&[], 0x200);
    r.cpu.set_pc(0xFFF);
    assert_eq!(r.cpu.fetch(&r.ram), Err(EmulatorError::OutOfBounds));
    assert_eq!(r.cpu.get_pc(), 0xFFF);
}

#[test]
fn decode_covers_the_opcode_families() {
    assert_eq!(decode(0x00E0), Instr::Cls);
    assert_eq!(decode(0x00EE), Instr::Ret);
    assert_eq!(decode(0x1234), Instr::Jump { nnn: 0x234 });
    assert_eq!(decode(0x2345), Instr::Call { nnn: 0x345 });
    assert_eq!(decode(0x3A7F), Instr::SkipEqImm { x: 0xA, kk: 0x7F });
    assert_eq!(decode(0x4A7F), Instr::SkipNeImm { x: 0xA, kk: 0x7F });
    assert_eq!(decode(0x5AB0), Instr::SkipEqReg { x: 0xA, y: 0xB });
    assert_eq!(decode(0x5AB1), Instr::Unknown);
    assert_eq!(decode(0x6A7F), Instr::LoadImm { x: 0xA, kk: 0x7F });
    assert_eq!(decode(0x7A7F), Instr::AddImm { x: 0xA, kk: 0x7F });
    assert_eq!(decode(0x8AB0), Instr::Move { x: 0xA, y: 0xB });
    assert_eq!(decode(0x8AB1), Instr::Or { x: 0xA, y: 0xB });
    assert_eq!(decode(0x8AB2), Instr::And { x: 0xA, y: 0xB });
    assert_eq!(decode(0x8AB3), Instr::Xor { x: 0xA, y: 0xB });
    assert_eq!(decode(0x8AB4), Instr::Add { x: 0xA, y: 0xB });
    assert_eq!(decode(0x8AB5), Instr::Sub { x: 0xA, y: 0xB });
    assert_eq!(decode(0x8AB6), Instr::ShiftRight { x: 0xA, y: 0xB });
    assert_eq!(decode(0x8AB7), Instr::SubNeg { x: 0xA, y: 0xB });
    assert_eq!(decode(0x8ABE), Instr::ShiftLeft { x: 0xA, y: 0xB });
    assert_eq!(decode(0x8AB8), Instr::Unknown);
    assert_eq!(decode(0x9AB0), Instr::SkipNeReg { x: 0xA, y: 0xB });
    assert_eq!(decode(0xA123), Instr::LoadIndex { nnn: 0x123 });
    assert_eq!(decode(0xB123), Instr::JumpV0 { nnn: 0x123 });
    assert_eq!(decode(0xCA55), Instr::Random { x: 0xA, kk: 0x55 });
    assert_eq!(decode(0xDAB7), Instr::Draw { x: 0xA, y: 0xB, n: 7 });
    assert_eq!(decode(0xEA9E), Instr::SkipKey { x: 0xA });
    assert_eq!(decode(0xEAA1), Instr::SkipNoKey { x: 0xA });
    assert_eq!(decode(0xFA07), Instr::ReadDelta { x: 0xA });
    assert_eq!(decode(0xFA0A), Instr::WaitKey { x: 0xA });
    assert_eq!(decode(0xFA15), Instr::SetDelta { x: 0xA });
    assert_eq!(decode(0xFA18), Instr::SetSound { x: 0xA });
    assert_eq!(decode(0xFA1E), Instr::AddIndex { x: 0xA });
    assert_eq!(decode(0xFA29), Instr::FontIndex { x: 0xA });
    assert_eq!(decode(0xFA33), Instr::Bcd { x: 0xA });
    assert_eq!(decode(0xFA55), Instr::StoreRegs { x: 0xA });
    assert_eq!(decode(0xFA65), Instr::LoadRegs { x: 0xA });
    assert_eq!(decode(0xFA66), Instr::Unknown);
    assert_eq!(decode(0x0123), Instr::Unknown);
}

#[test]
fn bcd_of_255_writes_2_5_5() {
    // V0 = 255; I = 0x300; BCD V0.
    let mut r = rig(&[0x60, 0xFF, 0xA3, 0x00, 0xF0, 0x33], 0x200);
    for _ in 0..3 {
        assert_eq!(r.step(), Ok(()));
    }
    assert_eq!(r.ram.read_byte(0x300), Ok(2));
    assert_eq!(r.ram.read_byte(0x301), Ok(5));
    assert_eq!(r.ram.read_byte(0x302), Ok(5));
}

#[test]
fn arithmetic_flags_and_source_register_shifts() {
    // V0 = 200; V1 = 100; V0 += V1 (carry); V2 = 11; V3 = V2 >> 1;
    // V4 = V2 << 1.
    let rom = [
        0x60, 200, 0x61, 100, 0x80, 0x14, // V0 = V0 + V1, VF = carry
        0x62, 0x0B, 0x83, 0x26, // V3 = V2 >> 1, VF = V2 & 1
    ];
    let mut r = rig(&rom, 0x200);
    for _ in 0..3 {
        r.step().unwrap();
    }
    assert_eq!(r.cpu.get_register(0), 44);
    assert_eq!(r.cpu.get_register(15), 1);
    r.step().unwrap();
    r.step().unwrap();
    assert_eq!(r.cpu.get_register(3), 5);
    assert_eq!(r.cpu.get_register(15), 1);
}

#[test]
fn logic_ops_clear_vf() {
    // V0 = 0x0F; V1 = 0xF0; VF = 3; V0 |= V1.
    let rom = [0x60, 0x0F, 0x61, 0xF0, 0x6F, 0x03, 0x80, 0x11];
    let mut r = rig(&rom, 0x200);
    for _ in 0..4 {
        r.step().unwrap();
    }
    assert_eq!(r.cpu.get_register(0), 0xFF);
    assert_eq!(r.cpu.get_register(15), 0);
}

#[test]
fn store_and_load_increment_index() {
    // V0 = 7; V1 = 9; I = 0x300; store V0..=V1; I = 0x300; load V0..=V1.
    let rom = [
        0x60, 7, 0x61, 9, 0xA3, 0x00, 0xF1, 0x55,
    ];
    let mut r = rig(&rom, 0x200);
    for _ in 0..4 {
        r.step().unwrap();
    }
    assert_eq!(r.ram.read_byte(0x300), Ok(7));
    assert_eq!(r.ram.read_byte(0x301), Ok(9));
    // Auto-increment: the index has moved past the stored block.
    assert_eq!(r.cpu.get_index(), 0x302);
}

#[test]
fn load_regs_reads_through_index() {
    let rom = [0xA2, 0x06, 0xF1, 0x65, 0x00, 0x00, 21, 22];
    let mut r = rig(&rom, 0x200);
    r.step().unwrap();
    r.step().unwrap();
    assert_eq!(r.cpu.get_register(0), 21);
    assert_eq!(r.cpu.get_register(1), 22);
    assert_eq!(r.cpu.get_index(), 0x208);
}

#[test]
fn unknown_opcode_halts_on_fault() {
    let mut r = rig(&[0x01, 0x23], 0x200);
    assert_eq!(r.step(), Err(EmulatorError::UnknownOpcode));
    assert_eq!(r.cpu.get_state(), CpuState::HaltedOnFault);
    // Halted is terminal: another step is a no-op.
    assert_eq!(r.step(), Ok(()));
    assert_eq!(r.cpu.get_state(), CpuState::HaltedOnFault);
}

#[test]
fn self_jump_halts_on_infinite_loop() {
    let mut r = rig(&[0x12, 0x00], 0x200);
    r.tick();
    assert_eq!(r.cpu.get_state(), CpuState::HaltedOnInfiniteLoop);
}

#[test]
fn call_and_ret_roundtrip() {
    // 0x200: call 0x204; 0x204: ret.
    let rom = [0x22, 0x04, 0x00, 0x00, 0x00, 0xEE];
    let mut r = rig(&rom, 0x200);
    r.step().unwrap();
    assert_eq!(r.cpu.get_pc(), 0x204);
    r.step().unwrap();
    assert_eq!(r.cpu.get_pc(), 0x202);
}

#[test]
fn ret_on_empty_stack_underflows() {
    let mut r = rig(&[0x00, 0xEE], 0x200);
    assert_eq!(r.step(), Err(EmulatorError::StackUnderflow));
    assert_eq!(r.cpu.get_state(), CpuState::HaltedOnFault);
}

#[test]
fn skips_and_jumps() {
    // V0 = 5; skip-if-equal 5 (taken); unreachable word; V1 = 1.
    let rom = [0x60, 0x05, 0x30, 0x05, 0x01, 0x23, 0x61, 0x01];
    let mut r = rig(&rom, 0x200);
    for _ in 0..3 {
        r.step().unwrap();
    }
    assert_eq!(r.cpu.get_register(1), 1);
    assert_eq!(r.cpu.get_state(), CpuState::Running);
}

#[test]
fn random_masked_by_zero_is_zero() {
    // V0 = 0xFF, then V0 = random & 0x00.
    let mut r = rig(&[0x60, 0xFF, 0xC0, 0x00], 0x200);
    r.step().unwrap();
    r.step().unwrap();
    assert_eq!(r.cpu.get_register(0), 0);
}

#[test]
fn key_wait_blocks_until_press_then_release() {
    let mut r = rig(&[0xF0, 0x0A], 0x200);
    r.step().unwrap();
    assert_eq!(r.cpu.get_pc(), 0x200);
    r.keyboard.press(5);
    r.step().unwrap();
    // The key is latched but still held: no advance yet.
    assert_eq!(r.cpu.get_pc(), 0x200);
    assert_eq!(r.cpu.get_register(0), 5);
    assert!(r.keyboard.halted());
    r.keyboard.release(5);
    r.step().unwrap();
    assert_eq!(r.cpu.get_pc(), 0x202);
    assert!(!r.keyboard.halted());
}

#[test]
fn delta_and_sound_timer_opcodes() {
    // V0 = 9; DT = V0; ST = V0; V1 = DT.
    let rom = [0x60, 0x09, 0xF0, 0x15, 0xF0, 0x18, 0xF1, 0x07];
    let mut r = rig(&rom, 0x200);
    for _ in 0..4 {
        r.step().unwrap();
    }
    assert_eq!(r.delta.get(), 9);
    assert_eq!(r.sound.get(), 9);
    assert_eq!(r.cpu.get_register(1), 9);
}

#[test]
fn font_index_is_five_bytes_per_glyph() {
    let mut r = rig(&[0x60, 0x0A, 0xF0, 0x29], 0x200);
    r.step().unwrap();
    r.step().unwrap();
    assert_eq!(r.cpu.get_index(), 50);
}

#[test]
fn cls_clears_a_dirty_framebuffer_and_pc_advances_to_two() {
    // ROM loaded at address zero, so the counter starts at zero.
    let mut r = rig(&[0x00, 0xE0], 0);
    r.display.set_pixel(3, 3, true);
    r.cpu.set_pc(0);
    r.tick();
    assert_eq!(r.cpu.get_pc(), 2);
    assert!(!r.display.get_pixel(3, 3));
}

#[test]
fn two_ticks_of_immediate_arithmetic() {
    let mut r = rig(&[0x60, 0x05, 0x70, 0x03], 0x200);
    r.tick();
    r.tick();
    assert_eq!(r.cpu.get_register(0), 8);
}

#[test]
fn draw_twice_restores_framebuffer_and_flags_collision() {
    // I = sprite; draw 5 rows at (V0, V0) = (0, 0); draw again.
    let rom = [
        0xA2, 0x0A, 0xD0, 0x05, 0xD0, 0x05, 0x00, 0x00, 0x00, 0x00, 0xF0, 0x90, 0x90, 0x90, 0xF0,
    ];
    let mut r = rig(&rom, 0x200);
    r.tick();
    r.tick();
    // First draw on a clear region: pixels on, no collision.
    assert!(r.display.get_pixel(0, 0));
    assert!(r.display.get_pixel(3, 0));
    assert!(!r.display.get_pixel(4, 0));
    assert!(r.display.get_pixel(0, 4));
    assert_eq!(r.cpu.get_register(15), 0);
    assert!(r.display.get_flag());
    r.tick();
    // Second identical draw: XOR round-trip, everything off, collision.
    for y in 0..32 {
        for x in 0..64 {
            assert!(!r.display.get_pixel(x, y));
        }
    }
    assert_eq!(r.cpu.get_register(15), 1);
}

#[test]
fn draw_gated_by_vsync_rewinds_until_ready() {
    // Two draws back to back within one cadence burst: the second must
    // wait for the next vsync period.
    let rom = [
        0xA2, 0x0A, 0xD0, 0x05, 0xD0, 0x05, 0x00, 0x00, 0x00, 0x00, 0xF0, 0x90, 0x90, 0x90, 0xF0,
    ];
    let mut r = rig(&rom, 0x200);
    r.tick();
    r.tick();
    // Draw done, vsync budget spent: stepping now rewinds in place.
    r.step().unwrap();
    assert_eq!(r.cpu.get_pc(), 0x204);
    assert!(r.display.get_pixel(0, 0));
}

#[test]
fn draw_at_x_70_equals_draw_at_x_6() {
    // V0 = x; I = sprite; draw 5 rows at (V0, V1).
    let rom_a = [
        0x60, 70, 0xA2, 0x08, 0xD0, 0x15, 0x00, 0x00, 0xF0, 0x90, 0x90, 0x90, 0xF0,
    ];
    let rom_b = [
        0x60, 6, 0xA2, 0x08, 0xD0, 0x15, 0x00, 0x00, 0xF0, 0x90, 0x90, 0x90, 0xF0,
    ];
    let mut a = rig(&rom_a, 0x200);
    let mut b = rig(&rom_b, 0x200);
    for _ in 0..3 {
        a.tick();
        b.tick();
    }
    assert!(a.display.get_pixel(6, 0));
    for y in 0..32 {
        for x in 0..64 {
            assert_eq!(a.display.get_pixel(x, y), b.display.get_pixel(x, y));
        }
    }
    assert_eq!(a.cpu.get_register(15), b.cpu.get_register(15));
}

#[test]
fn skip_key_opcodes_follow_the_keyboard() {
    // V0 = 4; skip-if-pressed V0 (not taken); V1 = 1; skip-if-not-pressed
    // V0 (taken); unreachable; V2 = 2.
    let rom = [
        0x60, 0x04, 0xE0, 0x9E, 0x61, 0x01, 0xE0, 0xA1, 0x01, 0x23, 0x62, 0x02,
    ];
    let mut r = rig(&rom, 0x200);
    for _ in 0..5 {
        r.step().unwrap();
    }
    assert_eq!(r.cpu.get_register(1), 1);
    assert_eq!(r.cpu.get_register(2), 2);
    assert_eq!(r.cpu.get_state(), CpuState::Running);
}

#[test]
fn jump_with_offset_and_add_index() {
    // V0 = 4; I = 0x100; I += V0; jump to 0x208 + V0.
    let rom = [
        0x60, 0x04, 0xA1, 0x00, 0xF0, 0x1E, 0xB2, 0x08, 0x00, 0x00, 0x00, 0x00, 0x61, 0x01,
    ];
    let mut r = rig(&rom, 0x200);
    for _ in 0..4 {
        r.step().unwrap();
    }
    assert_eq!(r.cpu.get_index(), 0x104);
    assert_eq!(r.cpu.get_pc(), 0x20C);
    r.step().unwrap();
    assert_eq!(r.cpu.get_register(1), 1);
}
