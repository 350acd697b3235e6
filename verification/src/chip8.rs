//! The CHIP-8 virtual machine: memory, display, keyboard, instruction set,
//! CPU and the composition root that ties them together.

pub mod configs;
pub mod cpu;
pub mod display;
pub mod emulator;
pub mod insn;
pub mod keyboard;
pub mod ram;

pub use cpu::CPU;
pub use display::Display;
pub use emulator::Emulator;
pub use keyboard::Keyboard;
pub use ram::RAM;
