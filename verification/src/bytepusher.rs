//! The BytePusher variant: a much simpler single-instruction machine
//! reusing the memory and timer abstractions.

pub mod configs;
pub mod cpu;
pub mod keyboard;
pub mod ram;

pub use cpu::CPU;
pub use keyboard::Keyboard;
pub use ram::RAM;

pub mod emulator;

pub use emulator::Emulator;
