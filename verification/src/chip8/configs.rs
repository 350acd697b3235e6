use vstd::prelude::*;
use crate::timers::GenericTimerConfig;

verus! {

/// Construction-time record for the whole machine; the core performs no
/// file or JSON parsing itself.
#[derive(Clone, Copy, Debug, PartialEq, Eq, Structural)]
pub struct EmulatorConfig {
    pub ram_config: RAMConfig,
    pub cpu_config: CPUConfig,
    pub display_config: DisplayConfig,
    pub sound_timer_config: GenericTimerConfig,
    pub delta_timer_config: GenericTimerConfig,
}

impl EmulatorConfig {
    pub open spec fn valid(self) -> bool {
        &&& self.ram_config.valid()
        &&& self.cpu_config.valid()
        &&& self.display_config.valid()
        &&& self.sound_timer_config.valid()
        &&& self.delta_timer_config.valid()
    }

    pub fn default() -> (r: Self)
        ensures
            r == (EmulatorConfig {
                ram_config: RAMConfig { start: 0x200, size: 0x1000 },
                cpu_config: CPUConfig { timer: GenericTimerConfig { rate: 1000 } },
                display_config: DisplayConfig { width: 64, height: 32 },
                sound_timer_config: GenericTimerConfig { rate: 60 },
                delta_timer_config: GenericTimerConfig { rate: 60 },
            }),
            r.valid(),
    {
        EmulatorConfig {
            ram_config: RAMConfig::default(),
            cpu_config: CPUConfig::default(),
            display_config: DisplayConfig::default(),
            sound_timer_config: GenericTimerConfig { rate: 60 },
            delta_timer_config: GenericTimerConfig { rate: 60 },
        }
    }
}

/// Rate of the instruction cadence, in instructions per second.
#[derive(Clone, Copy, Debug, PartialEq, Eq, Structural)]
pub struct CPUConfig {
    pub timer: GenericTimerConfig,
}

impl CPUConfig {
    pub open spec fn valid(self) -> bool {
        self.timer.valid()
    }

    pub fn default() -> (r: Self)
        ensures
            r.timer.rate == 1000,
            r.valid(),
    {
        CPUConfig { timer: GenericTimerConfig { rate: 1000 } }
    }
}

/// Size of the address space and the offset at which ROM images are loaded.
#[derive(Clone, Copy, Debug, PartialEq, Eq, Structural)]
pub struct RAMConfig {
    pub start: usize,
    pub size: usize,
}

impl RAMConfig {
    /// Room for the font glyphs, a load offset inside the space, and every
    /// address representable in a sixteen-bit program counter.
    pub open spec fn valid(self) -> bool {
        &&& crate::chip8::ram::FONTSET_SIZE <= self.size <= 0xFFFF
        &&& self.start <= self.size
    }

    pub fn default() -> (r: Self)
        ensures
            r.start == 0x200,
            r.size == 0x1000,
            r.valid(),
    {
        RAMConfig { start: 0x200, size: 0x1000 }
    }
}

/// Dimensions of the monochrome bit-grid.
#[derive(Clone, Copy, Debug, PartialEq, Eq, Structural)]
pub struct DisplayConfig {
    pub width: u8,
    pub height: u8,
}

impl DisplayConfig {
    /// Whole bytes per row keep the bit addressing scheme one-to-one.
    pub open spec fn valid(self) -> bool {
        &&& self.width > 0
        &&& self.height > 0
        &&& self.width % 8 == 0
    }

    pub fn default() -> (r: Self)
        ensures
            r.width == 64,
            r.height == 32,
            r.valid(),
    {
        DisplayConfig { width: 64, height: 32 }
    }
}

} // verus!
