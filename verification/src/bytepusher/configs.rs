use vstd::prelude::*;
use crate::timers::GenericTimerConfig;

verus! {

/// Construction-time record for the whole machine.
#[derive(Clone, Copy, Debug, PartialEq, Eq, Structural)]
pub struct EmulatorConfig {
    pub ram_config: RAMConfig,
    pub cpu_config: CPUConfig,
}

impl EmulatorConfig {
    pub open spec fn valid(self) -> bool {
        &&& self.ram_config.valid()
        &&& self.cpu_config.valid()
    }

    pub fn default() -> (r: Self)
        ensures
            r == (EmulatorConfig {
                ram_config: RAMConfig { size: 0x1000000 },
                cpu_config: CPUConfig { timer: GenericTimerConfig { rate: 30 } },
            }),
            r.valid(),
    {
        EmulatorConfig { ram_config: RAMConfig::default(), cpu_config: CPUConfig::default() }
    }
}

/// Rate of the frame cadence, in frames per second.
#[derive(Clone, Copy, Debug, PartialEq, Eq, Structural)]
pub struct CPUConfig {
    pub timer: GenericTimerConfig,
}

impl CPUConfig {
    pub open spec fn valid(self) -> bool {
        self.timer.valid()
    }

    pub fn default() -> (r: Self)
        ensures
            r.timer.rate == 30,
            r.valid(),
    {
        CPUConfig { timer: GenericTimerConfig { rate: 30 } }
    }
}

/// Size of the address space; the display page and program live inside it.
#[derive(Clone, Copy, Debug, PartialEq, Eq, Structural)]
pub struct RAMConfig {
    pub size: usize,
}

impl RAMConfig {
    /// Room for the frame pointer and every twenty-four-bit address.
    pub open spec fn valid(self) -> bool {
        8 <= self.size <= 0x1000000
    }

    pub fn default() -> (r: Self)
        ensures
            r.size == 0x1000000,
            r.valid(),
    {
        RAMConfig { size: 0x1000000 }
    }
}

} // verus!
