use vstd::prelude::*;
use crate::bytepusher::configs::EmulatorConfig;
use crate::bytepusher::cpu::{CPU, frames_rel};
use crate::bytepusher::keyboard::Keyboard;
use crate::bytepusher::ram::{RAM, color_of};
use crate::errors::EmulatorError;
use crate::timers::MAX_DELTA_MICROS;

verus! {

/// Composition root: owns the CPU, the memory and the keyboard.
pub struct Emulator {
    cpu: CPU,
    ram: RAM,
    keyboard: Keyboard,
}

impl Emulator {
    pub closed spec fn cpu_ref(self) -> CPU {
        self.cpu
    }

    pub closed spec fn ram_ref(self) -> RAM {
        self.ram
    }

    pub closed spec fn keyboard_ref(self) -> Keyboard {
        self.keyboard
    }

    pub open spec fn wf(self) -> bool {
        &&& self.cpu_ref().wf()
        &&& self.ram_ref().wf()
    }

    pub fn new(config: &EmulatorConfig) -> (r: Self)
        requires
            config.valid(),
        ensures
            r.wf(),
            r.cpu_ref().pc_spec() == 0,
            !r.cpu_ref().halted_spec(),
            r.ram_ref()@.len() == config.ram_config.size,
            forall|i: int| 0 <= i < r.ram_ref()@.len() ==> r.ram_ref()@[i] == 0,
            r.keyboard_ref().mask() == 0,
    {
        Emulator {
            cpu: CPU::new(&config.cpu_config),
            ram: RAM::new(&config.ram_config),
            keyboard: Keyboard::new(),
        }
    }

    /// Marks a host key as pressed; `InvalidKey` for an identifier past
    /// the sixteen-key range, with nothing changed.
    pub fn press_key(&mut self, key: u8) -> (r: Result<(), EmulatorError>)
        ensures
            final(self).wf() == old(self).wf(),
            final(self).cpu_ref() == old(self).cpu_ref(),
            final(self).ram_ref() == old(self).ram_ref(),
            key < 16 ==> {
                &&& r == Ok::<(), EmulatorError>(())
                &&& final(self).keyboard_ref().mask() == old(self).keyboard_ref().mask() | (1u16
                    << (key as u16))
            },
            key >= 16 ==> {
                &&& r == Err::<(), EmulatorError>(EmulatorError::InvalidKey)
                &&& *final(self) == *old(self)
            },
    {
        if key >= 16 {
            return Err(EmulatorError::InvalidKey);
        }

        self.keyboard.press(key);
        Ok(())
    }

    /// Marks a host key as released; `InvalidKey` for an identifier past
    /// the sixteen-key range, with nothing changed.
    pub fn release_key(&mut self, key: u8) -> (r: Result<(), EmulatorError>)
        ensures
            final(self).wf() == old(self).wf(),
            final(self).cpu_ref() == old(self).cpu_ref(),
            final(self).ram_ref() == old(self).ram_ref(),
            key < 16 ==> {
                &&& r == Ok::<(), EmulatorError>(())
                &&& final(self).keyboard_ref().mask() == old(self).keyboard_ref().mask() & !(1u16
                    << (key as u16))
            },
            key >= 16 ==> {
                &&& r == Err::<(), EmulatorError>(EmulatorError::InvalidKey)
                &&& *final(self) == *old(self)
            },
    {
        if key >= 16 {
            return Err(EmulatorError::InvalidKey);
        }

        self.keyboard.release(key);
        Ok(())
    }

    pub fn is_running(&self) -> (r: bool)
        ensures
            r == !self.cpu_ref().halted_spec(),
    {
        !self.cpu.halted()
    }

    /// Loads a ROM image at address zero; `RomTooLarge` when it does not
    /// fit, with nothing changed.
    pub fn load(&mut self, data: &[u8]) -> (r: Result<(), EmulatorError>)
        requires
            old(self).wf(),
        ensures
            final(self).wf(),
            final(self).cpu_ref() == old(self).cpu_ref(),
            final(self).keyboard_ref() == old(self).keyboard_ref(),
            final(self).ram_ref()@.len() == old(self).ram_ref()@.len(),
            data@.len() <= old(self).ram_ref()@.len() ==> {
                &&& r == Ok::<(), EmulatorError>(())
                &&& forall|i: int|
                    0 <= i < old(self).ram_ref()@.len() ==> final(self).ram_ref()@[i] == if i
                        < data@.len() {
                        data@[i]
                    } else {
                        old(self).ram_ref()@[i]
                    }
            },
            data@.len() > old(self).ram_ref()@.len() ==> {
                &&& r == Err::<(), EmulatorError>(EmulatorError::RomTooLarge)
                &&& final(self).ram_ref()@ == old(self).ram_ref()@
            },
    {
        self.ram.load_rom_data(data)
    }

    pub fn get_display_width(&self) -> (r: usize)
        ensures
            r == 256,
    {
        256
    }

    pub fn get_display_height(&self) -> (r: usize)
        ensures
            r == 256,
    {
        256
    }

    /// Colour of the display pixel at `(x, y)`: the frame page is found
    /// through the pointer at address five; `OutOfBounds` when the pixel
    /// byte lies outside memory.
    pub fn get_display_pixel(&self, x: usize, y: usize) -> (r: Result<u32, EmulatorError>)
        requires
            self.wf(),
            x < 256,
            y < 256,
        ensures
            ({
                let addr = (self.ram_ref()@[5] as int) * 0x10000 + (y as int) * 0x100 + (x as int);
                r == if addr < self.ram_ref()@.len() {
                    Ok::<u32, EmulatorError>(color_of(self.ram_ref()@[addr] as u32))
                } else {
                    Err::<u32, EmulatorError>(EmulatorError::OutOfBounds)
                }
            }),
    {
        let page = match self.ram.read_byte(5) {
            Ok(v) => v,
            Err(_) => {
                proof {
                    assert(false);
                }
                0
            },
        };
        let address = ((page as u32) << 16u32) | ((y as u32) << 8u32) | (x as u32);
        proof {
            assert(((page as u32) << 16u32) | ((y as u32) << 8u32) | (x as u32) == (page as u32)
                * 0x10000 + (y as u32) * 0x100 + (x as u32)) by (bit_vector)
                requires
                    y < 256,
                    x < 256,
            ;
        }
        let value = match self.ram.read_byte(address) {
            Ok(v) => v,
            Err(e) => {
                return Err(e);
            },
        };
        Ok(self.ram.get_color_value(value))
    }

    /// Advances the machine by `delta` microseconds: a no-op once halted;
    /// otherwise the frame cadence releases whole frames and the CPU runs
    /// them.
    pub fn update(&mut self, delta: u64)
        requires
            old(self).wf(),
            delta <= MAX_DELTA_MICROS,
        ensures
            final(self).wf(),
            final(self).keyboard_ref() == old(self).keyboard_ref(),
            old(self).cpu_ref().halted_spec() ==> *final(self) == *old(self),
            !old(self).cpu_ref().halted_spec() ==> {
                &&& final(self).cpu_ref().cadence().period() == old(
                    self,
                ).cpu_ref().cadence().period()
                &&& final(self).cpu_ref().cadence().acc() == (old(self).cpu_ref().cadence().acc()
                    + delta) % (old(self).cpu_ref().cadence().period() as int)
                &&& frames_rel(
                    old(self).ram_ref()@,
                    old(self).cpu_ref().pc_spec(),
                    false,
                    final(self).ram_ref()@,
                    final(self).cpu_ref().pc_spec(),
                    final(self).cpu_ref().halted_spec(),
                    ((old(self).cpu_ref().cadence().acc() + delta) as int / (old(
                        self,
                    ).cpu_ref().cadence().period() as int)) as nat,
                )
            },
    {
        if self.cpu.halted() {
            return ;
        }
        self.cpu.update(&mut self.ram, &mut self.keyboard, delta);
    }
}

} // verus!
