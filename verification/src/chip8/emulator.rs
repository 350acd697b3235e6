use vstd::prelude::*;
use crate::chip8::configs::EmulatorConfig;
use crate::chip8::cpu::{CPU, CpuState, Machine, abs, steps_rel};
use crate::chip8::display::Display;
use crate::chip8::keyboard::Keyboard;
use crate::chip8::ram::{RAM, FONTSET_SIZE, fontset_spec};
use crate::errors::EmulatorError;
use crate::timers::{GenericDownTimer, MAX_DELTA_MICROS, ticked_value};

verus! {

/// Composition root: owns every component and lends exclusive mutable
/// references to the CPU for the duration of one tick.
pub struct Emulator {
    cpu: CPU,
    ram: RAM,
    display: Display,
    keyboard: Keyboard,
    sound: GenericDownTimer,
    delta: GenericDownTimer,
}

impl Emulator {
    pub closed spec fn cpu_ref(self) -> CPU {
        self.cpu
    }

    pub closed spec fn ram_ref(self) -> RAM {
        self.ram
    }

    pub closed spec fn display_ref(self) -> Display {
        self.display
    }

    pub closed spec fn keyboard_ref(self) -> Keyboard {
        self.keyboard
    }

    pub closed spec fn sound_ref(self) -> GenericDownTimer {
        self.sound
    }

    pub closed spec fn delta_ref(self) -> GenericDownTimer {
        self.delta
    }

    /// The whole machine as the step relation sees it.
    pub open spec fn machine(self) -> Machine {
        abs(
            self.cpu_ref(),
            self.ram_ref(),
            self.display_ref(),
            self.keyboard_ref(),
            self.delta_ref(),
            self.sound_ref(),
        )
    }

    pub open spec fn wf(self) -> bool {
        &&& self.cpu_ref().wf()
        &&& self.ram_ref().wf()
        &&& self.display_ref().wf()
        &&& self.sound_ref().wf()
        &&& self.delta_ref().wf()
    }

    pub fn new(config: &EmulatorConfig) -> (r: Self)
        requires
            config.valid(),
        ensures
            r.wf(),
            r.machine().pc == config.ram_config.start as u16,
            r.machine().regs == Seq::new(16, |i: int| 0u8),
            r.machine().index == 0,
            r.machine().stack == Seq::<u16>::empty(),
            r.machine().state == CpuState::Running,
            r.machine().vsync == 0,
            r.machine().mem.len() == config.ram_config.size,
            r.machine().mem.subrange(0, FONTSET_SIZE as int) == fontset_spec(),
            forall|i: int|
                FONTSET_SIZE <= i < r.machine().mem.len() ==> r.machine().mem[i] == 0,
            r.machine().width == config.display_config.width,
            r.machine().height == config.display_config.height,
            r.machine().changed,
            forall|x: int, y: int| !r.display_ref().pix(x, y),
            r.machine().keys == 0,
            !r.machine().key_halt,
            r.machine().dt == 0,
            r.machine().st == 0,
            r.ram_ref().start() == config.ram_config.start,
    {
        let mut result = Emulator {
            cpu: CPU::new(&config.cpu_config),
            ram: RAM::new(&config.ram_config),
            display: Display::new(&config.display_config),
            keyboard: Keyboard::new(),
            sound: GenericDownTimer::new(&config.sound_timer_config),
            delta: GenericDownTimer::new(&config.delta_timer_config),
        };
        result.cpu.set_pc(result.ram.start_addr() as u16);
        result
    }

    /// Sound-timer value exposed to the host for an audio cue.
    pub fn get_sound_timer(&self) -> (r: u8)
        ensures
            r == self.machine().st,
    {
        self.sound.get()
    }

    pub fn get_draw_flag(&self) -> (r: bool)
        ensures
            r == self.machine().changed,
    {
        self.display.get_flag()
    }

    /// Called by the renderer after it has consumed a frame.
    pub fn reset_draw_flag(&mut self)
        ensures
            final(self).wf() == old(self).wf(),
            final(self).machine() == (Machine { changed: false, ..old(self).machine() }),
            final(self).ram_ref().start() == old(self).ram_ref().start(),
            final(self).sound_ref() == old(self).sound_ref(),
            final(self).delta_ref() == old(self).delta_ref(),
            final(self).cpu_ref() == old(self).cpu_ref(),
    {
        self.display.reset_flag();
        proof {
            assert(self.machine() =~= (Machine { changed: false, ..old(self).machine() }));
        }
    }

    /// Marks a host key as pressed; `InvalidKey` for an identifier past
    /// the sixteen-key range, with nothing changed.
    pub fn press_key(&mut self, key: u8) -> (r: Result<(), EmulatorError>)
        ensures
            final(self).wf() == old(self).wf(),
            final(self).ram_ref().start() == old(self).ram_ref().start(),
            final(self).sound_ref() == old(self).sound_ref(),
            final(self).delta_ref() == old(self).delta_ref(),
            key < 16 ==> {
                &&& r == Ok::<(), EmulatorError>(())
                &&& final(self).machine() == (Machine {
                    keys: old(self).machine().keys | (1u16 << (key as u16)),
                    ..old(self).machine()
                })
            },
            key >= 16 ==> {
                &&& r == Err::<(), EmulatorError>(EmulatorError::InvalidKey)
                &&& *final(self) == *old(self)
            },
    {
        if key >= 16 {
            return Err(EmulatorError::InvalidKey);
        }

        self.keyboard.press(key);
        proof {
            assert(self.machine() =~= (Machine {
                keys: old(self).machine().keys | (1u16 << (key as u16)),
                ..old(self).machine()
            }));
        }
        Ok(())
    }

    /// Marks a host key as released; `InvalidKey` for an identifier past
    /// the sixteen-key range, with nothing changed.
    pub fn release_key(&mut self, key: u8) -> (r: Result<(), EmulatorError>)
        ensures
            final(self).wf() == old(self).wf(),
            final(self).ram_ref().start() == old(self).ram_ref().start(),
            final(self).sound_ref() == old(self).sound_ref(),
            final(self).delta_ref() == old(self).delta_ref(),
            key < 16 ==> {
                &&& r == Ok::<(), EmulatorError>(())
                &&& final(self).machine() == (Machine {
                    keys: old(self).machine().keys & !(1u16 << (key as u16)),
                    ..old(self).machine()
                })
            },
            key >= 16 ==> {
                &&& r == Err::<(), EmulatorError>(EmulatorError::InvalidKey)
                &&& *final(self) == *old(self)
            },
    {
        if key >= 16 {
            return Err(EmulatorError::InvalidKey);
        }

        self.keyboard.release(key);
        proof {
            assert(self.machine() =~= (Machine {
                keys: old(self).machine().keys & !(1u16 << (key as u16)),
                ..old(self).machine()
            }));
        }
        Ok(())
    }

    /// False once the machine has halted, deliberately or on a fault.
    pub fn is_running(&self) -> (r: bool)
        ensures
            r == (self.machine().state == CpuState::Running),
    {
        !self.cpu.halted()
    }

    /// Loads a ROM image at the configured offset; `RomTooLarge` when it
    /// does not fit, with nothing changed.
    pub fn load(&mut self, data: &[u8]) -> (r: Result<(), EmulatorError>)
        requires
            old(self).wf(),
        ensures
            final(self).wf(),
            final(self).ram_ref().start() == old(self).ram_ref().start(),
            final(self).sound_ref() == old(self).sound_ref(),
            final(self).delta_ref() == old(self).delta_ref(),
            data@.len() <= old(self).machine().mem.len() - old(self).ram_ref().start() ==> {
                &&& r == Ok::<(), EmulatorError>(())
                &&& final(self).machine().mem.len() == old(self).machine().mem.len()
                &&& forall|i: int|
                    0 <= i < old(self).machine().mem.len() ==> final(self).machine().mem[i]
                        == if old(self).ram_ref().start() <= i < old(self).ram_ref().start()
                        + data@.len() {
                        data@[i - old(self).ram_ref().start()]
                    } else {
                        old(self).machine().mem[i]
                    }
                &&& final(self).machine() == (Machine {
                    mem: final(self).machine().mem,
                    ..old(self).machine()
                })
            },
            data@.len() > old(self).machine().mem.len() - old(self).ram_ref().start() ==> {
                &&& r == Err::<(), EmulatorError>(EmulatorError::RomTooLarge)
                &&& final(self).machine() == old(self).machine()
            },
    {
        let r = self.ram.load_rom_data(data);
        proof {
            if data@.len() <= old(self).machine().mem.len() - old(self).ram_ref().start() {
                assert(self.machine() =~= (Machine {
                    mem: self.machine().mem,
                    ..old(self).machine()
                }));
            } else {
                assert(self.machine() =~= old(self).machine());
            }
        }
        r
    }

    pub fn get_display_width(&self) -> (r: u8)
        ensures
            r == self.machine().width,
    {
        self.display.get_width()
    }

    pub fn get_display_height(&self) -> (r: u8)
        ensures
            r == self.machine().height,
    {
        self.display.get_height()
    }

    pub fn get_display_pixel(&self, x: u8, y: u8) -> (r: bool)
        requires
            self.wf(),
        ensures
            r == self.display_ref().pix(x as int, y as int),
    {
        self.display.get_pixel(x, y)
    }

    /// Advances the whole machine by `delta` microseconds: a no-op once
    /// halted; otherwise the three timers tick and the CPU executes the
    /// batch of instructions the instruction cadence released.
    pub fn update(&mut self, delta: u64)
        requires
            old(self).wf(),
            delta <= MAX_DELTA_MICROS,
        ensures
            final(self).wf(),
            final(self).ram_ref().start() == old(self).ram_ref().start(),
            old(self).machine().state != CpuState::Running ==> *final(self) == *old(self),
            old(self).machine().state == CpuState::Running ==> {
                &&& final(self).sound_ref().acc() == (old(self).sound_ref().acc() + delta) % (
                old(self).sound_ref().period() as int)
                &&& final(self).sound_ref().period() == old(self).sound_ref().period()
                &&& final(self).delta_ref().acc() == (old(self).delta_ref().acc() + delta) % (
                old(self).delta_ref().period() as int)
                &&& final(self).delta_ref().period() == old(self).delta_ref().period()
                &&& final(self).cpu_ref().cadence().period() == old(
                    self,
                ).cpu_ref().cadence().period()
                &&& final(self).cpu_ref().cadence().acc() == (old(self).cpu_ref().cadence().acc()
                    + delta) % (old(self).cpu_ref().cadence().period() as int)
                &&& final(self).cpu_ref().vsync_ref().period() == old(
                    self,
                ).cpu_ref().vsync_ref().period()
                &&& final(self).cpu_ref().vsync_ref().acc() == (old(
                    self,
                ).cpu_ref().vsync_ref().acc() + delta) % (old(
                    self,
                ).cpu_ref().vsync_ref().period() as int)
                &&& steps_rel(
                    Machine {
                        vsync: ticked_value(
                            old(self).machine().vsync,
                            (old(self).cpu_ref().vsync_ref().acc() + delta) as int / (old(
                                self,
                            ).cpu_ref().vsync_ref().period() as int),
                        ),
                        dt: ticked_value(
                            old(self).machine().dt,
                            (old(self).delta_ref().acc() + delta) as int / (old(
                                self,
                            ).delta_ref().period() as int),
                        ),
                        st: ticked_value(
                            old(self).machine().st,
                            (old(self).sound_ref().acc() + delta) as int / (old(
                                self,
                            ).sound_ref().period() as int),
                        ),
                        ..old(self).machine()
                    },
                    final(self).machine(),
                    ((old(self).cpu_ref().cadence().acc() + delta) as int / (old(
                        self,
                    ).cpu_ref().cadence().period() as int)) as nat,
                )
            },
    {
        if self.cpu.halted() {
            return ;
        }

        self.sound.update(delta);
        self.delta.update(delta);

        let ghost mid = abs(
            self.cpu,
            self.ram,
            self.display,
            self.keyboard,
            self.delta,
            self.sound,
        );
        self.cpu.update(
            &mut self.ram,
            &mut self.display,
            &mut self.keyboard,
            &mut self.delta,
            &mut self.sound,
            delta,
        );
        proof {
            assert((Machine {
                vsync: ticked_value(
                    old(self).machine().vsync,
                    (old(self).cpu_ref().vsync_ref().acc() + delta) as int / (old(
                        self,
                    ).cpu_ref().vsync_ref().period() as int),
                ),
                ..mid
            }) =~= (Machine {
                vsync: ticked_value(
                    old(self).machine().vsync,
                    (old(self).cpu_ref().vsync_ref().acc() + delta) as int / (old(
                        self,
                    ).cpu_ref().vsync_ref().period() as int),
                ),
                dt: ticked_value(
                    old(self).machine().dt,
                    (old(self).delta_ref().acc() + delta) as int / (old(
                        self,
                    ).delta_ref().period() as int),
                ),
                st: ticked_value(
                    old(self).machine().st,
                    (old(self).sound_ref().acc() + delta) as int / (old(
                        self,
                    ).sound_ref().period() as int),
                ),
                ..old(self).machine()
            }));
        }
    }
}

} // verus!
