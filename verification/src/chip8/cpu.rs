use vstd::prelude::*;
use crate::chip8::configs::CPUConfig;
use crate::chip8::display::{Display, pix_at};
use crate::chip8::insn::{
    Instr, decode, decode_spec, lemma_op_bounds, op_kk, op_n, op_nnn, op_x, op_y,
};
use crate::chip8::keyboard::{Keyboard, key_down};
use crate::chip8::ram::{RAM, word_at};
use crate::errors::EmulatorError;
use crate::timers::{
    GenericDownTimer, GenericTimer, GenericTimerConfig, MAX_DELTA_MICROS, MICROS_PER_SECOND,
    ticked_value,
};

verus! {

/// Execution state of the machine; both halted states are terminal.
#[derive(Clone, Copy, Debug, PartialEq, Eq, Structural)]
pub enum CpuState {
    Running,
    /// A jump to its own address: a deliberate safety valve, not an error.
    HaltedOnInfiniteLoop,
    /// An unrecoverable program error such as an unknown opcode.
    HaltedOnFault,
}

/// Everything one instruction can observe or change, gathered from the
/// views of the CPU and of the components it borrows for a tick.
#[verifier::ext_equal]
pub ghost struct Machine {
    pub pc: u16,
    pub regs: Seq<u8>,
    pub index: u16,
    pub stack: Seq<u16>,
    pub state: CpuState,
    /// Value of the vsync countdown gating the draw opcode.
    pub vsync: u8,
    pub mem: Seq<u8>,
    pub grid: Seq<u8>,
    pub width: u8,
    pub height: u8,
    pub changed: bool,
    pub keys: u16,
    pub key_halt: bool,
    pub dt: u8,
    pub st: u8,
}

/// Registers, stack, program counter and index register; owns the
/// decode-dispatch step and the two timing cadences.
pub struct CPU {
    pc: u16,
    reg: Vec<u8>,
    index: u16,
    stack_ptr: usize,
    stack: Vec<u16>,
    state: CpuState,
    vsync: GenericDownTimer,
    timer: GenericTimer,
}

impl CPU {
    pub closed spec fn pc_spec(self) -> u16 {
        self.pc
    }

    pub closed spec fn regs_spec(self) -> Seq<u8> {
        self.reg@
    }

    pub closed spec fn index_spec(self) -> u16 {
        self.index
    }

    /// The live part of the stack, oldest entry first.
    pub closed spec fn stack_spec(self) -> Seq<u16> {
        self.stack@.take(self.stack_ptr as int)
    }

    pub closed spec fn state_spec(self) -> CpuState {
        self.state
    }

    /// The vsync countdown gating the draw opcode.
    pub closed spec fn vsync_ref(self) -> GenericDownTimer {
        self.vsync
    }

    /// The instruction cadence.
    pub closed spec fn cadence(self) -> GenericTimer {
        self.timer
    }

    /// The fixed backing array of the stack and the cursor into it.
    pub closed spec fn backing_wf(self) -> bool {
        &&& self.stack@.len() == 16
        &&& self.stack_ptr <= 16
    }

    pub open spec fn wf(self) -> bool {
        &&& self.regs_spec().len() == 16
        &&& self.backing_wf()
        &&& self.stack_spec().len() <= 16
        &&& self.vsync_ref().wf()
        &&& self.cadence().wf()
        &&& self.cadence().acc() < self.cadence().period()
    }

    pub fn new(config: &CPUConfig) -> (r: Self)
        requires
            config.valid(),
        ensures
            r.wf(),
            r.pc_spec() == 0,
            r.index_spec() == 0,
            r.regs_spec() == Seq::new(16, |i: int| 0u8),
            r.stack_spec() == Seq::<u16>::empty(),
            r.state_spec() == CpuState::Running,
            r.vsync_ref().value() == 0,
            r.vsync_ref().acc() == 0,
            r.vsync_ref().period() == MICROS_PER_SECOND / 60,
            r.cadence().acc() == 0,
            r.cadence().period() == MICROS_PER_SECOND / config.timer.rate as u64,
    {
        let mut reg: Vec<u8> = Vec::new();
        while reg.len() < 16
            invariant
                reg@.len() <= 16,
                forall|i: int| 0 <= i < reg@.len() ==> reg@[i] == 0,
            decreases 16 - reg@.len(),
        {
            reg.push(0);
        }
        let mut stack: Vec<u16> = Vec::new();
        while stack.len() < 16
            invariant
                stack@.len() <= 16,
            decreases 16 - stack@.len(),
        {
            stack.push(0);
        }
        let r = CPU {
            pc: 0,
            reg,
            index: 0,
            stack_ptr: 0,
            stack,
            state: CpuState::Running,
            vsync: GenericDownTimer::new(&GenericTimerConfig { rate: 60 }),
            timer: GenericTimer::new(&config.timer),
        };
        proof {
            assert(r.regs_spec() =~= Seq::new(16, |i: int| 0u8));
            assert(r.stack_spec() =~= Seq::<u16>::empty());
        }
        r
    }

    pub fn set_pc(&mut self, pc: u16)
        ensures
            final(self).pc_spec() == pc,
            final(self).regs_spec() == old(self).regs_spec(),
            final(self).index_spec() == old(self).index_spec(),
            final(self).stack_spec() == old(self).stack_spec(),
            final(self).state_spec() == old(self).state_spec(),
            final(self).vsync_ref() == old(self).vsync_ref(),
            final(self).cadence() == old(self).cadence(),
            final(self).wf() == old(self).wf(),
    {
        self.pc = pc;
    }

    pub fn halted(&self) -> (r: bool)
        ensures
            r == (self.state_spec() != CpuState::Running),
    {
        match self.state {
            CpuState::Running => false,
            _ => true,
        }
    }

    pub fn get_state(&self) -> (r: CpuState)
        ensures
            r == self.state_spec(),
    {
        self.state
    }

    pub fn get_pc(&self) -> (r: u16)
        ensures
            r == self.pc_spec(),
    {
        self.pc
    }

    pub fn get_index(&self) -> (r: u16)
        ensures
            r == self.index_spec(),
    {
        self.index
    }

    pub fn get_register(&self, i: u8) -> (r: u8)
        requires
            self.wf(),
            i < 16,
        ensures
            r == self.regs_spec()[i as int],
    {
        self.reg[i as usize]
    }

    /// Pushes a return address; `StackOverflow` at depth sixteen, with
    /// nothing changed.
    pub fn push_stack(&mut self, value: u16) -> (r: Result<(), EmulatorError>)
        requires
            old(self).wf(),
        ensures
            final(self).wf(),
            final(self).pc_spec() == old(self).pc_spec(),
            final(self).regs_spec() == old(self).regs_spec(),
            final(self).index_spec() == old(self).index_spec(),
            final(self).state_spec() == old(self).state_spec(),
            final(self).vsync_ref() == old(self).vsync_ref(),
            final(self).cadence() == old(self).cadence(),
            old(self).stack_spec().len() < 16 ==> {
                &&& r == Ok::<(), EmulatorError>(())
                &&& final(self).stack_spec() == old(self).stack_spec().push(value)
            },
            old(self).stack_spec().len() >= 16 ==> {
                &&& r == Err::<(), EmulatorError>(EmulatorError::StackOverflow)
                &&& final(self).stack_spec() == old(self).stack_spec()
            },
    {
        if self.stack_ptr >= 16 {
            return Err(EmulatorError::StackOverflow);
        }

        self.stack[self.stack_ptr] = value;
        self.stack_ptr = self.stack_ptr + 1;
        proof {
            assert(self.stack_spec() =~= old(self).stack_spec().push(value));
        }
        Ok(())
    }

    /// Pops the most recent return address; `StackUnderflow` when empty,
    /// with nothing changed.
    pub fn pop_stack(&mut self) -> (r: Result<u16, EmulatorError>)
        requires
            old(self).wf(),
        ensures
            final(self).wf(),
            final(self).pc_spec() == old(self).pc_spec(),
            final(self).regs_spec() == old(self).regs_spec(),
            final(self).index_spec() == old(self).index_spec(),
            final(self).state_spec() == old(self).state_spec(),
            final(self).vsync_ref() == old(self).vsync_ref(),
            final(self).cadence() == old(self).cadence(),
            old(self).stack_spec().len() > 0 ==> {
                &&& r == Ok::<u16, EmulatorError>(old(self).stack_spec().last())
                &&& final(self).stack_spec() == old(self).stack_spec().drop_last()
            },
            old(self).stack_spec().len() == 0 ==> {
                &&& r == Err::<u16, EmulatorError>(EmulatorError::StackUnderflow)
                &&& final(self).stack_spec() == old(self).stack_spec()
            },
    {
        if self.stack_ptr == 0 {
            return Err(EmulatorError::StackUnderflow);
        }

        self.stack_ptr = self.stack_ptr - 1;
        proof {
            assert(self.stack_spec() =~= old(self).stack_spec().drop_last());
        }
        Ok(self.stack[self.stack_ptr])
    }

    /// Fetches the big-endian word at the program counter and advances it
    /// by exactly two before any opcode side effect; `OutOfBounds` with
    /// nothing changed when even the second byte lies past the end.
    pub fn fetch(&mut self, ram: &RAM) -> (r: Result<u16, EmulatorError>)
        requires
            old(self).wf(),
            ram.wf(),
        ensures
            final(self).wf(),
            final(self).regs_spec() == old(self).regs_spec(),
            final(self).index_spec() == old(self).index_spec(),
            final(self).stack_spec() == old(self).stack_spec(),
            final(self).state_spec() == old(self).state_spec(),
            final(self).vsync_ref() == old(self).vsync_ref(),
            final(self).cadence() == old(self).cadence(),
            old(self).pc_spec() as int + 1 < ram@.len() ==> {
                &&& r == Ok::<u16, EmulatorError>(word_at(ram@, old(self).pc_spec() as int))
                &&& final(self).pc_spec() == old(self).pc_spec() + 2
            },
            old(self).pc_spec() as int + 1 >= ram@.len() ==> {
                &&& r == Err::<u16, EmulatorError>(EmulatorError::OutOfBounds)
                &&& final(self).pc_spec() == old(self).pc_spec()
            },
    {
        let word = match ram.read_word(self.pc) {
            Ok(w) => w,
            Err(e) => {
                return Err(e);
            },
        };
        self.pc = self.pc + 2;
        Ok(word)
    }
}


/// The machine as one instruction sees it.
pub open spec fn abs(
    cpu: CPU,
    ram: RAM,
    display: Display,
    keyboard: Keyboard,
    dt: GenericDownTimer,
    st: GenericDownTimer,
) -> Machine {
    Machine {
        pc: cpu.pc_spec(),
        regs: cpu.regs_spec(),
        index: cpu.index_spec(),
        stack: cpu.stack_spec(),
        state: cpu.state_spec(),
        vsync: cpu.vsync_ref().value(),
        mem: ram@,
        grid: display@,
        width: display.width_spec(),
        height: display.height_spec(),
        changed: display.changed(),
        keys: keyboard.mask(),
        key_halt: keyboard.halting(),
        dt: dt.value(),
        st: st.value(),
    }
}

/// A fatal program error: the machine halts, everything else stays.
pub open spec fn fault(m: Machine) -> Machine {
    Machine { state: CpuState::HaltedOnFault, ..m }
}

/// Sixteen-bit wrap-around for sums below twice the range.
pub open spec fn wrap16(v: int) -> u16 {
    if v > 0xFFFF {
        (v - 0x10000) as u16
    } else {
        v as u16
    }
}

/// Eight-bit wrap-around for values within one range of the bounds.
pub open spec fn wrap8(v: int) -> u8 {
    if v > 0xFF {
        (v - 0x100) as u8
    } else if v < 0 {
        (v + 0x100) as u8
    } else {
        v as u8
    }
}

/// The machine after a conditional skip of one instruction.
pub open spec fn skipped(m: Machine, cond: bool) -> Machine {
    if cond {
        Machine { pc: wrap16(m.pc + 2), ..m }
    } else {
        m
    }
}

/// The smallest pressed key at or above `i`, scanning upward.
pub open spec fn scan_keys(keys: u16, i: int) -> Option<u8>
    decreases 16 - i,
{
    if i < 0 || i >= 16 {
        None
    } else if key_down(keys, i as u16) {
        Some(i as u8)
    } else {
        scan_keys(keys, i + 1)
    }
}

/// The smallest pressed key, if any.
pub open spec fn first_pressed(keys: u16) -> Option<u8> {
    scan_keys(keys, 0)
}

/// Whether `(X, Y)` lies under a sprite of `n` rows drawn at `(px, py)`.
pub open spec fn covered(px: int, py: int, n: int, x: int, y: int) -> bool {
    px <= x < px + 8 && py <= y < py + n
}

/// The sprite bit that lands on `(X, Y)` for a sprite read at `index`.
pub open spec fn sprite_on(mem: Seq<u8>, index: int, px: int, py: int, x: int, y: int) -> bool {
    ((mem[index + (y - py)] >> ((7 - (x - px)) as u8)) & 1) == 1
}

/// Whether the draw toggles some previously-set in-range pixel off.
pub open spec fn draw_collision(m: Machine, px: int, py: int, n: int) -> bool {
    exists|x: int, y: int|
        pix_at(m.grid, m.width as int, m.height as int, x, y) && covered(px, py, n, x, y)
            && sprite_on(m.mem, m.index as int, px, py, x, y)
}

/// Effect of the sprite draw once the vsync gate is open: XOR-blit with
/// clipping at the display edges, collision into VF, the dirty flag set
/// and the vsync budget consumed.
pub open spec fn draw_rel(m: Machine, x: int, y: int, n: int, post: Machine) -> bool {
    let w = m.width as int;
    let h = m.height as int;
    let px = (m.regs[x] as int) % w;
    let py = (m.regs[y] as int) % h;
    let col = draw_collision(m, px, py, n);
    &&& post.pc == m.pc
    &&& post.regs == m.regs.update(15, if col { 1u8 } else { 0u8 })
    &&& post.index == m.index
    &&& post.stack == m.stack
    &&& post.state == m.state
    &&& post.vsync == 1
    &&& post.mem == m.mem
    &&& post.grid.len() == m.grid.len()
    &&& post.width == m.width
    &&& post.height == m.height
    &&& post.changed
    &&& post.keys == m.keys
    &&& post.key_halt == m.key_halt
    &&& post.dt == m.dt
    &&& post.st == m.st
    &&& forall|a: int, b: int|
        0 <= a < w && 0 <= b < h ==> pix_at(post.grid, w, h, a, b) == (pix_at(m.grid, w, h, a, b)
            != (covered(px, py, n, a, b) && sprite_on(m.mem, m.index as int, px, py, a, b)))
}

/// Effect of the blocking key-wait: rewind, scan for a pressed key and
/// latch it; advance only once the latch is set and the latched key has
/// been released.
pub open spec fn wait_key_rel(
    m: Machine,
    at: u16,
    x: int,
    post: Machine,
    r: Result<(), EmulatorError>,
) -> bool {
    match first_pressed(m.keys) {
        Some(k) => {
            &&& post == (Machine {
                pc: at,
                regs: m.regs.update(x, k),
                key_halt: true,
                ..m
            })
            &&& r == Ok::<(), EmulatorError>(())
        },
        None => {
            if m.key_halt {
                if m.regs[x] >= 16 {
                    &&& post == fault(Machine { pc: at, ..m })
                    &&& r == Err::<(), EmulatorError>(EmulatorError::InvalidKey)
                } else if !key_down(m.keys, m.regs[x] as u16) {
                    &&& post == (Machine { pc: m.pc, key_halt: false, ..m })
                    &&& r == Ok::<(), EmulatorError>(())
                } else {
                    &&& post == (Machine { pc: at, ..m })
                    &&& r == Ok::<(), EmulatorError>(())
                }
            } else {
                &&& post == (Machine { pc: at, ..m })
                &&& r == Ok::<(), EmulatorError>(())
            }
        },
    }
}

/// Memory after registers `0..=x` are stored at `index`.
pub open spec fn stored_mem(mem: Seq<u8>, index: int, regs: Seq<u8>, x: int) -> Seq<u8> {
    Seq::new(
        mem.len(),
        |j: int|
            if index <= j <= index + x {
                regs[j - index]
            } else {
                mem[j]
            },
    )
}

/// Registers after `0..=x` are loaded from memory at `index`.
pub open spec fn loaded_regs(mem: Seq<u8>, index: int, regs: Seq<u8>, x: int) -> Seq<u8> {
    Seq::new(
        regs.len(),
        |i: int|
            if i <= x {
                mem[index + i]
            } else {
                regs[i]
            },
    )
}

/// Effect of one decoded instruction on the post-fetch machine `m`; `at`
/// is the instruction's own address, `w` the fetched word.
pub open spec fn step_insn_rel(
    m: Machine,
    at: u16,
    w: u16,
    post: Machine,
    r: Result<(), EmulatorError>,
) -> bool {
    let x = op_x(w) as int;
    let y = op_y(w) as int;
    let n = op_n(w) as int;
    let kk = op_kk(w);
    let nnn = op_nnn(w);
    let ok = r == Ok::<(), EmulatorError>(());
    match decode_spec(w) {
        Instr::Cls => post == (Machine { grid: Seq::new(m.grid.len(), |i: int| 0u8), ..m }) && ok,
        Instr::Ret => {
            if m.stack.len() == 0 {
                post == fault(m) && r == Err::<(), EmulatorError>(EmulatorError::StackUnderflow)
            } else {
                post == (Machine { pc: m.stack.last(), stack: m.stack.drop_last(), ..m }) && ok
            }
        },
        Instr::Jump { nnn } => {
            if nnn == at {
                post == (Machine { pc: nnn, state: CpuState::HaltedOnInfiniteLoop, ..m }) && ok
            } else {
                post == (Machine { pc: nnn, ..m }) && ok
            }
        },
        Instr::Call { nnn } => {
            if m.stack.len() >= 16 {
                post == fault(m) && r == Err::<(), EmulatorError>(EmulatorError::StackOverflow)
            } else {
                post == (Machine { pc: nnn, stack: m.stack.push(m.pc), ..m }) && ok
            }
        },
        Instr::SkipEqImm { x, kk } => post == skipped(m, m.regs[x as int] == kk) && ok,
        Instr::SkipNeImm { x, kk } => post == skipped(m, m.regs[x as int] != kk) && ok,
        Instr::SkipEqReg { x, y } => post == skipped(m, m.regs[x as int] == m.regs[y as int])
            && ok,
        Instr::SkipNeReg { x, y } => post == skipped(m, m.regs[x as int] != m.regs[y as int])
            && ok,
        Instr::LoadImm { x, kk } => post == (Machine { regs: m.regs.update(x as int, kk), ..m })
            && ok,
        Instr::AddImm { x, kk } => post == (Machine {
            regs: m.regs.update(x as int, wrap8(m.regs[x as int] + kk)),
            ..m
        }) && ok,
        Instr::Move { x, y } => post == (Machine {
            regs: m.regs.update(x as int, m.regs[y as int]),
            ..m
        }) && ok,
        Instr::Or { x, y } => post == (Machine {
            regs: m.regs.update(x as int, m.regs[x as int] | m.regs[y as int]).update(15, 0u8),
            ..m
        }) && ok,
        Instr::And { x, y } => post == (Machine {
            regs: m.regs.update(x as int, m.regs[x as int] & m.regs[y as int]).update(15, 0u8),
            ..m
        }) && ok,
        Instr::Xor { x, y } => post == (Machine {
            regs: m.regs.update(x as int, m.regs[x as int] ^ m.regs[y as int]).update(15, 0u8),
            ..m
        }) && ok,
        Instr::Add { x, y } => post == (Machine {
            regs: m.regs.update(x as int, wrap8(m.regs[x as int] + m.regs[y as int])).update(
                15,
                if m.regs[x as int] + m.regs[y as int] > 255 {
                    1u8
                } else {
                    0u8
                },
            ),
            ..m
        }) && ok,
        Instr::Sub { x, y } => post == (Machine {
            regs: m.regs.update(x as int, wrap8(m.regs[x as int] - m.regs[y as int])).update(
                15,
                if m.regs[x as int] >= m.regs[y as int] {
                    1u8
                } else {
                    0u8
                },
            ),
            ..m
        }) && ok,
        Instr::ShiftRight { x, y } => post == (Machine {
            regs: m.regs.update(x as int, m.regs[y as int] >> 1u8).update(
                15,
                m.regs[y as int] & 1,
            ),
            ..m
        }) && ok,
        Instr::SubNeg { x, y } => post == (Machine {
            regs: m.regs.update(x as int, wrap8(m.regs[y as int] - m.regs[x as int])).update(
                15,
                if m.regs[y as int] >= m.regs[x as int] {
                    1u8
                } else {
                    0u8
                },
            ),
            ..m
        }) && ok,
        Instr::ShiftLeft { x, y } => post == (Machine {
            regs: m.regs.update(x as int, wrap8(2 * m.regs[y as int])).update(
                15,
                (m.regs[y as int] & 0x80) >> 7u8,
            ),
            ..m
        }) && ok,
        Instr::LoadIndex { nnn } => post == (Machine { index: nnn, ..m }) && ok,
        Instr::JumpV0 { nnn } => post == (Machine {
            pc: (nnn + m.regs[0]) as u16,
            ..m
        }) && ok,
        Instr::Random { x, kk } => (exists|b: u8|
            post == (Machine { regs: m.regs.update(x as int, b & kk), ..m })) && ok,
        Instr::Draw { x, y, n } => {
            if m.vsync != 0 {
                post == (Machine { pc: at, ..m }) && ok
            } else if n > 0 && m.index as int + n as int > m.mem.len() {
                post == fault(m) && r == Err::<(), EmulatorError>(EmulatorError::OutOfBounds)
            } else {
                draw_rel(m, x as int, y as int, n as int, post) && ok
            }
        },
        Instr::SkipKey { x } => {
            if m.regs[x as int] >= 16 {
                post == fault(m) && r == Err::<(), EmulatorError>(EmulatorError::InvalidKey)
            } else {
                post == skipped(m, key_down(m.keys, m.regs[x as int] as u16)) && ok
            }
        },
        Instr::SkipNoKey { x } => {
            if m.regs[x as int] >= 16 {
                post == fault(m) && r == Err::<(), EmulatorError>(EmulatorError::InvalidKey)
            } else {
                post == skipped(m, !key_down(m.keys, m.regs[x as int] as u16)) && ok
            }
        },
        Instr::ReadDelta { x } => post == (Machine { regs: m.regs.update(x as int, m.dt), ..m })
            && ok,
        Instr::WaitKey { x } => wait_key_rel(m, at, x as int, post, r),
        Instr::SetDelta { x } => post == (Machine { dt: m.regs[x as int], ..m }) && ok,
        Instr::SetSound { x } => post == (Machine { st: m.regs[x as int], ..m }) && ok,
        Instr::AddIndex { x } => post == (Machine {
            index: wrap16(m.index + m.regs[x as int]),
            ..m
        }) && ok,
        Instr::FontIndex { x } => post == (Machine {
            index: (m.regs[x as int] * 5) as u16,
            ..m
        }) && ok,
        Instr::Bcd { x } => {
            if m.index as int + 2 >= m.mem.len() {
                post == fault(m) && r == Err::<(), EmulatorError>(EmulatorError::OutOfBounds)
            } else {
                let v = m.regs[x as int];
                post == (Machine {
                    mem: m.mem.update(m.index as int, v / 100).update(
                        m.index as int + 1,
                        (v / 10) % 10,
                    ).update(m.index as int + 2, v % 10),
                    ..m
                }) && ok
            }
        },
        Instr::StoreRegs { x } => {
            if m.index as int + x as int >= m.mem.len() {
                post == fault(m) && r == Err::<(), EmulatorError>(EmulatorError::OutOfBounds)
            } else {
                post == (Machine {
                    mem: stored_mem(m.mem, m.index as int, m.regs, x as int),
                    index: (m.index + x + 1) as u16,
                    ..m
                }) && ok
            }
        },
        Instr::LoadRegs { x } => {
            if m.index as int + x as int >= m.mem.len() {
                post == fault(m) && r == Err::<(), EmulatorError>(EmulatorError::OutOfBounds)
            } else {
                post == (Machine {
                    regs: loaded_regs(m.mem, m.index as int, m.regs, x as int),
                    index: (m.index + x + 1) as u16,
                    ..m
                }) && ok
            }
        },
        Instr::Unknown => post == fault(m) && r == Err::<(), EmulatorError>(
            EmulatorError::UnknownOpcode,
        ),
    }
}

/// One fetch-decode-execute step: a no-op once halted; a fault when even
/// the fetch is out of bounds; otherwise the program counter advances by
/// two before dispatch and the decoded instruction takes effect.
pub open spec fn step_rel(pre: Machine, post: Machine, r: Result<(), EmulatorError>) -> bool {
    if pre.state != CpuState::Running {
        post == pre && r == Ok::<(), EmulatorError>(())
    } else if pre.pc as int + 1 >= pre.mem.len() {
        post == fault(pre) && r == Err::<(), EmulatorError>(EmulatorError::OutOfBounds)
    } else {
        let w = word_at(pre.mem, pre.pc as int);
        step_insn_rel(Machine { pc: (pre.pc + 2) as u16, ..pre }, pre.pc, w, post, r)
    }
}

/// `n` sequential steps, each related to the next by `step_rel`.
pub open spec fn steps_rel(pre: Machine, post: Machine, n: nat) -> bool
    decreases n,
{
    if n == 0 {
        post == pre
    } else {
        exists|mid: Machine, r: Result<(), EmulatorError>|
            steps_rel(pre, mid, (n - 1) as nat) && step_rel(mid, post, r)
    }
}

/// Extends a chain of steps by one more.
pub proof fn lemma_steps_rel_snoc(
    pre: Machine,
    mid: Machine,
    post: Machine,
    r: Result<(), EmulatorError>,
    n: nat,
)
    requires
        steps_rel(pre, mid, n),
        step_rel(mid, post, r),
    ensures
        steps_rel(pre, post, n + 1),
{
    assert(steps_rel(pre, mid, ((n + 1) - 1) as nat) && step_rel(mid, post, r));
}


/// Pixels already processed by the draw loop: full rows below `i`, and the
/// first `j` columns of row `i`.
spec fn covered_upto(px: int, py: int, i: int, j: int, a: int, b: int) -> bool {
    (px <= a < px + 8 && py <= b < py + i) || (b == py + i && px <= a < px + j)
}

/// Keys below `i` are all up, so the scan from zero agrees with the scan
/// from `i`.
proof fn lemma_scan_skip(keys: u16, i: int)
    requires
        0 <= i <= 16,
        forall|j: u16| j < i ==> !key_down(keys, j),
    ensures
        scan_keys(keys, 0) == scan_keys(keys, i),
    decreases i,
{
    if i > 0 {
        lemma_scan_skip(keys, i - 1);
    }
}

impl CPU {
    /// Writes one register, leaving everything else alone.
    fn set_reg(&mut self, i: u8, v: u8)
        requires
            old(self).wf(),
            i < 16,
        ensures
            final(self).wf(),
            final(self).regs_spec() == old(self).regs_spec().update(i as int, v),
            final(self).pc_spec() == old(self).pc_spec(),
            final(self).index_spec() == old(self).index_spec(),
            final(self).stack_spec() == old(self).stack_spec(),
            final(self).state_spec() == old(self).state_spec(),
            final(self).vsync_ref() == old(self).vsync_ref(),
            final(self).cadence() == old(self).cadence(),
    {
        self.reg[i as usize] = v;
    }

    /// One fetch-decode-execute step, mutating the components an opcode
    /// touches; a typed error reports the fault that halted the machine.
    #[verifier::rlimit(100)]
    #[verifier::spinoff_prover]
    pub fn step(
        &mut self,
        ram: &mut RAM,
        display: &mut Display,
        keyboard: &mut Keyboard,
        delta: &mut GenericDownTimer,
        sound: &mut GenericDownTimer,
    ) -> (r: Result<(), EmulatorError>)
        requires
            old(self).wf(),
            old(ram).wf(),
            old(display).wf(),
        ensures
            final(self).wf(),
            final(ram).wf(),
            final(display).wf(),
            final(ram).start() == old(ram).start(),
            final(self).cadence() == old(self).cadence(),
            final(self).vsync_ref().acc() == old(self).vsync_ref().acc(),
            final(self).vsync_ref().period() == old(self).vsync_ref().period(),
            final(delta).acc() == old(delta).acc(),
            final(delta).period() == old(delta).period(),
            final(sound).acc() == old(sound).acc(),
            final(sound).period() == old(sound).period(),
            step_rel(
                abs(*old(self), *old(ram), *old(display), *old(keyboard), *old(delta), *old(sound)),
                abs(
                    *final(self),
                    *final(ram),
                    *final(display),
                    *final(keyboard),
                    *final(delta),
                    *final(sound),
                ),
                r,
            ),
    {
        let ghost pre = abs(*self, *ram, *display, *keyboard, *delta, *sound);

        if self.halted() {
            return Ok(());
        }

        let at = self.pc;
        let w = match self.fetch(ram) {
            Ok(w) => w,
            Err(e) => {
                self.state = CpuState::HaltedOnFault;
                proof {
                    assert(abs(*self, *ram, *display, *keyboard, *delta, *sound) =~= fault(pre));
                }
                return Err(e);
            },
        };
        let ghost m1 = abs(*self, *ram, *display, *keyboard, *delta, *sound);
        proof {
            assert(m1 =~= Machine { pc: (pre.pc + 2) as u16, ..pre });
            lemma_op_bounds(w);
        }

        let instr = decode(w);
        match instr {
            Instr::Cls => {
                display.clear();
                proof {
                    assert(abs(*self, *ram, *display, *keyboard, *delta, *sound) =~= (Machine {
                        grid: Seq::new(m1.grid.len(), |i: int| 0u8),
                        ..m1
                    }));
                }
                Ok(())
            },
            Instr::Ret => {
                match self.pop_stack() {
                    Ok(v) => {
                        self.pc = v;
                        proof {
                            assert(abs(*self, *ram, *display, *keyboard, *delta, *sound)
                                =~= (Machine {
                                pc: m1.stack.last(),
                                stack: m1.stack.drop_last(),
                                ..m1
                            }));
                        }
                        Ok(())
                    },
                    Err(e) => {
                        self.state = CpuState::HaltedOnFault;
                        proof {
                            assert(abs(*self, *ram, *display, *keyboard, *delta, *sound)
                                =~= fault(m1));
                        }
                        Err(e)
                    },
                }
            },
            Instr::Jump { nnn } => {
                if at == nnn {
                    self.state = CpuState::HaltedOnInfiniteLoop;
                }
                self.pc = nnn;
                proof {
                    if at == nnn {
                        assert(abs(*self, *ram, *display, *keyboard, *delta, *sound) =~= (Machine {
                            pc: nnn,
                            state: CpuState::HaltedOnInfiniteLoop,
                            ..m1
                        }));
                    } else {
                        assert(abs(*self, *ram, *display, *keyboard, *delta, *sound) =~= (Machine {
                            pc: nnn,
                            ..m1
                        }));
                    }
                }
                Ok(())
            },
            Instr::Call { nnn } => {
                match self.push_stack(self.pc) {
                    Ok(()) => {
                        self.pc = nnn;
                        proof {
                            assert(abs(*self, *ram, *display, *keyboard, *delta, *sound)
                                =~= (Machine {
                                pc: nnn,
                                stack: m1.stack.push(m1.pc),
                                ..m1
                            }));
                        }
                        Ok(())
                    },
                    Err(e) => {
                        self.state = CpuState::HaltedOnFault;
                        proof {
                            assert(abs(*self, *ram, *display, *keyboard, *delta, *sound)
                                =~= fault(m1));
                        }
                        Err(e)
                    },
                }
            },
            Instr::SkipEqImm { x, kk } => {
                if self.reg[x as usize] == kk {
                    self.pc = self.pc.wrapping_add(2);
                }
                proof {
                    assert(abs(*self, *ram, *display, *keyboard, *delta, *sound) =~= skipped(
                        m1,
                        m1.regs[x as int] == kk,
                    ));
                }
                Ok(())
            },
            Instr::SkipNeImm { x, kk } => {
                if self.reg[x as usize] != kk {
                    self.pc = self.pc.wrapping_add(2);
                }
                proof {
                    assert(abs(*self, *ram, *display, *keyboard, *delta, *sound) =~= skipped(
                        m1,
                        m1.regs[x as int] != kk,
                    ));
                }
                Ok(())
            },
            Instr::SkipEqReg { x, y } => {
                if self.reg[x as usize] == self.reg[y as usize] {
                    self.pc = self.pc.wrapping_add(2);
                }
                proof {
                    assert(abs(*self, *ram, *display, *keyboard, *delta, *sound) =~= skipped(
                        m1,
                        m1.regs[x as int] == m1.regs[y as int],
                    ));
                }
                Ok(())
            },
            Instr::SkipNeReg { x, y } => {
                if self.reg[x as usize] != self.reg[y as usize] {
                    self.pc = self.pc.wrapping_add(2);
                }
                proof {
                    assert(abs(*self, *ram, *display, *keyboard, *delta, *sound) =~= skipped(
                        m1,
                        m1.regs[x as int] != m1.regs[y as int],
                    ));
                }
                Ok(())
            },
            Instr::LoadImm { x, kk } => {
                self.set_reg(x, kk);
                proof {
                    assert(abs(*self, *ram, *display, *keyboard, *delta, *sound) =~= (Machine {
                        regs: m1.regs.update(x as int, kk),
                        ..m1
                    }));
                }
                Ok(())
            },
            Instr::AddImm { x, kk } => {
                let v = self.reg[x as usize].wrapping_add(kk);
                self.set_reg(x, v);
                proof {
                    assert(abs(*self, *ram, *display, *keyboard, *delta, *sound) =~= (Machine {
                        regs: m1.regs.update(x as int, wrap8(m1.regs[x as int] + kk)),
                        ..m1
                    }));
                }
                Ok(())
            },
            Instr::Move { x, y } => {
                let v = self.reg[y as usize];
                self.set_reg(x, v);
                proof {
                    assert(abs(*self, *ram, *display, *keyboard, *delta, *sound) =~= (Machine {
                        regs: m1.regs.update(x as int, m1.regs[y as int]),
                        ..m1
                    }));
                }
                Ok(())
            },
            Instr::Or { x, y } => {
                let v = self.reg[x as usize] | self.reg[y as usize];
                self.set_reg(x, v);
                self.set_reg(0xF, 0);
                proof {
                    assert(abs(*self, *ram, *display, *keyboard, *delta, *sound) =~= (Machine {
                        regs: m1.regs.update(x as int, m1.regs[x as int] | m1.regs[y as int])
                            .update(15, 0u8),
                        ..m1
                    }));
                }
                Ok(())
            },
            Instr::And { x, y } => {
                let v = self.reg[x as usize] & self.reg[y as usize];
                self.set_reg(x, v);
                self.set_reg(0xF, 0);
                proof {
                    assert(abs(*self, *ram, *display, *keyboard, *delta, *sound) =~= (Machine {
                        regs: m1.regs.update(x as int, m1.regs[x as int] & m1.regs[y as int])
                            .update(15, 0u8),
                        ..m1
                    }));
                }
                Ok(())
            },
            Instr::Xor { x, y } => {
                let v = self.reg[x as usize] ^ self.reg[y as usize];
                self.set_reg(x, v);
                self.set_reg(0xF, 0);
                proof {
                    assert(abs(*self, *ram, *display, *keyboard, *delta, *sound) =~= (Machine {
                        regs: m1.regs.update(x as int, m1.regs[x as int] ^ m1.regs[y as int])
                            .update(15, 0u8),
                        ..m1
                    }));
                }
                Ok(())
            },
            Instr::Add { x, y } => {
                let vx = self.reg[x as usize];
                let vy = self.reg[y as usize];
                let v = vx.wrapping_add(vy);
                let carry: u8 = if vx as u16 + vy as u16 > 255 {
                    1
                } else {
                    0
                };
                self.set_reg(x, v);
                self.set_reg(0xF, carry);
                proof {
                    assert(abs(*self, *ram, *display, *keyboard, *delta, *sound) =~= (Machine {
                        regs: m1.regs.update(
                            x as int,
                            wrap8(m1.regs[x as int] + m1.regs[y as int]),
                        ).update(
                            15,
                            if m1.regs[x as int] + m1.regs[y as int] > 255 {
                                1u8
                            } else {
                                0u8
                            },
                        ),
                        ..m1
                    }));
                }
                Ok(())
            },
            Instr::Sub { x, y } => {
                let vx = self.reg[x as usize];
                let vy = self.reg[y as usize];
                let v = vx.wrapping_sub(vy);
                let no_borrow: u8 = if vx >= vy {
                    1
                } else {
                    0
                };
                self.set_reg(x, v);
                self.set_reg(0xF, no_borrow);
                proof {
                    assert(abs(*self, *ram, *display, *keyboard, *delta, *sound) =~= (Machine {
                        regs: m1.regs.update(
                            x as int,
                            wrap8(m1.regs[x as int] - m1.regs[y as int]),
                        ).update(
                            15,
                            if m1.regs[x as int] >= m1.regs[y as int] {
                                1u8
                            } else {
                                0u8
                            },
                        ),
                        ..m1
                    }));
                }
                Ok(())
            },
            Instr::ShiftRight { x, y } => {
                let vy = self.reg[y as usize];
                self.set_reg(x, vy >> 1u8);
                self.set_reg(0xF, vy & 1);
                proof {
                    assert(abs(*self, *ram, *display, *keyboard, *delta, *sound) =~= (Machine {
                        regs: m1.regs.update(x as int, m1.regs[y as int] >> 1u8).update(
                            15,
                            m1.regs[y as int] & 1,
                        ),
                        ..m1
                    }));
                }
                Ok(())
            },
            Instr::SubNeg { x, y } => {
                let vx = self.reg[x as usize];
                let vy = self.reg[y as usize];
                let v = vy.wrapping_sub(vx);
                let no_borrow: u8 = if vy >= vx {
                    1
                } else {
                    0
                };
                self.set_reg(x, v);
                self.set_reg(0xF, no_borrow);
                proof {
                    assert(abs(*self, *ram, *display, *keyboard, *delta, *sound) =~= (Machine {
                        regs: m1.regs.update(
                            x as int,
                            wrap8(m1.regs[y as int] - m1.regs[x as int]),
                        ).update(
                            15,
                            if m1.regs[y as int] >= m1.regs[x as int] {
                                1u8
                            } else {
                                0u8
                            },
                        ),
                        ..m1
                    }));
                }
                Ok(())
            },
            Instr::ShiftLeft { x, y } => {
                let vy = self.reg[y as usize];
                let carry = (vy & 0x80) >> 7u8;
                self.set_reg(x, vy.wrapping_add(vy));
                self.set_reg(0xF, carry);
                proof {
                    assert(abs(*self, *ram, *display, *keyboard, *delta, *sound) =~= (Machine {
                        regs: m1.regs.update(x as int, wrap8(2 * m1.regs[y as int])).update(
                            15,
                            (m1.regs[y as int] & 0x80) >> 7u8,
                        ),
                        ..m1
                    }));
                }
                Ok(())
            },
            Instr::LoadIndex { nnn } => {
                self.index = nnn;
                proof {
                    assert(abs(*self, *ram, *display, *keyboard, *delta, *sound) =~= (Machine {
                        index: nnn,
                        ..m1
                    }));
                }
                Ok(())
            },
            Instr::JumpV0 { nnn } => {
                self.pc = nnn + self.reg[0] as u16;
                proof {
                    assert(abs(*self, *ram, *display, *keyboard, *delta, *sound) =~= (Machine {
                        pc: (op_nnn(w) + m1.regs[0]) as u16,
                        ..m1
                    }));
                }
                Ok(())
            },
            Instr::Random { x, kk } => {
                let b = crate::rng::random_byte();
                self.set_reg(x, b & kk);
                proof {
                    assert(abs(*self, *ram, *display, *keyboard, *delta, *sound) == (Machine {
                        regs: m1.regs.update(x as int, b & kk),
                        ..m1
                    })) by {
                        assert(abs(*self, *ram, *display, *keyboard, *delta, *sound) =~= (Machine {
                            regs: m1.regs.update(x as int, b & kk),
                            ..m1
                        }));
                    }
                }
                Ok(())
            },
            Instr::Draw { x, y, n } => self.exec_draw(ram, display, keyboard, delta, sound, at, x, y, n, Ghost(m1)),
            Instr::SkipKey { x } => {
                let vx = self.reg[x as usize];
                if vx >= 16 {
                    self.state = CpuState::HaltedOnFault;
                    proof {
                        assert(abs(*self, *ram, *display, *keyboard, *delta, *sound)
                            =~= fault(m1));
                    }
                    return Err(EmulatorError::InvalidKey);
                }
                if keyboard.is_pressed(vx) {
                    self.pc = self.pc.wrapping_add(2);
                }
                proof {
                    assert(abs(*self, *ram, *display, *keyboard, *delta, *sound) =~= skipped(
                        m1,
                        key_down(m1.keys, m1.regs[x as int] as u16),
                    ));
                }
                Ok(())
            },
            Instr::SkipNoKey { x } => {
                let vx = self.reg[x as usize];
                if vx >= 16 {
                    self.state = CpuState::HaltedOnFault;
                    proof {
                        assert(abs(*self, *ram, *display, *keyboard, *delta, *sound)
                            =~= fault(m1));
                    }
                    return Err(EmulatorError::InvalidKey);
                }
                if !keyboard.is_pressed(vx) {
                    self.pc = self.pc.wrapping_add(2);
                }
                proof {
                    assert(abs(*self, *ram, *display, *keyboard, *delta, *sound) =~= skipped(
                        m1,
                        !key_down(m1.keys, m1.regs[x as int] as u16),
                    ));
                }
                Ok(())
            },
            Instr::ReadDelta { x } => {
                let v = delta.get();
                self.set_reg(x, v);
                proof {
                    assert(abs(*self, *ram, *display, *keyboard, *delta, *sound) =~= (Machine {
                        regs: m1.regs.update(x as int, m1.dt),
                        ..m1
                    }));
                }
                Ok(())
            },
            Instr::WaitKey { x } => self.exec_wait_key(ram, display, keyboard, delta, sound, at, x, Ghost(m1)),
            Instr::SetDelta { x } => {
                delta.set(self.reg[x as usize]);
                proof {
                    assert(abs(*self, *ram, *display, *keyboard, *delta, *sound) =~= (Machine {
                        dt: m1.regs[x as int],
                        ..m1
                    }));
                }
                Ok(())
            },
            Instr::SetSound { x } => {
                sound.set(self.reg[x as usize]);
                proof {
                    assert(abs(*self, *ram, *display, *keyboard, *delta, *sound) =~= (Machine {
                        st: m1.regs[x as int],
                        ..m1
                    }));
                }
                Ok(())
            },
            Instr::AddIndex { x } => {
                self.index = self.index.wrapping_add(self.reg[x as usize] as u16);
                proof {
                    assert(abs(*self, *ram, *display, *keyboard, *delta, *sound) =~= (Machine {
                        index: wrap16(m1.index + m1.regs[x as int]),
                        ..m1
                    }));
                }
                Ok(())
            },
            Instr::FontIndex { x } => {
                self.index = self.reg[x as usize] as u16 * 5;
                proof {
                    assert(abs(*self, *ram, *display, *keyboard, *delta, *sound) =~= (Machine {
                        index: (m1.regs[x as int] * 5) as u16,
                        ..m1
                    }));
                }
                Ok(())
            },
            Instr::Bcd { x } => {
                if self.index as usize + 2 >= ram.len() {
                    self.state = CpuState::HaltedOnFault;
                    proof {
                        assert(abs(*self, *ram, *display, *keyboard, *delta, *sound)
                            =~= fault(m1));
                    }
                    return Err(EmulatorError::OutOfBounds);
                }
                let v = self.reg[x as usize];
                let i = self.index as usize;
                let _ = ram.write_byte(i, v / 100);
                let _ = ram.write_byte(i + 1, (v / 10) % 10);
                let _ = ram.write_byte(i + 2, v % 10);
                proof {
                    assert(abs(*self, *ram, *display, *keyboard, *delta, *sound) =~= (Machine {
                        mem: m1.mem.update(m1.index as int, m1.regs[x as int] / 100).update(
                            m1.index as int + 1,
                            (m1.regs[x as int] / 10) % 10,
                        ).update(m1.index as int + 2, m1.regs[x as int] % 10),
                        ..m1
                    }));
                }
                Ok(())
            },
            Instr::StoreRegs { x } => {
                if self.index as usize + x as usize >= ram.len() {
                    self.state = CpuState::HaltedOnFault;
                    proof {
                        assert(abs(*self, *ram, *display, *keyboard, *delta, *sound)
                            =~= fault(m1));
                    }
                    return Err(EmulatorError::OutOfBounds);
                }
                let base = self.index as usize;
                let mut k: usize = 0;
                while k <= x as usize
                    invariant
                        m1.mem.len() == ram@.len(),
                        x < 16,
                        k <= (x as usize) + 1,
                        base == m1.index as usize,
                        base + (x as usize) < ram@.len(),
                        self.wf(),
                        ram.wf(),
                        ram.start() == old(ram).start(),
                        self.pc_spec() == m1.pc,
                        self.index_spec() == m1.index,
                        self.stack_spec() == m1.stack,
                        self.state_spec() == m1.state,
                        self.regs_spec() == m1.regs,
                        self.vsync_ref() == old(self).vsync_ref(),
                        self.cadence() == old(self).cadence(),
                        forall|j: int|
                            0 <= j < ram@.len() ==> ram@[j] == if base <= j < base + k {
                                m1.regs[j - base]
                            } else {
                                m1.mem[j]
                            },
                    decreases x as usize + 1 - k,
                {
                    let _ = ram.write_byte(base + k, self.reg[k]);
                    k = k + 1;
                }
                self.index = self.index + x as u16 + 1;
                proof {
                    assert(ram@ =~= stored_mem(m1.mem, m1.index as int, m1.regs, x as int));
                    assert(abs(*self, *ram, *display, *keyboard, *delta, *sound) =~= (Machine {
                        mem: stored_mem(m1.mem, m1.index as int, m1.regs, x as int),
                        index: (m1.index + x + 1) as u16,
                        ..m1
                    }));
                }
                Ok(())
            },
            Instr::LoadRegs { x } => {
                if self.index as usize + x as usize >= ram.len() {
                    self.state = CpuState::HaltedOnFault;
                    proof {
                        assert(abs(*self, *ram, *display, *keyboard, *delta, *sound)
                            =~= fault(m1));
                    }
                    return Err(EmulatorError::OutOfBounds);
                }
                let base = self.index as usize;
                let mut k: usize = 0;
                while k <= x as usize
                    invariant
                        m1.mem.len() == ram@.len(),
                        x < 16,
                        k <= (x as usize) + 1,
                        base == m1.index as usize,
                        base + (x as usize) < ram@.len(),
                        self.wf(),
                        ram.wf(),
                        *ram == *old(ram),
                        m1.mem == ram@,
                        self.regs_spec().len() == 16,
                        self.pc_spec() == m1.pc,
                        self.index_spec() == m1.index,
                        self.stack_spec() == m1.stack,
                        self.state_spec() == m1.state,
                        self.vsync_ref() == old(self).vsync_ref(),
                        self.cadence() == old(self).cadence(),
                        forall|i: int|
                            0 <= i < 16 ==> self.regs_spec()[i] == if i < k {
                                m1.mem[base + i]
                            } else {
                                m1.regs[i]
                            },
                    decreases x as usize + 1 - k,
                {
                    let b = match ram.read_byte(base + k) {
                        Ok(b) => b,
                        Err(_) => {
                            proof {
                                assert(false);
                            }
                            0
                        },
                    };
                    self.set_reg(k as u8, b);
                    k = k + 1;
                }
                self.index = self.index + x as u16 + 1;
                proof {
                    assert(self.regs_spec() =~= loaded_regs(m1.mem, m1.index as int, m1.regs, x as int));
                    assert(abs(*self, *ram, *display, *keyboard, *delta, *sound) =~= (Machine {
                        regs: loaded_regs(m1.mem, m1.index as int, m1.regs, x as int),
                        index: (m1.index + x + 1) as u16,
                        ..m1
                    }));
                }
                Ok(())
            },
            Instr::Unknown => {
                self.state = CpuState::HaltedOnFault;
                proof {
                    assert(abs(*self, *ram, *display, *keyboard, *delta, *sound) =~= fault(m1));
                }
                Err(EmulatorError::UnknownOpcode)
            },
        }
    }
}


impl CPU {
    /// The sprite draw: gated by the vsync countdown, wrapping its origin,
    /// clipping at the edges, XOR-blitting row by row and collecting the
    /// collision flag into VF.
    #[verifier::rlimit(100)]
    fn exec_draw(
        &mut self,
        ram: &mut RAM,
        display: &mut Display,
        keyboard: &mut Keyboard,
        delta: &mut GenericDownTimer,
        sound: &mut GenericDownTimer,
        at: u16,
        x: u8,
        y: u8,
        n: u8,
        Ghost(m1): Ghost<Machine>,
    ) -> (r: Result<(), EmulatorError>)
        requires
            old(self).wf(),
            old(ram).wf(),
            old(display).wf(),
            m1 == abs(*old(self), *old(ram), *old(display), *old(keyboard), *old(delta), *old(sound)),
            x < 16,
            y < 16,
            n < 16,
            m1.pc == at + 2,
        ensures
            final(self).wf(),
            final(ram).wf(),
            final(display).wf(),
            final(ram).start() == old(ram).start(),
            final(self).cadence() == old(self).cadence(),
            final(self).vsync_ref().acc() == old(self).vsync_ref().acc(),
            final(self).vsync_ref().period() == old(self).vsync_ref().period(),
            final(delta).acc() == old(delta).acc(),
            final(delta).period() == old(delta).period(),
            final(sound).acc() == old(sound).acc(),
            final(sound).period() == old(sound).period(),
            ({
                let post = abs(
                    *final(self),
                    *final(ram),
                    *final(display),
                    *final(keyboard),
                    *final(delta),
                    *final(sound),
                );
                if m1.vsync != 0 {
                    post == (Machine { pc: at, ..m1 }) && r == Ok::<(), EmulatorError>(())
                } else if n > 0 && m1.index as int + n as int > m1.mem.len() {
                    post == fault(m1) && r == Err::<(), EmulatorError>(EmulatorError::OutOfBounds)
                } else {
                    draw_rel(m1, x as int, y as int, n as int, post) && r == Ok::<
                        (),
                        EmulatorError,
                    >(())
                }
            }),
    {
        if self.vsync.get() != 0 {
            self.pc = self.pc - 2;
            proof {
                assert(abs(*self, *ram, *display, *keyboard, *delta, *sound) =~= (Machine {
                    pc: at,
                    ..m1
                }));
            }
            return Ok(());
        }

        if n > 0 && self.index as usize + n as usize > ram.len() {
            self.state = CpuState::HaltedOnFault;
            proof {
                assert(abs(*self, *ram, *display, *keyboard, *delta, *sound) =~= fault(m1));
            }
            return Err(EmulatorError::OutOfBounds);
        }

        self.vsync.set(1);
        display.set_flag();

        let w = display.get_width();
        let h = display.get_height();
        let px = self.reg[x as usize] % w;
        let py = self.reg[y as usize] % h;
        let base = self.index as usize;

        let ghost g0 = display@;
        let ghost wi = w as int;
        let ghost hi = h as int;
        let ghost pxi = px as int;
        let ghost pyi = py as int;
        let ghost ii = m1.index as int;

        let mut collision = false;
        let mut i: u8 = 0;
        while i < n
            invariant
                old(self).wf(),
                old(ram).wf(),
                self.wf(),
                ram.wf(),
                display.wf(),
                i <= n,
                n < 16,
                x < 16,
                y < 16,
                base == m1.index as usize,
                n > 0 ==> base + (n as usize) <= ram@.len(),
                m1.mem == ram@,
                m1.regs == self.regs_spec(),
                m1.stack == self.stack_spec(),
                m1.state == self.state_spec(),
                m1.pc == self.pc_spec(),
                m1.index == self.index_spec(),
                m1.keys == keyboard.mask(),
                m1.key_halt == keyboard.halting(),
                m1.dt == delta.value(),
                m1.st == sound.value(),
                *delta == *old(delta),
                *sound == *old(sound),
                ram.start() == old(ram).start(),
                self.cadence() == old(self).cadence(),
                self.vsync_ref().acc() == old(self).vsync_ref().acc(),
                self.vsync_ref().period() == old(self).vsync_ref().period(),
                self.vsync_ref().value() == 1,
                self.vsync_ref().wf(),
                display.changed(),
                wi == display.width_spec() as int,
                hi == display.height_spec() as int,
                wi == m1.width as int,
                hi == m1.height as int,
                g0 == m1.grid,
                display@.len() == g0.len(),
                pxi == m1.regs[x as int] as int % wi,
                pyi == m1.regs[y as int] as int % hi,
                ii == m1.index as int,
                px as int == pxi,
                py as int == pyi,
                w as int == wi,
                h as int == hi,
                0 <= pxi < wi,
                0 <= pyi < hi,
                forall|a: int, b: int|
                    0 <= a < wi && 0 <= b < hi ==> pix_at(display@, wi, hi, a, b) == (pix_at(
                        g0,
                        wi,
                        hi,
                        a,
                        b,
                    ) != (covered_upto(pxi, pyi, i as int, 0, a, b) && sprite_on(
                        m1.mem,
                        ii,
                        pxi,
                        pyi,
                        a,
                        b,
                    ))),
                collision == (exists|a: int, b: int|
                    pix_at(g0, wi, hi, a, b) && covered_upto(pxi, pyi, i as int, 0, a, b)
                        && sprite_on(m1.mem, ii, pxi, pyi, a, b)),
            decreases n - i,
        {
            let row = match ram.read_byte(base + i as usize) {
                Ok(b) => b,
                Err(_) => {
                    proof {
                        assert(false);
                    }
                    0
                },
            };
            let mut j: u8 = 0;
            while j < 8
                invariant
                    old(self).wf(),
                    old(ram).wf(),
                    self.wf(),
                    ram.wf(),
                    display.wf(),
                    i < n,
                    j <= 8,
                    n < 16,
                    x < 16,
                    y < 16,
                    base == m1.index as usize,
                    n > 0 ==> base + (n as usize) <= ram@.len(),
                    m1.mem == ram@,
                    m1.regs == self.regs_spec(),
                    m1.stack == self.stack_spec(),
                    m1.state == self.state_spec(),
                    m1.pc == self.pc_spec(),
                    m1.index == self.index_spec(),
                    m1.keys == keyboard.mask(),
                    m1.key_halt == keyboard.halting(),
                    m1.dt == delta.value(),
                    m1.st == sound.value(),
                    *delta == *old(delta),
                    *sound == *old(sound),
                    ram.start() == old(ram).start(),
                    self.cadence() == old(self).cadence(),
                    self.vsync_ref().acc() == old(self).vsync_ref().acc(),
                    self.vsync_ref().period() == old(self).vsync_ref().period(),
                    self.vsync_ref().value() == 1,
                    self.vsync_ref().wf(),
                    display.changed(),
                    wi == display.width_spec() as int,
                    hi == display.height_spec() as int,
                    wi == m1.width as int,
                    hi == m1.height as int,
                    g0 == m1.grid,
                    display@.len() == g0.len(),
                    pxi == m1.regs[x as int] as int % wi,
                    pyi == m1.regs[y as int] as int % hi,
                    px as int == pxi,
                    py as int == pyi,
                    w as int == wi,
                    h as int == hi,
                    0 <= pxi < wi,
                    0 <= pyi < hi,
                    row == m1.mem[ii + i as int],
                    ii == m1.index as int,
                    forall|a: int, b: int|
                        0 <= a < wi && 0 <= b < hi ==> pix_at(display@, wi, hi, a, b) == (pix_at(
                            g0,
                            wi,
                            hi,
                            a,
                            b,
                        ) != (covered_upto(pxi, pyi, i as int, j as int, a, b) && sprite_on(
                            m1.mem,
                            ii,
                            pxi,
                            pyi,
                            a,
                            b,
                        ))),
                    collision == (exists|a: int, b: int|
                        pix_at(g0, wi, hi, a, b) && covered_upto(pxi, pyi, i as int, j as int, a, b)
                            && sprite_on(m1.mem, ii, pxi, pyi, a, b)),
                decreases 8 - j,
            {
                let bit = (row >> (7 - j)) & 1 == 1;
                let tx = px as u16 + j as u16;
                let ty = py as u16 + i as u16;
                let ghost dpre = *display;
                let c = if tx <= 0xFF && ty <= 0xFF {
                    display.set_pixel(tx as u8, ty as u8, bit)
                } else {
                    false
                };
                proof {
                    let ta = pxi + j as int;
                    let tb = pyi + i as int;
                    assert(sprite_on(m1.mem, ii, pxi, pyi, ta, tb) == bit);
                    assert(!covered_upto(pxi, pyi, i as int, j as int, ta, tb));
                    assert forall|a: int, b: int| 0 <= a < wi && 0 <= b < hi implies pix_at(
                        display@,
                        wi,
                        hi,
                        a,
                        b,
                    ) == (pix_at(g0, wi, hi, a, b) != (covered_upto(
                        pxi,
                        pyi,
                        i as int,
                        j as int + 1,
                        a,
                        b,
                    ) && sprite_on(m1.mem, ii, pxi, pyi, a, b))) by {
                        assert(dpre.pix(a, b) == pix_at(dpre@, wi, hi, a, b));
                        assert(display.pix(a, b) == pix_at(display@, wi, hi, a, b));
                        assert(pix_at(dpre@, wi, hi, a, b) == (pix_at(g0, wi, hi, a, b) != (
                        covered_upto(pxi, pyi, i as int, j as int, a, b) && sprite_on(
                            m1.mem,
                            ii,
                            pxi,
                            pyi,
                            a,
                            b,
                        ))));
                        if a == ta && b == tb {
                            assert(display.pix(a, b) == (dpre.pix(a, b) != bit));
                            assert(covered_upto(pxi, pyi, i as int, j as int + 1, a, b));
                        } else {
                            assert(display.pix(a, b) == dpre.pix(a, b));
                            assert(covered_upto(pxi, pyi, i as int, j as int + 1, a, b)
                                == covered_upto(pxi, pyi, i as int, j as int, a, b));
                        }
                    }
                    if c {
                        assert(dpre.pix(ta, tb));
                        assert(pix_at(g0, wi, hi, ta, tb) && covered_upto(
                            pxi,
                            pyi,
                            i as int,
                            j as int + 1,
                            ta,
                            tb,
                        ) && sprite_on(m1.mem, ii, pxi, pyi, ta, tb));
                    }
                    if !c && !collision {
                        assert forall|a: int, b: int|
                            !(pix_at(g0, wi, hi, a, b) && covered_upto(
                                pxi,
                                pyi,
                                i as int,
                                j as int + 1,
                                a,
                                b,
                            ) && sprite_on(m1.mem, ii, pxi, pyi, a, b)) by {
                            if covered_upto(pxi, pyi, i as int, j as int + 1, a, b) && !covered_upto(
                                pxi,
                                pyi,
                                i as int,
                                j as int,
                                a,
                                b,
                            ) {
                                assert(a == ta && b == tb);
                                assert(dpre.pix(a, b) == pix_at(dpre@, wi, hi, a, b));
                                if bit && 0 <= ta < wi && 0 <= tb < hi {
                                    assert(!dpre.pix(ta, tb));
                                }
                            }
                        }
                    }
                }
                if c {
                    collision = true;
                }
                j = j + 1;
            }
            i = i + 1;
            proof {
                assert forall|a: int, b: int| 0 <= a < wi && 0 <= b < hi implies pix_at(
                    display@,
                    wi,
                    hi,
                    a,
                    b,
                ) == (pix_at(g0, wi, hi, a, b) != (covered_upto(pxi, pyi, i as int, 0, a, b)
                    && sprite_on(m1.mem, ii, pxi, pyi, a, b))) by {
                    assert(covered_upto(pxi, pyi, i as int, 0, a, b) == covered_upto(
                        pxi,
                        pyi,
                        i as int - 1,
                        8,
                        a,
                        b,
                    ));
                }
                assert(collision == (exists|a: int, b: int|
                    pix_at(g0, wi, hi, a, b) && covered_upto(pxi, pyi, i as int, 0, a, b)
                        && sprite_on(m1.mem, ii, pxi, pyi, a, b))) by {
                    if collision {
                        let (a, b) = choose|a: int, b: int|
                            pix_at(g0, wi, hi, a, b) && covered_upto(
                                pxi,
                                pyi,
                                i as int - 1,
                                8,
                                a,
                                b,
                            ) && sprite_on(m1.mem, ii, pxi, pyi, a, b);
                        assert(covered_upto(pxi, pyi, i as int, 0, a, b));
                    } else {
                        assert forall|a: int, b: int|
                            !(pix_at(g0, wi, hi, a, b) && covered_upto(pxi, pyi, i as int, 0, a, b)
                                && sprite_on(m1.mem, ii, pxi, pyi, a, b)) by {
                            assert(covered_upto(pxi, pyi, i as int, 0, a, b) == covered_upto(
                                pxi,
                                pyi,
                                i as int - 1,
                                8,
                                a,
                                b,
                            ));
                        }
                    }
                }
            }
        }

        let vf: u8 = if collision {
            1
        } else {
            0
        };
        self.set_reg(0xF, vf);

        proof {
            let post = abs(*self, *ram, *display, *keyboard, *delta, *sound);
            assert(collision == draw_collision(m1, pxi, pyi, n as int)) by {
                if collision {
                    let (a, b) = choose|a: int, b: int|
                        pix_at(g0, wi, hi, a, b) && covered_upto(pxi, pyi, n as int, 0, a, b)
                            && sprite_on(m1.mem, ii, pxi, pyi, a, b);
                    assert(covered(pxi, pyi, n as int, a, b));
                } else {
                    assert forall|a: int, b: int|
                        !(pix_at(m1.grid, wi, hi, a, b) && covered(pxi, pyi, n as int, a, b)
                            && sprite_on(m1.mem, ii, pxi, pyi, a, b)) by {
                        assert(covered(pxi, pyi, n as int, a, b) == covered_upto(
                            pxi,
                            pyi,
                            n as int,
                            0,
                            a,
                            b,
                        ));
                    }
                }
            }
            assert(post.regs =~= m1.regs.update(15, vf));
            assert forall|a: int, b: int| 0 <= a < wi && 0 <= b < hi implies pix_at(
                post.grid,
                wi,
                hi,
                a,
                b,
            ) == (pix_at(m1.grid, wi, hi, a, b) != (covered(pxi, pyi, n as int, a, b) && sprite_on(
                m1.mem,
                ii,
                pxi,
                pyi,
                a,
                b,
            ))) by {
                assert(covered(pxi, pyi, n as int, a, b) == covered_upto(
                    pxi,
                    pyi,
                    n as int,
                    0,
                    a,
                    b,
                ));
            }
        }
        Ok(())
    }

    /// The blocking key-wait: rewinds, scans for the first pressed key and
    /// latches it; advances only once the latch is set and the latched key
    /// has been released.
    fn exec_wait_key(
        &mut self,
        ram: &mut RAM,
        display: &mut Display,
        keyboard: &mut Keyboard,
        delta: &mut GenericDownTimer,
        sound: &mut GenericDownTimer,
        at: u16,
        x: u8,
        Ghost(m1): Ghost<Machine>,
    ) -> (r: Result<(), EmulatorError>)
        requires
            old(self).wf(),
            old(ram).wf(),
            old(display).wf(),
            m1 == abs(*old(self), *old(ram), *old(display), *old(keyboard), *old(delta), *old(sound)),
            x < 16,
            m1.pc == at + 2,
        ensures
            final(self).wf(),
            final(ram).wf(),
            final(display).wf(),
            final(ram).start() == old(ram).start(),
            final(self).cadence() == old(self).cadence(),
            final(self).vsync_ref().acc() == old(self).vsync_ref().acc(),
            final(self).vsync_ref().period() == old(self).vsync_ref().period(),
            final(delta).acc() == old(delta).acc(),
            final(delta).period() == old(delta).period(),
            final(sound).acc() == old(sound).acc(),
            final(sound).period() == old(sound).period(),
            wait_key_rel(
                m1,
                at,
                x as int,
                abs(
                    *final(self),
                    *final(ram),
                    *final(display),
                    *final(keyboard),
                    *final(delta),
                    *final(sound),
                ),
                r,
            ),
    {
        self.pc = self.pc - 2;

        let ghost keys0 = keyboard.mask();
        let mut found = false;
        let mut i: u8 = 0;
        while i < 16 && !found
            invariant
                old(self).wf(),
                self.wf(),
                i <= 16,
                x < 16,
                keys0 == keyboard.mask(),
                self.pc_spec() == at,
                self.index_spec() == m1.index,
                self.stack_spec() == m1.stack,
                self.state_spec() == m1.state,
                self.vsync_ref() == old(self).vsync_ref(),
                self.cadence() == old(self).cadence(),
                !found ==> self.regs_spec() == m1.regs,
                !found ==> keyboard.halting() == m1.key_halt,
                !found ==> forall|j: u16| j < i ==> !key_down(keys0, j),
                found ==> i < 16 && key_down(keys0, i as u16) && (forall|j: u16|
                    j < i ==> !key_down(keys0, j)) && self.regs_spec()
                    == m1.regs.update(x as int, i) && keyboard.halting(),
            decreases 16 - i + (if found { 0int } else { 1int }),
        {
            if keyboard.is_pressed(i) {
                self.set_reg(x, i);
                keyboard.halt();
                found = true;
            } else {
                i = i + 1;
            }
        }

        proof {
            if found {
                lemma_scan_skip(keys0, i as int);
                assert(first_pressed(keys0) == Some(i));
            } else {
                lemma_scan_skip(keys0, 16);
                assert(first_pressed(keys0) is None);
            }
        }

        if keyboard.halted() {
            let vx = self.reg[x as usize];
            if vx >= 16 {
                self.state = CpuState::HaltedOnFault;
                proof {
                    assert(abs(*self, *ram, *display, *keyboard, *delta, *sound) =~= fault(
                        Machine { pc: at, ..m1 },
                    ));
                }
                return Err(EmulatorError::InvalidKey);
            }
            if !keyboard.is_pressed(vx) {
                keyboard.resume();
                self.pc = self.pc + 2;
            }
        }

        proof {
            let post = abs(*self, *ram, *display, *keyboard, *delta, *sound);
            match first_pressed(m1.keys) {
                Some(k) => {
                    assert(post =~= (Machine {
                        pc: at,
                        regs: m1.regs.update(x as int, k),
                        key_halt: true,
                        ..m1
                    }));
                },
                None => {
                    if m1.key_halt {
                        if m1.regs[x as int] < 16 && !key_down(m1.keys, m1.regs[x as int] as u16) {
                            assert(post =~= (Machine { pc: m1.pc, key_halt: false, ..m1 }));
                        } else if m1.regs[x as int] < 16 {
                            assert(post =~= (Machine { pc: at, ..m1 }));
                        }
                    } else {
                        assert(post =~= (Machine { pc: at, ..m1 }));
                    }
                },
            }
        }
        Ok(())
    }
}


impl CPU {
    /// Drives both cadences by `delta` microseconds, then executes exactly
    /// the number of instructions the instruction cadence released,
    /// catching up rather than slowing down under host hitches.
    pub fn update(
        &mut self,
        ram: &mut RAM,
        display: &mut Display,
        keyboard: &mut Keyboard,
        delta_timer: &mut GenericDownTimer,
        sound_timer: &mut GenericDownTimer,
        delta: u64,
    )
        requires
            old(self).wf(),
            old(ram).wf(),
            old(display).wf(),
            delta <= MAX_DELTA_MICROS,
        ensures
            final(self).wf(),
            final(ram).wf(),
            final(display).wf(),
            final(ram).start() == old(ram).start(),
            final(self).cadence().period() == old(self).cadence().period(),
            final(self).cadence().acc() == (old(self).cadence().acc() + delta) % (
            old(self).cadence().period() as int),
            final(self).vsync_ref().period() == old(self).vsync_ref().period(),
            final(self).vsync_ref().acc() == (old(self).vsync_ref().acc() + delta) % (
            old(self).vsync_ref().period() as int),
            final(delta_timer).acc() == old(delta_timer).acc(),
            final(delta_timer).period() == old(delta_timer).period(),
            final(sound_timer).acc() == old(sound_timer).acc(),
            final(sound_timer).period() == old(sound_timer).period(),
            steps_rel(
                Machine {
                    vsync: ticked_value(
                        old(self).vsync_ref().value(),
                        (old(self).vsync_ref().acc() + delta) as int / (
                        old(self).vsync_ref().period() as int),
                    ),
                    ..abs(
                        *old(self),
                        *old(ram),
                        *old(display),
                        *old(keyboard),
                        *old(delta_timer),
                        *old(sound_timer),
                    )
                },
                abs(
                    *final(self),
                    *final(ram),
                    *final(display),
                    *final(keyboard),
                    *final(delta_timer),
                    *final(sound_timer),
                ),
                ((old(self).cadence().acc() + delta) as int / (
                old(self).cadence().period() as int)) as nat,
            ),
    {
        self.timer.update(delta);
        self.vsync.update(delta);

        let n = self.timer.get_ratio();
        self.timer.reset();

        let ghost m0 = abs(*self, *ram, *display, *keyboard, *delta_timer, *sound_timer);
        proof {
            assert(m0 =~= (Machine {
                vsync: ticked_value(
                    old(self).vsync_ref().value(),
                    (old(self).vsync_ref().acc() + delta) as int / (
                    old(self).vsync_ref().period() as int),
                ),
                ..abs(
                    *old(self),
                    *old(ram),
                    *old(display),
                    *old(keyboard),
                    *old(delta_timer),
                    *old(sound_timer),
                )
            }));
        }

        let mut k: u64 = 0;
        while k < n
            invariant
                k <= n,
                self.wf(),
                ram.wf(),
                display.wf(),
                ram.start() == old(ram).start(),
                self.cadence().period() == old(self).cadence().period(),
                self.cadence().acc() == (old(self).cadence().acc() + delta) % (
                old(self).cadence().period() as int),
                self.vsync_ref().period() == old(self).vsync_ref().period(),
                self.vsync_ref().acc() == (old(self).vsync_ref().acc() + delta) % (
                old(self).vsync_ref().period() as int),
                delta_timer.acc() == old(delta_timer).acc(),
                delta_timer.period() == old(delta_timer).period(),
                sound_timer.acc() == old(sound_timer).acc(),
                sound_timer.period() == old(sound_timer).period(),
                steps_rel(
                    m0,
                    abs(*self, *ram, *display, *keyboard, *delta_timer, *sound_timer),
                    k as nat,
                ),
            decreases n - k,
        {
            let ghost mid = abs(*self, *ram, *display, *keyboard, *delta_timer, *sound_timer);
            let r = self.step(ram, display, keyboard, delta_timer, sound_timer);
            proof {
                lemma_steps_rel_snoc(
                    m0,
                    mid,
                    abs(*self, *ram, *display, *keyboard, *delta_timer, *sound_timer),
                    r,
                    k as nat,
                );
            }
            k = k + 1;
        }
    }
}


/// The stack is strict last-in-first-out: a value pushed on top is the
/// first one popped, and the pop restores the stack below it.
pub proof fn lemma_stack_lifo(s: Seq<u16>, v: u16)
    ensures
        s.push(v).last() == v,
        s.push(v).drop_last() == s,
{
    assert(s.push(v).drop_last() =~= s);
}

/// XOR round-trip: drawing the same sprite twice at the same location
/// restores the prior framebuffer exactly.  The operand registers must
/// not be VF, which the first draw overwrites with the collision flag.
pub proof fn lemma_draw_round_trip(m: Machine, m1: Machine, m2: Machine, x: int, y: int, n: int)
    requires
        0 <= x < 16,
        0 <= y < 16,
        x != 15,
        y != 15,
        m.regs.len() == 16,
        m.width > 0,
        m.height > 0,
        draw_rel(m, x, y, n, m1),
        draw_rel(m1, x, y, n, m2),
    ensures
        forall|a: int, b: int|
            0 <= a < m.width as int && 0 <= b < m.height as int ==> pix_at(
                m2.grid,
                m.width as int,
                m.height as int,
                a,
                b,
            ) == pix_at(m.grid, m.width as int, m.height as int, a, b),
{
    let w = m.width as int;
    let h = m.height as int;
    let px = (m.regs[x] as int) % w;
    let py = (m.regs[y] as int) % h;
    assert(m1.regs[x] == m.regs[x] && m1.regs[y] == m.regs[y]);
    assert(m1.mem == m.mem && m1.index == m.index && m1.width == m.width && m1.height == m.height);
    assert forall|a: int, b: int| 0 <= a < w && 0 <= b < h implies pix_at(m2.grid, w, h, a, b)
        == pix_at(m.grid, w, h, a, b) by {
        assert(pix_at(m1.grid, w, h, a, b) == (pix_at(m.grid, w, h, a, b) != (covered(
            px,
            py,
            n,
            a,
            b,
        ) && sprite_on(m.mem, m.index as int, px, py, a, b))));
        assert(pix_at(m2.grid, w, h, a, b) == (pix_at(m1.grid, w, h, a, b) != (covered(
            px,
            py,
            n,
            a,
            b,
        ) && sprite_on(m.mem, m.index as int, px, py, a, b))));
    }
}

/// Drawing onto a clear region reports no collision, and redrawing the
/// identical sprite reports one, provided some sprite bit lands on an
/// in-range pixel at all.
pub proof fn lemma_draw_redraw_collides(
    m: Machine,
    m1: Machine,
    m2: Machine,
    x: int,
    y: int,
    n: int,
)
    requires
        0 <= x < 16,
        0 <= y < 16,
        x != 15,
        y != 15,
        m.regs.len() == 16,
        m.width > 0,
        m.height > 0,
        draw_rel(m, x, y, n, m1),
        draw_rel(m1, x, y, n, m2),
        forall|a: int, b: int| !pix_at(m.grid, m.width as int, m.height as int, a, b),
        exists|a: int, b: int|
            0 <= a < m.width as int && 0 <= b < m.height as int && #[trigger] covered(
                (m.regs[x] as int) % (m.width as int),
                (m.regs[y] as int) % (m.height as int),
                n,
                a,
                b,
            ) && #[trigger] sprite_on(
                m.mem,
                m.index as int,
                (m.regs[x] as int) % (m.width as int),
                (m.regs[y] as int) % (m.height as int),
                a,
                b,
            ),
    ensures
        m1.regs[15] == 0,
        m2.regs[15] == 1,
{
    let w = m.width as int;
    let h = m.height as int;
    let px = (m.regs[x] as int) % w;
    let py = (m.regs[y] as int) % h;
    assert(!draw_collision(m, px, py, n));
    assert(m1.regs[x] == m.regs[x] && m1.regs[y] == m.regs[y]);
    let (a, b) = choose|a: int, b: int|
        0 <= a < w && 0 <= b < h && #[trigger] covered(px, py, n, a, b) && #[trigger] sprite_on(
            m.mem,
            m.index as int,
            px,
            py,
            a,
            b,
        );
    assert(pix_at(m1.grid, w, h, a, b));
    assert(draw_collision(m1, px, py, n));
}

/// Hardware wraparound: the draw origin is reduced modulo the display
/// dimensions, so two origin registers congruent modulo the width (and
/// height) draw identically.
pub proof fn lemma_draw_wraparound(
    m: Machine,
    ma: Machine,
    mb: Machine,
    x: int,
    y: int,
    n: int,
    vb: u8,
)
    requires
        0 <= x < 16,
        0 <= y < 16,
        x != y,
        m.regs.len() == 16,
        m.width > 0,
        m.height > 0,
        (m.regs[x] as int) % (m.width as int) == (vb as int) % (m.width as int),
        draw_rel(m, x, y, n, ma),
        draw_rel(Machine { regs: m.regs.update(x, vb), ..m }, x, y, n, mb),
    ensures
        ma.regs[15] == mb.regs[15],
        forall|a: int, b: int|
            0 <= a < m.width as int && 0 <= b < m.height as int ==> pix_at(
                ma.grid,
                m.width as int,
                m.height as int,
                a,
                b,
            ) == pix_at(mb.grid, m.width as int, m.height as int, a, b),
{
    let w = m.width as int;
    let h = m.height as int;
    let m2 = Machine { regs: m.regs.update(x, vb), ..m };
    assert(m2.regs[y] == m.regs[y]);
    assert((m2.regs[x] as int) % w == (m.regs[x] as int) % w);
    assert(draw_collision(m2, (vb as int) % w, (m.regs[y] as int) % h, n) == draw_collision(
        m,
        (m.regs[x] as int) % w,
        (m.regs[y] as int) % h,
        n,
    ));
    let px = (m.regs[x] as int) % w;
    let py = (m.regs[y] as int) % h;
    assert forall|a: int, b: int| 0 <= a < w && 0 <= b < h implies pix_at(ma.grid, w, h, a, b)
        == pix_at(mb.grid, w, h, a, b) by {
        assert(pix_at(ma.grid, w, h, a, b) == (pix_at(m.grid, w, h, a, b) != (covered(
            px,
            py,
            n,
            a,
            b,
        ) && sprite_on(m.mem, m.index as int, px, py, a, b))));
        assert(pix_at(mb.grid, m2.width as int, m2.height as int, a, b) == (pix_at(
            m2.grid,
            m2.width as int,
            m2.height as int,
            a,
            b,
        ) != (covered(
            (m2.regs[x] as int) % (m2.width as int),
            (m2.regs[y] as int) % (m2.height as int),
            n,
            a,
            b,
        ) && sprite_on(
            m2.mem,
            m2.index as int,
            (m2.regs[x] as int) % (m2.width as int),
            (m2.regs[y] as int) % (m2.height as int),
            a,
            b,
        ))));
        assert(pix_at(mb.grid, w, h, a, b) == (pix_at(m.grid, w, h, a, b) != (covered(
            px,
            py,
            n,
            a,
            b,
        ) && sprite_on(m.mem, m.index as int, px, py, a, b))));
    }
}

} // verus!
