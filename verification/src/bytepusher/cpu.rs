use vstd::prelude::*;
use crate::bytepusher::configs::CPUConfig;
use crate::bytepusher::keyboard::Keyboard;
use crate::bytepusher::ram::{RAM, triple_at};
use crate::errors::EmulatorError;
use crate::timers::{GenericTimer, MAX_DELTA_MICROS};

verus! {

/// One ByteByteJump instruction at `pc`: copy the byte at the source
/// address to the destination address, then jump through the third
/// operand, which is read after the copy.  `None` is a fault: an operand
/// or the instruction itself lies outside memory.
pub open spec fn bp_iter(mem: Seq<u8>, pc: u32) -> Option<(Seq<u8>, u32)> {
    if pc as int + 9 <= mem.len() {
        let src = triple_at(mem, pc as int);
        let dst = triple_at(mem, pc as int + 3);
        if (src as int) < mem.len() && (dst as int) < mem.len() {
            let mem2 = mem.update(dst as int, mem[src as int]);
            Some((mem2, triple_at(mem2, pc as int + 6)))
        } else {
            None
        }
    } else {
        None
    }
}

/// `k` sequential instructions from `(mem, pc)`.
pub open spec fn bp_steps(mem: Seq<u8>, pc: u32, k: nat) -> Option<(Seq<u8>, u32)>
    decreases k,
{
    if k == 0 {
        Some((mem, pc))
    } else {
        match bp_steps(mem, pc, (k - 1) as nat) {
            None => None,
            Some(s) => bp_iter(s.0, s.1),
        }
    }
}

/// One whole frame as the machine runs it when not halted: the program
/// counter is fetched through address two, then 65536 instructions run;
/// a fault halts with memory as the completed instructions left it.
pub open spec fn frame_rel(
    mem: Seq<u8>,
    pc: u32,
    halt: bool,
    mem2: Seq<u8>,
    pc2: u32,
    halt2: bool,
) -> bool {
    if halt {
        mem2 == mem && pc2 == pc && halt2
    } else {
        match bp_steps(mem, triple_at(mem, 2), 65536) {
            Some(s) => mem2 == s.0 && pc2 == s.1 && !halt2,
            None => halt2 && (exists|k: nat|
                k < 65536 && bp_steps(mem, triple_at(mem, 2), k) == Some((mem2, pc2))
                    && bp_iter(mem2, pc2) is None),
        }
    }
}

/// `n` sequential frames.
pub open spec fn frames_rel(
    mem: Seq<u8>,
    pc: u32,
    halt: bool,
    mem2: Seq<u8>,
    pc2: u32,
    halt2: bool,
    n: nat,
) -> bool
    decreases n,
{
    if n == 0 {
        mem2 == mem && pc2 == pc && halt2 == halt
    } else {
        exists|mm: Seq<u8>, mp: u32, mh: bool|
            frames_rel(mem, pc, halt, mm, mp, mh, (n - 1) as nat) && frame_rel(
                mm,
                mp,
                mh,
                mem2,
                pc2,
                halt2,
            )
    }
}

/// Extends a chain of frames by one more.
pub proof fn lemma_frames_rel_snoc(
    mem: Seq<u8>,
    pc: u32,
    halt: bool,
    mm: Seq<u8>,
    mp: u32,
    mh: bool,
    mem2: Seq<u8>,
    pc2: u32,
    halt2: bool,
    n: nat,
)
    requires
        frames_rel(mem, pc, halt, mm, mp, mh, n),
        frame_rel(mm, mp, mh, mem2, pc2, halt2),
    ensures
        frames_rel(mem, pc, halt, mem2, pc2, halt2, n + 1),
{
    assert(frames_rel(mem, pc, halt, mm, mp, mh, ((n + 1) - 1) as nat) && frame_rel(
        mm,
        mp,
        mh,
        mem2,
        pc2,
        halt2,
    ));
}

/// A fault at instruction `k` makes every longer run fault too.
proof fn lemma_bp_steps_fail(mem: Seq<u8>, pc: u32, k: nat, n: nat)
    requires
        k < n,
        bp_steps(mem, pc, k) is Some,
        bp_iter(bp_steps(mem, pc, k).unwrap().0, bp_steps(mem, pc, k).unwrap().1) is None,
    ensures
        bp_steps(mem, pc, n) is None,
    decreases n,
{
    if n > k + 1 {
        lemma_bp_steps_fail(mem, pc, k, (n - 1) as nat);
    }
}

/// Program counter, halt flag and the frame cadence.
pub struct CPU {
    pc: u32,
    halt_flag: bool,
    timer: GenericTimer,
}

impl CPU {
    pub closed spec fn pc_spec(self) -> u32 {
        self.pc
    }

    pub closed spec fn halted_spec(self) -> bool {
        self.halt_flag
    }

    /// The frame cadence.
    pub closed spec fn cadence(self) -> GenericTimer {
        self.timer
    }

    pub open spec fn wf(self) -> bool {
        &&& self.cadence().wf()
        &&& self.cadence().acc() < self.cadence().period()
    }

    pub fn new(config: &CPUConfig) -> (r: Self)
        requires
            config.valid(),
        ensures
            r.wf(),
            r.pc_spec() == 0,
            !r.halted_spec(),
            r.cadence().acc() == 0,
            r.cadence().period() == crate::timers::MICROS_PER_SECOND / config.timer.rate as u64,
    {
        CPU { pc: 0, halt_flag: false, timer: GenericTimer::new(&config.timer) }
    }

    pub fn halted(&self) -> (r: bool)
        ensures
            r == self.halted_spec(),
    {
        self.halt_flag
    }

    pub fn get_pc(&self) -> (r: u32)
        ensures
            r == self.pc_spec(),
    {
        self.pc
    }

    /// Runs one whole frame of 65536 instructions; a typed error reports
    /// the fault that halted the machine, with memory as the completed
    /// instructions left it.
    pub fn step(&mut self, ram: &mut RAM) -> (r: Result<(), EmulatorError>)
        requires
            old(self).wf(),
            old(ram).wf(),
            !old(self).halted_spec(),
        ensures
            final(self).wf(),
            final(ram).wf(),
            final(ram)@.len() == old(ram)@.len(),
            final(self).cadence() == old(self).cadence(),
            frame_rel(
                old(ram)@,
                old(self).pc_spec(),
                false,
                final(ram)@,
                final(self).pc_spec(),
                final(self).halted_spec(),
            ),
            r is Err <==> final(self).halted_spec(),
    {
        let ghost mem0 = ram@;
        let p0 = match ram.read_triple_byte(2) {
            Ok(v) => v,
            Err(_) => {
                proof {
                    assert(false);
                }
                0
            },
        };
        self.pc = p0;

        let mut k: u32 = 0;
        while k < 65536
            invariant
                self.wf(),
                ram.wf(),
                k <= 65536,
                mem0 == old(ram)@,
                mem0.len() == ram@.len(),
                !self.halt_flag,
                self.cadence() == old(self).cadence(),
                bp_steps(mem0, triple_at(mem0, 2), k as nat) == Some((ram@, self.pc_spec())),
            decreases 65536 - k,
        {
            if self.pc as u64 + 9 > ram.len() as u64 {
                proof {
                    assert(bp_iter(ram@, self.pc_spec()) is None);
                    lemma_bp_steps_fail(mem0, triple_at(mem0, 2), k as nat, 65536);
                }
                self.halt_flag = true;
                return Err(EmulatorError::OutOfBounds);
            }
            let src = match ram.read_triple_byte(self.pc) {
                Ok(v) => v,
                Err(_) => {
                    proof {
                        assert(false);
                    }
                    0
                },
            };
            let dst = match ram.read_triple_byte(self.pc + 3) {
                Ok(v) => v,
                Err(_) => {
                    proof {
                        assert(false);
                    }
                    0
                },
            };
            let value = match ram.read_byte(src) {
                Ok(v) => v,
                Err(e) => {
                    proof {
                        assert(bp_iter(ram@, self.pc_spec()) is None);
                        lemma_bp_steps_fail(mem0, triple_at(mem0, 2), k as nat, 65536);
                    }
                    self.halt_flag = true;
                    return Err(e);
                },
            };
            match ram.write_byte(dst, value) {
                Ok(()) => (),
                Err(e) => {
                    proof {
                        assert(bp_iter(ram@, self.pc_spec()) is None);
                        lemma_bp_steps_fail(mem0, triple_at(mem0, 2), k as nat, 65536);
                    }
                    self.halt_flag = true;
                    return Err(e);
                },
            };
            let next = match ram.read_triple_byte(self.pc + 6) {
                Ok(v) => v,
                Err(_) => {
                    proof {
                        assert(false);
                    }
                    0
                },
            };
            self.pc = next;
            k = k + 1;
        }
        Ok(())
    }

    /// Drives the frame cadence by `delta` microseconds, then runs exactly
    /// the number of frames it released, stopping once halted.
    pub fn update(&mut self, ram: &mut RAM, _keyboard: &mut Keyboard, delta: u64)
        requires
            old(self).wf(),
            old(ram).wf(),
            delta <= MAX_DELTA_MICROS,
        ensures
            *final(_keyboard) == *old(_keyboard),
            final(self).wf(),
            final(ram).wf(),
            final(ram)@.len() == old(ram)@.len(),
            final(self).cadence().period() == old(self).cadence().period(),
            final(self).cadence().acc() == (old(self).cadence().acc() + delta) % (
            old(self).cadence().period() as int),
            frames_rel(
                old(ram)@,
                old(self).pc_spec(),
                old(self).halted_spec(),
                final(ram)@,
                final(self).pc_spec(),
                final(self).halted_spec(),
                ((old(self).cadence().acc() + delta) as int / (
                old(self).cadence().period() as int)) as nat,
            ),
    {
        self.timer.update(delta);
        let n = self.timer.get_ratio();
        self.timer.reset();

        let ghost mem0 = ram@;
        let ghost pc0 = self.pc_spec();
        let ghost halt0 = self.halted_spec();

        let mut k: u64 = 0;
        while k < n
            invariant
                k <= n,
                self.wf(),
                ram.wf(),
                mem0.len() == ram@.len(),
                self.cadence().period() == old(self).cadence().period(),
                self.cadence().acc() == (old(self).cadence().acc() + delta) % (
                old(self).cadence().period() as int),
                frames_rel(
                    mem0,
                    pc0,
                    halt0,
                    ram@,
                    self.pc_spec(),
                    self.halted_spec(),
                    k as nat,
                ),
            decreases n - k,
        {
            let ghost mm = ram@;
            let ghost mp = self.pc_spec();
            let ghost mh = self.halted_spec();
            if !self.halt_flag {
                let _ = self.step(ram);
            }
            proof {
                lemma_frames_rel_snoc(
                    mem0,
                    pc0,
                    halt0,
                    mm,
                    mp,
                    mh,
                    ram@,
                    self.pc_spec(),
                    self.halted_spec(),
                    k as nat,
                );
            }
            k = k + 1;
        }
    }
}

} // verus!
