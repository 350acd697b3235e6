use vstd::prelude::*;

verus! {

/// Sixteen-key bitmap with a halt latch, mirroring the layout the
/// BytePusher frame page expects.
pub struct Keyboard {
    keys: u16,
    halting: bool,
}

impl Keyboard {
    /// The pressed-key bitmap, one bit per key.
    pub closed spec fn mask(self) -> u16 {
        self.keys
    }

    /// The halt latch.
    pub closed spec fn halting(self) -> bool {
        self.halting
    }

    pub fn new() -> (r: Self)
        ensures
            r.mask() == 0,
            !r.halting(),
    {
        Keyboard { keys: 0, halting: false }
    }

    /// Callers validate `key < 16`; this component does not.
    pub fn is_pressed(&self, key: u8) -> (r: bool)
        requires
            key < 16,
        ensures
            r == crate::chip8::keyboard::key_down(self.mask(), key as u16),
    {
        (self.keys >> (key as u16)) & 1 == 1
    }

    pub fn press(&mut self, key: u8)
        requires
            key < 16,
        ensures
            final(self).halting() == old(self).halting(),
            final(self).mask() == old(self).mask() | (1u16 << (key as u16)),
    {
        self.keys = self.keys | (1u16 << (key as u16));
    }

    pub fn release(&mut self, key: u8)
        requires
            key < 16,
        ensures
            final(self).halting() == old(self).halting(),
            final(self).mask() == old(self).mask() & !(1u16 << (key as u16)),
    {
        self.keys = self.keys & !(1u16 << (key as u16));
    }

    pub fn halt(&mut self)
        ensures
            final(self).mask() == old(self).mask(),
            final(self).halting(),
    {
        self.halting = true;
    }

    pub fn resume(&mut self)
        ensures
            final(self).mask() == old(self).mask(),
            !final(self).halting(),
    {
        self.halting = false;
    }

    pub fn halted(&self) -> (r: bool)
        ensures
            r == self.halting(),
    {
        self.halting
    }
}

} // verus!
