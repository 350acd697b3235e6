use vstd::prelude::*;

verus! {

/// True when bit `key` of the sixteen-key bitmap `mask` is set.
pub open spec fn key_down(mask: u16, key: u16) -> bool {
    (mask >> key) & 1 == 1
}

/// Setting bit `k` leaves every other bit alone and sets bit `k`.
pub proof fn lemma_key_down_set(m: u16, k: u16, j: u16)
    requires
        k < 16,
        j < 16,
    ensures
        key_down(m | (1u16 << k), j) == (j == k || key_down(m, j)),
{
    assert(k < 16 && j < 16 ==> (((m | (1u16 << k)) >> j) & 1 == 1) == (j == k || ((m >> j) & 1
        == 1))) by (bit_vector);
}

/// Clearing bit `k` leaves every other bit alone and clears bit `k`.
pub proof fn lemma_key_down_clear(m: u16, k: u16, j: u16)
    requires
        k < 16,
        j < 16,
    ensures
        key_down(m & !(1u16 << k), j) == (j != k && key_down(m, j)),
{
    assert(k < 16 && j < 16 ==> (((m & !(1u16 << k)) >> j) & 1 == 1) == (j != k && ((m >> j) & 1
        == 1))) by (bit_vector);
}

/// Sixteen-key bitmap with a halt latch; the latch is used only by the
/// CPU's blocking key-wait opcode to resume across ticks.
pub struct Keyboard {
    keys: u16,
    halting: bool,
}

impl Keyboard {
    /// The pressed-key bitmap, one bit per key.
    pub closed spec fn mask(self) -> u16 {
        self.keys
    }

    /// The halt latch.
    pub closed spec fn halting(self) -> bool {
        self.halting
    }

    pub fn new() -> (r: Self)
        ensures
            r.mask() == 0,
            !r.halting(),
    {
        Keyboard { keys: 0, halting: false }
    }

    /// Callers validate `key < 16`; this component does not.
    pub fn is_pressed(&self, key: u8) -> (r: bool)
        requires
            key < 16,
        ensures
            r == key_down(self.mask(), key as u16),
    {
        (self.keys >> (key as u16)) & 1 == 1
    }

    pub fn press(&mut self, key: u8)
        requires
            key < 16,
        ensures
            final(self).halting() == old(self).halting(),
            final(self).mask() == old(self).mask() | (1u16 << (key as u16)),
    {
        self.keys = self.keys | (1u16 << (key as u16));
    }

    pub fn release(&mut self, key: u8)
        requires
            key < 16,
        ensures
            final(self).halting() == old(self).halting(),
            final(self).mask() == old(self).mask() & !(1u16 << (key as u16)),
    {
        self.keys = self.keys & !(1u16 << (key as u16));
    }

    /// Latches the key-wait: the CPU saw a pressed key.
    pub fn halt(&mut self)
        ensures
            final(self).mask() == old(self).mask(),
            final(self).halting(),
    {
        self.halting = true;
    }

    /// Clears the key-wait latch: the latched key was released.
    pub fn resume(&mut self)
        ensures
            final(self).mask() == old(self).mask(),
            !final(self).halting(),
    {
        self.halting = false;
    }

    pub fn halted(&self) -> (r: bool)
        ensures
            r == self.halting(),
    {
        self.halting
    }
}

} // verus!
