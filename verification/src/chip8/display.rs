use vstd::prelude::*;
use crate::chip8::configs::DisplayConfig;

verus! {

/// True when pixel `(x, y)` of the bit-grid `grid` with `w` columns and `h`
/// rows is lit; false for out-of-range coordinates.  A pixel lives in byte
/// `(y * w + x) / 8` at bit `7 - (x % 8)`.
pub open spec fn pix_at(grid: Seq<u8>, w: int, h: int, x: int, y: int) -> bool {
    &&& 0 <= x < w
    &&& 0 <= y < h
    &&& ((grid[(y * w + x) / 8] >> ((7 - (x % 8)) as u8)) & 1) == 1
}

/// Toggling bit `b` flips exactly that bit.
proof fn lemma_bit_flip(m: u8, b: u8)
    requires
        b < 8,
    ensures
        (((m ^ (1u8 << b)) >> b) & 1 == 1) == !((m >> b) & 1 == 1),
{
    assert(b < 8 ==> ((((m ^ (1u8 << b)) >> b) & 1 == 1) == !((m >> b) & 1 == 1)))
        by (bit_vector);
}

/// Toggling bit `b` leaves every other bit alone.
proof fn lemma_bit_other(m: u8, b: u8, j: u8)
    requires
        b < 8,
        j < 8,
        j != b,
    ensures
        ((m ^ (1u8 << b)) >> j) & 1 == (m >> j) & 1,
{
    assert(b < 8 && j < 8 && j != b ==> ((m ^ (1u8 << b)) >> j) & 1 == (m >> j) & 1)
        by (bit_vector);
}

/// No bit of a zero byte is lit.
proof fn lemma_zero_bit(b: u8)
    ensures
        (0u8 >> b) & 1 == 0,
{
    assert((0u8 >> b) & 1 == 0) by (bit_vector);
}

/// With whole bytes per row, a full row occupies whole bytes, so a pixel
/// position is congruent to its column modulo eight.
proof fn lemma_row_mod(w: int, x: int, y: int)
    requires
        w % 8 == 0,
        0 <= x,
        0 <= y,
    ensures
        (y * w + x) % 8 == x % 8,
{
    vstd::arithmetic::div_mod::lemma_mul_mod_noop_general(y, w, 8);
    assert((y * w) % 8 == 0);
    vstd::arithmetic::div_mod::lemma_fundamental_div_mod(y * w, 8);
    vstd::arithmetic::div_mod::lemma_mod_multiples_vanish((y * w) / 8, x, 8);
}

/// With whole bytes per row, a pixel position determines its byte and bit
/// uniquely: two in-range pixels in the same byte at the same bit are the
/// same pixel.
proof fn lemma_pix_addr_unique(w: int, h: int, x1: int, y1: int, x2: int, y2: int)
    requires
        w % 8 == 0,
        0 <= x1 < w,
        0 <= y1 < h,
        0 <= x2 < w,
        0 <= y2 < h,
        (y1 * w + x1) / 8 == (y2 * w + x2) / 8,
        x1 % 8 == x2 % 8,
    ensures
        x1 == x2,
        y1 == y2,
{
    let p1 = y1 * w + x1;
    let p2 = y2 * w + x2;
    lemma_row_mod(w, x1, y1);
    lemma_row_mod(w, x2, y2);
    assert(p1 == 8 * (p1 / 8) + p1 % 8);
    assert(p2 == 8 * (p2 / 8) + p2 % 8);
    assert(p1 == p2);
    assert(x1 == x2 && y1 == y2) by (nonlinear_arith)
        requires
            0 <= x1 < w,
            0 <= x2 < w,
            y1 * w + x1 == y2 * w + x2,
    ;
}

/// An in-range pixel position indexes inside the grid.
proof fn lemma_pix_addr_in_grid(w: int, h: int, x: int, y: int, len: int)
    requires
        w % 8 == 0,
        8 * len == w * h,
        0 <= x < w,
        0 <= y < h,
    ensures
        0 <= (y * w + x) / 8 < len,
        0 <= 7 - ((y * w + x) % 8) <= 7,
        (y * w + x) % 8 == x % 8,
{
    lemma_row_mod(w, x, y);
    assert(0 <= y * w + x && y * w + x < w * h) by (nonlinear_arith)
        requires
            0 <= x < w,
            0 <= y < h,
    ;
    assert((y * w + x) / 8 < len) by (nonlinear_arith)
        requires
            0 <= y * w + x,
            y * w + x < w * h,
            8 * len == w * h,
    ;
}

/// Monochrome bit-grid with XOR-plot and a frame-dirty flag that is
/// consumed exclusively by the renderer.
pub struct Display {
    width: u8,
    height: u8,
    memory: Vec<u8>,
    draw_flag: bool,
}

impl View for Display {
    type V = Seq<u8>;

    closed spec fn view(&self) -> Seq<u8> {
        self.memory@
    }
}

impl Display {
    pub closed spec fn width_spec(self) -> u8 {
        self.width
    }

    pub closed spec fn height_spec(self) -> u8 {
        self.height
    }

    pub closed spec fn changed(self) -> bool {
        self.draw_flag
    }

    pub open spec fn wf(self) -> bool {
        &&& self.width_spec() > 0
        &&& self.height_spec() > 0
        &&& self.width_spec() % 8 == 0
        &&& 8 * self@.len() == self.width_spec() * self.height_spec()
    }

    /// The pixel at `(x, y)`, false out of range.
    pub open spec fn pix(self, x: int, y: int) -> bool {
        pix_at(self@, self.width_spec() as int, self.height_spec() as int, x, y)
    }

    pub fn new(config: &DisplayConfig) -> (r: Self)
        requires
            config.valid(),
        ensures
            r.wf(),
            r.width_spec() == config.width,
            r.height_spec() == config.height,
            r.changed(),
            forall|i: int| 0 <= i < r@.len() ==> r@[i] == 0,
            forall|x: int, y: int| !r.pix(x, y),
    {
        proof {
            assert((config.width as int) * (config.height as int) < 65536) by (nonlinear_arith)
                requires
                    config.width as int <= 255,
                    config.height as int <= 255,
            ;
        }
        let size = (config.width as usize * config.height as usize) / 8;
        let mut memory: Vec<u8> = Vec::new();
        while memory.len() < size
            invariant
                memory@.len() <= size,
            decreases size - memory@.len(),
        {
            memory.push(crate::rng::random_byte());
        }
        let mut result = Display {
            width: config.width,
            height: config.height,
            memory,
            draw_flag: true,
        };
        proof {
            assert(8 * (config.width as int * config.height as int / 8) == config.width as int
                * config.height as int) by (nonlinear_arith)
                requires
                    config.width as int % 8 == 0,
                    config.height >= 0,
            ;
        }
        result.clear();
        result
    }

    /// Zeroes the whole bit-grid; the dirty flag is untouched.
    pub fn clear(&mut self)
        requires
            old(self).wf(),
        ensures
            final(self).wf(),
            final(self).width_spec() == old(self).width_spec(),
            final(self).height_spec() == old(self).height_spec(),
            final(self).changed() == old(self).changed(),
            final(self)@.len() == old(self)@.len(),
            forall|i: int| 0 <= i < final(self)@.len() ==> final(self)@[i] == 0,
            forall|x: int, y: int| !final(self).pix(x, y),
    {
        let mut index: usize = 0;
        while index < self.memory.len()
            invariant
                old(self).wf(),
                index <= self.memory@.len(),
                self.memory@.len() == old(self)@.len(),
                self.width == old(self).width_spec(),
                self.height == old(self).height_spec(),
                self.draw_flag == old(self).changed(),
                forall|j: int| 0 <= j < index ==> self.memory@[j] == 0,
            decreases self.memory@.len() - index,
        {
            self.memory[index] = 0;
            index = index + 1;
        }
        proof {
            let w = self.width_spec() as int;
            let h = self.height_spec() as int;
            assert forall|x: int, y: int| !self.pix(x, y) by {
                if 0 <= x < w && 0 <= y < h {
                    lemma_pix_addr_in_grid(w, h, x, y, self@.len() as int);
                    lemma_zero_bit((7 - (x % 8)) as u8);
                }
            }
        }
    }

    /// The pixel at `(x, y)`, false for out-of-range coordinates.
    pub fn get_pixel(&self, x: u8, y: u8) -> (r: bool)
        requires
            self.wf(),
        ensures
            r == self.pix(x as int, y as int),
    {
        if x >= self.width || y >= self.height {
            return false;
        }

        proof {
            lemma_pix_addr_in_grid(
                self.width_spec() as int,
                self.height_spec() as int,
                x as int,
                y as int,
                self@.len() as int,
            );
        }
        proof {
            assert((y as int) * (self.width as int) + (x as int) < 65536) by (nonlinear_arith)
                requires
                    y as int <= 255,
                    self.width as int <= 255,
                    x as int <= 255,
            ;
        }
        let index = (y as usize * self.width as usize + x as usize) / 8;
        let bit = 7 - (x % 8);
        (self.memory[index] >> bit) & 1 == 1
    }

    /// XOR-plots the pixel at `(x, y)` when `value` is set: the hardware
    /// only clears via XOR with a set source bit.  Returns whether the
    /// pixel was set before the toggle, i.e. a collision.  No-op and false
    /// out of range or when `value` is clear.
    pub fn set_pixel(&mut self, x: u8, y: u8, value: bool) -> (r: bool)
        requires
            old(self).wf(),
        ensures
            final(self).wf(),
            final(self).width_spec() == old(self).width_spec(),
            final(self).height_spec() == old(self).height_spec(),
            final(self).changed() == old(self).changed(),
            final(self)@.len() == old(self)@.len(),
            r == (value && old(self).pix(x as int, y as int)),
            forall|a: int, b: int|
                final(self).pix(a, b) == (old(self).pix(a, b) != (value && a == x as int && b
                    == y as int && x < old(self).width_spec() && y < old(self).height_spec())),
    {
        if x >= self.width || y >= self.height || !value {
            return false;
        }

        proof {
            lemma_pix_addr_in_grid(
                self.width_spec() as int,
                self.height_spec() as int,
                x as int,
                y as int,
                self@.len() as int,
            );
        }
        proof {
            assert((y as int) * (self.width as int) + (x as int) < 65536) by (nonlinear_arith)
                requires
                    y as int <= 255,
                    self.width as int <= 255,
                    x as int <= 255,
            ;
        }
        let index = (y as usize * self.width as usize + x as usize) / 8;
        let bit = 7 - (x % 8);

        let old_value = (self.memory[index] >> bit) & 1 == 1;

        let ghost m = self.memory@[index as int];
        self.memory[index] = self.memory[index] ^ (1u8 << bit);

        proof {
            let w = self.width_spec() as int;
            let h = self.height_spec() as int;
            assert forall|a: int, b: int|
                self.pix(a, b) == (old(self).pix(a, b) != (a == x as int && b == y as int)) by {
                if 0 <= a < w && 0 <= b < h {
                    lemma_pix_addr_in_grid(w, h, a, b, self@.len() as int);
                    lemma_pix_addr_in_grid(w, h, x as int, y as int, self@.len() as int);
                    let i2 = (b * w + a) / 8;
                    let bit2 = (7 - (a % 8)) as u8;
                    if i2 == index as int {
                        if bit2 == bit {
                            lemma_pix_addr_unique(w, h, a, b, x as int, y as int);
                            lemma_bit_flip(m, bit);
                        } else {
                            lemma_bit_other(m, bit, bit2);
                            assert(a != x as int || b != y as int);
                        }
                    } else {
                        if a == x as int && b == y as int {
                            assert(false);
                        }
                    }
                }
            }
        }

        old_value
    }

    pub fn get_width(&self) -> (r: u8)
        ensures
            r == self.width_spec(),
    {
        self.width
    }

    pub fn get_height(&self) -> (r: u8)
        ensures
            r == self.height_spec(),
    {
        self.height
    }

    /// Marks the frame dirty; called by any draw.
    pub fn set_flag(&mut self)
        ensures
            final(self)@ == old(self)@,
            final(self).width_spec() == old(self).width_spec(),
            final(self).height_spec() == old(self).height_spec(),
            final(self).changed(),
    {
        self.draw_flag = true;
    }

    pub fn get_flag(&self) -> (r: bool)
        ensures
            r == self.changed(),
    {
        self.draw_flag
    }

    /// Cleared exclusively by the renderer after it has consumed a frame.
    pub fn reset_flag(&mut self)
        ensures
            final(self)@ == old(self)@,
            final(self).width_spec() == old(self).width_spec(),
            final(self).height_spec() == old(self).height_spec(),
            !final(self).changed(),
    {
        self.draw_flag = false;
    }
}


} // verus!
