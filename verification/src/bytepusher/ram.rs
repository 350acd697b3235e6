use vstd::prelude::*;
use crate::bytepusher::configs::RAMConfig;
use crate::errors::EmulatorError;

verus! {

/// The colour a palette index denotes: a web-safe 6x6x6 cube for indices
/// up to 215, black above.
pub open spec fn color_of(index: u32) -> u32 {
    if index <= 215 {
        ((((index / 36) * 0x33) as u32) << 16u32) | (((((index / 6) % 6) * 0x33) as u32) << 8u32)
            | (((index % 6) * 0x33) as u32)
    } else {
        0
    }
}

/// The twenty-four-bit big-endian value at `mem[a .. a + 3]`.
pub open spec fn triple_at(mem: Seq<u8>, a: int) -> u32 {
    ((mem[a] as u32) << 16u32) | ((mem[a + 1] as u32) << 8u32) | (mem[a + 2] as u32)
}

/// Bounds-checked byte array with a fixed palette for the display page.
pub struct RAM {
    size: usize,
    memory: Vec<u8>,
    colormap: Vec<u32>,
}

impl View for RAM {
    type V = Seq<u8>;

    closed spec fn view(&self) -> Seq<u8> {
        self.memory@
    }
}

impl RAM {
    /// The palette always holds the 256 colours of `color_of`.
    pub closed spec fn palette_wf(self) -> bool {
        &&& self.colormap@.len() == 256
        &&& forall|i: int| 0 <= i < 256 ==> self.colormap@[i] == color_of(i as u32)
    }

    pub open spec fn wf(self) -> bool {
        &&& 8 <= self@.len() <= 0x1000000
        &&& self.palette_wf()
    }

    pub fn new(config: &RAMConfig) -> (r: Self)
        requires
            config.valid(),
        ensures
            r.wf(),
            r@.len() == config.size,
            forall|i: int| 0 <= i < r@.len() ==> r@[i] == 0,
    {
        let mut colormap: Vec<u32> = Vec::new();
        let mut index: u32 = 0;
        while index < 256
            invariant
                index <= 256,
                colormap@.len() == index,
                forall|i: int| 0 <= i < index ==> colormap@[i] == color_of(i as u32),
            decreases 256 - index,
        {
            if index <= 215 {
                let r = (index / 36) * 0x33;
                let g = ((index / 6) % 6) * 0x33;
                let b = (index % 6) * 0x33;
                colormap.push(r << 16u32 | g << 8u32 | b);
            } else {
                colormap.push(0);
            }
            index = index + 1;
        }

        let mut memory: Vec<u8> = Vec::new();
        while memory.len() < config.size
            invariant
                memory@.len() <= config.size,
                forall|i: int| 0 <= i < memory@.len() ==> memory@[i] == 0,
            decreases config.size - memory@.len(),
        {
            memory.push(0);
        }
        RAM { size: config.size, memory, colormap }
    }

    /// Size of the address space in bytes.
    pub fn len(&self) -> (r: usize)
        ensures
            r == self@.len(),
    {
        self.memory.len()
    }

    /// The colour a palette index denotes.
    pub fn get_color_value(&self, index: u8) -> (r: u32)
        requires
            self.wf(),
        ensures
            r == color_of(index as u32),
    {
        self.colormap[index as usize]
    }

    /// Reads the byte at `address`, or `OutOfBounds` past the end.
    pub fn read_byte(&self, address: u32) -> (r: Result<u8, EmulatorError>)
        ensures
            r == if (address as int) < self@.len() {
                Ok::<u8, EmulatorError>(self@[address as int])
            } else {
                Err::<u8, EmulatorError>(EmulatorError::OutOfBounds)
            },
    {
        if address as usize >= self.memory.len() {
            return Err(EmulatorError::OutOfBounds);
        }

        Ok(self.memory[address as usize])
    }

    /// Writes the byte at `address`, or `OutOfBounds` past the end.
    pub fn write_byte(&mut self, address: u32, value: u8) -> (r: Result<(), EmulatorError>)
        ensures
            final(self).wf() == old(self).wf(),
            final(self)@.len() == old(self)@.len(),
            (address as int) < old(self)@.len() ==> {
                &&& r == Ok::<(), EmulatorError>(())
                &&& final(self)@ == old(self)@.update(address as int, value)
            },
            (address as int) >= old(self)@.len() ==> {
                &&& r == Err::<(), EmulatorError>(EmulatorError::OutOfBounds)
                &&& final(self)@ == old(self)@
            },
    {
        if address as usize >= self.memory.len() {
            return Err(EmulatorError::OutOfBounds);
        }

        self.memory[address as usize] = value;
        Ok(())
    }

    /// Reads the big-endian twenty-four-bit value at `address`, or
    /// `OutOfBounds` when any of its three bytes would lie past the end.
    pub fn read_triple_byte(&self, address: u32) -> (r: Result<u32, EmulatorError>)
        requires
            self.wf(),
        ensures
            r == if (address as int) + 3 <= self@.len() {
                Ok::<u32, EmulatorError>(triple_at(self@, address as int))
            } else {
                Err::<u32, EmulatorError>(EmulatorError::OutOfBounds)
            },
    {
        let a = address as usize;
        if a > usize::MAX - 3 || a + 3 > self.memory.len() {
            return Err(EmulatorError::OutOfBounds);
        }

        Ok(
            ((self.memory[a] as u32) << 16u32) | ((self.memory[a + 1] as u32) << 8u32) | (
            self.memory[a + 2] as u32),
        )
    }

    /// Copies `data` into memory starting at address zero, or
    /// `RomTooLarge` when it does not fit; nothing is written then.
    pub fn load_rom_data(&mut self, data: &[u8]) -> (r: Result<(), EmulatorError>)
        requires
            old(self).wf(),
        ensures
            final(self).wf(),
            final(self)@.len() == old(self)@.len(),
            data@.len() <= old(self)@.len() ==> {
                &&& r == Ok::<(), EmulatorError>(())
                &&& forall|i: int|
                    0 <= i < old(self)@.len() ==> final(self)@[i] == if i < data@.len() {
                        data@[i]
                    } else {
                        old(self)@[i]
                    }
            },
            data@.len() > old(self)@.len() ==> {
                &&& r == Err::<(), EmulatorError>(EmulatorError::RomTooLarge)
                &&& final(self)@ == old(self)@
            },
    {
        if data.len() > self.memory.len() {
            return Err(EmulatorError::RomTooLarge);
        }

        let mut i: usize = 0;
        while i < data.len()
            invariant
                old(self).wf(),
                i <= data@.len(),
                data@.len() <= old(self)@.len(),
                self.palette_wf() == old(self).palette_wf(),
                self.memory@.len() == old(self)@.len(),
                forall|j: int|
                    0 <= j < self.memory@.len() ==> self.memory@[j] == if 0 <= j < i {
                        data@[j]
                    } else {
                        old(self)@[j]
                    },
            decreases data@.len() - i,
        {
            self.memory[i] = data[i];
            i = i + 1;
        }
        Ok(())
    }
}

} // verus!
