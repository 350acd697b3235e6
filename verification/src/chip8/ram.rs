use vstd::prelude::*;
use crate::chip8::configs::RAMConfig;
use crate::errors::EmulatorError;

verus! {

/// Number of bytes of font data preloaded at address zero.
pub const FONTSET_SIZE: usize = 80;

/// Five-byte glyphs for the sixteen hexadecimal digits.
pub const FONTSET: [u8; 80] = [
    0xF0, 0x90, 0x90, 0x90, 0xF0,
    0x20, 0x60, 0x20, 0x20, 0x70,
    0xF0, 0x10, 0xF0, 0x80, 0xF0,
    0xF0, 0x10, 0xF0, 0x10, 0xF0,
    0x90, 0x90, 0xF0, 0x10, 0x10,
    0xF0, 0x80, 0xF0, 0x10, 0xF0,
    0xF0, 0x80, 0xF0, 0x90, 0xF0,
    0xF0, 0x10, 0x20, 0x40, 0x40,
    0xF0, 0x90, 0xF0, 0x90, 0xF0,
    0xF0, 0x90, 0xF0, 0x10, 0xF0,
    0xF0, 0x90, 0xF0, 0x90, 0x90,
    0xE0, 0x90, 0xE0, 0x90, 0xE0,
    0xF0, 0x80, 0x80, 0x80, 0xF0,
    0xE0, 0x90, 0x90, 0x90, 0xE0,
    0xF0, 0x80, 0xF0, 0x80, 0xF0,
    0xF0, 0x80, 0xF0, 0x80, 0x80,
];

/// The font data as a sequence.
pub open spec fn fontset_spec() -> Seq<u8> {
    FONTSET@
}

/// The big-endian sixteen-bit word formed by `mem[a]` and `mem[a + 1]`.
pub open spec fn word_at(mem: Seq<u8>, a: int) -> u16 {
    ((mem[a] as u16) << 8u16) | (mem[a + 1] as u16)
}

/// Bounds-checked byte array with the font region preloaded and a
/// configurable ROM-load offset.
pub struct RAM {
    start: usize,
    size: usize,
    memory: Vec<u8>,
}

impl View for RAM {
    type V = Seq<u8>;

    closed spec fn view(&self) -> Seq<u8> {
        self.memory@
    }
}

impl RAM {
    /// The offset at which ROM images are loaded.
    pub closed spec fn start(self) -> usize {
        self.start
    }

    pub open spec fn wf(self) -> bool {
        &&& FONTSET_SIZE <= self@.len() <= 0xFFFF
        &&& self.start() <= self@.len()
    }

    pub fn new(config: &RAMConfig) -> (r: Self)
        requires
            config.valid(),
        ensures
            r.wf(),
            r.start() == config.start,
            r@.len() == config.size,
            r@.subrange(0, FONTSET_SIZE as int) == fontset_spec(),
            forall|i: int| FONTSET_SIZE <= i < r@.len() ==> r@[i] == 0,
    {
        let mut memory: Vec<u8> = Vec::new();
        let mut i: usize = 0;
        while i < FONTSET_SIZE
            invariant
                i <= FONTSET_SIZE,
                memory@ == fontset_spec().take(i as int),
            decreases FONTSET_SIZE - i,
        {
            memory.push(FONTSET[i]);
            proof {
                assert(memory@ == fontset_spec().take(i + 1));
            }
            i = i + 1;
        }
        proof {
            assert(memory@ == fontset_spec());
        }
        while memory.len() < config.size
            invariant
                FONTSET_SIZE <= memory@.len() <= config.size,
                memory@.subrange(0, FONTSET_SIZE as int) == fontset_spec(),
                forall|j: int| FONTSET_SIZE <= j < memory@.len() ==> memory@[j] == 0,
            decreases config.size - memory@.len(),
        {
            memory.push(0);
            proof {
                assert(memory@.subrange(0, FONTSET_SIZE as int) == fontset_spec());
            }
        }
        RAM { start: config.start, size: config.size, memory }
    }

    /// The offset at which ROM images are loaded.
    pub fn start_addr(&self) -> (r: usize)
        ensures
            r == self.start(),
    {
        self.start
    }

    /// Size of the address space in bytes.
    pub fn len(&self) -> (r: usize)
        ensures
            r == self@.len(),
    {
        self.memory.len()
    }

    /// Reads the byte at `address`, or `OutOfBounds` past the end.
    pub fn read_byte(&self, address: usize) -> (r: Result<u8, EmulatorError>)
        ensures
            r == if address < self@.len() {
                Ok::<u8, EmulatorError>(self@[address as int])
            } else {
                Err::<u8, EmulatorError>(EmulatorError::OutOfBounds)
            },
    {
        if address >= self.memory.len() {
            return Err(EmulatorError::OutOfBounds);
        }

        Ok(self.memory[address])
    }

    /// Writes the byte at `address`, or `OutOfBounds` past the end.
    pub fn write_byte(&mut self, address: usize, value: u8) -> (r: Result<(), EmulatorError>)
        ensures
            final(self).start() == old(self).start(),
            address < old(self)@.len() ==> {
                &&& r == Ok::<(), EmulatorError>(())
                &&& final(self)@ == old(self)@.update(address as int, value)
            },
            address >= old(self)@.len() ==> {
                &&& r == Err::<(), EmulatorError>(EmulatorError::OutOfBounds)
                &&& final(self)@ == old(self)@
            },
    {
        if address >= self.memory.len() {
            return Err(EmulatorError::OutOfBounds);
        }

        self.memory[address] = value;
        Ok(())
    }

    /// Reads the big-endian word at `address`, or `OutOfBounds` when even
    /// its second byte would lie past the end.
    pub fn read_word(&self, address: u16) -> (r: Result<u16, EmulatorError>)
        ensures
            r == if address as int + 1 < self@.len() {
                Ok::<u16, EmulatorError>(word_at(self@, address as int))
            } else {
                Err::<u16, EmulatorError>(EmulatorError::OutOfBounds)
            },
    {
        let a = address as usize;
        if a >= self.memory.len() || a + 1 >= self.memory.len() {
            return Err(EmulatorError::OutOfBounds);
        }

        Ok(((self.memory[a] as u16) << 8u16) | (self.memory[a + 1] as u16))
    }

    /// Copies `data` into memory starting at the load offset, or
    /// `RomTooLarge` when it does not fit; nothing is written then.
    pub fn load_rom_data(&mut self, data: &[u8]) -> (r: Result<(), EmulatorError>)
        requires
            old(self).wf(),
        ensures
            final(self).start() == old(self).start(),
            final(self)@.len() == old(self)@.len(),
            data@.len() <= old(self)@.len() - old(self).start() ==> {
                &&& r == Ok::<(), EmulatorError>(())
                &&& forall|i: int|
                    0 <= i < old(self)@.len() ==> final(self)@[i] == if old(self).start() <= i
                        < old(self).start() + data@.len() {
                        data@[i - old(self).start()]
                    } else {
                        old(self)@[i]
                    }
            },
            data@.len() > old(self)@.len() - old(self).start() ==> {
                &&& r == Err::<(), EmulatorError>(EmulatorError::RomTooLarge)
                &&& final(self)@ == old(self)@
            },
    {
        if data.len() > self.memory.len() - self.start {
            return Err(EmulatorError::RomTooLarge);
        }

        let mut i: usize = 0;
        while i < data.len()
            invariant
                old(self).wf(),
                i <= data@.len(),
                data@.len() <= old(self)@.len() - old(self).start(),
                self.start == old(self).start(),
                self.memory@.len() == old(self)@.len(),
                forall|j: int|
                    0 <= j < self.memory@.len() ==> self.memory@[j] == if old(self).start() <= j
                        < old(self).start() + i {
                        data@[j - old(self).start()]
                    } else {
                        old(self)@[j]
                    },
            decreases data@.len() - i,
        {
            self.memory[self.start + i] = data[i];
            i = i + 1;
        }
        Ok(())
    }
}

} // verus!
