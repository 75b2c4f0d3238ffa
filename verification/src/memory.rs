//! Flat 4096-byte address space of the machine.
//!
//! The low region holds the call stack (32 bytes) followed by the font
//! glyph table (16 glyphs of 5 bytes each); the loaded program begins at
//! address 0x200.  All addressing is taken modulo the size of the address
//! space, so every read and write is total.
use vstd::prelude::*;

verus! {

/// Size of the address space and of the backing store.
pub const MEMSIZE: usize = 0x1000;

/// Address at which a loaded program image begins.
pub const PROG_START_ADDR: usize = 0x200;

/// First byte of the in-memory return-address stack.
pub const STACK_START_ADDR: usize = 0x000;

/// Bytes reserved for the return-address stack.
pub const STACK_SIZE: usize = 0x10 * 2;

/// First byte of the font glyph table.
pub const FONT_START_ADDR: usize = STACK_START_ADDR + STACK_SIZE;

/// Bytes per font glyph: one 4x5 bitmap row per byte.
pub const FONT_LETTER_SIZE: usize = 5;

/// 4x5 bitmaps for the sixteen hexadecimal digits, five bytes each.
pub const FONT_DATA: [u8; 80] = [
    0xF0, 0x90, 0x90, 0x90, 0xF0,
    0x20, 0x60, 0x20, 0x20, 0x70,
    0xF0, 0x10, 0xF0, 0x80, 0xF0,
    0xF0, 0x10, 0xF0, 0x10, 0xF0,
    0x90, 0x90, 0xF0, 0x10, 0x10,
    0xF0, 0x80, 0xF0, 0x10, 0xF0,
    0xF0, 0x80, 0xF0, 0x90, 0xF0,
    0xF0, 0x10, 0x20, 0x40, 0x40,
    0xF0, 0x90, 0xF0, 0x90, 0xF0,
    0xF0, 0x90, 0xF0, 0x10, 0xF0,
    0xF0, 0x90, 0xF0, 0x90, 0x90,
    0xE0, 0x90, 0xE0, 0x90, 0xE0,
    0xF0, 0x80, 0x80, 0x80, 0xF0,
    0xE0, 0x90, 0x90, 0x90, 0xE0,
    0xF0, 0x80, 0xF0, 0x80, 0xF0,
    0xF0, 0x80, 0xF0, 0x80, 0x80,
];

#[derive(Clone, Copy, PartialEq, Eq, Debug)]
pub struct Memory {
    mem: [u8; MEMSIZE],
}

impl View for Memory {
    type V = Seq<u8>;

    closed spec fn view(&self) -> Seq<u8> {
        self.mem@
    }
}

impl Memory {
    /// Value of the byte at `addr`, with the address taken modulo the
    /// size of the address space.
    pub open spec fn spec_read(&self, addr: u16) -> u8 {
        self@[addr as int % (MEMSIZE as int)]
    }

    /// A store holding the font table, the program image at
    /// `PROG_START_ADDR`, and zero everywhere else.
    pub fn with_prog(program: &[u8]) -> (r: Memory)
        requires
            program@.len() <= MEMSIZE - PROG_START_ADDR,
        ensures
            r@.len() == MEMSIZE,
            forall|k: int|
                0 <= k < 80 ==> r@[FONT_START_ADDR + k] == FONT_DATA@[k],
            forall|j: int|
                0 <= j < program@.len() ==> r@[PROG_START_ADDR + j] == program@[j],
            forall|a: int|
                0 <= a < MEMSIZE && !(FONT_START_ADDR <= a < FONT_START_ADDR + 80)
                    && !(PROG_START_ADDR <= a < PROG_START_ADDR + program@.len()) ==> r@[a] == 0,
    {
        let mut mem = Memory { mem: [0; MEMSIZE] };
        mem.load_fonts();
        mem.load_program_default(program);
        mem
    }

    pub fn read(&self, addr: u16) -> (r: u8)
        ensures
            r == self.spec_read(addr),
    {
        self.mem[(addr as usize) % MEMSIZE]
    }

    pub fn write(&mut self, addr: u16, val: u8)
        ensures
            final(self)@ == old(self)@.update(addr as int % (MEMSIZE as int), val),
    {
        self.mem[(addr as usize) % MEMSIZE] = val;
    }

    /// The whole backing store, for read-only inspection.
    pub fn slice(&self) -> (r: &[u8])
        ensures
            r@ == self@,
    {
        self.mem.as_slice()
    }

    /// Copies `program` into memory starting at `start`; every other byte
    /// keeps its value.  An image that does not fit is a fatal load error,
    /// excluded by the precondition.
    pub fn load_program(&mut self, program: &[u8], start: usize)
        requires
            start + program@.len() <= MEMSIZE,
        ensures
            final(self)@.len() == MEMSIZE,
            forall|j: int|
                0 <= j < program@.len() ==> final(self)@[start + j] == program@[j],
            forall|a: int|
                0 <= a < MEMSIZE && !(start <= a < start + program@.len())
                    ==> final(self)@[a] == old(self)@[a],
    {
        let mut j: usize = 0;
        while j < program.len()
            invariant
                j <= program@.len(),
                start + program@.len() <= MEMSIZE,
                self@.len() == MEMSIZE,
                forall|k: int| 0 <= k < j ==> self@[start + k] == program@[k],
                forall|a: int|
                    0 <= a < MEMSIZE && !(start <= a < start + program@.len())
                        ==> self@[a] == old(self)@[a],
                forall|a: int|
                    start + j <= a < start + program@.len() ==> self@[a] == old(self)@[a],
            decreases program@.len() - j,
        {
            self.mem[start + j] = program[j];
            j = j + 1;
        }
    }

    /// Copies `program` to the fixed program start address.
    pub fn load_program_default(&mut self, program: &[u8])
        requires
            program@.len() <= MEMSIZE - PROG_START_ADDR,
        ensures
            final(self)@.len() == MEMSIZE,
            forall|j: int|
                0 <= j < program@.len() ==> final(self)@[PROG_START_ADDR + j] == program@[j],
            forall|a: int|
                0 <= a < MEMSIZE && !(PROG_START_ADDR <= a < PROG_START_ADDR + program@.len())
                    ==> final(self)@[a] == old(self)@[a],
    {
        self.load_program(program, PROG_START_ADDR);
    }

    /// Writes the font glyph table at its fixed address; every other byte
    /// keeps its value.
    pub fn load_fonts(&mut self)
        ensures
            final(self)@.len() == MEMSIZE,
            forall|k: int|
                0 <= k < 80 ==> final(self)@[FONT_START_ADDR + k] == FONT_DATA@[k],
            forall|a: int|
                0 <= a < MEMSIZE && !(FONT_START_ADDR <= a < FONT_START_ADDR + 80)
                    ==> final(self)@[a] == old(self)@[a],
    {
        let mut k: usize = 0;
        while k < 80
            invariant
                k <= 80,
                self@.len() == MEMSIZE,
                forall|j: int| 0 <= j < k ==> self@[FONT_START_ADDR + j] == FONT_DATA@[j],
                forall|a: int|
                    0 <= a < MEMSIZE && !(FONT_START_ADDR <= a < FONT_START_ADDR + k)
                        ==> self@[a] == old(self)@[a],
            decreases 80 - k,
        {
            self.mem[FONT_START_ADDR + k] = FONT_DATA[k];
            k = k + 1;
        }
    }

    /// Base address of the 5-byte font bitmap for a hexadecimal digit.
    pub fn get_font_addr(num: u8) -> (r: u16)
        ensures
            r == FONT_START_ADDR + num * FONT_LETTER_SIZE,
    {
        FONT_START_ADDR as u16 + (num as u16) * (FONT_LETTER_SIZE as u16)
    }
}

} // verus!
