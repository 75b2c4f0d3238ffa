//! CPU state and the fetch/decode machinery.
//!
//! The CPU owns the registers, the program counter, the memory, the
//! display, the keyboard and a halting-state tag for the two
//! instructions that must stall (draw-on-vblank and key-wait).  Opcodes
//! are 16-bit big-endian words fetched at the program counter; nibble
//! fields of the word select the instruction.
use crate::config::Chip8Config;
use crate::display::DisplayData;
use crate::keyboard::KeyboardState;
use crate::memory::Memory;
use crate::memory::MEMSIZE;
use crate::memory::PROG_START_ADDR;
use crate::memory::STACK_START_ADDR;
use vstd::prelude::*;

verus! {

/// Highest value the stack pointer may take: the return-address stack
/// holds 15 two-byte frames at bytes 1 through 30 of memory.
pub const STACK_TOP: u8 = 30;

/// Fatal conditions that terminate execution: they indicate that the
/// program walked into memory that holds no code, or that its call
/// stack left the reserved region.
#[derive(Clone, Copy, PartialEq, Eq, Debug)]
pub enum Chip8Error {
    /// The literal zero opcode was reached, which signals execution of
    /// uninitialised memory.
    UninitMemory,
    /// The opcode decodes into a recognised family but an unrecognised
    /// sub-selector.
    UnknownOpcode(u16),
    /// A call would push the return address past the reserved stack
    /// region.
    StackOverflow,
    /// A return was executed with no frame on the stack.
    StackUnderflow,
}

/// Halting state of the CPU (see the draw and key-wait instructions).
#[derive(Clone, Copy, PartialEq, Eq, Debug)]
pub enum HaltStatus {
    /// Normal fetch-decode-execute.
    NotHalted,
    /// A draw is pending until the next 60Hz vertical-blank signal.
    WaitingVblank,
    /// The vertical-blank signal arrived; the pending draw is performed
    /// on the next cycle.
    ExecutingDRW,
    /// A key-wait instruction is stalled on the keyboard protocol.
    WaitingFx0A,
}

#[derive(Clone, Copy, PartialEq, Eq)]
pub struct CPUState {
    /// Program counter.
    pub pc: u16,
    /// Index register, used by memory-indirect instructions.
    pub i: u16,
    /// The sixteen general-purpose registers; register 0xF is the flag
    /// register, overwritten as a side effect by many instructions.
    pub v: [u8; 16],
    /// Stack pointer: byte offset of the top of the return-address
    /// stack within memory.
    pub sp: u8,
    /// Delay timer register, decremented at 60Hz towards zero.
    pub dt: u8,
    /// Sound timer register, decremented at 60Hz towards zero.
    pub st: u8,
    pub mem: Memory,
    pub disp: DisplayData,
    pub kbstate: KeyboardState,
    pub halt_status: HaltStatus,
    /// Quirk configuration, fixed at construction.
    pub config: Chip8Config,
}

/// Truncating 16-bit addition: the program counter and the index
/// register wrap around the 16-bit space, and memory access wraps
/// addresses around the 4096-byte address space.
pub open spec fn wadd16(a: u16, b: int) -> u16 {
    (((a + b) % 0x10000) as u16)
}

/// Truncating 8-bit value of an integer, for wrapping register
/// arithmetic.
pub open spec fn wrap8(v: int) -> u8 {
    ((v % 256) as u8)
}

/// Address, within the 4096-byte space, that is `off` bytes past `a`.
pub open spec fn maddr(a: u16, off: int) -> int {
    wadd16(a, off) as int % (MEMSIZE as int)
}

/// High byte of a 16-bit word.
pub open spec fn hi16(w: u16) -> u8 {
    ((w / 256) as u8)
}

/// Low byte of a 16-bit word.
pub open spec fn lo16(w: u16) -> u8 {
    ((w % 256) as u8)
}

/// 16-bit word assembled from a big-endian byte pair.
pub open spec fn combine16(hi: u8, lo: u8) -> u16 {
    ((hi as int * 256 + lo as int) as u16)
}

/// The 16-bit big-endian opcode at the program counter.
pub open spec fn spec_opcode(s: CPUState) -> u16 {
    combine16(s.mem.spec_read(s.pc), s.mem.spec_read(wadd16(s.pc, 1)))
}

/// Address field of an opcode: its low twelve bits.
pub open spec fn s_nnn(op: u16) -> u16 {
    op & 0x0FFF
}

/// First register selector of an opcode, as an index.
pub open spec fn s_x(op: u16) -> int {
    (((op & 0x0F00) >> 8) as int)
}

/// Second register selector of an opcode, as an index.
pub open spec fn s_y(op: u16) -> int {
    (((op & 0x00F0) >> 4) as int)
}

/// Low nibble of an opcode.
pub open spec fn s_n(op: u16) -> u8 {
    ((op & 0x000F) as u8)
}

/// Low byte of an opcode.
pub open spec fn s_kk(op: u16) -> u8 {
    ((op & 0x00FF) as u8)
}

/// Bounds of the opcode fields, and exactness of the cast each exec
/// decode helper performs.
pub proof fn lemma_opcode_parts(op: u16)
    by (bit_vector)
    ensures
        (op & 0x0FFF) < 0x1000,
        ((op & 0x0F00) >> 8) < 16,
        ((op & 0x00F0) >> 4) < 16,
        ((op & 0x000F) as u8) < 16,
        (((op & 0x0F00) >> 8) as u8) as int == ((op & 0x0F00) >> 8) as int,
        (((op & 0x00F0) >> 4) as u8) as int == ((op & 0x00F0) >> 4) as int,
        ((op & 0x000F) as u8) as int == (op & 0x000F) as int,
        ((op & 0x00FF) as u8) as int == (op & 0x00FF) as int,
        (op >> 12) < 16,
{
}

/// A big-endian byte pair assembles by shift-or exactly as by
/// arithmetic.
pub proof fn lemma_be_opcode(hi: u8, lo: u8)
    by (bit_vector)
    ensures
        (((hi as u16) << 8) | (lo as u16)) as int == hi as int * 256 + lo as int,
{
}

/// Shift-and-mask byte splitting agrees with division and remainder.
pub proof fn lemma_u16_bytes(w: u16)
    by (bit_vector)
    ensures
        (w >> 8) == w / 256,
        w / 256 < 256,
        (w & 0xFF) == w % 256,
{
}

/// Single-bit shifts and masks on a byte agree with arithmetic.
pub proof fn lemma_u8_shifts(b: u8)
    by (bit_vector)
    ensures
        (b >> 1) as int == b as int / 2,
        (b & 1) as int == b as int % 2,
        ((b & 0x80) >> 7) as int == b as int / 128,
        b < 128 ==> (b << 1) as int == b as int * 2,
        b >= 128 ==> (b << 1) as int == b as int * 2 - 256,
        (b & 0xF) < 16,
{
}

/// Address field of an opcode.
pub fn nnn(opcode: u16) -> (r: u16)
    ensures
        r == s_nnn(opcode),
        r < 0x1000,
{
    proof {
        lemma_opcode_parts(opcode);
    }
    opcode & 0x0FFF
}

/// First register selector of an opcode.
pub fn x(opcode: u16) -> (r: u8)
    ensures
        r as int == s_x(opcode),
        r < 16,
{
    proof {
        lemma_opcode_parts(opcode);
    }
    ((opcode & 0x0F00) >> 8) as u8
}

/// Second register selector of an opcode.
pub fn y(opcode: u16) -> (r: u8)
    ensures
        r as int == s_y(opcode),
        r < 16,
{
    proof {
        lemma_opcode_parts(opcode);
    }
    ((opcode & 0x00F0) >> 4) as u8
}

/// Low nibble of an opcode.
pub fn n(opcode: u16) -> (r: u8)
    ensures
        r == s_n(opcode),
        r < 16,
{
    proof {
        lemma_opcode_parts(opcode);
    }
    (opcode & 0x000F) as u8
}

/// Low byte of an opcode.
pub fn kk(opcode: u16) -> (r: u8)
    ensures
        r == s_kk(opcode),
{
    proof {
        lemma_opcode_parts(opcode);
    }
    (opcode & 0x00FF) as u8
}

/// Truncating 16-bit addition, matching `wadd16`.
pub fn wrapping_add16(a: u16, b: u16) -> (r: u16)
    ensures
        r == wadd16(a, b as int),
{
    let r = a.wrapping_add(b);
    proof {
        if a + b > 0xFFFF {
            assert((a + b) % 0x10000 == a + b - 0x10000) by (nonlinear_arith)
                requires
                    0x10000 <= a + b < 0x20000,
            ;
        } else {
            assert((a + b) % 0x10000 == a + b) by (nonlinear_arith)
                requires
                    0 <= a + b < 0x10000,
            ;
        }
    }
    r
}

impl CPUState {
    /// Structural invariant: the display has its canonical size and the
    /// stack pointer stays inside the reserved stack region, on a frame
    /// boundary.
    pub open spec fn wf(&self) -> bool {
        &&& self.mem@.len() == MEMSIZE
        &&& self.disp.wf()
        &&& self.sp <= STACK_TOP
        &&& self.sp % 2 == 0
    }

    /// A CPU about to execute the program at the fixed start address,
    /// with cleared registers, timers, keyboard and halting state.
    pub fn new(mem: Memory, disp: DisplayData, config: Chip8Config) -> (r: CPUState)
        requires
            mem@.len() == MEMSIZE,
            disp.wf(),
        ensures
            r.wf(),
            r.pc == PROG_START_ADDR,
            r.i == 0,
            forall|k: int| 0 <= k < 16 ==> r.v@[k] == 0,
            r.sp == STACK_START_ADDR,
            r.dt == 0,
            r.st == 0,
            r.mem == mem,
            r.disp == disp,
            forall|k: int| 0 <= k < 16 ==> !r.kbstate.key@[k],
            r.kbstate.Fx0A == crate::keyboard::Fx0AStatus::Inactive,
            r.halt_status == HaltStatus::NotHalted,
            r.config == config,
    {
        CPUState {
            pc: PROG_START_ADDR as u16,
            i: 0,
            v: [0; 16],
            sp: STACK_START_ADDR as u8,
            dt: 0,
            st: 0,
            mem,
            disp,
            kbstate: KeyboardState::new(),
            halt_status: HaltStatus::NotHalted,
            config,
        }
    }

    /// The opcode currently addressed by the program counter.
    pub fn get_opcode(&self) -> (r: u16)
        ensures
            r == spec_opcode(*self),
    {
        let hi = self.mem.read(self.pc);
        let lo = self.mem.read(wrapping_add16(self.pc, 1));
        proof {
            lemma_be_opcode(hi, lo);
        }
        ((hi as u16) << 8) | (lo as u16)
    }

    /// Address field of the current opcode.
    pub fn d_addr(&self) -> (r: u16)
        ensures
            r == s_nnn(spec_opcode(*self)),
            r < 0x1000,
    {
        nnn(self.get_opcode())
    }

    /// Low nibble of the current opcode.
    pub fn d_n(&self) -> (r: u8)
        ensures
            r == s_n(spec_opcode(*self)),
            r < 16,
    {
        n(self.get_opcode())
    }

    /// First register selector of the current opcode.
    pub fn d_x(&self) -> (r: usize)
        ensures
            r as int == s_x(spec_opcode(*self)),
            r < 16,
    {
        x(self.get_opcode()) as usize
    }

    /// Second register selector of the current opcode.
    pub fn d_y(&self) -> (r: usize)
        ensures
            r as int == s_y(spec_opcode(*self)),
            r < 16,
    {
        y(self.get_opcode()) as usize
    }

    /// Low byte of the current opcode.
    pub fn d_kk(&self) -> (r: u8)
        ensures
            r == s_kk(spec_opcode(*self)),
    {
        kk(self.get_opcode())
    }

    /// Delivers the 60Hz vertical-blank signal: a draw that waits for
    /// the vertical blank may now execute.
    pub fn enter_vblank(&mut self)
        ensures
            *final(self) == (CPUState {
                halt_status: if old(self).halt_status == HaltStatus::WaitingVblank {
                    HaltStatus::ExecutingDRW
                } else {
                    old(self).halt_status
                },
                ..*old(self)
            }),
    {
        if let HaltStatus::WaitingVblank = self.halt_status {
            self.halt_status = HaltStatus::ExecutingDRW;
        }
    }
}

} // verus!
