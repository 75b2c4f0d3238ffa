//! The instruction set: one handler per instruction, each proved
//! against a step relation that pins the whole machine state after the
//! instruction in terms of the state before it.
//!
//! Handlers read their operand fields from the opcode at the program
//! counter, advance the program counter by two (four for a taken
//! conditional skip), and leave it alone only for control transfers and
//! for the two instructions that stall.
#![allow(non_snake_case)]
use crate::cpu::combine16;
use crate::cpu::hi16;
use crate::cpu::lo16;
use crate::cpu::maddr;
use crate::cpu::s_kk;
use crate::cpu::s_n;
use crate::cpu::s_nnn;
use crate::cpu::s_x;
use crate::cpu::s_y;
use crate::cpu::spec_opcode;
use crate::cpu::wadd16;
use crate::cpu::wrap8;
use crate::cpu::wrapping_add16;
use crate::cpu::lemma_u16_bytes;
use crate::cpu::lemma_u8_shifts;
use crate::cpu::CPUState;
use crate::cpu::Chip8Error;
use crate::cpu::HaltStatus;
use crate::cpu::STACK_TOP;
use crate::display::DISPLAY_PIXELS;
use crate::keyboard::Fx0AStatus;
use crate::memory::FONT_LETTER_SIZE;
use crate::memory::FONT_START_ADDR;
use crate::memory::MEMSIZE;
use crate::memory::Memory;
use vstd::prelude::*;

verus! {

/// The registers are unchanged.
pub open spec fn same_v(a: CPUState, b: CPUState) -> bool {
    b.v@ == a.v@
}

/// Truncating 8-bit addition, matching `wrap8`.
pub fn wrapping_add8(a: u8, b: u8) -> (r: u8)
    ensures
        r == wrap8(a as int + b as int),
{
    let r = a.wrapping_add(b);
    proof {
        if a + b > 0xFF {
            assert((a + b) % 256 == a + b - 256) by (nonlinear_arith)
                requires
                    256 <= a + b < 512,
            ;
        } else {
            assert((a + b) % 256 == a + b) by (nonlinear_arith)
                requires
                    0 <= a + b < 256,
            ;
        }
    }
    r
}

/// Truncating 8-bit subtraction, matching `wrap8`.
pub fn wrapping_sub8(a: u8, b: u8) -> (r: u8)
    ensures
        r == wrap8(a as int - b as int),
{
    let r = a.wrapping_sub(b);
    proof {
        if a >= b {
            assert((a - b) % 256 == a - b) by (nonlinear_arith)
                requires
                    0 <= a - b < 256,
            ;
        } else {
            assert((a - b) % 256 == a - b + 256) by (nonlinear_arith)
                requires
                    -256 <= a - b < 0,
            ;
        }
    }
    r
}

/// Small addresses are their own remainder in the address space.
proof fn lemma_small_addr(a: int)
    requires
        0 <= a < MEMSIZE,
    ensures
        a % (MEMSIZE as int) == a,
{
    assert(a % (MEMSIZE as int) == a) by (nonlinear_arith)
        requires
            0 <= a < 0x1000,
    ;
}

/// SYS (any other 0nnn opcode): a call into native machine code,
/// recognised and ignored; like every non-control-transfer handler it
/// advances the program counter past itself.
pub fn op_0nnn(cpu: &mut CPUState)
    ensures
        *final(cpu) == (CPUState { pc: wadd16(old(cpu).pc, 2), ..*old(cpu) }),
{
    cpu.pc = wrapping_add16(cpu.pc, 2);
}

/// CLS: every pixel of the display is cleared.
pub open spec fn cls_step(pre: CPUState, post: CPUState) -> bool {
    &&& post.pc == wadd16(pre.pc, 2)
    &&& post.disp@.len() == DISPLAY_PIXELS
    &&& forall|i: int| 0 <= i < DISPLAY_PIXELS ==> !post.disp@[i]
    &&& post.disp.width == pre.disp.width
    &&& post.disp.height == pre.disp.height
    &&& same_v(pre, post)
    &&& post == (CPUState { pc: post.pc, disp: post.disp, ..pre })
}

/// CLS: clears the display.
pub fn op_00E0(cpu: &mut CPUState)
    requires
        old(cpu).wf(),
    ensures
        final(cpu).wf(),
        cls_step(*old(cpu), *final(cpu)),
{
    cpu.disp.clear();
    cpu.pc = wrapping_add16(cpu.pc, 2);
}

/// RET: pops the return address pushed by the matching call and resumes
/// at the instruction after that call.
pub open spec fn ret_step(pre: CPUState, post: CPUState) -> bool {
    let addr = combine16(pre.mem@[pre.sp - 1], pre.mem@[pre.sp as int]);
    &&& post.pc == wadd16(addr, 2)
    &&& post.sp == pre.sp - 2
    &&& post == (CPUState { pc: post.pc, sp: post.sp, ..pre })
}

/// RET: pops the return address from the stack.  A return with no frame
/// on the stack is fatal.
pub fn op_00EE(cpu: &mut CPUState) -> (r: Result<(), Chip8Error>)
    requires
        old(cpu).wf(),
    ensures
        final(cpu).wf(),
        old(cpu).sp >= 2 ==> r == Ok::<(), Chip8Error>(()) && ret_step(*old(cpu), *final(cpu)),
        old(cpu).sp < 2 ==> r == Err::<(), Chip8Error>(Chip8Error::StackUnderflow) && *final(cpu)
            == *old(cpu),
{
    if cpu.sp < 2 {
        return Err(Chip8Error::StackUnderflow);
    }
    let hi = cpu.mem.read((cpu.sp - 1) as u16);
    let lo = cpu.mem.read(cpu.sp as u16);
    proof {
        lemma_small_addr(cpu.sp - 1);
        lemma_small_addr(cpu.sp as int);
        crate::cpu::lemma_be_opcode(hi, lo);
    }
    let addr = ((hi as u16) << 8) | (lo as u16);
    cpu.sp = cpu.sp - 2;
    cpu.pc = wrapping_add16(addr, 2);
    Ok(())
}

/// JP nnn: the program counter is set to the address field, with no
/// auto-increment.
pub open spec fn jp_step(pre: CPUState, post: CPUState) -> bool {
    post == (CPUState { pc: s_nnn(spec_opcode(pre)), ..pre })
}

/// JP: jumps to the opcode's address field.
pub fn op_1nnn(cpu: &mut CPUState)
    requires
        old(cpu).wf(),
    ensures
        final(cpu).wf(),
        jp_step(*old(cpu), *final(cpu)),
{
    cpu.pc = cpu.d_addr();
}

/// CALL nnn: pushes the address of the call instruction itself
/// (big-endian) onto the stack and jumps to the address field.
pub open spec fn call_step(pre: CPUState, post: CPUState) -> bool {
    &&& post.sp == pre.sp + 2
    &&& post.mem@ == pre.mem@.update(pre.sp + 1, hi16(pre.pc)).update(pre.sp + 2, lo16(pre.pc))
    &&& post.pc == s_nnn(spec_opcode(pre))
    &&& post == (CPUState { pc: post.pc, sp: post.sp, mem: post.mem, ..pre })
}

/// CALL: pushes the current program counter and jumps.  A call that
/// would leave the reserved stack region is fatal.
pub fn op_2nnn(cpu: &mut CPUState) -> (r: Result<(), Chip8Error>)
    requires
        old(cpu).wf(),
    ensures
        final(cpu).wf(),
        old(cpu).sp + 2 <= STACK_TOP ==> r == Ok::<(), Chip8Error>(()) && call_step(
            *old(cpu),
            *final(cpu),
        ),
        old(cpu).sp + 2 > STACK_TOP ==> r == Err::<(), Chip8Error>(Chip8Error::StackOverflow)
            && *final(cpu) == *old(cpu),
{
    if cpu.sp > STACK_TOP - 2 {
        return Err(Chip8Error::StackOverflow);
    }
    let target = cpu.d_addr();
    let hi = (cpu.pc >> 8) as u8;
    let lo = (cpu.pc & 0xFF) as u8;
    proof {
        lemma_u16_bytes(cpu.pc);
        lemma_small_addr(cpu.sp + 1);
        lemma_small_addr(cpu.sp + 2);
    }
    cpu.sp = cpu.sp + 2;
    cpu.mem.write((cpu.sp - 1) as u16, hi);
    cpu.mem.write(cpu.sp as u16, lo);
    cpu.pc = target;
    Ok(())
}

/// Advances the program counter past the next instruction when `cond`
/// holds, else to the next instruction.
pub fn skip_next_instr_if(cpu: &mut CPUState, cond: bool)
    ensures
        *final(cpu) == (CPUState {
            pc: wadd16(old(cpu).pc, if cond {
                4
            } else {
                2
            }),
            ..*old(cpu)
        }),
{
    if cond {
        cpu.pc = wrapping_add16(cpu.pc, 4);
    } else {
        cpu.pc = wrapping_add16(cpu.pc, 2);
    }
}

/// SE Vx, kk: skips the next instruction when `v[x]` equals the
/// immediate byte.
pub open spec fn se_imm_step(pre: CPUState, post: CPUState) -> bool {
    let op = spec_opcode(pre);
    post == (CPUState {
        pc: wadd16(pre.pc, if pre.v@[s_x(op)] == s_kk(op) {
            4
        } else {
            2
        }),
        ..pre
    })
}

pub fn op_3xkk(cpu: &mut CPUState)
    requires
        old(cpu).wf(),
    ensures
        final(cpu).wf(),
        se_imm_step(*old(cpu), *final(cpu)),
{
    let c = cpu.v[cpu.d_x()] == cpu.d_kk();
    skip_next_instr_if(cpu, c);
}

/// SNE Vx, kk: skips the next instruction when `v[x]` differs from the
/// immediate byte.
pub open spec fn sne_imm_step(pre: CPUState, post: CPUState) -> bool {
    let op = spec_opcode(pre);
    post == (CPUState {
        pc: wadd16(pre.pc, if pre.v@[s_x(op)] != s_kk(op) {
            4
        } else {
            2
        }),
        ..pre
    })
}

pub fn op_4xkk(cpu: &mut CPUState)
    requires
        old(cpu).wf(),
    ensures
        final(cpu).wf(),
        sne_imm_step(*old(cpu), *final(cpu)),
{
    let c = cpu.v[cpu.d_x()] != cpu.d_kk();
    skip_next_instr_if(cpu, c);
}

/// SE Vx, Vy: skips the next instruction when the two registers are
/// equal.
pub open spec fn se_reg_step(pre: CPUState, post: CPUState) -> bool {
    let op = spec_opcode(pre);
    post == (CPUState {
        pc: wadd16(pre.pc, if pre.v@[s_x(op)] == pre.v@[s_y(op)] {
            4
        } else {
            2
        }),
        ..pre
    })
}

pub fn op_5xy0(cpu: &mut CPUState)
    requires
        old(cpu).wf(),
    ensures
        final(cpu).wf(),
        se_reg_step(*old(cpu), *final(cpu)),
{
    let c = cpu.v[cpu.d_x()] == cpu.v[cpu.d_y()];
    skip_next_instr_if(cpu, c);
}

/// SNE Vx, Vy: skips the next instruction when the two registers
/// differ.
pub open spec fn sne_reg_step(pre: CPUState, post: CPUState) -> bool {
    let op = spec_opcode(pre);
    post == (CPUState {
        pc: wadd16(pre.pc, if pre.v@[s_x(op)] != pre.v@[s_y(op)] {
            4
        } else {
            2
        }),
        ..pre
    })
}

pub fn op_9xy0(cpu: &mut CPUState)
    requires
        old(cpu).wf(),
    ensures
        final(cpu).wf(),
        sne_reg_step(*old(cpu), *final(cpu)),
{
    let c = cpu.v[cpu.d_x()] != cpu.v[cpu.d_y()];
    skip_next_instr_if(cpu, c);
}

/// LD Vx, kk: loads the immediate byte into `v[x]`.
pub open spec fn ld_imm_step(pre: CPUState, post: CPUState) -> bool {
    let op = spec_opcode(pre);
    &&& post.v@ == pre.v@.update(s_x(op), s_kk(op))
    &&& post == (CPUState { pc: wadd16(pre.pc, 2), v: post.v, ..pre })
}

pub fn op_6xkk(cpu: &mut CPUState)
    requires
        old(cpu).wf(),
    ensures
        final(cpu).wf(),
        ld_imm_step(*old(cpu), *final(cpu)),
{
    let xi = cpu.d_x();
    let k = cpu.d_kk();
    cpu.v[xi] = k;
    cpu.pc = wrapping_add16(cpu.pc, 2);
}

/// ADD Vx, kk: adds the immediate byte into `v[x]`, wrapping modulo
/// 256; the flag register is not touched.
pub open spec fn add_imm_step(pre: CPUState, post: CPUState) -> bool {
    let op = spec_opcode(pre);
    &&& post.v@ == pre.v@.update(s_x(op), wrap8(pre.v@[s_x(op)] + s_kk(op)))
    &&& post == (CPUState { pc: wadd16(pre.pc, 2), v: post.v, ..pre })
}

pub fn op_7xkk(cpu: &mut CPUState)
    requires
        old(cpu).wf(),
    ensures
        final(cpu).wf(),
        add_imm_step(*old(cpu), *final(cpu)),
{
    let xi = cpu.d_x();
    let k = cpu.d_kk();
    cpu.v[xi] = wrapping_add8(cpu.v[xi], k);
    cpu.pc = wrapping_add16(cpu.pc, 2);
}

/// LD Vx, Vy: copies `v[y]` into `v[x]`.
pub open spec fn ld_reg_step(pre: CPUState, post: CPUState) -> bool {
    let op = spec_opcode(pre);
    &&& post.v@ == pre.v@.update(s_x(op), pre.v@[s_y(op)])
    &&& post == (CPUState { pc: wadd16(pre.pc, 2), v: post.v, ..pre })
}

pub fn op_8xy0(cpu: &mut CPUState)
    requires
        old(cpu).wf(),
    ensures
        final(cpu).wf(),
        ld_reg_step(*old(cpu), *final(cpu)),
{
    let xi = cpu.d_x();
    let yi = cpu.d_y();
    cpu.v[xi] = cpu.v[yi];
    cpu.pc = wrapping_add16(cpu.pc, 2);
}

/// OR Vx, Vy: bitwise-ors `v[y]` into `v[x]`; the flag register is
/// zeroed as a side effect, as the original hardware did.
pub open spec fn or_step(pre: CPUState, post: CPUState) -> bool {
    let op = spec_opcode(pre);
    &&& post.v@ == pre.v@.update(15, 0u8).update(s_x(op), pre.v@[s_x(op)] | pre.v@[s_y(op)])
    &&& post == (CPUState { pc: wadd16(pre.pc, 2), v: post.v, ..pre })
}

pub fn op_8xy1(cpu: &mut CPUState)
    requires
        old(cpu).wf(),
    ensures
        final(cpu).wf(),
        or_step(*old(cpu), *final(cpu)),
{
    let xi = cpu.d_x();
    let yi = cpu.d_y();
    let result = cpu.v[xi] | cpu.v[yi];
    cpu.v[15] = 0;
    cpu.v[xi] = result;
    cpu.pc = wrapping_add16(cpu.pc, 2);
}

/// AND Vx, Vy: bitwise-ands `v[y]` into `v[x]`; the flag register is
/// zeroed as a side effect.
pub open spec fn and_step(pre: CPUState, post: CPUState) -> bool {
    let op = spec_opcode(pre);
    &&& post.v@ == pre.v@.update(15, 0u8).update(s_x(op), pre.v@[s_x(op)] & pre.v@[s_y(op)])
    &&& post == (CPUState { pc: wadd16(pre.pc, 2), v: post.v, ..pre })
}

pub fn op_8xy2(cpu: &mut CPUState)
    requires
        old(cpu).wf(),
    ensures
        final(cpu).wf(),
        and_step(*old(cpu), *final(cpu)),
{
    let xi = cpu.d_x();
    let yi = cpu.d_y();
    let result = cpu.v[xi] & cpu.v[yi];
    cpu.v[15] = 0;
    cpu.v[xi] = result;
    cpu.pc = wrapping_add16(cpu.pc, 2);
}

/// XOR Vx, Vy: bitwise-xors `v[y]` into `v[x]`; the flag register is
/// zeroed as a side effect.
pub open spec fn xor_step(pre: CPUState, post: CPUState) -> bool {
    let op = spec_opcode(pre);
    &&& post.v@ == pre.v@.update(15, 0u8).update(s_x(op), pre.v@[s_x(op)] ^ pre.v@[s_y(op)])
    &&& post == (CPUState { pc: wadd16(pre.pc, 2), v: post.v, ..pre })
}

pub fn op_8xy3(cpu: &mut CPUState)
    requires
        old(cpu).wf(),
    ensures
        final(cpu).wf(),
        xor_step(*old(cpu), *final(cpu)),
{
    let xi = cpu.d_x();
    let yi = cpu.d_y();
    let result = cpu.v[xi] ^ cpu.v[yi];
    cpu.v[15] = 0;
    cpu.v[xi] = result;
    cpu.pc = wrapping_add16(cpu.pc, 2);
}

/// ADD Vx, Vy: eight-bit addition with carry detection.  The sum wraps
/// into `v[x]`, then the flag register reports whether the nine-bit sum
/// exceeded 0xFF, so a flag destination is overwritten by the flag.
pub open spec fn add_reg_step(pre: CPUState, post: CPUState) -> bool {
    let op = spec_opcode(pre);
    let sum = pre.v@[s_x(op)] + pre.v@[s_y(op)];
    &&& post.v@ == pre.v@.update(s_x(op), wrap8(sum)).update(
        15,
        if sum > 0xFF {
            1u8
        } else {
            0u8
        },
    )
    &&& post == (CPUState { pc: wadd16(pre.pc, 2), v: post.v, ..pre })
}

pub fn op_8xy4(cpu: &mut CPUState)
    requires
        old(cpu).wf(),
    ensures
        final(cpu).wf(),
        add_reg_step(*old(cpu), *final(cpu)),
{
    let xi = cpu.d_x();
    let yi = cpu.d_y();
    let result = cpu.v[xi] as u16 + cpu.v[yi] as u16;
    proof {
        if result > 0xFF {
            assert(result as int % 256 == result - 256) by (nonlinear_arith)
                requires
                    256 <= result < 512,
            ;
        } else {
            assert(result as int % 256 == result as int) by (nonlinear_arith)
                requires
                    0 <= result < 256,
            ;
        }
    }
    cpu.v[xi] = if result > 0xFF {
        (result - 256) as u8
    } else {
        result as u8
    };
    cpu.v[15] = if result > 0xFF {
        1
    } else {
        0
    };
    cpu.pc = wrapping_add16(cpu.pc, 2);
}

/// Subtracts `v[b]` from `v[a]` wrapping modulo 256, and sets the flag
/// register to 1 exactly when the minuend is at least the subtrahend
/// (no borrow occurred).  The caller stores the returned difference.
pub fn sub_regs(cpu: &mut CPUState, a: usize, b: usize) -> (r: u8)
    requires
        a < 16,
        b < 16,
    ensures
        final(cpu).v@ == old(cpu).v@.update(
            15,
            if old(cpu).v@[a as int] >= old(cpu).v@[b as int] {
                1u8
            } else {
                0u8
            },
        ),
        r == wrap8(old(cpu).v@[a as int] - old(cpu).v@[b as int]),
        *final(cpu) == (CPUState { v: final(cpu).v, ..*old(cpu) }),
{
    let result = wrapping_sub8(cpu.v[a], cpu.v[b]);
    cpu.v[15] = if cpu.v[a] >= cpu.v[b] {
        1
    } else {
        0
    };
    result
}

/// SUB Vx, Vy: `v[x] - v[y]` wrapping into `v[x]`; the flag register is
/// 1 exactly when no borrow occurred (`v[x] >= v[y]`), and a flag
/// destination is overwritten by the difference.
pub open spec fn sub_step(pre: CPUState, post: CPUState) -> bool {
    let op = spec_opcode(pre);
    &&& post.v@ == pre.v@.update(
        15,
        if pre.v@[s_x(op)] >= pre.v@[s_y(op)] {
            1u8
        } else {
            0u8
        },
    ).update(s_x(op), wrap8(pre.v@[s_x(op)] - pre.v@[s_y(op)]))
    &&& post == (CPUState { pc: wadd16(pre.pc, 2), v: post.v, ..pre })
}

pub fn op_8xy5(cpu: &mut CPUState)
    requires
        old(cpu).wf(),
    ensures
        final(cpu).wf(),
        sub_step(*old(cpu), *final(cpu)),
{
    let xi = cpu.d_x();
    let yi = cpu.d_y();
    let r = sub_regs(cpu, xi, yi);
    cpu.v[xi] = r;
    cpu.pc = wrapping_add16(cpu.pc, 2);
}

/// SUBN Vx, Vy: `v[y] - v[x]` wrapping into `v[x]`; the flag register
/// is 1 exactly when no borrow occurred (`v[y] >= v[x]`).
pub open spec fn subn_step(pre: CPUState, post: CPUState) -> bool {
    let op = spec_opcode(pre);
    &&& post.v@ == pre.v@.update(
        15,
        if pre.v@[s_y(op)] >= pre.v@[s_x(op)] {
            1u8
        } else {
            0u8
        },
    ).update(s_x(op), wrap8(pre.v@[s_y(op)] - pre.v@[s_x(op)]))
    &&& post == (CPUState { pc: wadd16(pre.pc, 2), v: post.v, ..pre })
}

pub fn op_8xy7(cpu: &mut CPUState)
    requires
        old(cpu).wf(),
    ensures
        final(cpu).wf(),
        subn_step(*old(cpu), *final(cpu)),
{
    let xi = cpu.d_x();
    let yi = cpu.d_y();
    let r = sub_regs(cpu, yi, xi);
    cpu.v[xi] = r;
    cpu.pc = wrapping_add16(cpu.pc, 2);
}

/// The register a shift instruction shifts: `v[y]` under the
/// shift-source quirk, else `v[x]` itself.
pub open spec fn shift_source(pre: CPUState) -> u8 {
    let op = spec_opcode(pre);
    if pre.config.shifting_with_Vy {
        pre.v@[s_y(op)]
    } else {
        pre.v@[s_x(op)]
    }
}

/// SHR: the shift source halves into `v[x]`; the flag register
/// receives the bit shifted out (the source's lowest bit).
pub open spec fn shr_step(pre: CPUState, post: CPUState) -> bool {
    let op = spec_opcode(pre);
    let src = shift_source(pre);
    &&& post.v@ == pre.v@.update(s_x(op), (src / 2) as u8).update(15, (src % 2) as u8)
    &&& post == (CPUState { pc: wadd16(pre.pc, 2), v: post.v, ..pre })
}

pub fn op_8xy6(cpu: &mut CPUState)
    requires
        old(cpu).wf(),
    ensures
        final(cpu).wf(),
        shr_step(*old(cpu), *final(cpu)),
{
    let xi = cpu.d_x();
    let yi = cpu.d_y();
    let reg_to_shift = if cpu.config.shifting_with_Vy {
        cpu.v[yi]
    } else {
        cpu.v[xi]
    };
    proof {
        lemma_u8_shifts(reg_to_shift);
    }
    cpu.v[xi] = reg_to_shift >> 1u8;
    cpu.v[15] = reg_to_shift & 1;
    cpu.pc = wrapping_add16(cpu.pc, 2);
}

/// SHL: the shift source doubles (wrapping) into `v[x]`; the flag
/// register receives the bit shifted out (the source's highest bit).
pub open spec fn shl_step(pre: CPUState, post: CPUState) -> bool {
    let op = spec_opcode(pre);
    let src = shift_source(pre);
    &&& post.v@ == pre.v@.update(s_x(op), wrap8(src * 2)).update(15, (src / 128) as u8)
    &&& post == (CPUState { pc: wadd16(pre.pc, 2), v: post.v, ..pre })
}

pub fn op_8xyE(cpu: &mut CPUState)
    requires
        old(cpu).wf(),
    ensures
        final(cpu).wf(),
        shl_step(*old(cpu), *final(cpu)),
{
    let xi = cpu.d_x();
    let yi = cpu.d_y();
    let reg_to_shift = if cpu.config.shifting_with_Vy {
        cpu.v[yi]
    } else {
        cpu.v[xi]
    };
    proof {
        lemma_u8_shifts(reg_to_shift);
        if reg_to_shift < 128 {
            assert(reg_to_shift as int * 2 % 256 == reg_to_shift as int * 2) by (nonlinear_arith)
                requires
                    0 <= reg_to_shift as int * 2 < 256,
            ;
        } else {
            assert(reg_to_shift as int * 2 % 256 == reg_to_shift as int * 2 - 256)
                by (nonlinear_arith)
                requires
                    256 <= reg_to_shift as int * 2 < 512,
            ;
        }
    }
    cpu.v[xi] = reg_to_shift << 1u8;
    cpu.v[15] = (reg_to_shift & 0x80) >> 7u8;
    cpu.pc = wrapping_add16(cpu.pc, 2);
}

/// LD I, nnn: loads the address field into the index register.
pub open spec fn ld_i_step(pre: CPUState, post: CPUState) -> bool {
    post == (CPUState { pc: wadd16(pre.pc, 2), i: s_nnn(spec_opcode(pre)), ..pre })
}

pub fn op_Annn(cpu: &mut CPUState)
    requires
        old(cpu).wf(),
    ensures
        final(cpu).wf(),
        ld_i_step(*old(cpu), *final(cpu)),
{
    cpu.i = cpu.d_addr();
    cpu.pc = wrapping_add16(cpu.pc, 2);
}

/// JP V0, nnn: jumps to the address field plus register 0, wrapping,
/// with no auto-increment.
pub open spec fn jp_v0_step(pre: CPUState, post: CPUState) -> bool {
    post == (CPUState { pc: wadd16(s_nnn(spec_opcode(pre)), pre.v@[0] as int), ..pre })
}

pub fn op_Bnnn(cpu: &mut CPUState)
    requires
        old(cpu).wf(),
    ensures
        final(cpu).wf(),
        jp_v0_step(*old(cpu), *final(cpu)),
{
    let target = cpu.d_addr();
    cpu.pc = wrapping_add16(target, cpu.v[0] as u16);
}

/// RND Vx, kk: with random byte `b`, `v[x]` receives `b` masked by the
/// immediate byte.
pub open spec fn rnd_step(pre: CPUState, post: CPUState, b: u8) -> bool {
    let op = spec_opcode(pre);
    &&& post.v@ == pre.v@.update(s_x(op), b & s_kk(op))
    &&& post == (CPUState { pc: wadd16(pre.pc, 2), v: post.v, ..pre })
}

/// Relies on `rand::random`: a fresh uniformly distributed byte from
/// the thread-local generator.  Nothing can be promised of its value.
#[verifier::external_body]
fn random_byte() -> u8 {
    rand::random::<u8>()
}

/// Applies the random instruction's effect for the drawn byte `b`:
/// everything after the draw of randomness is deterministic and is
/// verified for every possible byte.
pub fn apply_random(cpu: &mut CPUState, b: u8)
    requires
        old(cpu).wf(),
    ensures
        final(cpu).wf(),
        rnd_step(*old(cpu), *final(cpu), b),
{
    let xi = cpu.d_x();
    let k = cpu.d_kk();
    cpu.v[xi] = b & k;
    cpu.pc = wrapping_add16(cpu.pc, 2);
}

/// RND: draws a random byte and masks it with the immediate byte.
pub fn op_Cxkk(cpu: &mut CPUState)
    requires
        old(cpu).wf(),
    ensures
        final(cpu).wf(),
        exists|b: u8| rnd_step(*old(cpu), *final(cpu), b),
{
    let b = random_byte();
    apply_random(cpu, b);
}

/// The sprite rows the draw instruction reads: `n` consecutive bytes
/// starting at the index register, addresses wrapping around the
/// address space.
pub open spec fn sprite_bytes(pre: CPUState) -> Seq<u8> {
    Seq::new(
        s_n(spec_opcode(pre)) as nat,
        |j: int| pre.mem.spec_read(wadd16(pre.i, j)),
    )
}

/// DRW, performed now: the sprite at the index register is XOR-blitted
/// at `(v[x], v[y])`, the flag register reports the collision, and the
/// CPU is left running.
pub open spec fn drw_draw_step(pre: CPUState, post: CPUState) -> bool {
    let op = spec_opcode(pre);
    let sprite = sprite_bytes(pre);
    let xo = pre.v@[s_x(op)] as int;
    let yo = pre.v@[s_y(op)] as int;
    let clip = pre.config.sprite_clipping;
    &&& crate::display::draw_rel(pre.disp@, post.disp@, sprite, xo, yo, clip)
    &&& post.disp.width == pre.disp.width
    &&& post.disp.height == pre.disp.height
    &&& post.v@ == pre.v@.update(
        15,
        if crate::display::draw_collision(pre.disp@, sprite, xo, yo, clip) {
            1u8
        } else {
            0u8
        },
    )
    &&& post.halt_status == HaltStatus::NotHalted
    &&& post == (CPUState {
        pc: wadd16(pre.pc, 2),
        v: post.v,
        disp: post.disp,
        halt_status: post.halt_status,
        ..pre
    })
}

/// DRW under the vertical-blank delay quirk: the CPU stalls, without
/// advancing the program counter, until the vertical-blank signal
/// arrives; the draw itself is deferred.
pub open spec fn drw_wait_step(pre: CPUState, post: CPUState) -> bool {
    post == (CPUState { halt_status: HaltStatus::WaitingVblank, ..pre })
}

/// DRW as dispatched: immediate, or deferred to the vertical blank.
pub open spec fn drw_step(pre: CPUState, post: CPUState) -> bool {
    if pre.config.emulate_draw_vblank_delay {
        drw_wait_step(pre, post)
    } else {
        drw_draw_step(pre, post)
    }
}

/// Performs the draw now (directly, or when the deferred draw is
/// released by the vertical blank).
pub fn draw(cpu: &mut CPUState)
    requires
        old(cpu).wf(),
    ensures
        final(cpu).wf(),
        drw_draw_step(*old(cpu), *final(cpu)),
{
    let n = cpu.d_n();
    let mut sprite: Vec<u8> = Vec::new();
    let mut j: u8 = 0;
    while j < n
        invariant
            *cpu == *old(cpu),
            old(cpu).wf(),
            j <= n,
            n == s_n(spec_opcode(*old(cpu))),
            n < 16,
            sprite@.len() == j as int,
            forall|k: int|
                0 <= k < j ==> sprite@[k] == old(cpu).mem.spec_read(wadd16(old(cpu).i, k)),
        decreases n - j,
    {
        let b = cpu.mem.read(wrapping_add16(cpu.i, j as u16));
        sprite.push(b);
        j = j + 1;
    }
    proof {
        assert(sprite@ =~= sprite_bytes(*cpu));
    }
    let xi = cpu.d_x();
    let yi = cpu.d_y();
    let xv = cpu.v[xi] as usize;
    let yv = cpu.v[yi] as usize;
    let clip = cpu.config.sprite_clipping;
    let collision = cpu.disp.draw(sprite.as_slice(), xv, yv, clip);
    cpu.v[15] = if collision {
        1
    } else {
        0
    };
    cpu.pc = wrapping_add16(cpu.pc, 2);
    cpu.halt_status = HaltStatus::NotHalted;
}

/// DRW: draws immediately, or stalls until the vertical blank when the
/// delay quirk is configured.
pub fn op_Dxyn(cpu: &mut CPUState)
    requires
        old(cpu).wf(),
    ensures
        final(cpu).wf(),
        drw_step(*old(cpu), *final(cpu)),
{
    if cpu.config.emulate_draw_vblank_delay {
        cpu.halt_status = HaltStatus::WaitingVblank;
    } else {
        draw(cpu);
    }
}

/// SKP Vx: skips the next instruction when the key named by the low
/// nibble of `v[x]` is held.
pub open spec fn skp_step(pre: CPUState, post: CPUState) -> bool {
    let op = spec_opcode(pre);
    let keyi = (pre.v@[s_x(op)] & 0xF) as int;
    post == (CPUState {
        pc: wadd16(pre.pc, if pre.kbstate.key@[keyi] {
            4
        } else {
            2
        }),
        ..pre
    })
}

pub fn op_Ex9E(cpu: &mut CPUState)
    requires
        old(cpu).wf(),
    ensures
        final(cpu).wf(),
        skp_step(*old(cpu), *final(cpu)),
{
    let xi = cpu.d_x();
    proof {
        lemma_u8_shifts(cpu.v[s_x(spec_opcode(*cpu))]);
    }
    let key = (cpu.v[xi] & 0xF) as usize;
    let c = cpu.kbstate.key[key];
    skip_next_instr_if(cpu, c);
}

/// SKNP Vx: skips the next instruction when the key named by the low
/// nibble of `v[x]` is not held.
pub open spec fn sknp_step(pre: CPUState, post: CPUState) -> bool {
    let op = spec_opcode(pre);
    let keyi = (pre.v@[s_x(op)] & 0xF) as int;
    post == (CPUState {
        pc: wadd16(pre.pc, if !pre.kbstate.key@[keyi] {
            4
        } else {
            2
        }),
        ..pre
    })
}

pub fn op_ExA1(cpu: &mut CPUState)
    requires
        old(cpu).wf(),
    ensures
        final(cpu).wf(),
        sknp_step(*old(cpu), *final(cpu)),
{
    let xi = cpu.d_x();
    proof {
        lemma_u8_shifts(cpu.v[s_x(spec_opcode(*cpu))]);
    }
    let key = (cpu.v[xi] & 0xF) as usize;
    let c = !cpu.kbstate.key[key];
    skip_next_instr_if(cpu, c);
}

/// LD Vx, DT: reads the delay timer register.
pub open spec fn ld_dt_step(pre: CPUState, post: CPUState) -> bool {
    let op = spec_opcode(pre);
    &&& post.v@ == pre.v@.update(s_x(op), pre.dt)
    &&& post == (CPUState { pc: wadd16(pre.pc, 2), v: post.v, ..pre })
}

pub fn op_Fx07(cpu: &mut CPUState)
    requires
        old(cpu).wf(),
    ensures
        final(cpu).wf(),
        ld_dt_step(*old(cpu), *final(cpu)),
{
    let xi = cpu.d_x();
    cpu.v[xi] = cpu.dt;
    cpu.pc = wrapping_add16(cpu.pc, 2);
}

/// LD Vx, K while no press-then-release cycle has completed: the CPU
/// stalls on the key-wait without advancing the program counter, and a
/// key-wait protocol round begins if none was pending.
pub open spec fn fx0a_begin_step(pre: CPUState, post: CPUState) -> bool {
    &&& post.kbstate.key@ == pre.kbstate.key@
    &&& post.kbstate.Fx0A == (if pre.kbstate.Fx0A == Fx0AStatus::Inactive {
        Fx0AStatus::WaitingForPress
    } else {
        pre.kbstate.Fx0A
    })
    &&& post == (CPUState {
        kbstate: post.kbstate,
        halt_status: HaltStatus::WaitingFx0A,
        ..pre
    })
}

/// LD Vx, K once the protocol reports a completed press-then-release:
/// the released key is stored in `v[x]`, the program counter advances,
/// and the CPU resumes.
pub open spec fn fx0a_complete_step(pre: CPUState, post: CPUState) -> bool {
    let op = spec_opcode(pre);
    &&& pre.kbstate.Fx0A matches Fx0AStatus::JustReleased(key) && post.v@ == pre.v@.update(
        s_x(op),
        key,
    )
    &&& post.kbstate.key@ == pre.kbstate.key@
    &&& post.kbstate.Fx0A == Fx0AStatus::Inactive
    &&& post == (CPUState {
        pc: wadd16(pre.pc, 2),
        v: post.v,
        kbstate: post.kbstate,
        halt_status: HaltStatus::NotHalted,
        ..pre
    })
}

/// LD Vx, K: completes on a finished press-then-release cycle, else
/// stalls.
pub open spec fn fx0a_step(pre: CPUState, post: CPUState) -> bool {
    if pre.kbstate.Fx0A is JustReleased {
        fx0a_complete_step(pre, post)
    } else {
        fx0a_begin_step(pre, post)
    }
}

/// LD Vx, K: the blocking key-wait.  Returns whether the instruction
/// retired on this call.
pub fn op_Fx0A(cpu: &mut CPUState) -> (finished: bool)
    requires
        old(cpu).wf(),
    ensures
        final(cpu).wf(),
        fx0a_step(*old(cpu), *final(cpu)),
        finished == old(cpu).kbstate.Fx0A is JustReleased,
{
    match cpu.kbstate.Fx0A {
        Fx0AStatus::Inactive => {
            cpu.kbstate.Fx0A = Fx0AStatus::WaitingForPress;
            cpu.halt_status = HaltStatus::WaitingFx0A;
            false
        },
        Fx0AStatus::WaitingForPress => {
            cpu.halt_status = HaltStatus::WaitingFx0A;
            false
        },
        Fx0AStatus::WaitingForRelease(_) => {
            cpu.halt_status = HaltStatus::WaitingFx0A;
            false
        },
        Fx0AStatus::JustReleased(key) => {
            cpu.kbstate.Fx0A = Fx0AStatus::Inactive;
            let xi = cpu.d_x();
            cpu.v[xi] = key;
            cpu.pc = wrapping_add16(cpu.pc, 2);
            cpu.halt_status = HaltStatus::NotHalted;
            true
        },
    }
}

/// LD DT, Vx: sets the delay timer register.
pub open spec fn set_dt_step(pre: CPUState, post: CPUState) -> bool {
    post == (CPUState { pc: wadd16(pre.pc, 2), dt: pre.v@[s_x(spec_opcode(pre))], ..pre })
}

pub fn op_Fx15(cpu: &mut CPUState)
    requires
        old(cpu).wf(),
    ensures
        final(cpu).wf(),
        set_dt_step(*old(cpu), *final(cpu)),
{
    let xi = cpu.d_x();
    cpu.dt = cpu.v[xi];
    cpu.pc = wrapping_add16(cpu.pc, 2);
}

/// LD ST, Vx: sets the sound timer register.
pub open spec fn set_st_step(pre: CPUState, post: CPUState) -> bool {
    post == (CPUState { pc: wadd16(pre.pc, 2), st: pre.v@[s_x(spec_opcode(pre))], ..pre })
}

pub fn op_Fx18(cpu: &mut CPUState)
    requires
        old(cpu).wf(),
    ensures
        final(cpu).wf(),
        set_st_step(*old(cpu), *final(cpu)),
{
    let xi = cpu.d_x();
    cpu.st = cpu.v[xi];
    cpu.pc = wrapping_add16(cpu.pc, 2);
}

/// ADD I, Vx: adds `v[x]` into the index register, wrapping.
pub open spec fn add_i_step(pre: CPUState, post: CPUState) -> bool {
    post == (CPUState {
        pc: wadd16(pre.pc, 2),
        i: wadd16(pre.i, pre.v@[s_x(spec_opcode(pre))] as int),
        ..pre
    })
}

pub fn op_Fx1E(cpu: &mut CPUState)
    requires
        old(cpu).wf(),
    ensures
        final(cpu).wf(),
        add_i_step(*old(cpu), *final(cpu)),
{
    let xi = cpu.d_x();
    cpu.i = wrapping_add16(cpu.i, cpu.v[xi] as u16);
    cpu.pc = wrapping_add16(cpu.pc, 2);
}

/// LD F, Vx: points the index register at the font bitmap of the
/// hexadecimal digit held in `v[x]` (its low nibble).
pub open spec fn ld_f_step(pre: CPUState, post: CPUState) -> bool {
    &&& post.i as int == FONT_START_ADDR + (pre.v@[s_x(spec_opcode(pre))] & 0xF)
        * FONT_LETTER_SIZE
    &&& post == (CPUState { pc: wadd16(pre.pc, 2), i: post.i, ..pre })
}

pub fn op_Fx29(cpu: &mut CPUState)
    requires
        old(cpu).wf(),
    ensures
        final(cpu).wf(),
        ld_f_step(*old(cpu), *final(cpu)),
{
    let xi = cpu.d_x();
    let digit = cpu.v[xi] & 0xF;
    proof {
        lemma_u8_shifts(cpu.v[s_x(spec_opcode(*cpu))]);
    }
    cpu.i = Memory::get_font_addr(digit);
    cpu.pc = wrapping_add16(cpu.pc, 2);
}

/// LD B, Vx: stores the three decimal digits of `v[x]`,
/// most-significant first, at the index register.
pub open spec fn bcd_step(pre: CPUState, post: CPUState) -> bool {
    let vx = pre.v@[s_x(spec_opcode(pre))];
    &&& post.mem@ == pre.mem@.update(maddr(pre.i, 2), (vx as int % 10) as u8).update(
        maddr(pre.i, 1),
        (vx as int / 10 % 10) as u8,
    ).update(maddr(pre.i, 0), (vx as int / 100) as u8)
    &&& post == (CPUState { pc: wadd16(pre.pc, 2), mem: post.mem, ..pre })
}

pub fn op_Fx33(cpu: &mut CPUState)
    requires
        old(cpu).wf(),
    ensures
        final(cpu).wf(),
        bcd_step(*old(cpu), *final(cpu)),
{
    let xi = cpu.d_x();
    let mut digits = cpu.v[xi];
    proof {
        assert(digits as int / 10 / 10 == digits as int / 100) by (nonlinear_arith)
            requires
                0 <= digits < 256,
        ;
        assert(digits as int / 100 % 10 == digits as int / 100) by (nonlinear_arith)
            requires
                0 <= digits < 256,
        ;
    }
    cpu.mem.write(wrapping_add16(cpu.i, 2), digits % 10);
    digits = digits / 10;
    cpu.mem.write(wrapping_add16(cpu.i, 1), digits % 10);
    digits = digits / 10;
    cpu.mem.write(wrapping_add16(cpu.i, 0), digits % 10);
    cpu.pc = wrapping_add16(cpu.pc, 2);
}

/// Memory after storing registers 0 through `j` at consecutive
/// addresses starting at `base`.
pub open spec fn mem_after_dump(m: Seq<u8>, base: u16, v: Seq<u8>, j: int) -> Seq<u8>
    decreases j + 1,
{
    if j < 0 {
        m
    } else {
        mem_after_dump(m, base, v, j - 1).update(maddr(base, j), v[j])
    }
}

/// Storing registers into memory never changes the memory's length.
pub proof fn lemma_mem_after_dump_len(m: Seq<u8>, base: u16, v: Seq<u8>, j: int)
    requires
        m.len() == MEMSIZE,
    ensures
        mem_after_dump(m, base, v, j).len() == m.len(),
    decreases j + 1,
{
    if j >= 0 {
        lemma_mem_after_dump_len(m, base, v, j - 1);
    }
}

/// Loading registers from memory never changes the register count.
pub proof fn lemma_regs_after_fill_len(v: Seq<u8>, m: Seq<u8>, base: u16, j: int)
    requires
        v.len() == 16,
        j < 16,
    ensures
        regs_after_fill(v, m, base, j).len() == v.len(),
    decreases j + 1,
{
    if j >= 0 {
        lemma_regs_after_fill_len(v, m, base, j - 1);
    }
}

/// LD [I], Vx: stores registers 0 through x at the index register; the
/// index register then advances past the stored block, as the
/// register-dump quirk prescribes.
pub open spec fn dump_step(pre: CPUState, post: CPUState) -> bool {
    let x = s_x(spec_opcode(pre));
    &&& post.mem@ == mem_after_dump(pre.mem@, pre.i, pre.v@, x)
    &&& post.i == wadd16(pre.i, x + 1)
    &&& post == (CPUState { pc: wadd16(pre.pc, 2), i: post.i, mem: post.mem, ..pre })
}

pub fn op_Fx55(cpu: &mut CPUState)
    requires
        old(cpu).wf(),
    ensures
        final(cpu).wf(),
        dump_step(*old(cpu), *final(cpu)),
{
    let xi = cpu.d_x();
    let mut j: usize = 0;
    while j <= xi
        invariant
            old(cpu).wf(),
            xi as int == s_x(spec_opcode(*old(cpu))),
            xi < 16,
            j <= xi + 1,
            cpu.mem@ == mem_after_dump(old(cpu).mem@, old(cpu).i, old(cpu).v@, j - 1),
            *cpu == (CPUState { mem: cpu.mem, ..*old(cpu) }),
        decreases xi + 1 - j,
    {
        let addr = wrapping_add16(cpu.i, j as u16);
        let val = cpu.v[j];
        cpu.mem.write(addr, val);
        j = j + 1;
    }
    proof {
        lemma_mem_after_dump_len(old(cpu).mem@, old(cpu).i, old(cpu).v@, xi as int);
    }
    cpu.i = wrapping_add16(cpu.i, xi as u16 + 1);
    cpu.pc = wrapping_add16(cpu.pc, 2);
}

/// Registers after loading registers 0 through `j` from consecutive
/// addresses starting at `base`.
pub open spec fn regs_after_fill(v: Seq<u8>, m: Seq<u8>, base: u16, j: int) -> Seq<u8>
    decreases j + 1,
{
    if j < 0 {
        v
    } else {
        regs_after_fill(v, m, base, j - 1).update(j, m[maddr(base, j)])
    }
}

/// LD Vx, [I]: loads registers 0 through x from the index register; the
/// index register then advances past the loaded block.
pub open spec fn fill_step(pre: CPUState, post: CPUState) -> bool {
    let x = s_x(spec_opcode(pre));
    &&& post.v@ == regs_after_fill(pre.v@, pre.mem@, pre.i, x)
    &&& post.i == wadd16(pre.i, x + 1)
    &&& post == (CPUState { pc: wadd16(pre.pc, 2), i: post.i, v: post.v, ..pre })
}

pub fn op_Fx65(cpu: &mut CPUState)
    requires
        old(cpu).wf(),
    ensures
        final(cpu).wf(),
        fill_step(*old(cpu), *final(cpu)),
{
    let xi = cpu.d_x();
    let mut j: usize = 0;
    while j <= xi
        invariant
            old(cpu).wf(),
            xi as int == s_x(spec_opcode(*old(cpu))),
            xi < 16,
            j <= xi + 1,
            cpu.v@ == regs_after_fill(old(cpu).v@, old(cpu).mem@, old(cpu).i, j - 1),
            *cpu == (CPUState { v: cpu.v, ..*old(cpu) }),
        decreases xi + 1 - j,
    {
        let addr = wrapping_add16(cpu.i, j as u16);
        let val = cpu.mem.read(addr);
        cpu.v[j] = val;
        j = j + 1;
    }
    cpu.i = wrapping_add16(cpu.i, xi as u16 + 1);
    cpu.pc = wrapping_add16(cpu.pc, 2);
}

/// The machine-code family (top nibble 0): clear, return, the fatal
/// zero opcode, or the ignored native call.
pub open spec fn fam0_step(pre: CPUState, post: CPUState, r: Result<(), Chip8Error>) -> bool {
    let op = spec_opcode(pre);
    if s_nnn(op) == 0x0E0 {
        r == Ok::<(), Chip8Error>(()) && cls_step(pre, post)
    } else if s_nnn(op) == 0x0EE {
        if pre.sp >= 2 {
            r == Ok::<(), Chip8Error>(()) && ret_step(pre, post)
        } else {
            r == Err::<(), Chip8Error>(Chip8Error::StackUnderflow) && post == pre
        }
    } else if s_nnn(op) == 0 {
        r == Err::<(), Chip8Error>(Chip8Error::UninitMemory) && post == pre
    } else {
        r == Ok::<(), Chip8Error>(()) && post == (CPUState { pc: wadd16(pre.pc, 2), ..pre })
    }
}

/// Dispatches the family with top nibble 0.  The literal zero opcode is
/// fatal: it signals execution of uninitialised memory.
pub fn op_0_innerlookup(cpu: &mut CPUState) -> (r: Result<(), Chip8Error>)
    requires
        old(cpu).wf(),
    ensures
        final(cpu).wf(),
        fam0_step(*old(cpu), *final(cpu), r),
{
    let a = cpu.d_addr();
    if a == 0x0E0 {
        op_00E0(cpu);
        Ok(())
    } else if a == 0x0EE {
        op_00EE(cpu)
    } else if a == 0 {
        Err(Chip8Error::UninitMemory)
    } else {
        op_0nnn(cpu);
        Ok(())
    }
}

/// The arithmetic/logic family (top nibble 8), selected by the low
/// nibble; an unrecognised selector is fatal.
pub open spec fn fam8_step(pre: CPUState, post: CPUState, r: Result<(), Chip8Error>) -> bool {
    let sub = s_n(spec_opcode(pre));
    if sub == 0 {
        r == Ok::<(), Chip8Error>(()) && ld_reg_step(pre, post)
    } else if sub == 1 {
        r == Ok::<(), Chip8Error>(()) && or_step(pre, post)
    } else if sub == 2 {
        r == Ok::<(), Chip8Error>(()) && and_step(pre, post)
    } else if sub == 3 {
        r == Ok::<(), Chip8Error>(()) && xor_step(pre, post)
    } else if sub == 4 {
        r == Ok::<(), Chip8Error>(()) && add_reg_step(pre, post)
    } else if sub == 5 {
        r == Ok::<(), Chip8Error>(()) && sub_step(pre, post)
    } else if sub == 6 {
        r == Ok::<(), Chip8Error>(()) && shr_step(pre, post)
    } else if sub == 7 {
        r == Ok::<(), Chip8Error>(()) && subn_step(pre, post)
    } else if sub == 0xE {
        r == Ok::<(), Chip8Error>(()) && shl_step(pre, post)
    } else {
        r == Err::<(), Chip8Error>(Chip8Error::UnknownOpcode(spec_opcode(pre))) && post == pre
    }
}

/// Dispatches the arithmetic/logic family on the low nibble.
pub fn op_8_innerlookup(cpu: &mut CPUState) -> (r: Result<(), Chip8Error>)
    requires
        old(cpu).wf(),
    ensures
        final(cpu).wf(),
        fam8_step(*old(cpu), *final(cpu), r),
{
    match cpu.d_n() {
        0 => {
            op_8xy0(cpu);
            Ok(())
        },
        1 => {
            op_8xy1(cpu);
            Ok(())
        },
        2 => {
            op_8xy2(cpu);
            Ok(())
        },
        3 => {
            op_8xy3(cpu);
            Ok(())
        },
        4 => {
            op_8xy4(cpu);
            Ok(())
        },
        5 => {
            op_8xy5(cpu);
            Ok(())
        },
        6 => {
            op_8xy6(cpu);
            Ok(())
        },
        7 => {
            op_8xy7(cpu);
            Ok(())
        },
        0xE => {
            op_8xyE(cpu);
            Ok(())
        },
        _ => Err(Chip8Error::UnknownOpcode(cpu.get_opcode())),
    }
}

/// The key-skip family (top nibble E), selected by the low byte; an
/// unrecognised selector is fatal.
pub open spec fn famE_step(pre: CPUState, post: CPUState, r: Result<(), Chip8Error>) -> bool {
    let sub = s_kk(spec_opcode(pre));
    if sub == 0x9E {
        r == Ok::<(), Chip8Error>(()) && skp_step(pre, post)
    } else if sub == 0xA1 {
        r == Ok::<(), Chip8Error>(()) && sknp_step(pre, post)
    } else {
        r == Err::<(), Chip8Error>(Chip8Error::UnknownOpcode(spec_opcode(pre))) && post == pre
    }
}

/// Dispatches the key-skip family on the low byte.
pub fn op_E_innerlookup(cpu: &mut CPUState) -> (r: Result<(), Chip8Error>)
    requires
        old(cpu).wf(),
    ensures
        final(cpu).wf(),
        famE_step(*old(cpu), *final(cpu), r),
{
    match cpu.d_kk() {
        0x9E => {
            op_Ex9E(cpu);
            Ok(())
        },
        0xA1 => {
            op_ExA1(cpu);
            Ok(())
        },
        _ => Err(Chip8Error::UnknownOpcode(cpu.get_opcode())),
    }
}

/// The timer/keyboard/memory family (top nibble F), selected by the
/// low byte; an unrecognised selector is fatal.
pub open spec fn famF_step(pre: CPUState, post: CPUState, r: Result<(), Chip8Error>) -> bool {
    let sub = s_kk(spec_opcode(pre));
    if sub == 0x07 {
        r == Ok::<(), Chip8Error>(()) && ld_dt_step(pre, post)
    } else if sub == 0x0A {
        r == Ok::<(), Chip8Error>(()) && fx0a_step(pre, post)
    } else if sub == 0x15 {
        r == Ok::<(), Chip8Error>(()) && set_dt_step(pre, post)
    } else if sub == 0x18 {
        r == Ok::<(), Chip8Error>(()) && set_st_step(pre, post)
    } else if sub == 0x1E {
        r == Ok::<(), Chip8Error>(()) && add_i_step(pre, post)
    } else if sub == 0x29 {
        r == Ok::<(), Chip8Error>(()) && ld_f_step(pre, post)
    } else if sub == 0x33 {
        r == Ok::<(), Chip8Error>(()) && bcd_step(pre, post)
    } else if sub == 0x55 {
        r == Ok::<(), Chip8Error>(()) && dump_step(pre, post)
    } else if sub == 0x65 {
        r == Ok::<(), Chip8Error>(()) && fill_step(pre, post)
    } else {
        r == Err::<(), Chip8Error>(Chip8Error::UnknownOpcode(spec_opcode(pre))) && post == pre
    }
}

/// Dispatches the timer/keyboard/memory family on the low byte.
pub fn op_F_innerlookup(cpu: &mut CPUState) -> (r: Result<(), Chip8Error>)
    requires
        old(cpu).wf(),
    ensures
        final(cpu).wf(),
        famF_step(*old(cpu), *final(cpu), r),
{
    match cpu.d_kk() {
        0x07 => {
            op_Fx07(cpu);
            Ok(())
        },
        0x0A => {
            op_Fx0A(cpu);
            Ok(())
        },
        0x15 => {
            op_Fx15(cpu);
            Ok(())
        },
        0x18 => {
            op_Fx18(cpu);
            Ok(())
        },
        0x1E => {
            op_Fx1E(cpu);
            Ok(())
        },
        0x29 => {
            op_Fx29(cpu);
            Ok(())
        },
        0x33 => {
            op_Fx33(cpu);
            Ok(())
        },
        0x55 => {
            op_Fx55(cpu);
            Ok(())
        },
        0x65 => {
            op_Fx65(cpu);
            Ok(())
        },
        _ => Err(Chip8Error::UnknownOpcode(cpu.get_opcode())),
    }
}

/// One decoded instruction, dispatched on the top nibble of the opcode
/// at the program counter: the whole machine state after the
/// instruction, and when the result is instead a fatal error, in terms
/// of the state before it.
pub open spec fn instr_step(pre: CPUState, post: CPUState, r: Result<(), Chip8Error>) -> bool {
    let op = spec_opcode(pre);
    let fam = op >> 12;
    if fam == 0 {
        fam0_step(pre, post, r)
    } else if fam == 1 {
        r == Ok::<(), Chip8Error>(()) && jp_step(pre, post)
    } else if fam == 2 {
        if pre.sp + 2 <= STACK_TOP {
            r == Ok::<(), Chip8Error>(()) && call_step(pre, post)
        } else {
            r == Err::<(), Chip8Error>(Chip8Error::StackOverflow) && post == pre
        }
    } else if fam == 3 {
        r == Ok::<(), Chip8Error>(()) && se_imm_step(pre, post)
    } else if fam == 4 {
        r == Ok::<(), Chip8Error>(()) && sne_imm_step(pre, post)
    } else if fam == 5 {
        r == Ok::<(), Chip8Error>(()) && se_reg_step(pre, post)
    } else if fam == 6 {
        r == Ok::<(), Chip8Error>(()) && ld_imm_step(pre, post)
    } else if fam == 7 {
        r == Ok::<(), Chip8Error>(()) && add_imm_step(pre, post)
    } else if fam == 8 {
        fam8_step(pre, post, r)
    } else if fam == 9 {
        r == Ok::<(), Chip8Error>(()) && sne_reg_step(pre, post)
    } else if fam == 0xA {
        r == Ok::<(), Chip8Error>(()) && ld_i_step(pre, post)
    } else if fam == 0xB {
        r == Ok::<(), Chip8Error>(()) && jp_v0_step(pre, post)
    } else if fam == 0xC {
        r == Ok::<(), Chip8Error>(()) && exists|b: u8| rnd_step(pre, post, b)
    } else if fam == 0xD {
        r == Ok::<(), Chip8Error>(()) && drw_step(pre, post)
    } else if fam == 0xE {
        famE_step(pre, post, r)
    } else {
        famF_step(pre, post, r)
    }
}

/// One `run_cycle` call: in a halted state the cycle either no-ops or
/// performs exactly the deferred action; otherwise one instruction is
/// decoded and executed.  `Ok(true)` reports that a real instruction
/// retired on this call.
pub open spec fn cycle_step(pre: CPUState, post: CPUState, r: Result<bool, Chip8Error>) -> bool {
    match pre.halt_status {
        HaltStatus::WaitingVblank => r == Ok::<bool, Chip8Error>(false) && post == pre,
        HaltStatus::ExecutingDRW => r == Ok::<bool, Chip8Error>(true) && drw_draw_step(pre, post),
        HaltStatus::WaitingFx0A => if pre.kbstate.Fx0A is JustReleased {
            r == Ok::<bool, Chip8Error>(true) && fx0a_complete_step(pre, post)
        } else {
            r == Ok::<bool, Chip8Error>(false) && fx0a_begin_step(pre, post)
        },
        HaltStatus::NotHalted => match r {
            Ok(b) => instr_step(pre, post, Ok(())) && b == (post.halt_status
                is NotHalted),
            Err(e) => instr_step(pre, post, Err(e)),
        },
    }
}

/// Writing a register and reading it back returns the written value:
/// after a register load, the written register holds exactly the
/// immediate, and every other register keeps its value.
pub proof fn lemma_register_write_read(pre: CPUState, post: CPUState)
    requires
        pre.wf(),
        ld_imm_step(pre, post),
    ensures
        post.v@[s_x(spec_opcode(pre))] == s_kk(spec_opcode(pre)),
        forall|k: int| 0 <= k < 16 && k != s_x(spec_opcode(pre)) ==> post.v@[k] == pre.v@[k],
{
    crate::cpu::lemma_opcode_parts(spec_opcode(pre));
}

/// The flag register reflects the additive carry: after ADD Vx, Vy
/// with a non-flag destination it is 1 exactly when the nine-bit sum
/// exceeded 0xFF.
pub proof fn lemma_flag_after_add(pre: CPUState, post: CPUState)
    requires
        pre.wf(),
        add_reg_step(pre, post),
    ensures
        post.v@[15] == (if pre.v@[s_x(spec_opcode(pre))] + pre.v@[s_y(spec_opcode(pre))] > 0xFF {
            1u8
        } else {
            0u8
        }),
{
    crate::cpu::lemma_opcode_parts(spec_opcode(pre));
}

/// The flag register reflects the subtractive borrow: after SUB Vx, Vy
/// with a non-flag destination it is 1 exactly when the minuend was at
/// least the subtrahend, and the difference wraps modulo 256.
pub proof fn lemma_flag_after_sub(pre: CPUState, post: CPUState)
    requires
        pre.wf(),
        sub_step(pre, post),
        s_x(spec_opcode(pre)) != 15,
    ensures
        post.v@[15] == (if pre.v@[s_x(spec_opcode(pre))] >= pre.v@[s_y(spec_opcode(pre))] {
            1u8
        } else {
            0u8
        }),
        post.v@[s_x(spec_opcode(pre))] == wrap8(
            pre.v@[s_x(spec_opcode(pre))] - pre.v@[s_y(spec_opcode(pre))],
        ),
{
    crate::cpu::lemma_opcode_parts(spec_opcode(pre));
}

/// A call followed immediately by a return resumes at the instruction
/// after the call, with the stack pointer restored: the return address
/// pushed big-endian reassembles to exactly the caller's program
/// counter.
pub proof fn lemma_call_then_ret(s0: CPUState, s1: CPUState, s2: CPUState)
    requires
        s0.wf(),
        s0.sp + 2 <= STACK_TOP,
        call_step(s0, s1),
        ret_step(s1, s2),
    ensures
        s2.pc == wadd16(s0.pc, 2),
        s2.sp == s0.sp,
{
    assert(s1.mem@[s0.sp + 1] == hi16(s0.pc) && s1.mem@[s0.sp + 2] == lo16(s0.pc));
    assert(s0.pc as int == (s0.pc as int / 256) * 256 + s0.pc as int % 256) by (nonlinear_arith);
    assert(s0.pc as int / 256 < 256) by (nonlinear_arith)
        requires
            0 <= s0.pc && s0.pc < 0x10000,
    ;
    assert(combine16(hi16(s0.pc), lo16(s0.pc)) == s0.pc);
}

impl CPUState {
    /// Decodes and executes the instruction at the program counter,
    /// regardless of the halting state.
    pub fn run_instr(&mut self) -> (r: Result<(), Chip8Error>)
        requires
            old(self).wf(),
        ensures
            final(self).wf(),
            instr_step(*old(self), *final(self), r),
    {
        let op = self.get_opcode();
        proof {
            crate::cpu::lemma_opcode_parts(op);
        }
        match op >> 12 {
            0 => op_0_innerlookup(self),
            1 => {
                op_1nnn(self);
                Ok(())
            },
            2 => op_2nnn(self),
            3 => {
                op_3xkk(self);
                Ok(())
            },
            4 => {
                op_4xkk(self);
                Ok(())
            },
            5 => {
                op_5xy0(self);
                Ok(())
            },
            6 => {
                op_6xkk(self);
                Ok(())
            },
            7 => {
                op_7xkk(self);
                Ok(())
            },
            8 => op_8_innerlookup(self),
            9 => {
                op_9xy0(self);
                Ok(())
            },
            0xA => {
                op_Annn(self);
                Ok(())
            },
            0xB => {
                op_Bnnn(self);
                Ok(())
            },
            0xC => {
                op_Cxkk(self);
                Ok(())
            },
            0xD => {
                op_Dxyn(self);
                Ok(())
            },
            0xE => op_E_innerlookup(self),
            _ => op_F_innerlookup(self),
        }
    }

    /// One machine cycle: dispatches on the halting state, executing an
    /// instruction only when the CPU is not stalled.  Returns whether a
    /// real instruction retired, or the fatal condition reached.
    pub fn run_cycle(&mut self) -> (r: Result<bool, Chip8Error>)
        requires
            old(self).wf(),
        ensures
            final(self).wf(),
            cycle_step(*old(self), *final(self), r),
    {
        match self.halt_status {
            HaltStatus::WaitingVblank => Ok(false),
            HaltStatus::ExecutingDRW => {
                draw(self);
                Ok(true)
            },
            HaltStatus::WaitingFx0A => {
                let finished = op_Fx0A(self);
                Ok(finished)
            },
            HaltStatus::NotHalted => {
                match self.run_instr() {
                    Ok(()) => Ok(matches!(self.halt_status, HaltStatus::NotHalted)),
                    Err(e) => Err(e),
                }
            },
        }
    }
}

} // verus!
