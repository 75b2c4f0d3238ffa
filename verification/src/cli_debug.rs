//! Formatted snapshots of a running CPU, for a debugger front end: the
//! next three opcodes disassembled, then a register dump.  Every
//! character of the output is pinned as a function of the CPU state.
use crate::cpu::combine16;
use crate::cpu::spec_opcode;
use crate::cpu::wadd16;
use crate::cpu::wrapping_add16;
use crate::cpu::CPUState;
use crate::disassembler::dis_text;
use crate::disassembler::disassemble_opcode;
use crate::disassembler::hex_chars;
use crate::disassembler::hex_digit_str;
use crate::disassembler::hex_string_u16;
use crate::disassembler::is_known_opcode;
use crate::disassembler::unknown_text;
use vstd::prelude::*;

verus! {

/// A disassembly's `Ok` and `Err` texts are equally printable; this
/// returns whichever the result holds.
pub fn unwrap_ok_or_err(r: Result<String, String>) -> (s: String)
    ensures
        r matches Ok(v) ==> s == v,
        r matches Err(v) ==> s == v,
{
    match r {
        Ok(v) => v,
        Err(v) => v,
    }
}

/// One listing line: an address, then the mnemonic of the opcode there
/// or its unknown-word diagnostic.
pub open spec fn fmt_opcode_text(addr: u16, op: u16) -> Seq<char> {
    hex_chars(addr as int) + " - "@ + (if is_known_opcode(op) {
        dis_text(op)
    } else {
        unknown_text(op)
    })
}

/// One listing line: an address and the mnemonic (or diagnostic) of
/// the opcode there.
pub fn fmt_opcode(addr: u16, opcode: u16) -> (s: String)
    ensures
        s@ == fmt_opcode_text(addr, opcode),
{
    let mut s = hex_string_u16(addr);
    s.append(" - ");
    let d = disassemble_opcode(opcode);
    s.append(unwrap_ok_or_err(d).as_str());
    proof {
        assert(s@ =~= fmt_opcode_text(addr, opcode));
    }
    s
}

/// The 16-bit big-endian word at an arbitrary address.
pub open spec fn spec_opcode_at(cpu: CPUState, addr: u16) -> u16 {
    combine16(cpu.mem.spec_read(addr), cpu.mem.spec_read(wadd16(addr, 1)))
}

fn opcode_at(cpu: &CPUState, addr: u16) -> (r: u16)
    ensures
        r == spec_opcode_at(*cpu, addr),
{
    let hi = cpu.mem.read(addr);
    let lo = cpu.mem.read(wrapping_add16(addr, 1));
    proof {
        crate::cpu::lemma_be_opcode(hi, lo);
    }
    ((hi as u16) << 8) | (lo as u16)
}

/// `n` space characters.
pub open spec fn spaces(n: int) -> Seq<char>
    decreases n,
{
    if n <= 0 {
        Seq::empty()
    } else {
        spaces(n - 1).push(' ')
    }
}

/// `t` padded with spaces on the right up to width `w` (or `t` itself
/// when it is already that wide).
pub open spec fn padded(t: Seq<char>, w: int) -> Seq<char> {
    t + spaces(w - t.len())
}

/// The larger of three widths.
pub open spec fn max3(a: int, b: int, c: int) -> int {
    if b > a {
        if c > b {
            c
        } else {
            b
        }
    } else {
        if c > a {
            c
        } else {
            a
        }
    }
}

/// Appends `t` to `s`, then pads with spaces up to `width` characters.
fn append_padded(s: &mut String, t: &String, width: usize)
    ensures
        final(s)@ == old(s)@ + padded(t@, width as int),
{
    s.append(t.as_str());
    let mut l = t.as_str().unicode_len();
    let ghost t0 = t@.len() as int;
    proof {
        assert(s@ =~= old(s)@ + t@ + spaces(0));
    }
    while l < width
        invariant
            l >= t0,
            l <= width || l == t0,
            s@ == old(s)@ + t@ + spaces(l - t0),
        decreases width - l,
    {
        s.append(" ");
        proof {
            reveal_strlit(" ");
            assert(s@ =~= old(s)@ + t@ + spaces(l + 1 - t0));
        }
        l = l + 1;
    }
    proof {
        assert(s@ =~= old(s)@ + padded(t@, width as int));
    }
}

/// One register entry of the dump: `V`, the register's index, a colon,
/// its value in hexadecimal, and a space.
pub open spec fn reg_entry_text(i: int, val: u8) -> Seq<char> {
    "V"@ + hex_chars(i) + ": "@ + hex_chars(val as int) + " "@
}

/// The first `i` register entries of the dump, in order.
pub open spec fn regs_text(v: Seq<u8>, i: int) -> Seq<char>
    decreases i,
{
    if i <= 0 {
        Seq::empty()
    } else {
        regs_text(v, i - 1) + reg_entry_text(i - 1, v[i - 1])
    }
}

/// The full register dump: the sixteen registers, then the program
/// counter, index register, stack pointer and the two timer registers,
/// all in hexadecimal.
pub open spec fn reg_dump_text(s: CPUState) -> Seq<char> {
    regs_text(s.v@, 16) + "\nPC: "@ + hex_chars(s.pc as int) + " I: "@ + hex_chars(s.i as int)
        + " SP: "@ + hex_chars(s.sp as int) + " DT: "@ + hex_chars(s.dt as int) + " ST: "@
        + hex_chars(s.st as int)
}

/// The full debugger snapshot: the current opcode and the two after
/// it, disassembled, boxed and padded to a common width, then the
/// register dump.
pub open spec fn snapshot_text(cpu: CPUState) -> Seq<char> {
    let l1 = fmt_opcode_text(cpu.pc, spec_opcode_at(cpu, cpu.pc));
    let l2 = fmt_opcode_text(wadd16(cpu.pc, 2), spec_opcode_at(cpu, wadd16(cpu.pc, 2)));
    let l3 = fmt_opcode_text(wadd16(cpu.pc, 4), spec_opcode_at(cpu, wadd16(cpu.pc, 4)));
    let w = max3(l1.len() as int, l2.len() as int, l3.len() as int);
    "-> |"@ + padded(l1, w) + "|\n   |"@ + padded(l2, w) + "|\n   |"@ + padded(l3, w) + "|"@
        + "\n"@ + reg_dump_text(cpu)
}

/// A formatted snapshot for a stepping debugger: the current opcode
/// and the two after it, disassembled and boxed, then the register
/// dump.
pub fn debug_state(cpu: &CPUState) -> (s: String)
    ensures
        s@ == snapshot_text(*cpu),
{
    let pc2 = wrapping_add16(cpu.pc, 2);
    let pc4 = wrapping_add16(cpu.pc, 4);
    let op1 = cpu.get_opcode();
    proof {
        assert(op1 == spec_opcode_at(*cpu, cpu.pc));
    }
    let opcode1 = fmt_opcode(cpu.pc, op1);
    let opcode2 = fmt_opcode(pc2, opcode_at(cpu, pc2));
    let opcode3 = fmt_opcode(pc4, opcode_at(cpu, pc4));
    let w1 = opcode1.as_str().unicode_len();
    let w2 = opcode2.as_str().unicode_len();
    let w3 = opcode3.as_str().unicode_len();
    let mut width = w1;
    if w2 > width {
        width = w2;
    }
    if w3 > width {
        width = w3;
    }
    let mut s = String::from_str("-> |");
    append_padded(&mut s, &opcode1, width);
    s.append("|\n   |");
    append_padded(&mut s, &opcode2, width);
    s.append("|\n   |");
    append_padded(&mut s, &opcode3, width);
    s.append("|");
    s.append("\n");
    let regs = cpu.debug_state();
    s.append(regs.as_str());
    proof {
        assert(s@ =~= snapshot_text(*cpu));
    }
    s
}

impl CPUState {
    /// The sixteen registers, then the program counter, index register,
    /// stack pointer and the two timer registers, in hexadecimal.
    pub fn debug_state(&self) -> (s: String)
        ensures
            s@ == reg_dump_text(*self),
    {
        let mut s = String::new();
        let mut i: u8 = 0;
        proof {
            assert(s@ =~= regs_text(self.v@, 0));
        }
        while i < 16
            invariant
                i <= 16,
                s@ == regs_text(self.v@, i as int),
            decreases 16 - i,
        {
            s.append("V");
            s.append(hex_digit_str(i));
            s.append(": ");
            s.append(hex_string_u16(self.v[i as usize] as u16).as_str());
            s.append(" ");
            proof {
                assert(s@ =~= regs_text(self.v@, i as int + 1));
            }
            i = i + 1;
        }
        s.append("\nPC: ");
        s.append(hex_string_u16(self.pc).as_str());
        s.append(" I: ");
        s.append(hex_string_u16(self.i).as_str());
        s.append(" SP: ");
        s.append(hex_string_u16(self.sp as u16).as_str());
        s.append(" DT: ");
        s.append(hex_string_u16(self.dt as u16).as_str());
        s.append(" ST: ");
        s.append(hex_string_u16(self.st as u16).as_str());
        proof {
            assert(s@ =~= reg_dump_text(*self));
        }
        s
    }
}

} // verus!
