//! Pure opcode-to-mnemonic mapping, for non-interactive inspection.
//!
//! A 16-bit word that matches no known instruction pattern is reported
//! as a textual diagnostic rather than a fatal error, since it may
//! legitimately be embedded data rather than code.
use crate::cpu::combine16;
use crate::cpu::kk;
use crate::cpu::n;
use crate::cpu::nnn;
use crate::cpu::s_kk;
use crate::cpu::s_n;
use crate::cpu::s_nnn;
use crate::cpu::s_x;
use crate::cpu::s_y;
use crate::cpu::x;
use crate::cpu::y;
use crate::cpu::lemma_opcode_parts;
use crate::memory::MEMSIZE;
use crate::memory::PROG_START_ADDR;
use vstd::prelude::*;

verus! {

/// The sixteen hexadecimal digit characters, uppercase.
pub open spec fn hex_char(d: int) -> char {
    if d == 0 {
        '0'
    } else if d == 1 {
        '1'
    } else if d == 2 {
        '2'
    } else if d == 3 {
        '3'
    } else if d == 4 {
        '4'
    } else if d == 5 {
        '5'
    } else if d == 6 {
        '6'
    } else if d == 7 {
        '7'
    } else if d == 8 {
        '8'
    } else if d == 9 {
        '9'
    } else if d == 10 {
        'A'
    } else if d == 11 {
        'B'
    } else if d == 12 {
        'C'
    } else if d == 13 {
        'D'
    } else if d == 14 {
        'E'
    } else {
        'F'
    }
}

/// Uppercase hexadecimal digits of `v`, without leading zeros.
pub open spec fn hex_chars(v: int) -> Seq<char>
    decreases v,
{
    if v < 16 {
        seq![hex_char(v)]
    } else {
        hex_chars(v / 16).push(hex_char(v % 16))
    }
}

/// One hexadecimal digit as text.
pub fn hex_digit_str(d: u8) -> (r: &'static str)
    requires
        d < 16,
    ensures
        r@ =~= seq![hex_char(d as int)],
{
    proof {
        reveal_strlit("0");
        reveal_strlit("1");
        reveal_strlit("2");
        reveal_strlit("3");
        reveal_strlit("4");
        reveal_strlit("5");
        reveal_strlit("6");
        reveal_strlit("7");
        reveal_strlit("8");
        reveal_strlit("9");
        reveal_strlit("A");
        reveal_strlit("B");
        reveal_strlit("C");
        reveal_strlit("D");
        reveal_strlit("E");
        reveal_strlit("F");
    }
    match d {
        0 => "0",
        1 => "1",
        2 => "2",
        3 => "3",
        4 => "4",
        5 => "5",
        6 => "6",
        7 => "7",
        8 => "8",
        9 => "9",
        10 => "A",
        11 => "B",
        12 => "C",
        13 => "D",
        14 => "E",
        _ => "F",
    }
}

/// `v` written in uppercase hexadecimal without leading zeros.
pub fn hex_string_u16(v: u16) -> (r: String)
    ensures
        r@ == hex_chars(v as int),
    decreases v,
{
    if v < 16 {
        let s = String::from_str(hex_digit_str(v as u8));
        proof {
            assert(s@ =~= hex_chars(v as int));
        }
        s
    } else {
        let mut s = hex_string_u16(v / 16);
        proof {
            assert((v % 16) < 16) by (nonlinear_arith);
            assert(v % 16 >= 0);
        }
        s.append(hex_digit_str((v % 16) as u8));
        proof {
            assert(s@ =~= hex_chars(v as int));
        }
        s
    }
}

/// Whether the nibbles of `opcode` match a pattern: the top nibble must
/// equal `n1`, and each given `Some` constrains the following nibble.
pub open spec fn spec_matches_opcode(
    opcode: u16,
    n1: u8,
    n2: Option<u8>,
    n3: Option<u8>,
    n4: Option<u8>,
) -> bool {
    &&& (opcode >> 12) == n1
    &&& (n2 matches Some(v) ==> ((opcode & 0x0F00) >> 8) == v)
    &&& (n3 matches Some(v) ==> ((opcode & 0x00F0) >> 4) == v)
    &&& (n4 matches Some(v) ==> (opcode & 0x000F) == v)
}

/// Checks an opcode against a nibble pattern.
pub fn matches_opcode(opcode: u16, n1: u8, n2: Option<u8>, n3: Option<u8>, n4: Option<u8>) -> (r:
    bool)
    ensures
        r == spec_matches_opcode(opcode, n1, n2, n3, n4),
{
    proof {
        lemma_opcode_parts(opcode);
    }
    if (opcode >> 12) as u8 != n1 {
        return false;
    }
    if let Some(v) = n2 {
        if v as u16 != ((opcode & 0x0F00) >> 8) {
            return false;
        }
    }
    if let Some(v) = n3 {
        if v as u16 != ((opcode & 0x00F0) >> 4) {
            return false;
        }
    }
    if let Some(v) = n4 {
        if v as u16 != (opcode & 0x000F) {
            return false;
        }
    }
    true
}

/// Whether a 16-bit word matches some known instruction pattern.
pub open spec fn is_known_opcode(op: u16) -> bool {
    ||| op == 0x00E0
    ||| op == 0x00EE
    ||| (op >> 12) == 1
    ||| (op >> 12) == 2
    ||| (op >> 12) == 3
    ||| (op >> 12) == 4
    ||| ((op >> 12) == 5 && s_n(op) == 0)
    ||| (op >> 12) == 6
    ||| (op >> 12) == 7
    ||| ((op >> 12) == 8 && (s_n(op) <= 7 || s_n(op) == 0xE))
    ||| ((op >> 12) == 9 && s_n(op) == 0)
    ||| (op >> 12) == 0xA
    ||| (op >> 12) == 0xB
    ||| (op >> 12) == 0xC
    ||| (op >> 12) == 0xD
    ||| ((op >> 12) == 0xE && (s_kk(op) == 0x9E || s_kk(op) == 0xA1))
    ||| ((op >> 12) == 0xF && (s_kk(op) == 0x07 || s_kk(op) == 0x0A || s_kk(op) == 0x15 || s_kk(op)
        == 0x18 || s_kk(op) == 0x1E || s_kk(op) == 0x29 || s_kk(op) == 0x33 || s_kk(op) == 0x55
        || s_kk(op) == 0x65))
}

/// Mnemonic text of an instruction with a register selector and an
/// immediate byte.
pub open spec fn reg_imm_text(name: Seq<char>, op: u16) -> Seq<char> {
    name + hex_chars(s_x(op)) + " "@ + hex_chars(s_kk(op) as int)
}

/// Mnemonic text of an instruction with two register selectors.
pub open spec fn reg_reg_text(name: Seq<char>, op: u16) -> Seq<char> {
    name + hex_chars(s_x(op)) + " V"@ + hex_chars(s_y(op))
}

/// Mnemonic text of an instruction with an address field.
pub open spec fn addr_text(name: Seq<char>, op: u16) -> Seq<char> {
    name + hex_chars(s_nnn(op) as int)
}

/// Mnemonic text of an instruction with one register selector and a
/// fixed suffix.
pub open spec fn reg_text(name: Seq<char>, op: u16, suffix: Seq<char>) -> Seq<char> {
    name + hex_chars(s_x(op)) + suffix
}

/// Mnemonic text of a shift instruction, which names the second
/// selector parenthesised.
pub open spec fn shift_text(name: Seq<char>, op: u16) -> Seq<char> {
    name + hex_chars(s_x(op)) + " (V"@ + hex_chars(s_y(op)) + ")"@
}

/// Diagnostic text for a word that matches no instruction pattern.
pub open spec fn unknown_text(op: u16) -> Seq<char> {
    hex_chars(op as int) + " | Unknown opcode (probably data)"@
}

/// The full mnemonic text of a known opcode.
pub open spec fn dis_text(op: u16) -> Seq<char> {
    if op == 0x00E0 {
        "CLS"@
    } else if op == 0x00EE {
        "RET"@
    } else if op >> 12 == 1 {
        addr_text("JP "@, op)
    } else if op >> 12 == 2 {
        addr_text("CALL "@, op)
    } else if op >> 12 == 3 {
        reg_imm_text("SE V"@, op)
    } else if op >> 12 == 4 {
        reg_imm_text("SNE V"@, op)
    } else if op >> 12 == 5 && s_n(op) == 0 {
        reg_reg_text("SE V"@, op)
    } else if op >> 12 == 6 {
        reg_imm_text("LD V"@, op)
    } else if op >> 12 == 7 {
        reg_imm_text("ADD V"@, op)
    } else if op >> 12 == 8 && s_n(op) == 0 {
        reg_reg_text("LD V"@, op)
    } else if op >> 12 == 8 && s_n(op) == 1 {
        reg_reg_text("OR V"@, op)
    } else if op >> 12 == 8 && s_n(op) == 2 {
        reg_reg_text("AND V"@, op)
    } else if op >> 12 == 8 && s_n(op) == 3 {
        reg_reg_text("XOR V"@, op)
    } else if op >> 12 == 8 && s_n(op) == 4 {
        reg_reg_text("ADD V"@, op)
    } else if op >> 12 == 8 && s_n(op) == 5 {
        reg_reg_text("SUB V"@, op)
    } else if op >> 12 == 8 && s_n(op) == 6 {
        shift_text("SHR V"@, op)
    } else if op >> 12 == 8 && s_n(op) == 7 {
        reg_reg_text("SUBN V"@, op)
    } else if op >> 12 == 8 && s_n(op) == 0xE {
        shift_text("SHL V"@, op)
    } else if op >> 12 == 9 && s_n(op) == 0 {
        reg_reg_text("SNE V"@, op)
    } else if op >> 12 == 0xA {
        addr_text("LD I "@, op)
    } else if op >> 12 == 0xB {
        addr_text("JP V0 "@, op)
    } else if op >> 12 == 0xC {
        reg_imm_text("RND V"@, op)
    } else if op >> 12 == 0xD {
        reg_reg_text("DRW V"@, op) + " "@ + hex_chars(s_n(op) as int)
    } else if op >> 12 == 0xE && s_kk(op) == 0x9E {
        reg_text("SKP "@, op, ""@)
    } else if op >> 12 == 0xE && s_kk(op) == 0xA1 {
        reg_text("SKNP "@, op, ""@)
    } else if op >> 12 == 0xF && s_kk(op) == 0x07 {
        reg_text("LD V"@, op, " DT"@)
    } else if op >> 12 == 0xF && s_kk(op) == 0x0A {
        reg_text("LD V"@, op, " K"@)
    } else if op >> 12 == 0xF && s_kk(op) == 0x15 {
        reg_text("LD DT V"@, op, ""@)
    } else if op >> 12 == 0xF && s_kk(op) == 0x18 {
        reg_text("LD ST V"@, op, ""@)
    } else if op >> 12 == 0xF && s_kk(op) == 0x1E {
        reg_text("ADD I V"@, op, ""@)
    } else if op >> 12 == 0xF && s_kk(op) == 0x29 {
        reg_text("LD F V"@, op, ""@)
    } else if op >> 12 == 0xF && s_kk(op) == 0x33 {
        reg_text("LD B V"@, op, ""@)
    } else if op >> 12 == 0xF && s_kk(op) == 0x55 {
        reg_text("LD [I] V"@, op, ""@)
    } else if op >> 12 == 0xF && s_kk(op) == 0x65 {
        reg_text("LD V"@, op, " [I]"@)
    } else {
        unknown_text(op)
    }
}

fn mnemonic_reg_imm(name: &str, opcode: u16) -> (r: String)
    ensures
        r@ == reg_imm_text(name@, opcode),
{
    proof {
        lemma_opcode_parts(opcode);
    }
    let mut s = String::from_str(name);
    s.append(hex_digit_str(x(opcode)));
    s.append(" ");
    s.append(hex_string_u16(kk(opcode) as u16).as_str());
    proof {
        assert(s@ =~= reg_imm_text(name@, opcode));
    }
    s
}

fn mnemonic_reg_reg(name: &str, opcode: u16) -> (r: String)
    ensures
        r@ == reg_reg_text(name@, opcode),
{
    proof {
        lemma_opcode_parts(opcode);
    }
    let mut s = String::from_str(name);
    s.append(hex_digit_str(x(opcode)));
    s.append(" V");
    s.append(hex_digit_str(y(opcode)));
    proof {
        assert(s@ =~= reg_reg_text(name@, opcode));
    }
    s
}

fn mnemonic_addr(name: &str, opcode: u16) -> (r: String)
    ensures
        r@ == addr_text(name@, opcode),
{
    let mut s = String::from_str(name);
    s.append(hex_string_u16(nnn(opcode)).as_str());
    proof {
        assert(s@ =~= addr_text(name@, opcode));
    }
    s
}

fn mnemonic_reg(name: &str, opcode: u16, suffix: &str) -> (r: String)
    ensures
        r@ == reg_text(name@, opcode, suffix@),
{
    proof {
        lemma_opcode_parts(opcode);
    }
    let mut s = String::from_str(name);
    s.append(hex_digit_str(x(opcode)));
    s.append(suffix);
    proof {
        assert(s@ =~= reg_text(name@, opcode, suffix@));
    }
    s
}

fn mnemonic_shift(name: &str, opcode: u16) -> (r: String)
    ensures
        r@ == shift_text(name@, opcode),
{
    proof {
        lemma_opcode_parts(opcode);
    }
    let mut s = String::from_str(name);
    s.append(hex_digit_str(x(opcode)));
    s.append(" (V");
    s.append(hex_digit_str(y(opcode)));
    s.append(")");
    proof {
        assert(s@ =~= shift_text(name@, opcode));
    }
    s
}

/// The low byte of an opcode is its two low nibbles combined.
proof fn lemma_kk_nibbles(op: u16)
    by (bit_vector)
    ensures
        ((op & 0x00FF) as u8) as int == (((op & 0x00F0) >> 4) * 16 + (op & 0x000F)) as int,
{
}

/// Maps a raw 16-bit word to its mnemonic, or to an "unknown opcode"
/// diagnostic for a word that matches no known instruction pattern —
/// which is exactly when the result is the `Err` text.
pub fn disassemble_opcode(opcode: u16) -> (r: Result<String, String>)
    ensures
        r is Ok <==> is_known_opcode(opcode),
        r matches Ok(s) ==> s@ == dis_text(opcode),
        r matches Err(s) ==> s@ == unknown_text(opcode),
{
    proof {
        lemma_opcode_parts(opcode);
        lemma_kk_nibbles(opcode);
    }
    if opcode == 0x00E0 {
        Ok(String::from_str("CLS"))
    } else if opcode == 0x00EE {
        Ok(String::from_str("RET"))
    } else if matches_opcode(opcode, 0x1, None, None, None) {
        Ok(mnemonic_addr("JP ", opcode))
    } else if matches_opcode(opcode, 0x2, None, None, None) {
        Ok(mnemonic_addr("CALL ", opcode))
    } else if matches_opcode(opcode, 0x3, None, None, None) {
        Ok(mnemonic_reg_imm("SE V", opcode))
    } else if matches_opcode(opcode, 0x4, None, None, None) {
        Ok(mnemonic_reg_imm("SNE V", opcode))
    } else if matches_opcode(opcode, 0x5, None, None, Some(0x0)) {
        Ok(mnemonic_reg_reg("SE V", opcode))
    } else if matches_opcode(opcode, 0x6, None, None, None) {
        Ok(mnemonic_reg_imm("LD V", opcode))
    } else if matches_opcode(opcode, 0x7, None, None, None) {
        Ok(mnemonic_reg_imm("ADD V", opcode))
    } else if matches_opcode(opcode, 0x8, None, None, Some(0x0)) {
        Ok(mnemonic_reg_reg("LD V", opcode))
    } else if matches_opcode(opcode, 0x8, None, None, Some(0x1)) {
        Ok(mnemonic_reg_reg("OR V", opcode))
    } else if matches_opcode(opcode, 0x8, None, None, Some(0x2)) {
        Ok(mnemonic_reg_reg("AND V", opcode))
    } else if matches_opcode(opcode, 0x8, None, None, Some(0x3)) {
        Ok(mnemonic_reg_reg("XOR V", opcode))
    } else if matches_opcode(opcode, 0x8, None, None, Some(0x4)) {
        Ok(mnemonic_reg_reg("ADD V", opcode))
    } else if matches_opcode(opcode, 0x8, None, None, Some(0x5)) {
        Ok(mnemonic_reg_reg("SUB V", opcode))
    } else if matches_opcode(opcode, 0x8, None, None, Some(0x6)) {
        Ok(mnemonic_shift("SHR V", opcode))
    } else if matches_opcode(opcode, 0x8, None, None, Some(0x7)) {
        Ok(mnemonic_reg_reg("SUBN V", opcode))
    } else if matches_opcode(opcode, 0x8, None, None, Some(0xE)) {
        Ok(mnemonic_shift("SHL V", opcode))
    } else if matches_opcode(opcode, 0x9, None, None, Some(0x0)) {
        Ok(mnemonic_reg_reg("SNE V", opcode))
    } else if matches_opcode(opcode, 0xA, None, None, None) {
        Ok(mnemonic_addr("LD I ", opcode))
    } else if matches_opcode(opcode, 0xB, None, None, None) {
        Ok(mnemonic_addr("JP V0 ", opcode))
    } else if matches_opcode(opcode, 0xC, None, None, None) {
        Ok(mnemonic_reg_imm("RND V", opcode))
    } else if matches_opcode(opcode, 0xD, None, None, None) {
        let mut s = mnemonic_reg_reg("DRW V", opcode);
        s.append(" ");
        s.append(hex_digit_str(n(opcode)));
        proof {
            assert(s@ =~= reg_reg_text("DRW V"@, opcode) + " "@ + hex_chars(s_n(opcode) as int));
        }
        Ok(s)
    } else if matches_opcode(opcode, 0xE, None, Some(0x9), Some(0xE)) {
        Ok(mnemonic_reg("SKP ", opcode, ""))
    } else if matches_opcode(opcode, 0xE, None, Some(0xA), Some(0x1)) {
        Ok(mnemonic_reg("SKNP ", opcode, ""))
    } else if matches_opcode(opcode, 0xF, None, Some(0x0), Some(0x7)) {
        Ok(mnemonic_reg("LD V", opcode, " DT"))
    } else if matches_opcode(opcode, 0xF, None, Some(0x0), Some(0xA)) {
        Ok(mnemonic_reg("LD V", opcode, " K"))
    } else if matches_opcode(opcode, 0xF, None, Some(0x1), Some(0x5)) {
        Ok(mnemonic_reg("LD DT V", opcode, ""))
    } else if matches_opcode(opcode, 0xF, None, Some(0x1), Some(0x8)) {
        Ok(mnemonic_reg("LD ST V", opcode, ""))
    } else if matches_opcode(opcode, 0xF, None, Some(0x1), Some(0xE)) {
        Ok(mnemonic_reg("ADD I V", opcode, ""))
    } else if matches_opcode(opcode, 0xF, None, Some(0x2), Some(0x9)) {
        Ok(mnemonic_reg("LD F V", opcode, ""))
    } else if matches_opcode(opcode, 0xF, None, Some(0x3), Some(0x3)) {
        Ok(mnemonic_reg("LD B V", opcode, ""))
    } else if matches_opcode(opcode, 0xF, None, Some(0x5), Some(0x5)) {
        Ok(mnemonic_reg("LD [I] V", opcode, ""))
    } else if matches_opcode(opcode, 0xF, None, Some(0x6), Some(0x5)) {
        Ok(mnemonic_reg("LD V", opcode, " [I]"))
    } else {
        let mut s = hex_string_u16(opcode);
        s.append(" | Unknown opcode (probably data)");
        Err(s)
    }
}

/// The listing of a program image from byte offset `i`: one line per
/// 16-bit word — its address in memory, the raw word, its mnemonic —
/// stopping after the first word that looks like data (that line
/// carries the diagnostic instead), and noting a trailing stand-alone
/// byte.
pub open spec fn listing_text(p: Seq<u8>, i: int) -> Seq<char>
    decreases p.len() - i,
{
    if i < 0 || i >= p.len() {
        Seq::empty()
    } else if i == p.len() - 1 {
        hex_chars(PROG_START_ADDR + i) + " | Standalone byte "@ + hex_chars(p[i] as int) + "\n"@
    } else {
        let op = combine16(p[i], p[i + 1]);
        if is_known_opcode(op) {
            hex_chars(PROG_START_ADDR + i) + " | "@ + hex_chars(op as int) + " | "@ + dis_text(op)
                + "\n"@ + listing_text(p, i + 2)
        } else {
            hex_chars(PROG_START_ADDR + i) + " | "@ + unknown_text(op) + "\n"@
        }
    }
}

/// Lists a program image line by line from `start`: address, raw word
/// and mnemonic, stopping at the first word that looks like data, and
/// noting a trailing stand-alone byte.
pub fn disassemble_program_at(program: &[u8], start: usize) -> (r: String)
    requires
        program@.len() <= MEMSIZE - PROG_START_ADDR,
    ensures
        r@ == listing_text(program@, start as int),
{
    let mut s = String::new();
    let mut i: usize = start;
    proof {
        assert(s@ + listing_text(program@, start as int) =~= listing_text(
            program@,
            start as int,
        ));
    }
    while i < program.len()
        invariant
            program@.len() <= MEMSIZE - PROG_START_ADDR,
            i >= start,
            listing_text(program@, start as int) == s@ + listing_text(program@, i as int),
        decreases program@.len() - i,
    {
        let ghost pre = s@;
        if i == program.len() - 1 {
            s.append(hex_string_u16((i + PROG_START_ADDR) as u16).as_str());
            s.append(" | Standalone byte ");
            s.append(hex_string_u16(program[i] as u16).as_str());
            s.append("\n");
            proof {
                assert(s@ =~= pre + listing_text(program@, i as int));
            }
            return s;
        }
        let hi = program[i];
        let lo = program[i + 1];
        proof {
            crate::cpu::lemma_be_opcode(hi, lo);
        }
        let opcode = ((hi as u16) << 8) | (lo as u16);
        match disassemble_opcode(opcode) {
            Ok(s_opcode) => {
                s.append(hex_string_u16((i + PROG_START_ADDR) as u16).as_str());
                s.append(" | ");
                s.append(hex_string_u16(opcode).as_str());
                s.append(" | ");
                s.append(s_opcode.as_str());
                s.append("\n");
                proof {
                    assert(s@ + listing_text(program@, i as int + 2) =~= pre + listing_text(
                        program@,
                        i as int,
                    ));
                }
            },
            Err(s_opcode) => {
                s.append(hex_string_u16((i + PROG_START_ADDR) as u16).as_str());
                s.append(" | ");
                s.append(s_opcode.as_str());
                s.append("\n");
                proof {
                    assert(s@ =~= pre + listing_text(program@, i as int));
                }
                return s;
            },
        }
        i = i + 2;
    }
    proof {
        assert(s@ =~= listing_text(program@, start as int));
    }
    s
}

} // verus!
