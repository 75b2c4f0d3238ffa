use chip8_core::config::Chip8Config;
use chip8_core::cpu::CPUState;
use chip8_core::disassembler::disassemble_opcode;
use chip8_core::disassembler::disassemble_program_at;
use chip8_core::disassembler::hex_string_u16;
use chip8_core::disassembler::matches_opcode;
use chip8_core::display::DisplayData;
use chip8_core::memory::Memory;

#[test]
fn draw_sets_pixels_and_reports_no_collision_on_blank_canvas() {
    let mut d = DisplayData::new_64x32();
    let collision = d.draw(&[0b1010_0000], 4, 2, true);
    assert!(!collision);
    assert!(d.get_pixel(4, 2));
    assert!(!d.get_pixel(5, 2));
    assert!(d.get_pixel(6, 2));
    assert!(!d.get_pixel(7, 2));
}

#[test]
fn draw_twice_restores_prior_state_and_reports_collision() {
    let mut d = DisplayData::new_64x32();
    d.draw(&[0xFF, 0x81], 10, 5, true);
    let before = d;
    // The sprite erases lit pixels, so it collides.
    let c1 = d.draw(&[0x3C], 12, 5, true);
    assert!(c1);
    // XOR twice restores the prior pixel state exactly, and the second
    // draw only relights cleared pixels, so it does not collide.
    let c2 = d.draw(&[0x3C], 12, 5, true);
    assert!(!c2);
    assert!(d == before);
}

#[test]
fn collision_reported_exactly_when_lit_pixel_cleared() {
    let mut d = DisplayData::new_64x32();
    d.draw(&[0b1000_0000], 0, 0, true);
    // A sprite that only touches clear pixels does not collide.
    let c = d.draw(&[0b0100_0000], 0, 0, true);
    assert!(!c);
    // A sprite that erases the lit pixel collides.
    let c2 = d.draw(&[0b1000_0000], 0, 0, true);
    assert!(c2);
    assert!(!d.get_pixel(0, 0));
}

#[test]
fn clipping_skips_pixels_past_the_edge() {
    let mut d = DisplayData::new_64x32();
    // Origin 60: bits land on columns 60..67; 64.. are skipped.
    let collision = d.draw(&[0xFF], 60, 0, true);
    assert!(!collision);
    for x in 60..64 {
        assert!(d.get_pixel(x, 0));
    }
    for x in 0..4 {
        assert!(!d.get_pixel(x, 0));
    }
}

#[test]
fn wraparound_wraps_pixels_past_the_edge() {
    let mut d = DisplayData::new_64x32();
    let collision = d.draw(&[0xFF], 60, 0, false);
    assert!(!collision);
    for x in 60..64 {
        assert!(d.get_pixel(x, 0));
    }
    for x in 0..4 {
        assert!(d.get_pixel(x, 0));
    }
}

#[test]
fn draw_origin_is_taken_modulo_canvas_size() {
    let mut d = DisplayData::new_64x32();
    d.draw(&[0x80], 64 + 3, 32 + 1, true);
    assert!(d.get_pixel(3, 1));
}

#[test]
fn clear_resets_every_pixel() {
    let mut d = DisplayData::new_64x32();
    d.draw(&[0xFF, 0xFF], 0, 0, true);
    d.clear();
    for x in 0..64 {
        for y in 0..32 {
            assert!(!d.get_pixel(x, y));
        }
    }
}

#[test]
fn debug_string_draws_glyph_per_pixel() {
    let mut d = DisplayData::new_64x32();
    d.draw(&[0b1000_0001], 0, 0, true);
    let s = d.debug_string();
    assert_eq!(s.len(), 34 * 65);
    let bytes = s.as_bytes();
    assert_eq!(bytes[65 + 0], b'#');
    assert_eq!(bytes[65 + 1], b'.');
    assert_eq!(bytes[65 + 7], b'#');
    assert_eq!(bytes[65 + 64], b'\n');
    assert_eq!(bytes[0], b'_');
    assert_eq!(bytes[33 * 65], b'_');
}

#[test]
fn hex_rendering_matches_uppercase_without_leading_zeros() {
    assert_eq!(hex_string_u16(0x0), "0");
    assert_eq!(hex_string_u16(0xF), "F");
    assert_eq!(hex_string_u16(0x2F0), "2F0");
    assert_eq!(hex_string_u16(0xABCD), "ABCD");
    assert_eq!(hex_string_u16(0x200), "200");
}

#[test]
fn disassembles_known_opcodes() {
    assert_eq!(disassemble_opcode(0x00E0).unwrap(), "CLS");
    assert_eq!(disassemble_opcode(0x00EE).unwrap(), "RET");
    assert_eq!(disassemble_opcode(0x12F0).unwrap(), "JP 2F0");
    assert_eq!(disassemble_opcode(0x2ABC).unwrap(), "CALL ABC");
    assert_eq!(disassemble_opcode(0x3A42).unwrap(), "SE VA 42");
    assert_eq!(disassemble_opcode(0x8AB4).unwrap(), "ADD VA VB");
    assert_eq!(disassemble_opcode(0x8126).unwrap(), "SHR V1 (V2)");
    assert_eq!(disassemble_opcode(0xA123).unwrap(), "LD I 123");
    assert_eq!(disassemble_opcode(0xD125).unwrap(), "DRW V1 V2 5");
    assert_eq!(disassemble_opcode(0xE09E).unwrap(), "SKP 0");
    assert_eq!(disassemble_opcode(0xF30A).unwrap(), "LD V3 K");
    assert_eq!(disassemble_opcode(0xF655).unwrap(), "LD [I] V6");
}

#[test]
fn unknown_words_disassemble_to_a_diagnostic() {
    let e = disassemble_opcode(0x8008).unwrap_err();
    assert_eq!(e, "8008 | Unknown opcode (probably data)");
    assert!(disassemble_opcode(0x0123).is_err());
    assert!(disassemble_opcode(0xE0FF).is_err());
    assert!(disassemble_opcode(0xF0FF).is_err());
    assert!(disassemble_opcode(0x5ab1).is_err());
}

#[test]
fn nibble_pattern_matching() {
    assert!(matches_opcode(0x8AB4, 0x8, None, None, Some(0x4)));
    assert!(!matches_opcode(0x8AB4, 0x8, None, None, Some(0x5)));
    assert!(!matches_opcode(0x7AB4, 0x8, None, None, Some(0x4)));
    assert!(matches_opcode(0xE19E, 0xE, Some(0x1), Some(0x9), Some(0xE)));
}

#[test]
fn program_listing_walks_words_and_notes_trailing_byte() {
    let listing = disassemble_program_at(&[0x00, 0xE0, 0x12, 0x00, 0xAA], 0);
    assert_eq!(
        listing,
        "200 | E0 | CLS\n202 | 1200 | JP 200\n204 | Standalone byte AA\n"
    );
}

#[test]
fn program_listing_stops_at_data() {
    let listing = disassemble_program_at(&[0x01, 0x23, 0x00, 0xE0], 0);
    assert_eq!(listing, "200 | 123 | Unknown opcode (probably data)\n");
}

#[test]
fn cpu_debug_state_lists_registers() {
    let mut cpu = CPUState::new(
        Memory::with_prog(&[0x12, 0x00]),
        DisplayData::new_64x32(),
        Chip8Config::default(),
    );
    cpu.v[1] = 0xAB;
    let s = cpu.debug_state();
    assert!(s.contains("V1: AB"));
    assert!(s.contains("PC: 200"));
    assert!(s.contains("SP: 0"));
}

#[test]
fn memory_loads_fonts_program_and_zeroes() {
    let mem = Memory::with_prog(&[1, 2, 3]);
    assert_eq!(mem.read(0x20), 0xF0);
    assert_eq!(mem.read(0x200), 1);
    assert_eq!(mem.read(0x201), 2);
    assert_eq!(mem.read(0x202), 3);
    assert_eq!(mem.read(0x203), 0);
    assert_eq!(mem.read(0x1FF), 0);
    // Addressing wraps around the 4096-byte space.
    assert_eq!(mem.read(0x1200), 1);
}

#[test]
fn largest_program_fits_exactly() {
    let program = vec![0x77u8; 0x1000 - 0x200];
    let mem = Memory::with_prog(&program);
    assert_eq!(mem.read(0xFFF), 0x77);
    assert_eq!(mem.read(0x200), 0x77);
}

#[test]
fn cpu_debug_state_text_is_exact() {
    let cpu = CPUState::new(
        Memory::with_prog(&[0x12, 0x00]),
        DisplayData::new_64x32(),
        Chip8Config::default(),
    );
    let expected = "V0: 0 V1: 0 V2: 0 V3: 0 V4: 0 V5: 0 V6: 0 V7: 0 \
                    V8: 0 V9: 0 VA: 0 VB: 0 VC: 0 VD: 0 VE: 0 VF: 0 \
                    \nPC: 200 I: 0 SP: 0 DT: 0 ST: 0";
    assert_eq!(cpu.debug_state(), expected);
}

#[test]
fn program_listing_from_nonzero_start() {
    let listing = disassemble_program_at(&[0x00, 0xE0, 0xA1, 0x23], 2);
    assert_eq!(listing, "202 | A123 | LD I 123\n");
    let empty = disassemble_program_at(&[0x00, 0xE0], 4);
    assert_eq!(empty, "");
}
