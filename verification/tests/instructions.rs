use chip8_core::config::Chip8Config;
use chip8_core::cpu::CPUState;
use chip8_core::cpu::Chip8Error;
use chip8_core::cpu::HaltStatus;
use chip8_core::display::DisplayData;
use chip8_core::instructions::op_1nnn;
use chip8_core::instructions::op_6xkk;
use chip8_core::instructions::op_8xy4;
use chip8_core::instructions::op_8xy5;
use chip8_core::instructions::op_8xy6;
use chip8_core::instructions::op_8xyE;
use chip8_core::instructions::op_Cxkk;
use chip8_core::instructions::op_Fx33;
use chip8_core::instructions::op_Fx55;
use chip8_core::instructions::op_Fx65;
use chip8_core::keyboard::Fx0AStatus;
use chip8_core::memory::Memory;

fn cpu_with(program: &[u8]) -> CPUState {
    CPUState::new(
        Memory::with_prog(program),
        DisplayData::new_64x32(),
        Chip8Config::default(),
    )
}

#[test]
fn register_write_then_read_returns_written_value() {
    // LD Vx, kk for every register index.
    for x in 0u8..16 {
        let program = [0x60 | x, 0xAB];
        let mut cpu = cpu_with(&program);
        op_6xkk(&mut cpu);
        assert_eq!(cpu.v[x as usize], 0xAB);
        for other in 0..16 {
            if other != x as usize {
                assert_eq!(cpu.v[other], 0);
            }
        }
        assert_eq!(cpu.pc, 0x202);
    }
}

#[test]
fn additive_overflow_sets_flag_and_wraps() {
    // ADD V0, V1 with 0xFF + 0x01.
    let program = [0x80, 0x14];
    let mut cpu = cpu_with(&program);
    cpu.v[0] = 0xFF;
    cpu.v[1] = 0x01;
    op_8xy4(&mut cpu);
    assert_eq!(cpu.v[0], 0x00);
    assert_eq!(cpu.v[0xF], 1);
}

#[test]
fn additive_no_overflow_clears_flag() {
    let program = [0x80, 0x14];
    let mut cpu = cpu_with(&program);
    cpu.v[0] = 0x10;
    cpu.v[1] = 0x01;
    cpu.v[0xF] = 1;
    op_8xy4(&mut cpu);
    assert_eq!(cpu.v[0], 0x11);
    assert_eq!(cpu.v[0xF], 0);
}

#[test]
fn subtractive_borrow_wraps_and_clears_flag() {
    // SUB V0, V1 with 0x01 - 0x02.
    let program = [0x80, 0x15];
    let mut cpu = cpu_with(&program);
    cpu.v[0] = 0x01;
    cpu.v[1] = 0x02;
    op_8xy5(&mut cpu);
    assert_eq!(cpu.v[0], 0xFF);
    assert_eq!(cpu.v[0xF], 0);
}

#[test]
fn subtract_without_borrow_sets_flag() {
    let program = [0x80, 0x15];
    let mut cpu = cpu_with(&program);
    cpu.v[0] = 0x05;
    cpu.v[1] = 0x05;
    op_8xy5(&mut cpu);
    assert_eq!(cpu.v[0], 0x00);
    // Equal operands mean no borrow occurred.
    assert_eq!(cpu.v[0xF], 1);
}

#[test]
fn jump_sets_pc_exactly() {
    let program = [0x12, 0xF0];
    let mut cpu = cpu_with(&program);
    op_1nnn(&mut cpu);
    assert_eq!(cpu.pc, 0x2F0);
}

#[test]
fn call_then_return_resumes_after_call() {
    // 0x200: CALL 0x300; 0x300: RET.
    let mut program = vec![0u8; 0x102];
    program[0] = 0x23;
    program[1] = 0x00;
    program[0x100] = 0x00;
    program[0x101] = 0xEE;
    let mut cpu = cpu_with(&program);
    assert_eq!(cpu.run_cycle(), Ok(true));
    assert_eq!(cpu.pc, 0x300);
    assert_eq!(cpu.sp, 2);
    assert_eq!(cpu.run_cycle(), Ok(true));
    assert_eq!(cpu.pc, 0x202);
    assert_eq!(cpu.sp, 0);
}

#[test]
fn shift_right_uses_vy_under_quirk() {
    let mut config = Chip8Config::default();
    config.shifting_with_Vy = true;
    // SHR V0 (V1).
    let program = [0x80, 0x16];
    let mut cpu = CPUState::new(
        Memory::with_prog(&program),
        DisplayData::new_64x32(),
        config,
    );
    cpu.v[0] = 0xFF;
    cpu.v[1] = 0x05;
    op_8xy6(&mut cpu);
    assert_eq!(cpu.v[0], 0x02);
    assert_eq!(cpu.v[0xF], 1);
}

#[test]
fn shift_right_uses_vx_without_quirk() {
    let mut config = Chip8Config::default();
    config.shifting_with_Vy = false;
    let program = [0x80, 0x16];
    let mut cpu = CPUState::new(
        Memory::with_prog(&program),
        DisplayData::new_64x32(),
        config,
    );
    cpu.v[0] = 0x04;
    cpu.v[1] = 0xFF;
    op_8xy6(&mut cpu);
    assert_eq!(cpu.v[0], 0x02);
    assert_eq!(cpu.v[0xF], 0);
}

#[test]
fn shift_left_reports_top_bit() {
    let mut config = Chip8Config::default();
    config.shifting_with_Vy = false;
    // SHL V0 (V1).
    let program = [0x80, 0x1E];
    let mut cpu = CPUState::new(
        Memory::with_prog(&program),
        DisplayData::new_64x32(),
        config,
    );
    cpu.v[0] = 0x81;
    op_8xyE(&mut cpu);
    assert_eq!(cpu.v[0], 0x02);
    assert_eq!(cpu.v[0xF], 1);
}

#[test]
fn bitwise_or_zeroes_flag_register() {
    // OR V0, V1.
    let program = [0x80, 0x11];
    let mut cpu = cpu_with(&program);
    cpu.v[0] = 0x0F;
    cpu.v[1] = 0xF0;
    cpu.v[0xF] = 0x55;
    assert_eq!(cpu.run_cycle(), Ok(true));
    assert_eq!(cpu.v[0], 0xFF);
    assert_eq!(cpu.v[0xF], 0);
}

#[test]
fn random_masked_by_zero_is_zero() {
    // RND V0, 0x00: whatever byte the generator draws, the mask wins.
    let program = [0xC0, 0x00];
    let mut cpu = cpu_with(&program);
    cpu.v[0] = 0xAA;
    op_Cxkk(&mut cpu);
    assert_eq!(cpu.v[0], 0x00);
    assert_eq!(cpu.pc, 0x202);
}

#[test]
fn random_result_stays_within_mask() {
    let program = [0xC0, 0x0F];
    for _ in 0..32 {
        let mut cpu = cpu_with(&program);
        op_Cxkk(&mut cpu);
        assert_eq!(cpu.v[0] & 0xF0, 0);
    }
}

#[test]
fn bcd_store_writes_three_digits_most_significant_first() {
    // LD B, V0 with V0 = 123 and I = 0x400.
    let program = [0xF0, 0x33];
    let mut cpu = cpu_with(&program);
    cpu.v[0] = 123;
    cpu.i = 0x400;
    op_Fx33(&mut cpu);
    assert_eq!(cpu.mem.read(0x400), 1);
    assert_eq!(cpu.mem.read(0x401), 2);
    assert_eq!(cpu.mem.read(0x402), 3);
}

#[test]
fn register_dump_and_fill_round_trip_advance_index() {
    // LD [I], V3 at 0x200; LD V3, [I] at 0x202.
    let program = [0xF3, 0x55, 0xF3, 0x65];
    let mut cpu = cpu_with(&program);
    cpu.v[0] = 10;
    cpu.v[1] = 20;
    cpu.v[2] = 30;
    cpu.v[3] = 40;
    cpu.i = 0x500;
    op_Fx55(&mut cpu);
    assert_eq!(cpu.mem.read(0x500), 10);
    assert_eq!(cpu.mem.read(0x503), 40);
    // The register-dump quirk: I advanced by X + 1.
    assert_eq!(cpu.i, 0x504);
    cpu.i = 0x500;
    cpu.v = [0; 16];
    op_Fx65(&mut cpu);
    assert_eq!(cpu.v[0], 10);
    assert_eq!(cpu.v[1], 20);
    assert_eq!(cpu.v[2], 30);
    assert_eq!(cpu.v[3], 40);
    assert_eq!(cpu.v[4], 0);
    assert_eq!(cpu.i, 0x504);
}

#[test]
fn font_address_instruction_points_into_font_table() {
    // LD F, V5 with V5 = 0xA: the index register points at the 5-byte
    // glyph of the digit held in the register.
    let program = [0xF5, 0x29];
    let mut cpu = cpu_with(&program);
    cpu.v[5] = 0x0A;
    assert_eq!(cpu.run_cycle(), Ok(true));
    assert_eq!(cpu.i, 0x20 + 0xA * 5);
    // Only the low nibble of the register names the digit.
    let mut cpu2 = cpu_with(&program);
    cpu2.v[5] = 0x1A;
    assert_eq!(cpu2.run_cycle(), Ok(true));
    assert_eq!(cpu2.i, 0x20 + 0xA * 5);
    assert_eq!(Memory::get_font_addr(0), 0x20);
    assert_eq!(cpu.mem.read(0x20), 0xF0);
}

#[test]
fn zero_opcode_is_fatal() {
    let program = [0x00, 0x00];
    let mut cpu = cpu_with(&program);
    assert_eq!(cpu.run_cycle(), Err(Chip8Error::UninitMemory));
}

#[test]
fn unknown_sub_selector_is_fatal() {
    // 0x8008 has no arithmetic sub-selector 8.
    let program = [0x80, 0x08];
    let mut cpu = cpu_with(&program);
    assert_eq!(cpu.run_cycle(), Err(Chip8Error::UnknownOpcode(0x8008)));
}

#[test]
fn return_with_empty_stack_is_fatal() {
    let program = [0x00, 0xEE];
    let mut cpu = cpu_with(&program);
    assert_eq!(cpu.run_cycle(), Err(Chip8Error::StackUnderflow));
}

#[test]
fn sixteenth_nested_call_overflows_stack() {
    // Each instruction calls the next address; the stack holds 15
    // return addresses.
    let mut program = vec![0u8; 32];
    for k in 0..16 {
        let target = 0x202 + 2 * (k as u16);
        program[2 * k] = 0x20 | (target >> 8) as u8;
        program[2 * k + 1] = (target & 0xFF) as u8;
    }
    let mut cpu = cpu_with(&program);
    for _ in 0..15 {
        assert_eq!(cpu.run_cycle(), Ok(true));
    }
    assert_eq!(cpu.sp, 30);
    assert_eq!(cpu.run_cycle(), Err(Chip8Error::StackOverflow));
}

#[test]
fn sys_opcode_is_recognised_noop() {
    let program = [0x02, 0x34];
    let mut cpu = cpu_with(&program);
    let snapshot = cpu;
    // 0x0234 is a native-code call: recognised and ignored, and the
    // program counter moves past it.
    assert_eq!(cpu.run_cycle(), Ok(true));
    assert_eq!(cpu.pc, 0x202);
    cpu.pc = snapshot.pc;
    assert!(cpu == snapshot);
}

#[test]
fn key_wait_completes_on_press_then_release() {
    // LD V3, K.
    let program = [0xF3, 0x0A];
    let mut cpu = cpu_with(&program);
    assert_eq!(cpu.run_cycle(), Ok(false));
    assert_eq!(cpu.halt_status, HaltStatus::WaitingFx0A);
    cpu.kbstate.press_key(3);
    assert_eq!(cpu.run_cycle(), Ok(false));
    cpu.kbstate.release_key(3);
    assert_eq!(cpu.run_cycle(), Ok(true));
    assert_eq!(cpu.v[3], 3);
    assert_eq!(cpu.pc, 0x202);
    assert_eq!(cpu.halt_status, HaltStatus::NotHalted);
    assert_eq!(cpu.kbstate.Fx0A, Fx0AStatus::Inactive);
}

#[test]
fn key_wait_ignores_key_already_held() {
    let program = [0xF3, 0x0A];
    let mut cpu = cpu_with(&program);
    cpu.kbstate.press_key(3);
    assert_eq!(cpu.run_cycle(), Ok(false));
    // A repeated press of the already-held key is no fresh edge.
    cpu.kbstate.press_key(3);
    assert_eq!(cpu.run_cycle(), Ok(false));
    assert_eq!(cpu.halt_status, HaltStatus::WaitingFx0A);
    assert_eq!(cpu.v[3], 0);
    // Only a full press-then-release cycle completes the wait.
    cpu.kbstate.release_key(3);
    assert_eq!(cpu.run_cycle(), Ok(false));
    cpu.kbstate.press_key(3);
    cpu.kbstate.release_key(3);
    assert_eq!(cpu.run_cycle(), Ok(true));
    assert_eq!(cpu.v[3], 3);
}

#[test]
fn skip_if_key_pressed() {
    // SKP V0 with V0 = 4.
    let program = [0xE0, 0x9E];
    let mut cpu = cpu_with(&program);
    cpu.v[0] = 4;
    cpu.kbstate.press_key(4);
    assert_eq!(cpu.run_cycle(), Ok(true));
    assert_eq!(cpu.pc, 0x204);
    let mut cpu2 = cpu_with(&program);
    cpu2.v[0] = 4;
    assert_eq!(cpu2.run_cycle(), Ok(true));
    assert_eq!(cpu2.pc, 0x202);
}

#[test]
fn conditional_skips_compare_as_documented() {
    // SE V0, 0x42 taken.
    let program = [0x30, 0x42];
    let mut cpu = cpu_with(&program);
    cpu.v[0] = 0x42;
    assert_eq!(cpu.run_cycle(), Ok(true));
    assert_eq!(cpu.pc, 0x204);
    // SNE V0, 0x42 not taken.
    let program2 = [0x40, 0x42];
    let mut cpu2 = cpu_with(&program2);
    cpu2.v[0] = 0x42;
    assert_eq!(cpu2.run_cycle(), Ok(true));
    assert_eq!(cpu2.pc, 0x202);
}

#[test]
fn jump_with_offset_adds_v0() {
    // JP V0, 0x300 with V0 = 8.
    let program = [0xB3, 0x00];
    let mut cpu = cpu_with(&program);
    cpu.v[0] = 8;
    assert_eq!(cpu.run_cycle(), Ok(true));
    assert_eq!(cpu.pc, 0x308);
}

#[test]
fn timer_register_instructions_move_values() {
    // LD DT, V0 then LD V1, DT.
    let program = [0xF0, 0x15, 0xF1, 0x07];
    let mut cpu = cpu_with(&program);
    cpu.v[0] = 9;
    assert_eq!(cpu.run_cycle(), Ok(true));
    assert_eq!(cpu.dt, 9);
    assert_eq!(cpu.run_cycle(), Ok(true));
    assert_eq!(cpu.v[1], 9);
}

#[test]
fn subtract_negated_uses_vy_minus_vx() {
    // SUBN V0, V1 computes V1 - V0 into V0.
    let program = [0x80, 0x17];
    let mut cpu = cpu_with(&program);
    cpu.v[0] = 2;
    cpu.v[1] = 10;
    assert_eq!(cpu.run_cycle(), Ok(true));
    assert_eq!(cpu.v[0], 8);
    assert_eq!(cpu.v[0xF], 1);
}

#[test]
fn immediate_add_wraps_without_touching_flag() {
    // ADD V0, 0x20 with V0 = 0xF0 wraps; the flag register keeps its
    // value, unlike register-register addition.
    let program = [0x70, 0x20];
    let mut cpu = cpu_with(&program);
    cpu.v[0] = 0xF0;
    cpu.v[0xF] = 0x55;
    assert_eq!(cpu.run_cycle(), Ok(true));
    assert_eq!(cpu.v[0], 0x10);
    assert_eq!(cpu.v[0xF], 0x55);
}

#[test]
fn flag_register_as_add_destination_keeps_the_carry() {
    // ADD VF, V1: the carry write follows the sum write, so the flag
    // register ends up holding the carry.
    let program = [0x8F, 0x14];
    let mut cpu = cpu_with(&program);
    cpu.v[0xF] = 0xFF;
    cpu.v[1] = 2;
    assert_eq!(cpu.run_cycle(), Ok(true));
    assert_eq!(cpu.v[0xF], 1);
}

#[test]
fn index_register_add_wraps() {
    // ADD I, V0.
    let program = [0xF0, 0x1E];
    let mut cpu = cpu_with(&program);
    cpu.i = 0xFFFF;
    cpu.v[0] = 2;
    assert_eq!(cpu.run_cycle(), Ok(true));
    assert_eq!(cpu.i, 1);
}

#[test]
fn load_index_register() {
    let program = [0xA1, 0x23];
    let mut cpu = cpu_with(&program);
    assert_eq!(cpu.run_cycle(), Ok(true));
    assert_eq!(cpu.i, 0x123);
}

#[test]
fn draw_instruction_sets_flag_on_collision() {
    // LD I, 0x206; DRW V0, V0, 1 twice; the sprite byte 0x80 sits at
    // 0x206.
    let program = [0xA2, 0x06, 0xD0, 0x01, 0xD0, 0x01, 0x80];
    let mut cpu = cpu_with(&program);
    assert_eq!(cpu.run_cycle(), Ok(true));
    assert_eq!(cpu.run_cycle(), Ok(true));
    assert!(cpu.disp.get_pixel(0, 0));
    assert_eq!(cpu.v[0xF], 0);
    assert_eq!(cpu.run_cycle(), Ok(true));
    assert!(!cpu.disp.get_pixel(0, 0));
    assert_eq!(cpu.v[0xF], 1);
}

#[test]
fn clear_screen_instruction_clears_display() {
    // LD I, 0x206; DRW V0, V0, 1; CLS.
    let program = [0xA2, 0x06, 0xD0, 0x01, 0x00, 0xE0, 0x80];
    let mut cpu = cpu_with(&program);
    assert_eq!(cpu.run_cycle(), Ok(true));
    assert_eq!(cpu.run_cycle(), Ok(true));
    assert!(cpu.disp.get_pixel(0, 0));
    assert_eq!(cpu.run_cycle(), Ok(true));
    assert!(!cpu.disp.get_pixel(0, 0));
    assert_eq!(cpu.pc, 0x206);
}

#[test]
fn register_register_skips() {
    // SE V0, V1 taken; SNE V0, V1 not taken.
    let program = [0x50, 0x10];
    let mut cpu = cpu_with(&program);
    cpu.v[0] = 7;
    cpu.v[1] = 7;
    assert_eq!(cpu.run_cycle(), Ok(true));
    assert_eq!(cpu.pc, 0x204);
    let program2 = [0x90, 0x10];
    let mut cpu2 = cpu_with(&program2);
    cpu2.v[0] = 7;
    cpu2.v[1] = 7;
    assert_eq!(cpu2.run_cycle(), Ok(true));
    assert_eq!(cpu2.pc, 0x202);
}
