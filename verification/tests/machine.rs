use chip8_core::config::Chip8Config;
use chip8_core::cpu::HaltStatus;
use chip8_core::machine::Machine;
use chip8_core::machine::SaveStateError;

const SIXTIETH_SECOND: u64 = 16_666_667;

fn jump_loop_machine(clock_speed_hz: u64) -> Machine {
    let mut config = Chip8Config::default();
    config.clock_speed_hz = clock_speed_hz;
    // A program that jumps to itself forever.
    Machine::new(&[0x12, 0x00], config)
}

#[test]
fn delay_timer_decrements_once_per_sixtieth_second() {
    let mut m = jump_loop_machine(500);
    m.cpu_state.dt = 5;
    m.run_for_nanos(SIXTIETH_SECOND).unwrap();
    assert_eq!(m.cpu_state.dt, 4);
}

#[test]
fn delay_timer_rate_is_independent_of_clock_speed() {
    for clock in [1, 60, 500, 10_000] {
        let mut m = jump_loop_machine(clock);
        m.cpu_state.dt = 5;
        m.run_for_nanos(SIXTIETH_SECOND).unwrap();
        assert_eq!(m.cpu_state.dt, 4);
    }
}

#[test]
fn timer_registers_never_drop_below_zero() {
    let mut m = jump_loop_machine(500);
    m.cpu_state.dt = 1;
    m.cpu_state.st = 0;
    for _ in 0..5 {
        m.run_for_nanos(SIXTIETH_SECOND).unwrap();
    }
    assert_eq!(m.cpu_state.dt, 0);
    assert_eq!(m.cpu_state.st, 0);
}

#[test]
fn instruction_clock_owes_cycles_by_rate() {
    // At 500Hz, one sixtieth of a second owes eight whole cycles and
    // change; the change stays accumulated.
    let mut m = jump_loop_machine(500);
    m.run_for_nanos(SIXTIETH_SECOND).unwrap();
    assert_eq!(m.cpu_instr_timer.curr_t, SIXTIETH_SECOND - 8 * 2_000_000);
}

#[test]
fn save_and_load_round_trip_restores_exact_state() {
    let mut m = jump_loop_machine(500);
    m.cpu_state.dt = 7;
    m.cpu_state.v[4] = 0x99;
    let snapshot = m.cpu_state;
    m.save_current_state(0).unwrap();
    // Arbitrary further execution.
    for _ in 0..3 {
        m.run_for_nanos(SIXTIETH_SECOND).unwrap();
    }
    m.cpu_state.v[4] = 0x11;
    assert!(m.cpu_state != snapshot);
    m.load_state(0).unwrap();
    assert!(m.cpu_state == snapshot);
}

#[test]
fn save_index_out_of_range_is_reported() {
    let mut m = jump_loop_machine(500);
    assert_eq!(m.save_current_state(8), Err(SaveStateError::IndexTooHigh));
    assert_eq!(m.save_current_state(100), Err(SaveStateError::IndexTooHigh));
    assert_eq!(m.load_state(8), Err(SaveStateError::IndexTooHigh));
}

#[test]
fn loading_an_empty_slot_is_reported() {
    let mut m = jump_loop_machine(500);
    assert_eq!(m.load_state(3), Err(SaveStateError::EmptySlot));
}

#[test]
fn machine_key_presses_reach_the_keyboard() {
    let mut m = jump_loop_machine(500);
    m.press_key(0xA);
    assert!(m.cpu_state.kbstate.key[0xA]);
    m.release_key(0xA);
    assert!(!m.cpu_state.kbstate.key[0xA]);
}

#[test]
fn key_wait_through_machine_surface() {
    let mut config = Chip8Config::default();
    config.clock_speed_hz = 500;
    // LD V3, K, then a jump-to-self.
    let mut m = Machine::new(&[0xF3, 0x0A, 0x12, 0x02], config);
    m.run_for_nanos(SIXTIETH_SECOND).unwrap();
    assert_eq!(m.cpu_state.halt_status, HaltStatus::WaitingFx0A);
    m.press_key(3);
    m.run_for_nanos(SIXTIETH_SECOND).unwrap();
    assert_eq!(m.cpu_state.v[3], 0);
    m.release_key(3);
    m.run_for_nanos(SIXTIETH_SECOND).unwrap();
    assert_eq!(m.cpu_state.v[3], 3);
}

#[test]
fn deferred_draw_waits_for_vertical_blank() {
    let mut config = Chip8Config::default();
    config.clock_speed_hz = 500;
    config.emulate_draw_vblank_delay = true;
    // LD I, 0x208; DRW V0, V1, 1; the sprite byte 0x80 lives at 0x208.
    let mut m = Machine::new(&[0xA2, 0x08, 0xD0, 0x11, 0x12, 0x04, 0x00, 0x00, 0x80], config);
    assert_eq!(m.cpu_state.run_cycle(), Ok(true));
    // The draw stalls without advancing the program counter.
    assert_eq!(m.cpu_state.run_cycle(), Ok(false));
    assert_eq!(m.cpu_state.halt_status, HaltStatus::WaitingVblank);
    assert_eq!(m.cpu_state.pc, 0x202);
    assert!(!m.cpu_state.disp.get_pixel(0, 0));
    m.cpu_state.enter_vblank();
    assert_eq!(m.cpu_state.halt_status, HaltStatus::ExecutingDRW);
    assert_eq!(m.cpu_state.run_cycle(), Ok(true));
    assert!(m.cpu_state.disp.get_pixel(0, 0));
    assert_eq!(m.cpu_state.pc, 0x204);
}

#[test]
fn fatal_condition_surfaces_from_run() {
    let mut m = jump_loop_machine(500);
    // Point the program counter at empty memory.
    m.cpu_state.pc = 0x400;
    let r = m.run_for_nanos(SIXTIETH_SECOND);
    assert!(r.is_err());
}

#[test]
fn sound_query_follows_sound_timer() {
    let mut m = jump_loop_machine(500);
    assert!(!m.should_make_sound());
    m.cpu_state.st = 2;
    assert!(m.should_make_sound());
    m.cpu_state.st = 1;
    assert!(!m.should_make_sound());
}

#[test]
fn debug_cond_follows_delay_timer() {
    let mut m = jump_loop_machine(500);
    assert!(!m.debug_cond());
    m.cpu_state.dt = 1;
    assert!(m.debug_cond());
}

#[test]
fn current_opcode_reads_at_pc() {
    let m = jump_loop_machine(500);
    assert_eq!(m.current_opcode(), 0x1200);
}

#[test]
fn run_step_debug_retires_one_instruction() {
    let mut m = jump_loop_machine(10_000);
    let pc_before = m.cpu_state.pc;
    let report = m.run_step_debug().unwrap();
    assert!(report.len() > 0);
    assert!(report.contains("PC: 200"));
    // The jump-to-self leaves the program counter in place.
    assert_eq!(m.cpu_state.pc, pc_before);
}

#[test]
fn empty_program_is_accepted_and_faults_at_first_cycle() {
    let mut m = Machine::new(&[], Chip8Config::default());
    let r = m.run_for_nanos(SIXTIETH_SECOND * 60);
    assert!(r.is_err());
}
