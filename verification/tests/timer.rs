use chip8_core::config::Chip8Config;
use chip8_core::timer::Timer;

#[test]
fn tick_fires_once_per_whole_period() {
    let mut t = Timer::new(100);
    // A period fires only while the accumulator strictly exceeds it.
    assert_eq!(t.tick(250), 2);
    assert_eq!(t.curr_t, 50);
    assert_eq!(t.tick(50), 0);
    assert_eq!(t.curr_t, 100);
    assert_eq!(t.tick(1), 1);
    assert_eq!(t.curr_t, 1);
}

#[test]
fn tick_catches_up_after_a_stall() {
    let mut t = Timer::new(10);
    assert_eq!(t.tick(1000), 99);
    assert_eq!(t.curr_t, 10);
}

#[test]
fn tick_once_fires_at_most_once_however_late() {
    let mut t = Timer::new(100);
    assert!(t.tick_once(350));
    assert_eq!(t.curr_t, 250);
    assert!(t.tick_once(0));
    assert_eq!(t.curr_t, 150);
    assert!(t.tick_once(0));
    assert_eq!(t.curr_t, 50);
    assert!(!t.tick_once(0));
    assert_eq!(t.curr_t, 50);
}

#[test]
fn default_config_matches_documented_values() {
    let c = Chip8Config::default();
    assert_eq!(c.clock_speed_hz, 500);
    assert!(c.shifting_with_Vy);
    assert!(c.sprite_clipping);
    assert!(!c.emulate_draw_vblank_delay);
    assert_eq!(c.vblank_idle_cycles, 0);
}
