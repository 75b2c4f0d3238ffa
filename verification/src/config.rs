//! Behaviour configuration for the interpreter core.
//!
//! Historical interpreters disagree on several instruction details
//! ("quirks"); each such detail is an explicit field here, passed to the
//! machine at construction, so behaviour is deterministic and testable.
#![allow(non_snake_case)]
use vstd::prelude::*;

verus! {

#[derive(Clone, Copy, PartialEq, Eq, Debug)]
pub struct Chip8Config {
    /// Instruction rate of the CPU, in executed instructions per second.
    pub clock_speed_hz: u64,
    /// Shift instructions take their operand from the second register
    /// (`v[y]`) instead of the destination register itself.
    pub shifting_with_Vy: bool,
    /// Sprite pixels past the canvas edge are skipped instead of wrapped.
    pub sprite_clipping: bool,
    /// The draw instruction stalls until the next vertical-blank signal
    /// before the sprite becomes visible, as on original hardware.
    pub emulate_draw_vblank_delay: bool,
    /// Artificial stall length for hosts that enable the vertical-blank
    /// delay without wiring up a real vertical-blank signal.  The machine
    /// here drives a real 60Hz signal, so the core itself does not consume
    /// this value; it is recognised and carried for such hosts.
    pub vblank_idle_cycles: u32,
}

impl Chip8Config {
    /// The configuration used when the host supplies none.
    pub open spec fn spec_default() -> Chip8Config {
        Chip8Config {
            clock_speed_hz: 500,
            shifting_with_Vy: true,
            sprite_clipping: true,
            emulate_draw_vblank_delay: false,
            vblank_idle_cycles: 0,
        }
    }
}

impl Default for Chip8Config {
    fn default() -> (r: Chip8Config)
        ensures
            r == Chip8Config::spec_default(),
    {
        Chip8Config {
            clock_speed_hz: 500,
            shifting_with_Vy: true,
            sprite_clipping: true,
            emulate_draw_vblank_delay: false,
            vblank_idle_cycles: 0,
        }
    }
}

} // verus!
