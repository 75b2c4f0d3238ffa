//! The machine: one CPU, three timers and the host-facing surface.
//!
//! The host calls `run` once per frame or tick; the machine advances
//! the instruction clock (executing zero or more catch-up cycles), the
//! 60Hz timer-register decay, and the 60Hz vertical-blank signal, in
//! that order.  The timer-register rate is fixed by its own timer and
//! is therefore independent of the configured instruction clock.
//! Snapshots of the whole CPU state live in a fixed array of save
//! slots.
use crate::config::Chip8Config;
use crate::cpu::CPUState;
use crate::cpu::Chip8Error;
use crate::cpu::HaltStatus;
use crate::cpu::spec_opcode;
use crate::display::DisplayData;
use crate::instructions::cycle_step;
use crate::memory::Memory;
use crate::memory::MEMSIZE;
use crate::memory::PROG_START_ADDR;
use crate::timer::drain_fires;
use crate::timer::drain_rest;
use crate::timer::sat_add64;
use crate::timer::Timer;
use vstd::prelude::*;

verus! {

/// Number of save-state slots.
pub const NUM_SAVESTATES: usize = 8;

/// Nanoseconds per second.
pub const NANOS_PER_SEC: u64 = 1_000_000_000;

/// Period of the timer-register decay and of the vertical-blank
/// signal: both run at 60Hz.
pub const SIXTIETH_SECOND_NANOS: u64 = NANOS_PER_SEC / 60;

/// Recoverable faults of the save-state surface.
#[derive(Clone, Copy, PartialEq, Eq, Debug)]
pub enum SaveStateError {
    /// The slot index lies past the fixed slot array.
    IndexTooHigh,
    /// The addressed slot holds no snapshot.
    EmptySlot,
}

pub struct Machine {
    pub cpu_state: CPUState,
    /// Paces instruction execution at the configured clock rate.
    pub cpu_instr_timer: Timer,
    /// Paces the 60Hz decay of the delay and sound timer registers.
    pub cpu_timer_regs_timer: Timer,
    /// Paces the 60Hz vertical-blank signal.
    pub vblank_timer: Timer,
    /// Fixed array of snapshot slots.
    pub saved_states: [Option<CPUState>; NUM_SAVESTATES],
}

/// Zero or more machine cycles run back to back: `n` cycles are
/// attempted, stopping at the first fatal condition, which is then the
/// result.
pub open spec fn cycles_outcome(
    pre: CPUState,
    post: CPUState,
    n: int,
    r: Result<(), Chip8Error>,
) -> bool
    decreases n,
{
    if n <= 0 {
        post == pre && r == Ok::<(), Chip8Error>(())
    } else {
        exists|mid: CPUState, rr: Result<bool, Chip8Error>|
            {
                &&& #[trigger] cycle_step(pre, mid, rr)
                &&& match rr {
                    Ok(_) => cycles_outcome(mid, post, n - 1, r),
                    Err(e) => post == mid && r == Err::<(), Chip8Error>(e),
                }
            }
    }
}

/// A machine cycle never changes the quirk configuration.
pub proof fn lemma_cycle_preserves_config(
    pre: CPUState,
    post: CPUState,
    rr: Result<bool, Chip8Error>,
)
    requires
        cycle_step(pre, post, rr),
    ensures
        post.config == pre.config,
{
}

/// An all-successful cycle run extends by one further successful or
/// failing cycle.
pub proof fn lemma_cycles_extend(
    pre: CPUState,
    mid: CPUState,
    post: CPUState,
    n: int,
    rr: Result<bool, Chip8Error>,
    total: int,
)
    requires
        n >= 0,
        total > n,
        cycles_outcome(pre, mid, n, Ok::<(), Chip8Error>(())),
        cycle_step(mid, post, rr),
    ensures
        rr is Ok ==> cycles_outcome(pre, post, n + 1, Ok::<(), Chip8Error>(())),
        rr matches Err(e) ==> cycles_outcome(pre, post, total, Err::<(), Chip8Error>(e)),
    decreases n,
{
    if n <= 0 {
        assert(mid == pre);
        assert(cycles_outcome(post, post, 0, Ok::<(), Chip8Error>(())));
        assert(cycle_step(pre, post, rr));
    } else {
        let (m1, r1) = choose|m1: CPUState, r1: Result<bool, Chip8Error>|
            {
                &&& #[trigger] cycle_step(pre, m1, r1)
                &&& match r1 {
                    Ok(_) => cycles_outcome(m1, mid, n - 1, Ok::<(), Chip8Error>(())),
                    Err(e) => mid == m1 && Ok::<(), Chip8Error>(()) == Err::<(), Chip8Error>(e),
                }
            };
        lemma_cycles_extend(m1, mid, post, n - 1, rr, total - 1);
        if rr is Ok {
            assert(cycles_outcome(pre, post, n + 1, Ok::<(), Chip8Error>(())));
        }
    }
}

/// The timer-register decay and the vertical-blank signal applied
/// after the instruction phase left the CPU in `mid`: the two timer
/// registers drop by at most the number of 60Hz firings, floored at
/// zero, and the vertical-blank signal releases a waiting draw.
pub open spec fn after_timers(mid: CPUState, k: int, m: int) -> CPUState {
    let dt2 = if mid.dt >= k {
        (mid.dt - k) as u8
    } else {
        0u8
    };
    let st2 = if mid.st >= k {
        (mid.st - k) as u8
    } else {
        0u8
    };
    let halt2 = if m > 0 && mid.halt_status == HaltStatus::WaitingVblank {
        HaltStatus::ExecutingDRW
    } else {
        mid.halt_status
    };
    CPUState { dt: dt2, st: st2, halt_status: halt2, ..mid }
}

/// One poll of the live timers while waiting for an instruction: at
/// most one owed cycle runs (successfully), then the timer registers
/// decay by up to 255 firings and the vertical-blank signal is
/// delivered.  `retired` reports whether the cycle retired a real
/// instruction; when no cycle was owed, nothing retired.
pub open spec fn wait_poll(pre: CPUState, post: CPUState, retired: bool) -> bool {
    exists|mid: CPUState, k: int, m: int|
        #![trigger after_timers(mid, k, m)]
        {
            &&& 0 <= k <= 255
            &&& 0 <= m <= 255
            &&& ((mid == pre && !retired) || cycle_step(pre, mid, Ok::<bool, Chip8Error>(retired)))
            &&& post == after_timers(mid, k, m)
        }
}

/// `n` polls in a row, none of which retired an instruction.
pub open spec fn wait_trace(pre: CPUState, post: CPUState, n: int) -> bool
    decreases n,
{
    if n <= 0 {
        post == pre
    } else {
        exists|mid: CPUState| #[trigger] wait_poll(pre, mid, false) && wait_trace(mid, post, n - 1)
    }
}

/// What a wait-for-one-instruction run leaves behind: on success, a
/// run of non-retiring polls followed by one poll whose cycle retired
/// (or, at the unreachable poll bound, by nothing); on a fatal result,
/// a run of non-retiring polls followed by the faulting cycle, with
/// that poll's timer phases skipped.
pub open spec fn wait_outcome(pre: CPUState, post: CPUState, r: Result<(), Chip8Error>) -> bool {
    match r {
        Result::Ok(()) => exists|mid: CPUState, n: int|
            #![trigger wait_trace(pre, mid, n)]
            {
                &&& n >= 0
                &&& wait_trace(pre, mid, n)
                &&& (wait_poll(mid, post, true) || (post == mid && n >= u64::MAX as int))
            },
        Result::Err(e) => exists|mid: CPUState, n: int|
            #![trigger wait_trace(pre, mid, n)]
            {
                &&& n >= 0
                &&& wait_trace(pre, mid, n)
                &&& cycle_step(mid, post, Err::<bool, Chip8Error>(e))
            },
    }
}

/// A run of non-retiring polls extends by one more at its end.
pub proof fn lemma_wait_trace_extend(pre: CPUState, mid: CPUState, post: CPUState, n: int)
    requires
        n >= 0,
        wait_trace(pre, mid, n),
        wait_poll(mid, post, false),
    ensures
        wait_trace(pre, post, n + 1),
    decreases n,
{
    if n <= 0 {
        assert(mid == pre);
        assert(wait_trace(post, post, 0));
        assert(wait_poll(pre, post, false));
    } else {
        let m1 = choose|m1: CPUState|
            #[trigger] wait_poll(pre, m1, false) && wait_trace(m1, mid, n - 1);
        lemma_wait_trace_extend(m1, mid, post, n - 1);
        assert(wait_poll(pre, m1, false) && wait_trace(m1, post, n));
    }
}

/// A snapshot is stored in the addressed slot; nothing else changes.
pub open spec fn save_step(pre: Machine, post: Machine, index: int) -> bool {
    &&& 0 <= index < NUM_SAVESTATES
    &&& post.saved_states@ == pre.saved_states@.update(index, Some(pre.cpu_state))
    &&& post == (Machine { saved_states: post.saved_states, ..pre })
}

/// The snapshot in the addressed slot becomes the CPU state; nothing
/// else changes.
pub open spec fn load_step(pre: Machine, post: Machine, index: int) -> bool {
    &&& 0 <= index < NUM_SAVESTATES
    &&& pre.saved_states@[index] matches Some(s) && post.cpu_state == s
    &&& post == (Machine { cpu_state: post.cpu_state, ..pre })
}

/// Saving a snapshot, then any further work that leaves the slots
/// alone (as every run and input operation does), then loading the
/// same slot reproduces the exact saved CPU state: registers, memory,
/// display and keyboard alike.
pub proof fn lemma_save_load_round_trip(
    m0: Machine,
    m1: Machine,
    m2: Machine,
    m3: Machine,
    index: int,
)
    requires
        save_step(m0, m1, index),
        m2.saved_states@ == m1.saved_states@,
        load_step(m2, m3, index),
    ensures
        m3.cpu_state == m0.cpu_state,
{
}

impl Machine {
    /// Structural invariant: the CPU is well formed, and so is every
    /// stored snapshot.
    pub open spec fn wf(&self) -> bool {
        &&& self.cpu_state.wf()
        &&& forall|k: int|
            0 <= k < NUM_SAVESTATES ==> ((#[trigger] self.saved_states@[k]) matches Some(s)
                ==> s.wf())
    }

    /// A machine holding the given program image, with the instruction
    /// clock at the configured rate and both 60Hz timers; no snapshot
    /// slot is filled.  The clock rate must fit between one instruction
    /// per second and one per nanosecond.
    pub fn new(program: &[u8], config: Chip8Config) -> (r: Machine)
        requires
            program@.len() <= MEMSIZE - PROG_START_ADDR,
            1 <= config.clock_speed_hz <= NANOS_PER_SEC,
        ensures
            r.wf(),
            r.cpu_state.config == config,
            r.cpu_state.pc == PROG_START_ADDR,
            r.cpu_state.halt_status == HaltStatus::NotHalted,
            r.cpu_state.dt == 0,
            r.cpu_state.st == 0,
            forall|k: int| 0 <= k < 16 ==> r.cpu_state.v@[k] == 0,
            forall|j: int|
                0 <= j < program@.len() ==> r.cpu_state.mem@[PROG_START_ADDR + j] == program@[j],
            r.cpu_instr_timer.trigger_dur == NANOS_PER_SEC / config.clock_speed_hz,
            r.cpu_instr_timer.curr_t == 0,
            r.cpu_timer_regs_timer.trigger_dur == SIXTIETH_SECOND_NANOS,
            r.cpu_timer_regs_timer.curr_t == 0,
            r.vblank_timer.trigger_dur == SIXTIETH_SECOND_NANOS,
            r.vblank_timer.curr_t == 0,
            forall|k: int| 0 <= k < NUM_SAVESTATES ==> r.saved_states@[k] is None,
    {
        let cpu_state = CPUState::new(
            Memory::with_prog(program),
            DisplayData::new_64x32(),
            config,
        );
        Machine {
            cpu_state,
            cpu_instr_timer: Timer::new(NANOS_PER_SEC / config.clock_speed_hz),
            cpu_timer_regs_timer: Timer::new(SIXTIETH_SECOND_NANOS),
            vblank_timer: Timer::new(SIXTIETH_SECOND_NANOS),
            saved_states: [None; NUM_SAVESTATES],
        }
    }

    /// Runs as many instruction cycles as the instruction timer owes,
    /// stopping at the first fatal condition.
    fn catch_up_cycles(&mut self, count: u8) -> (r: Result<(), Chip8Error>)
        requires
            old(self).wf(),
        ensures
            final(self).wf(),
            final(self).saved_states == old(self).saved_states,
            final(self).cpu_instr_timer == old(self).cpu_instr_timer,
            final(self).cpu_timer_regs_timer == old(self).cpu_timer_regs_timer,
            final(self).vblank_timer == old(self).vblank_timer,
            final(self).cpu_state.config == old(self).cpu_state.config,
            r is Ok ==> cycles_outcome(
                old(self).cpu_state,
                final(self).cpu_state,
                count as int,
                Ok::<(), Chip8Error>(()),
            ),
            r matches Err(e) ==> cycles_outcome(
                old(self).cpu_state,
                final(self).cpu_state,
                count as int,
                Err::<(), Chip8Error>(e),
            ),
    {
        let mut idx: u8 = 0;
        while idx < count
            invariant
                self.wf(),
                idx <= count,
                self.saved_states == old(self).saved_states,
                self.cpu_instr_timer == old(self).cpu_instr_timer,
                self.cpu_timer_regs_timer == old(self).cpu_timer_regs_timer,
                self.vblank_timer == old(self).vblank_timer,
                self.cpu_state.config == old(self).cpu_state.config,
                cycles_outcome(
                    old(self).cpu_state,
                    self.cpu_state,
                    idx as int,
                    Ok::<(), Chip8Error>(()),
                ),
            decreases count - idx,
        {
            let ghost mid = self.cpu_state;
            let step = self.cpu_state.run_cycle();
            proof {
                lemma_cycle_preserves_config(mid, self.cpu_state, step);
            }
            match step {
                Ok(_) => {
                    proof {
                        lemma_cycles_extend(
                            old(self).cpu_state,
                            mid,
                            self.cpu_state,
                            idx as int,
                            step,
                            count as int,
                        );
                    }
                },
                Err(e) => {
                    proof {
                        lemma_cycles_extend(
                            old(self).cpu_state,
                            mid,
                            self.cpu_state,
                            idx as int,
                            step,
                            count as int,
                        );
                    }
                    return Err(e);
                },
            }
            idx = idx + 1;
        }
        Ok(())
    }

    /// Advances the machine by exactly `nanos` nanoseconds of elapsed
    /// time: the instruction timer releases its owed cycles, then the
    /// two timer registers drop by the number of 60Hz firings (floored
    /// at zero, and independent of the instruction clock), then the
    /// vertical-blank signal releases a waiting draw.  On a fatal
    /// condition the machine stops at the faulting cycle.
    pub fn run_for_nanos(&mut self, nanos: u64) -> (r: Result<(), Chip8Error>)
        requires
            old(self).wf(),
        ensures
            final(self).wf(),
            final(self).saved_states == old(self).saved_states,
            final(self).cpu_state.config == old(self).cpu_state.config,
            final(self).cpu_instr_timer.trigger_dur == old(self).cpu_instr_timer.trigger_dur,
            final(self).cpu_timer_regs_timer.trigger_dur == old(
                self,
            ).cpu_timer_regs_timer.trigger_dur,
            final(self).vblank_timer.trigger_dur == old(self).vblank_timer.trigger_dur,
            ({
                let c = drain_fires(
                    sat_add64(old(self).cpu_instr_timer.curr_t, nanos),
                    old(self).cpu_instr_timer.trigger_dur,
                    255,
                );
                let k = drain_fires(
                    sat_add64(old(self).cpu_timer_regs_timer.curr_t, nanos),
                    old(self).cpu_timer_regs_timer.trigger_dur,
                    255,
                );
                let m = drain_fires(
                    sat_add64(old(self).vblank_timer.curr_t, nanos),
                    old(self).vblank_timer.trigger_dur,
                    255,
                );
                &&& final(self).cpu_instr_timer.curr_t == drain_rest(
                    sat_add64(old(self).cpu_instr_timer.curr_t, nanos),
                    old(self).cpu_instr_timer.trigger_dur,
                    255,
                )
                &&& match r {
                    Result::Ok(()) => {
                        &&& final(self).cpu_timer_regs_timer.curr_t == drain_rest(
                            sat_add64(old(self).cpu_timer_regs_timer.curr_t, nanos),
                            old(self).cpu_timer_regs_timer.trigger_dur,
                            255,
                        )
                        &&& final(self).vblank_timer.curr_t == drain_rest(
                            sat_add64(old(self).vblank_timer.curr_t, nanos),
                            old(self).vblank_timer.trigger_dur,
                            255,
                        )
                        &&& exists|mid: CPUState|
                            {
                                &&& #[trigger] cycles_outcome(
                                    old(self).cpu_state,
                                    mid,
                                    c,
                                    Ok::<(), Chip8Error>(()),
                                )
                                &&& final(self).cpu_state == after_timers(mid, k, m)
                            }
                    },
                    Result::Err(e) => {
                        // A fatal result owes a genuinely faulting run
                        // of the owed cycles; the later timer phases
                        // are then skipped.
                        &&& cycles_outcome(
                            old(self).cpu_state,
                            final(self).cpu_state,
                            c,
                            Err::<(), Chip8Error>(e),
                        )
                        &&& final(self).cpu_timer_regs_timer.curr_t == old(
                            self,
                        ).cpu_timer_regs_timer.curr_t
                        &&& final(self).vblank_timer.curr_t == old(self).vblank_timer.curr_t
                    },
                }
            }),
    {
        let c = self.cpu_instr_timer.tick(nanos);
        match self.catch_up_cycles(c) {
            Ok(_) => {},
            Err(e) => {
                proof {
                    assert(cycles_outcome(
                        old(self).cpu_state,
                        self.cpu_state,
                        drain_fires(
                            sat_add64(old(self).cpu_instr_timer.curr_t, nanos),
                            old(self).cpu_instr_timer.trigger_dur,
                            255,
                        ),
                        Err::<(), Chip8Error>(e),
                    ));
                }
                return Err(e);
            },
        }
        let ghost mid = self.cpu_state;
        let k = self.cpu_timer_regs_timer.tick(nanos);
        self.cpu_state.dt = self.cpu_state.dt.saturating_sub(k);
        self.cpu_state.st = self.cpu_state.st.saturating_sub(k);
        let m = self.vblank_timer.tick(nanos);
        if m > 0 {
            self.cpu_state.enter_vblank();
        }
        proof {
            assert(self.cpu_state == after_timers(mid, k as int, m as int));
            let cc = drain_fires(
                sat_add64(old(self).cpu_instr_timer.curr_t, nanos),
                old(self).cpu_instr_timer.trigger_dur,
                255,
            );
            let kk = drain_fires(
                sat_add64(old(self).cpu_timer_regs_timer.curr_t, nanos),
                old(self).cpu_timer_regs_timer.trigger_dur,
                255,
            );
            let mm = drain_fires(
                sat_add64(old(self).vblank_timer.curr_t, nanos),
                old(self).vblank_timer.trigger_dur,
                255,
            );
            assert(cycles_outcome(old(self).cpu_state, mid, cc, Ok::<(), Chip8Error>(())));
            assert(self.cpu_state == after_timers(mid, kk, mm));
        }
        Ok(())
    }

    /// Polls the three timers against the real clock: owed instruction
    /// cycles run, the timer registers decay at 60Hz, and the
    /// vertical-blank signal is delivered.  How much time has elapsed
    /// depends on the clock, so only what holds of every outcome is
    /// stated.
    pub fn run(&mut self) -> (r: Result<(), Chip8Error>)
        requires
            old(self).wf(),
        ensures
            final(self).wf(),
            final(self).saved_states == old(self).saved_states,
            final(self).cpu_state.config == old(self).cpu_state.config,
            final(self).cpu_instr_timer.trigger_dur == old(self).cpu_instr_timer.trigger_dur,
            final(self).cpu_timer_regs_timer.trigger_dur == old(
                self,
            ).cpu_timer_regs_timer.trigger_dur,
            final(self).vblank_timer.trigger_dur == old(self).vblank_timer.trigger_dur,
            match r {
                Result::Ok(()) => exists|mid: CPUState, c: int, k: int, m: int|
                    #![trigger cycles_outcome(old(self).cpu_state, mid, c, Ok::<(), Chip8Error>(())), after_timers(mid, k, m)]
                    {
                        &&& 0 <= c <= 255
                        &&& 0 <= k <= 255
                        &&& 0 <= m <= 255
                        &&& cycles_outcome(old(self).cpu_state, mid, c, Ok::<(), Chip8Error>(()))
                        &&& final(self).cpu_state == after_timers(mid, k, m)
                    },
                Result::Err(e) => exists|c: int|
                    0 <= c <= 255 && #[trigger] cycles_outcome(
                        old(self).cpu_state,
                        final(self).cpu_state,
                        c,
                        Err::<(), Chip8Error>(e),
                    ),
            },
    {
        let c = self.cpu_instr_timer.run();
        match self.catch_up_cycles(c) {
            Ok(_) => {},
            Err(e) => {
                proof {
                    assert(cycles_outcome(
                        old(self).cpu_state,
                        self.cpu_state,
                        c as int,
                        Err::<(), Chip8Error>(e),
                    ));
                }
                return Err(e);
            },
        }
        let ghost mid = self.cpu_state;
        let k = self.cpu_timer_regs_timer.run();
        self.cpu_state.dt = self.cpu_state.dt.saturating_sub(k);
        self.cpu_state.st = self.cpu_state.st.saturating_sub(k);
        let m = self.vblank_timer.run();
        if m > 0 {
            self.cpu_state.enter_vblank();
        }
        proof {
            assert(cycles_outcome(old(self).cpu_state, mid, c as int, Ok::<(), Chip8Error>(())));
            assert(self.cpu_state == after_timers(mid, k as int, m as int));
        }
        Ok(())
    }

    /// Runs with live timers until exactly one real instruction
    /// retires, pacing the timer registers and the vertical blank in
    /// lockstep while waiting, then freezes the timers again.
    fn run_until_instr(&mut self) -> (r: Result<(), Chip8Error>)
        requires
            old(self).wf(),
        ensures
            final(self).wf(),
            final(self).saved_states == old(self).saved_states,
            final(self).cpu_state.config == old(self).cpu_state.config,
            wait_outcome(old(self).cpu_state, final(self).cpu_state, r),
    {
        self.resume_timers();
        let mut polls: u64 = 0;
        let ghost mut tn: int = 0;
        // The poll bound only serves termination: at any real clock
        // rate it lies centuries away.
        while polls < u64::MAX
            invariant
                self.wf(),
                self.saved_states == old(self).saved_states,
                self.cpu_state.config == old(self).cpu_state.config,
                tn == polls as int,
                wait_trace(old(self).cpu_state, self.cpu_state, tn),
            decreases u64::MAX - polls,
        {
            let ghost iter_pre = self.cpu_state;
            let fired = self.cpu_instr_timer.run_once();
            let mut ran_instr = false;
            if fired {
                match self.cpu_state.run_cycle() {
                    Ok(b) => {
                        proof {
                            lemma_cycle_preserves_config(iter_pre, self.cpu_state, Ok(b));
                        }
                        ran_instr = b;
                    },
                    Err(e) => {
                        proof {
                            lemma_cycle_preserves_config(iter_pre, self.cpu_state, Err(e));
                        }
                        self.pause_timers();
                        proof {
                            assert(wait_trace(old(self).cpu_state, iter_pre, tn)
                                && cycle_step(iter_pre, self.cpu_state, Err::<
                                bool,
                                Chip8Error,
                            >(e)));
                        }
                        return Err(e);
                    },
                }
            }
            let ghost cycled = self.cpu_state;
            let k = self.cpu_timer_regs_timer.run();
            self.cpu_state.dt = self.cpu_state.dt.saturating_sub(k);
            self.cpu_state.st = self.cpu_state.st.saturating_sub(k);
            let m = self.vblank_timer.run();
            if m > 0 {
                self.cpu_state.enter_vblank();
            }
            proof {
                assert(self.cpu_state == after_timers(cycled, k as int, m as int));
                assert(wait_poll(iter_pre, self.cpu_state, ran_instr));
            }
            if ran_instr {
                self.pause_timers();
                proof {
                    assert(wait_trace(old(self).cpu_state, iter_pre, tn)
                        && wait_poll(iter_pre, self.cpu_state, true));
                }
                return Ok(());
            }
            proof {
                lemma_wait_trace_extend(old(self).cpu_state, iter_pre, self.cpu_state, tn);
                tn = tn + 1;
            }
            polls = polls + 1;
        }
        self.pause_timers();
        proof {
            assert(wait_trace(old(self).cpu_state, self.cpu_state, tn));
        }
        Ok(())
    }

    /// Forces exactly one instruction to retire with the timers
    /// otherwise frozen, then reports a formatted register and decode
    /// snapshot for the stepping debugger.
    pub fn run_step_debug(&mut self) -> (r: Result<String, Chip8Error>)
        requires
            old(self).wf(),
        ensures
            final(self).wf(),
            final(self).saved_states == old(self).saved_states,
            final(self).cpu_state.config == old(self).cpu_state.config,
            match r {
                Result::Ok(s) => wait_outcome(
                    old(self).cpu_state,
                    final(self).cpu_state,
                    Ok::<(), Chip8Error>(()),
                ) && s@ == crate::cli_debug::snapshot_text(final(self).cpu_state),
                Result::Err(e) => wait_outcome(
                    old(self).cpu_state,
                    final(self).cpu_state,
                    Err::<(), Chip8Error>(e),
                ),
            },
    {
        match self.run_until_instr() {
            Ok(()) => Ok(crate::cli_debug::debug_state(&self.cpu_state)),
            Err(e) => Err(e),
        }
    }

    /// Unfreezes all three timers.
    pub fn resume_timers(&mut self)
        ensures
            *final(self) == (Machine {
                cpu_instr_timer: final(self).cpu_instr_timer,
                cpu_timer_regs_timer: final(self).cpu_timer_regs_timer,
                vblank_timer: final(self).vblank_timer,
                ..*old(self)
            }),
            final(self).cpu_instr_timer.curr_t == old(self).cpu_instr_timer.curr_t,
            final(self).cpu_instr_timer.trigger_dur == old(self).cpu_instr_timer.trigger_dur,
            final(self).cpu_timer_regs_timer.curr_t == old(self).cpu_timer_regs_timer.curr_t,
            final(self).cpu_timer_regs_timer.trigger_dur == old(
                self,
            ).cpu_timer_regs_timer.trigger_dur,
            final(self).vblank_timer.curr_t == old(self).vblank_timer.curr_t,
            final(self).vblank_timer.trigger_dur == old(self).vblank_timer.trigger_dur,
    {
        self.cpu_instr_timer.resume();
        self.cpu_timer_regs_timer.resume();
        self.vblank_timer.resume();
    }

    /// Freezes all three timers without losing accumulated time.
    pub fn pause_timers(&mut self)
        ensures
            *final(self) == (Machine {
                cpu_instr_timer: final(self).cpu_instr_timer,
                cpu_timer_regs_timer: final(self).cpu_timer_regs_timer,
                vblank_timer: final(self).vblank_timer,
                ..*old(self)
            }),
            final(self).cpu_instr_timer.trigger_dur == old(self).cpu_instr_timer.trigger_dur,
            final(self).cpu_timer_regs_timer.trigger_dur == old(
                self,
            ).cpu_timer_regs_timer.trigger_dur,
            final(self).vblank_timer.trigger_dur == old(self).vblank_timer.trigger_dur,
    {
        self.cpu_instr_timer.pause();
        self.cpu_timer_regs_timer.pause();
        self.vblank_timer.pause();
    }

    /// Stores a snapshot of the whole CPU state in the addressed slot;
    /// an index past the slot array is a recoverable error.
    pub fn save_current_state(&mut self, index: usize) -> (r: Result<(), SaveStateError>)
        requires
            old(self).wf(),
        ensures
            final(self).wf(),
            index < NUM_SAVESTATES ==> r == Ok::<(), SaveStateError>(()) && save_step(
                *old(self),
                *final(self),
                index as int,
            ),
            index >= NUM_SAVESTATES ==> r == Err::<(), SaveStateError>(
                SaveStateError::IndexTooHigh,
            ) && *final(self) == *old(self),
    {
        if index >= NUM_SAVESTATES {
            return Err(SaveStateError::IndexTooHigh);
        }
        self.saved_states[index] = Some(self.cpu_state);
        Ok(())
    }

    /// Restores the snapshot in the addressed slot as the CPU state; an
    /// index past the slot array, or an empty slot, is a recoverable
    /// error.
    pub fn load_state(&mut self, index: usize) -> (r: Result<(), SaveStateError>)
        requires
            old(self).wf(),
        ensures
            final(self).wf(),
            index >= NUM_SAVESTATES ==> r == Err::<(), SaveStateError>(
                SaveStateError::IndexTooHigh,
            ) && *final(self) == *old(self),
            index < NUM_SAVESTATES ==> match old(self).saved_states@[index as int] {
                Option::None => r == Err::<(), SaveStateError>(SaveStateError::EmptySlot)
                    && *final(self) == *old(self),
                Option::Some(s) => r == Ok::<(), SaveStateError>(()) && load_step(
                    *old(self),
                    *final(self),
                    index as int,
                ),
            },
    {
        if index >= NUM_SAVESTATES {
            return Err(SaveStateError::IndexTooHigh);
        }
        let slot = self.saved_states[index];
        match slot {
            None => Err(SaveStateError::EmptySlot),
            Some(s) => {
                self.cpu_state = s;
                Ok(())
            },
        }
    }

    /// Whether the delay timer register is still counting down.
    pub fn debug_cond(&self) -> (r: bool)
        ensures
            r == (self.cpu_state.dt > 0),
    {
        self.cpu_state.dt > 0
    }

    /// Presses a key on the machine's keyboard.
    pub fn press_key(&mut self, key: u8)
        requires
            old(self).wf(),
            key < 16,
        ensures
            final(self).wf(),
            final(self).cpu_state.kbstate.key@ == old(self).cpu_state.kbstate.key@.update(
                key as int,
                true,
            ),
            final(self).cpu_state.kbstate.Fx0A == (if old(self).cpu_state.kbstate.Fx0A
                == crate::keyboard::Fx0AStatus::WaitingForPress && !old(
                self,
            ).cpu_state.kbstate.key@[key as int] {
                crate::keyboard::Fx0AStatus::WaitingForRelease(key)
            } else {
                old(self).cpu_state.kbstate.Fx0A
            }),
            final(self).cpu_state == (CPUState {
                kbstate: final(self).cpu_state.kbstate,
                ..old(self).cpu_state
            }),
            *final(self) == (Machine { cpu_state: final(self).cpu_state, ..*old(self) }),
    {
        self.cpu_state.kbstate.press_key(key);
    }

    /// Releases a key on the machine's keyboard.
    pub fn release_key(&mut self, key: u8)
        requires
            old(self).wf(),
            key < 16,
        ensures
            final(self).wf(),
            final(self).cpu_state.kbstate.key@ == old(self).cpu_state.kbstate.key@.update(
                key as int,
                false,
            ),
            final(self).cpu_state.kbstate.Fx0A == (if old(self).cpu_state.kbstate.Fx0A
                == crate::keyboard::Fx0AStatus::WaitingForRelease(key) {
                crate::keyboard::Fx0AStatus::JustReleased(key)
            } else {
                old(self).cpu_state.kbstate.Fx0A
            }),
            final(self).cpu_state == (CPUState {
                kbstate: final(self).cpu_state.kbstate,
                ..old(self).cpu_state
            }),
            *final(self) == (Machine { cpu_state: final(self).cpu_state, ..*old(self) }),
    {
        self.cpu_state.kbstate.release_key(key);
    }

    /// Read-only view of the display.
    pub fn display_data(&self) -> (r: &DisplayData)
        ensures
            *r == self.cpu_state.disp,
    {
        &self.cpu_state.disp
    }

    /// Whether the sound timer register calls for the buzzer.
    pub fn should_make_sound(&self) -> (r: bool)
        ensures
            r == (self.cpu_state.st > 1),
    {
        self.cpu_state.st > 1
    }

    /// The opcode currently addressed by the program counter.
    pub fn current_opcode(&self) -> (r: u16)
        ensures
            r == spec_opcode(self.cpu_state),
    {
        self.cpu_state.get_opcode()
    }
}

} // verus!
