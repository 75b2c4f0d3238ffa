//! Real-time pacing: an accumulator of elapsed wall-clock time with a
//! fixed trigger period.
//!
//! Reading the clock is inherently outside the reach of proof, so it is
//! isolated in three small trusted items; everything the timer decides
//! from an elapsed duration — how many whole periods fire, what
//! remains accumulated — is the deterministic `tick`/`tick_once` core,
//! verified for every possible elapsed value.  Catch-up firing is
//! capped at 255 periods per call; the remainder stays accumulated for
//! the next call, so pacing drift self-corrects.
use vstd::prelude::*;

verus! {

/// Declares `std::time::Instant`, the opaque monotonic-clock reading
/// that the timer stores between polls.
#[verifier::external_type_specification]
#[verifier::external_body]
pub struct ExInstant(std::time::Instant);

/// Relies on `std::time::Instant::now`: an opaque reading of the
/// monotonic clock.  Nothing is promised of it.
#[verifier::external_body]
fn instant_now() -> std::time::Instant {
    std::time::Instant::now()
}

/// Relies on `std::time::Instant::duration_since`: the time elapsed
/// from `earlier` to `later`, zero if `earlier` is the later of the
/// two.  Nothing is promised of it.
#[verifier::external_body]
fn duration_between(earlier: &std::time::Instant, later: &std::time::Instant) -> std::time::Duration {
    later.duration_since(*earlier)
}

/// Relies on `std::time::Duration::as_nanos`: the duration in whole
/// nanoseconds, saturated into the 64-bit range.  Nothing is promised
/// of it.
#[verifier::external_body]
fn duration_nanos(d: &std::time::Duration) -> u64 {
    u64::try_from(d.as_nanos()).unwrap_or(u64::MAX)
}

/// 64-bit saturating addition.
pub open spec fn sat_add64(a: u64, b: u64) -> u64 {
    if a + b > u64::MAX {
        u64::MAX
    } else {
        (a + b) as u64
    }
}

/// How many whole periods of `dur` drain from an accumulated `acc`, at
/// most `cap`; a period fires only while the accumulator strictly
/// exceeds the period.
pub open spec fn drain_fires(acc: u64, dur: u64, cap: int) -> int
    decreases cap,
{
    if acc > dur && cap > 0 {
        1 + drain_fires((acc - dur) as u64, dur, cap - 1)
    } else {
        0
    }
}

/// What remains accumulated after `drain_fires` periods drain.
pub open spec fn drain_rest(acc: u64, dur: u64, cap: int) -> u64
    decreases cap,
{
    if acc > dur && cap > 0 {
        drain_rest((acc - dur) as u64, dur, cap - 1)
    } else {
        acc
    }
}

pub struct Timer {
    /// Elapsed time accumulated and not yet consumed, in nanoseconds.
    pub curr_t: u64,
    /// Trigger period, in nanoseconds.
    pub trigger_dur: u64,
    /// When the timer last read the clock.
    pub last_run: std::time::Instant,
}

impl Timer {
    /// A timer with the given period and nothing accumulated.
    pub fn new(trigger_dur_nanos: u64) -> (r: Timer)
        ensures
            r.curr_t == 0,
            r.trigger_dur == trigger_dur_nanos,
    {
        Timer { curr_t: 0, trigger_dur: trigger_dur_nanos, last_run: instant_now() }
    }

    /// Deterministic core: accounts `nanos` of elapsed time, then
    /// consumes and reports up to 255 whole periods (catch-up firing
    /// when polled late).
    pub fn tick(&mut self, nanos: u64) -> (fired: u8)
        ensures
            final(self).trigger_dur == old(self).trigger_dur,
            fired as int == drain_fires(
                sat_add64(old(self).curr_t, nanos),
                old(self).trigger_dur,
                255,
            ),
            final(self).curr_t == drain_rest(
                sat_add64(old(self).curr_t, nanos),
                old(self).trigger_dur,
                255,
            ),
    {
        self.curr_t = self.curr_t.saturating_add(nanos);
        let ghost acc0 = self.curr_t;
        let mut fired: u8 = 0;
        while self.curr_t > self.trigger_dur && fired < 255
            invariant
                self.trigger_dur == old(self).trigger_dur,
                self.last_run == old(self).last_run,
                fired <= 255,
                drain_fires(acc0, self.trigger_dur, 255) == fired + drain_fires(
                    self.curr_t,
                    self.trigger_dur,
                    255 - fired,
                ),
                drain_rest(acc0, self.trigger_dur, 255) == drain_rest(
                    self.curr_t,
                    self.trigger_dur,
                    255 - fired,
                ),
            decreases 255 - fired,
        {
            self.curr_t = self.curr_t - self.trigger_dur;
            fired = fired + 1;
        }
        fired
    }

    /// Deterministic core of single-step pacing: accounts `nanos`, then
    /// consumes at most one period even if several have elapsed.
    pub fn tick_once(&mut self, nanos: u64) -> (fired: bool)
        ensures
            final(self).trigger_dur == old(self).trigger_dur,
            ({
                let acc = sat_add64(old(self).curr_t, nanos);
                if acc > old(self).trigger_dur {
                    fired && final(self).curr_t == acc - old(self).trigger_dur
                } else {
                    !fired && final(self).curr_t == acc
                }
            }),
    {
        self.curr_t = self.curr_t.saturating_add(nanos);
        if self.curr_t > self.trigger_dur {
            self.curr_t = self.curr_t - self.trigger_dur;
            true
        } else {
            false
        }
    }

    /// Reads the clock and fires once per whole period elapsed, up to
    /// 255.  The elapsed time comes from the clock, so the contract
    /// holds for some elapsed value without naming it.
    pub fn run(&mut self) -> (fired: u8)
        ensures
            final(self).trigger_dur == old(self).trigger_dur,
            exists|nanos: u64|
                {
                    &&& fired as int == drain_fires(
                        sat_add64(old(self).curr_t, nanos),
                        old(self).trigger_dur,
                        255,
                    )
                    &&& final(self).curr_t == drain_rest(
                        sat_add64(old(self).curr_t, nanos),
                        old(self).trigger_dur,
                        255,
                    )
                },
    {
        let now = instant_now();
        let d = duration_between(&self.last_run, &now);
        let nanos = duration_nanos(&d);
        self.last_run = now;
        let fired = self.tick(nanos);
        proof {
            assert(fired as int == drain_fires(
                sat_add64(old(self).curr_t, nanos),
                old(self).trigger_dur,
                255,
            ) && final(self).curr_t == drain_rest(
                sat_add64(old(self).curr_t, nanos),
                old(self).trigger_dur,
                255,
            ));
        }
        fired
    }

    /// Reads the clock and fires at most once, however late the poll;
    /// used to pace exactly one CPU instruction per poll.
    pub fn run_once(&mut self) -> (fired: bool)
        ensures
            final(self).trigger_dur == old(self).trigger_dur,
            exists|nanos: u64|
                #![trigger sat_add64(old(self).curr_t, nanos)]
                {
                    let acc = sat_add64(old(self).curr_t, nanos);
                    if acc > old(self).trigger_dur {
                        fired && final(self).curr_t == acc - old(self).trigger_dur
                    } else {
                        !fired && final(self).curr_t == acc
                    }
                },
    {
        let now = instant_now();
        let d = duration_between(&self.last_run, &now);
        let nanos = duration_nanos(&d);
        self.last_run = now;
        let fired = self.tick_once(nanos);
        proof {
            let acc = sat_add64(old(self).curr_t, nanos);
            assert(if acc > old(self).trigger_dur {
                fired && final(self).curr_t == acc - old(self).trigger_dur
            } else {
                !fired && final(self).curr_t == acc
            });
        }
        fired
    }

    /// Freezes the timer: the time elapsed so far is folded into the
    /// accumulator, so nothing is lost while paused.
    pub fn pause(&mut self)
        ensures
            final(self).trigger_dur == old(self).trigger_dur,
            exists|nanos: u64| final(self).curr_t == sat_add64(old(self).curr_t, nanos),
    {
        let now = instant_now();
        let d = duration_between(&self.last_run, &now);
        let nanos = duration_nanos(&d);
        self.curr_t = self.curr_t.saturating_add(nanos);
        proof {
            assert(self.curr_t == sat_add64(old(self).curr_t, nanos));
        }
    }

    /// Unfreezes the timer: the clock restarts now, and the time spent
    /// paused is discarded.
    pub fn resume(&mut self)
        ensures
            final(self).curr_t == old(self).curr_t,
            final(self).trigger_dur == old(self).trigger_dur,
    {
        self.last_run = instant_now();
    }
}

} // verus!
