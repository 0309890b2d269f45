use vstd::prelude::*;
use vstd::arithmetic::div_mod::{
    lemma_fundamental_div_mod, lemma_hoist_over_denominator, lemma_mod_division_less_than_divisor,
    lemma_mod_multiples_vanish,
};

verus! {

/// How many whole fixed steps a run that began at `start_ms` owes once the
/// wall clock reads `now_ms`: the smallest `k` with
/// `k / rate >= (now_ms - start_ms) / 1000` in exact arithmetic, i.e. the
/// first tick count whose simulated time has caught up with real time.
pub open spec fn ticks_owed(start_ms: int, rate: int, now_ms: int) -> int {
    if now_ms <= start_ms {
        0
    } else {
        let target = (now_ms - start_ms) * rate;
        target / 1000 + if target % 1000 == 0 {
            0int
        } else {
            1int
        }
    }
}

/// `ticks_owed` really is the least tick count caught up with real time:
/// `k` simulated steps cover the elapsed wall time iff `k` is at least the
/// owed count.
pub proof fn lemma_ticks_owed_least(start_ms: int, rate: int, now_ms: int, k: int)
    requires
        rate >= 1,
        start_ms <= now_ms,
        k >= 0,
    ensures
        k * 1000 >= (now_ms - start_ms) * rate <==> k >= ticks_owed(start_ms, rate, now_ms),
{
    assert((now_ms - start_ms) * rate >= 0) by (nonlinear_arith)
        requires
            now_ms >= start_ms,
            rate >= 1,
    ;
    let target = (now_ms - start_ms) * rate;
    lemma_fundamental_div_mod(target, 1000);
    lemma_mod_division_less_than_divisor(target, 1000);
    let owed = ticks_owed(start_ms, rate, now_ms);
    if now_ms == start_ms {
        assert(target == 0) by (nonlinear_arith)
            requires
                target == (now_ms - start_ms) * rate,
                now_ms == start_ms,
        ;
    }
    assert(owed * 1000 >= target);
    assert(k < owed ==> k * 1000 < target);
}

/// The fixed-step frame clock: simulated time advances only in whole ticks
/// of exactly `1 / rate` seconds, however irregularly the wall clock is
/// sampled. After `ticks` completed updates the simulated time stands at
/// `start_ms / 1000 + ticks / rate` seconds.
pub struct FrameClock {
    pub start_ms: u64,
    pub ticks: u64,
    pub rate: u16,
}

impl FrameClock {
    pub open spec fn wf(&self) -> bool {
        self.rate >= 1
    }

    /// A clock whose run begins now: no updates owed until wall time moves.
    pub fn new(start_ms: u64, rate: u16) -> (c: FrameClock)
        requires
            rate >= 1,
        ensures
            c.wf(),
            c.start_ms == start_ms,
            c.ticks == 0,
            c.rate == rate,
    {
        FrameClock { start_ms, ticks: 0, rate }
    }

    /// How many further fixed updates are owed at wall time `now_ms`:
    /// the difference between the least caught-up tick count and the ticks
    /// already run. Zero when simulated time is already at or ahead of real
    /// time — in particular at the instant the run starts.
    pub fn updates_due(&self, now_ms: u64) -> (n: u64)
        requires
            self.wf(),
            (now_ms > self.start_ms) ==> (now_ms - self.start_ms) * self.rate <= u64::MAX,
        ensures
            n == if ticks_owed(self.start_ms as int, self.rate as int, now_ms as int)
                > self.ticks {
                ticks_owed(self.start_ms as int, self.rate as int, now_ms as int)
                    - self.ticks
            } else {
                0
            },
    {
        if now_ms <= self.start_ms {
            return 0;
        }
        let elapsed: u64 = now_ms - self.start_ms;
        let target: u64 = elapsed * (self.rate as u64);
        let owed: u64 = target / 1000 + if target % 1000 != 0 {
            1
        } else {
            0
        };
        if owed > self.ticks {
            owed - self.ticks
        } else {
            0
        }
    }

    /// One fixed update has run: simulated time moves forward by exactly one
    /// step of `1 / rate` seconds.
    pub fn advance(&mut self)
        requires
            old(self).wf(),
            old(self).ticks < u64::MAX,
        ensures
            final(self).wf(),
            final(self).start_ms == old(self).start_ms,
            final(self).rate == old(self).rate,
            final(self).ticks == old(self).ticks + 1,
    {
        self.ticks = self.ticks + 1;
    }
}

/// Frame-rate ceiling: the whole milliseconds left to sleep after a frame
/// that took `frame_ms`, so that rendering never runs faster than
/// `ceiling_fps` frames per second. A frame at least one period long sleeps
/// nothing; the ceiling is an upper bound on presentation rate, not a
/// target.
pub fn throttle_delay_ms(frame_ms: u64, ceiling_fps: u64) -> (d: u64)
    requires
        1 <= ceiling_fps,
    ensures
        d == if (frame_ms as int) < 1000int / (ceiling_fps as int) {
            1000int / (ceiling_fps as int) - frame_ms
        } else {
            0
        },
{
    let period: u64 = 1000 / ceiling_fps;
    if frame_ms < period {
        period - frame_ms
    } else {
        0
    }
}

/// The fixed-step law: when the wall clock advances between two frames by a
/// jump that is a whole number of fixed steps (`jump * rate` divisible by
/// 1000 ms), the clock owes exactly `jump * rate / 1000` further updates —
/// no more, no fewer — regardless of where the jump started. Each of those
/// updates advances the tick count by one, so the update callback observes
/// consecutive tick counts, i.e. simulated times spaced by exactly one step
/// of `1 / rate` seconds.
pub proof fn lemma_fixed_step(start_ms: int, rate: int, now1: int, now2: int)
    requires
        rate >= 1,
        start_ms <= now1 <= now2,
        ((now2 - now1) * rate) % 1000 == 0,
    ensures
        ticks_owed(start_ms, rate, now2) - ticks_owed(start_ms, rate, now1) == (now2 - now1)
            * rate / 1000,
{
    assert((now1 - start_ms) * rate >= 0 && (now2 - now1) * rate >= 0) by (nonlinear_arith)
        requires
            start_ms <= now1 <= now2,
            rate >= 1,
    ;
    assert((now2 - start_ms) * rate == (now1 - start_ms) * rate + (now2 - now1) * rate)
        by (nonlinear_arith);
    let d1 = (now1 - start_ms) * rate;
    let jump = (now2 - now1) * rate;
    let q = jump / 1000;
    lemma_fundamental_div_mod(jump, 1000);
    assert(jump == 1000 * q);
    lemma_hoist_over_denominator(d1, q, 1000nat);
    assert(d1 / 1000 + q == (d1 + q * 1000) / 1000);
    lemma_mod_multiples_vanish(q, d1, 1000);
    assert((1000 * q + d1) % 1000 == d1 % 1000);
    assert(d1 + jump == d1 + q * 1000);
    if now1 == start_ms {
        assert(d1 == 0) by (nonlinear_arith)
            requires d1 == (now1 - start_ms) * rate && now1 == start_ms;
    }
}

} // verus!
