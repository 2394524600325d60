//! The fixed-timestep motion integrator.
//!
//! The simulation advances on fixed ticks, decoupled from the frame
//! rate: each frame, the elapsed real time is added to an accumulator
//! and as many whole ticks are run as the accumulated time warrants —
//! never fewer, never more. Each tick translates every moving entity
//! along the +X axis by its speed times the tick length.
//!
//! Units are chosen so that everything is exact: speeds are pixels per
//! second, times are microseconds, and positions are micropixels, so
//! one tick moves an entity by exactly `speed * step_micros` micropixels.

use vstd::prelude::*;

verus! {

/// One simulation tick in microseconds, approximating a 60 Hz step.
pub const TIME_STEP_MICROS: u64 = 16_666;

/// The position one fixed tick after `x`: constant-velocity translation
/// along +X. Pixels per second times microseconds are micropixels.
pub open spec fn stepped_position(x: int, speed_px_per_s: int, step_micros: int) -> int {
    x + speed_px_per_s * step_micros
}

/// The position `n` fixed ticks after `x0`.
pub open spec fn position_after_ticks(x0: int, speed_px_per_s: int, step_micros: int, n: nat) -> int
    decreases n,
{
    if n == 0 {
        x0
    } else {
        stepped_position(
            position_after_ticks(x0, speed_px_per_s, step_micros, (n - 1) as nat),
            speed_px_per_s,
            step_micros,
        )
    }
}

/// Law: motion under fixed ticks is linear. An entity with speed `s`
/// starting at `x0` stands at `x0 + s * step * n` after `n` unpaused
/// ticks, independent of how the ticks were grouped into frames.
pub proof fn lemma_linear_motion(x0: int, speed_px_per_s: int, step_micros: int, n: nat)
    ensures
        position_after_ticks(x0, speed_px_per_s, step_micros, n) == x0 + speed_px_per_s
            * step_micros * n,
    decreases n,
{
    if n == 0 {
        assert(speed_px_per_s * step_micros * 0 == 0) by (nonlinear_arith);
    } else {
        lemma_linear_motion(x0, speed_px_per_s, step_micros, (n - 1) as nat);
        assert(speed_px_per_s * step_micros * (n - 1) + speed_px_per_s * step_micros
            == speed_px_per_s * step_micros * n) by (nonlinear_arith);
    }
}

/// Advances one entity's position by one fixed tick.
pub fn step_position(x: i64, speed_px_per_s: u32, step_micros: u64) -> (nx: i64)
    requires
        speed_px_per_s <= 1_000_000,
        step_micros <= 1_000_000_000,
        stepped_position(x as int, speed_px_per_s as int, step_micros as int) <= i64::MAX,
    ensures
        nx == stepped_position(x as int, speed_px_per_s as int, step_micros as int),
{
    proof {
        assert(0 <= speed_px_per_s as int * step_micros as int <= 1_000_000_000_000_000)
            by (nonlinear_arith)
            requires
                0 <= speed_px_per_s <= 1_000_000,
                0 <= step_micros <= 1_000_000_000,
        ;
    }
    let delta: i64 = (speed_px_per_s as i64) * (step_micros as i64);
    x + delta
}

/// Accumulates real elapsed time and hands out whole fixed ticks.
///
/// Whatever remains below one tick is kept for the next frame, so over
/// any sequence of frames the ticks run account for exactly the elapsed
/// time, to within one tick.
pub struct TickAccumulator {
    pub acc_micros: u64,
    pub step_micros: u64,
}

impl TickAccumulator {
    pub open spec fn wf(self) -> bool {
        1 <= self.step_micros
    }

    pub fn new(step_micros: u64) -> (t: TickAccumulator)
        requires
            1 <= step_micros,
        ensures
            t.step_micros == step_micros,
            t.acc_micros == 0,
            t.wf(),
    {
        TickAccumulator { acc_micros: 0, step_micros }
    }

    /// Adds one frame's elapsed real time and returns how many fixed
    /// ticks to run: never fewer nor more than the elapsed time warrants.
    pub fn advance(&mut self, elapsed_micros: u64) -> (ticks: u64)
        requires
            old(self).wf(),
            old(self).acc_micros + elapsed_micros <= u64::MAX,
        ensures
            final(self).wf(),
            final(self).step_micros == old(self).step_micros,
            ticks == (old(self).acc_micros + elapsed_micros) as int / old(self).step_micros as int,
            final(self).acc_micros == (old(self).acc_micros + elapsed_micros) as int % old(
                self,
            ).step_micros as int,
            final(self).acc_micros < final(self).step_micros,
            final(self).step_micros * ticks + final(self).acc_micros == old(self).acc_micros
                + elapsed_micros,
    {
        let total: u64 = self.acc_micros + elapsed_micros;
        let ticks: u64 = total / self.step_micros;
        self.acc_micros = total % self.step_micros;
        proof {
            vstd::arithmetic::div_mod::lemma_fundamental_div_mod(
                total as int,
                self.step_micros as int,
            );
        }
        ticks
    }
}

} // verus!
