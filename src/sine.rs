//! A sampled sine cycle, and the mapping from a harmonic's angle to a table step.
use vstd::prelude::*;
use crate::units::UNIT;

verus! {

/// Number of steps in one full sine cycle.
pub const SINE_STEPS: u64 = 65536;

/// Two pi radians in millionths of a radian.
pub const TWO_PI_UNITS: i64 = 6_283_185;

/// One sampled cycle of the sine function: entry `k` holds `sin(2 pi k / SINE_STEPS)`
/// in units, so every entry lies in `[-UNIT, UNIT]`.
pub struct SineTable {
    pub values: Vec<i64>,
}

impl SineTable {
    pub open spec fn wf(&self) -> bool {
        &&& self.values@.len() == SINE_STEPS
        &&& forall|k: int| 0 <= k < SINE_STEPS ==> -UNIT <= #[trigger] self.values@[k] <= UNIT
    }

    /// Accepts `values` as a sine table when it has one entry per step and every entry is
    /// within one unit of zero.
    pub fn new(values: Vec<i64>) -> (r: Option<SineTable>)
        ensures
            r.is_some() <==> (values@.len() == SINE_STEPS && forall|k: int|
                0 <= k < values@.len() ==> -UNIT <= #[trigger] values@[k] <= UNIT),
            r.is_some() ==> r.unwrap().values@ == values@ && r.unwrap().wf(),
    {
        if values.len() as u64 != SINE_STEPS {
            return None;
        }
        let mut i: usize = 0;
        while i < values.len()
            invariant
                0 <= i <= values@.len(),
                forall|k: int| 0 <= k < i ==> -UNIT <= #[trigger] values@[k] <= UNIT,
            decreases values@.len() - i,
        {
            if values[i] < -UNIT || values[i] > UNIT {
                return None;
            }
            i = i + 1;
        }
        Some(SineTable { values })
    }
}

/// The table step of a phase offset of `phi` millionths of a radian, in `[0, SINE_STEPS)`.
/// A negative offset turns the same number of steps backwards.
pub open spec fn phase_steps(phi: int) -> int {
    if phi >= 0 {
        (phi * SINE_STEPS / TWO_PI_UNITS as int) % SINE_STEPS as int
    } else {
        (SINE_STEPS - ((-phi) * SINE_STEPS / TWO_PI_UNITS as int) % SINE_STEPS as int) % SINE_STEPS as int
    }
}

/// The table step of `2 pi (n + 1) t / period + phi`: harmonic `n` at sample offset `t`.
pub open spec fn angle_step(n: int, t: int, period: int, phi: int) -> int {
    ((n + 1) * t * SINE_STEPS / period + phase_steps(phi)) % SINE_STEPS as int
}

pub fn phase_step_of(phi: i64) -> (r: u64)
    requires
        -4 * crate::units::CURVE_LIMIT <= phi <= 4 * crate::units::CURVE_LIMIT,
    ensures
        r == phase_steps(phi as int),
        r < SINE_STEPS,
{
    if phi >= 0 {
        let a = phi as u64;
        assert(a * SINE_STEPS <= 4 * crate::units::CURVE_LIMIT * SINE_STEPS) by (nonlinear_arith)
            requires a <= 4 * crate::units::CURVE_LIMIT;
        (a * SINE_STEPS / (TWO_PI_UNITS as u64)) % SINE_STEPS
    } else {
        let a = (-phi) as u64;
        assert(a * SINE_STEPS <= 4 * crate::units::CURVE_LIMIT * SINE_STEPS) by (nonlinear_arith)
            requires a <= 4 * crate::units::CURVE_LIMIT;
        (SINE_STEPS - (a * SINE_STEPS / (TWO_PI_UNITS as u64)) % SINE_STEPS) % SINE_STEPS
    }
}

pub fn angle_step_of(n: usize, t: usize, period: usize, phi: i64) -> (r: usize)
    requires
        n < 1024,
        t < period,
        1 <= period <= 65536,
        -4 * crate::units::CURVE_LIMIT <= phi <= 4 * crate::units::CURVE_LIMIT,
    ensures
        r == angle_step(n as int, t as int, period as int, phi as int),
        r < SINE_STEPS,
{
    let h = (n as u64) + 1;
    assert(h * (t as u64) <= 1024 * 65536) by (nonlinear_arith)
        requires h <= 1024, t < 65536;
    let ht = h * (t as u64);
    assert(ht * SINE_STEPS <= 1024 * 65536 * 65536) by (nonlinear_arith)
        requires ht <= 1024 * 65536;
    let base = ht * SINE_STEPS / (period as u64);
    proof {
        vstd::arithmetic::div_mod::lemma_div_is_ordered_by_denominator(
            (ht * SINE_STEPS) as int,
            1,
            period as int,
        );
    }
    let ph = phase_step_of(phi);
    ((base + ph) % SINE_STEPS) as usize
}

} // verus!
