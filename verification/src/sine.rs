//! The sine of a phase, by table and linear interpolation.
//!
//! A phase is a fraction of a turn in units of 2^-32, so that a `u32`
//! holds exactly one turn and wraps as the angle does.

use vstd::prelude::*;
use crate::fixed::ONE;

verus! {

/// One full turn in phase units.
pub const TURN: u64 = 4294967296;

/// A quarter of a turn in phase units.
pub const QUARTER_TURN: u32 = 1073741824;

/// The number of phase units between two entries of the table.
pub const TABLE_STEP: u32 = 8388608;

/// The sine of the first quarter turn at 129 evenly spaced angles, from
/// 0 to a quarter turn inclusive, in units of 1/65536 and rounded to the
/// nearest.
pub const QUARTER_SINE: [i32; 129] = [
    0, 804, 1608, 2412, 3216, 4019, 4821, 5623,
    6424, 7224, 8022, 8820, 9616, 10411, 11204, 11996,
    12785, 13573, 14359, 15143, 15924, 16703, 17479, 18253,
    19024, 19792, 20557, 21320, 22078, 22834, 23586, 24335,
    25080, 25821, 26558, 27291, 28020, 28745, 29466, 30182,
    30893, 31600, 32303, 33000, 33692, 34380, 35062, 35738,
    36410, 37076, 37736, 38391, 39040, 39683, 40320, 40951,
    41576, 42194, 42806, 43412, 44011, 44604, 45190, 45769,
    46341, 46906, 47464, 48015, 48559, 49095, 49624, 50146,
    50660, 51166, 51665, 52156, 52639, 53114, 53581, 54040,
    54491, 54934, 55368, 55794, 56212, 56621, 57022, 57414,
    57798, 58172, 58538, 58896, 59244, 59583, 59914, 60235,
    60547, 60851, 61145, 61429, 61705, 61971, 62228, 62476,
    62714, 62943, 63162, 63372, 63572, 63763, 63944, 64115,
    64277, 64429, 64571, 64704, 64827, 64940, 65043, 65137,
    65220, 65294, 65358, 65413, 65457, 65492, 65516, 65531,
    65536,
];

/// The sine of an angle in the first quarter turn, `angle` phase units
/// from 0: the two nearest entries of the table, interpolated linearly.
pub open spec fn quarter_sine(angle: int) -> int {
    let index = angle / (TABLE_STEP as int);
    let rest = angle % (TABLE_STEP as int);
    if index >= 128 {
        ONE as int
    } else {
        QUARTER_SINE[index] + ((QUARTER_SINE[index + 1] - QUARTER_SINE[index]) * rest) / (
        TABLE_STEP as int)
    }
}

/// The sine of `phase`, a fraction of a turn in units of 2^-32, in units
/// of 1/65536. The second quarter mirrors the first, and the second half
/// negates the first.
pub open spec fn sine_value(phase: int) -> int {
    let quadrant = phase / (QUARTER_TURN as int);
    let angle = phase % (QUARTER_TURN as int);
    if quadrant == 0 {
        quarter_sine(angle)
    } else if quadrant == 1 {
        quarter_sine(QUARTER_TURN - angle)
    } else if quadrant == 2 {
        -quarter_sine(angle)
    } else {
        -quarter_sine(QUARTER_TURN - angle)
    }
}

/// The table rises from 0 to full scale.
pub proof fn lemma_table_rises(index: int)
    requires
        0 <= index < 128,
    ensures
        0 <= QUARTER_SINE[index] <= QUARTER_SINE[index + 1] <= ONE,
{
}

/// In the first quarter turn the sine lies between 0 and full scale.
pub proof fn lemma_quarter_sine_bounds(angle: int)
    requires
        0 <= angle <= QUARTER_TURN,
    ensures
        0 <= quarter_sine(angle) <= ONE,
{
    let index = angle / (TABLE_STEP as int);
    let rest = angle % (TABLE_STEP as int);
    if index < 128 {
        lemma_table_rises(index);
        let rise = QUARTER_SINE[index + 1] - QUARTER_SINE[index];
        assert(0 <= (rise * rest) / 8388608 <= rise) by (nonlinear_arith)
            requires
                0 <= rise,
                0 <= rest < 8388608,
        ;
    }
}

/// The sine never exceeds full scale in either direction.
pub proof fn lemma_sine_bounds(phase: int)
    requires
        0 <= phase < TURN,
    ensures
        -ONE <= sine_value(phase) <= ONE,
{
    let angle = phase % (QUARTER_TURN as int);
    lemma_quarter_sine_bounds(angle);
    lemma_quarter_sine_bounds(QUARTER_TURN - angle);
}

/// Computes [`quarter_sine`].
fn quarter(angle: u32) -> (value: i32)
    requires
        angle <= QUARTER_TURN,
    ensures
        value == quarter_sine(angle as int),
        0 <= value <= ONE,
{
    proof {
        lemma_quarter_sine_bounds(angle as int);
    }
    let index: usize = (angle / TABLE_STEP) as usize;
    let rest: i64 = (angle % TABLE_STEP) as i64;
    if index >= 128 {
        return ONE;
    }
    proof {
        lemma_table_rises(index as int);
    }
    let low: i64 = QUARTER_SINE[index] as i64;
    let high: i64 = QUARTER_SINE[index + 1] as i64;
    let rise: i64 = high - low;
    assert(0 <= rise * rest <= 65536 * 8388608 && (rise * rest) / 8388608 <= rise)
        by (nonlinear_arith)
        requires
            0 <= rise <= 65536,
            0 <= rest < 8388608,
    ;
    (low + (rise * rest) / (TABLE_STEP as i64)) as i32
}

/// The sine of `phase`, a fraction of a turn in units of 2^-32, in units
/// of 1/65536.
pub fn sine(phase: u32) -> (value: i32)
    ensures
        value == sine_value(phase as int),
        -ONE <= value <= ONE,
{
    proof {
        lemma_sine_bounds(phase as int);
    }
    let quadrant: u32 = phase / QUARTER_TURN;
    let angle: u32 = phase % QUARTER_TURN;
    if quadrant == 0 {
        quarter(angle)
    } else if quadrant == 1 {
        quarter(QUARTER_TURN - angle)
    } else if quadrant == 2 {
        -quarter(angle)
    } else {
        -quarter(QUARTER_TURN - angle)
    }
}

} // verus!
