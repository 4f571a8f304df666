//! The soft clipper that bounds a mix of voices.
//!
//! Samples within full scale pass unchanged. Beyond it the excess is
//! folded by a hyperbolic tangent into half of full scale, so that the
//! output never passes one and a half times full scale.

use vstd::prelude::*;
use crate::fixed::ONE;

verus! {

/// The number of units between two entries of the table: one sixteenth
/// of full scale.
pub const CLIP_STEP: i128 = 4096;

/// The excess from which the hyperbolic tangent is full scale: eight
/// times full scale.
pub const CLIP_RANGE: i128 = 524288;

/// The largest magnitude that the clipper puts out: one and a half
/// times full scale.
pub const CLIP_LIMIT: i32 = 98304;

/// The hyperbolic tangent at 129 evenly spaced arguments from 0 to 8
/// inclusive, in units of 1/65536 and rounded to the nearest.
pub const TANH: [i32; 129] = [
    0, 4091, 8150, 12146, 16051, 19838, 23485, 26973,
    30285, 33412, 36346, 39084, 41625, 43972, 46131, 48108,
    49912, 51552, 53038, 54382, 55593, 56683, 57660, 58536,
    59320, 60019, 60643, 61199, 61694, 62134, 62524, 62871,
    63179, 63451, 63693, 63907, 64096, 64263, 64412, 64543,
    64659, 64761, 64852, 64932, 65003, 65065, 65120, 65169,
    65212, 65250, 65283, 65313, 65339, 65362, 65383, 65401,
    65417, 65431, 65443, 65454, 65464, 65472, 65480, 65486,
    65492, 65497, 65502, 65506, 65509, 65512, 65515, 65518,
    65520, 65522, 65523, 65525, 65526, 65527, 65528, 65529,
    65530, 65531, 65531, 65532, 65532, 65533, 65533, 65534,
    65534, 65534, 65534, 65534, 65535, 65535, 65535, 65535,
    65535, 65535, 65535, 65535, 65536, 65536, 65536, 65536,
    65536, 65536, 65536, 65536, 65536, 65536, 65536, 65536,
    65536, 65536, 65536, 65536, 65536, 65536, 65536, 65536,
    65536, 65536, 65536, 65536, 65536, 65536, 65536, 65536,
    65536,
];

/// The hyperbolic tangent of `excess`, both in units of 1/65536: the two
/// nearest entries of the table, interpolated linearly, and full scale
/// from eight times full scale on.
pub open spec fn tanh_value(excess: int) -> int {
    let index = excess / (CLIP_STEP as int);
    let rest = excess % (CLIP_STEP as int);
    if index >= 128 {
        ONE as int
    } else {
        TANH[index] + ((TANH[index + 1] - TANH[index]) * rest) / (CLIP_STEP as int)
    }
}

/// The soft clipping of `sample`: the sample itself within full scale,
/// and beyond it full scale plus half the hyperbolic tangent of the
/// excess, with the sign of the sample.
pub open spec fn soft_clip_value(sample: int) -> int {
    if -ONE <= sample <= ONE {
        sample
    } else if sample > 0 {
        ONE + tanh_value(sample - ONE) / 2
    } else {
        -(ONE + tanh_value(-sample - ONE) / 2)
    }
}

/// The table rises from 0 to full scale.
pub proof fn lemma_tanh_table_rises(index: int)
    requires
        0 <= index < 128,
    ensures
        0 <= TANH[index] <= TANH[index + 1] <= ONE,
{
}

/// The table never falls between any two of its entries.
pub proof fn lemma_tanh_table_monotonic(low: int, high: int)
    requires
        0 <= low <= high <= 128,
    ensures
        0 <= TANH[low] <= TANH[high] <= ONE,
    decreases high - low,
{
    if low < high {
        lemma_tanh_table_rises(high - 1);
        lemma_tanh_table_monotonic(low, high - 1);
    } else if low < 128 {
        lemma_tanh_table_rises(low);
    }
}

/// The hyperbolic tangent of an excess lies between the entries of the
/// table around it.
pub proof fn lemma_tanh_value_between(excess: int)
    requires
        0 <= excess < CLIP_RANGE,
    ensures
        TANH[excess / (CLIP_STEP as int)] <= tanh_value(excess) <= TANH[excess / (CLIP_STEP as int)
            + 1],
        0 <= tanh_value(excess) <= ONE,
{
    let index = excess / (CLIP_STEP as int);
    let rest = excess % (CLIP_STEP as int);
    lemma_tanh_table_rises(index);
    let rise = TANH[index + 1] - TANH[index];
    assert(0 <= (rise * rest) / 4096 <= rise) by (nonlinear_arith)
        requires
            0 <= rise,
            0 <= rest < 4096,
    ;
}

/// The hyperbolic tangent never falls and stays between 0 and full
/// scale.
pub proof fn lemma_tanh_value_monotonic(low: int, high: int)
    requires
        0 <= low <= high,
    ensures
        0 <= tanh_value(low) <= tanh_value(high) <= ONE,
{
    if high >= CLIP_RANGE {
        if low < CLIP_RANGE {
            lemma_tanh_value_between(low);
        }
    } else {
        lemma_tanh_value_between(low);
        lemma_tanh_value_between(high);
        let i = low / (CLIP_STEP as int);
        let j = high / (CLIP_STEP as int);
        if i < j {
            lemma_tanh_table_monotonic(i + 1, j);
        } else {
            let rise = TANH[i + 1] - TANH[i];
            let p = low % (CLIP_STEP as int);
            let q = high % (CLIP_STEP as int);
            lemma_tanh_table_rises(i);
            assert((rise * p) / 4096 <= (rise * q) / 4096) by (nonlinear_arith)
                requires
                    0 <= rise,
                    0 <= p <= q,
            ;
        }
    }
}

/// Within full scale the clipper changes nothing.
pub proof fn lemma_soft_clip_identity(sample: int)
    requires
        -ONE <= sample <= ONE,
    ensures
        soft_clip_value(sample) == sample,
{
}

/// The clipper is odd: opposite samples are clipped to opposite values.
pub proof fn lemma_soft_clip_odd(sample: int)
    ensures
        soft_clip_value(-sample) == -soft_clip_value(sample),
{
}

/// The clipper is monotonic: it never reverses the order of two samples.
pub proof fn lemma_soft_clip_monotonic(low: int, high: int)
    requires
        low <= high,
    ensures
        soft_clip_value(low) <= soft_clip_value(high),
{
    if low > ONE {
        lemma_tanh_value_monotonic(low - ONE, high - ONE);
    } else if high < -ONE {
        lemma_tanh_value_monotonic(-high - ONE, -low - ONE);
    } else {
        if high > ONE {
            lemma_tanh_value_monotonic(0, high - ONE);
        }
        if low < -ONE {
            lemma_tanh_value_monotonic(0, -low - ONE);
        }
    }
}

/// The clipper never passes one and a half times full scale, and it
/// reaches exactly that from nine times full scale on.
pub proof fn lemma_soft_clip_limit(sample: int)
    ensures
        -CLIP_LIMIT <= soft_clip_value(sample) <= CLIP_LIMIT,
        sample >= ONE + CLIP_RANGE ==> soft_clip_value(sample) == CLIP_LIMIT,
        sample <= -(ONE + CLIP_RANGE) ==> soft_clip_value(sample) == -CLIP_LIMIT,
{
    if sample > ONE {
        lemma_tanh_value_monotonic(0, sample - ONE);
    } else if sample < -ONE {
        lemma_tanh_value_monotonic(0, -sample - ONE);
    }
}

/// Computes [`tanh_value`].
fn tanh_of(excess: i128) -> (value: i32)
    requires
        0 <= excess,
    ensures
        value == tanh_value(excess as int),
        0 <= value <= ONE,
{
    proof {
        lemma_tanh_value_monotonic(0, excess as int);
    }
    if excess >= CLIP_RANGE {
        return ONE;
    }
    let index: usize = (excess / CLIP_STEP) as usize;
    let rest: i64 = (excess % CLIP_STEP) as i64;
    proof {
        lemma_tanh_table_rises(index as int);
    }
    let low: i64 = TANH[index] as i64;
    let high: i64 = TANH[index + 1] as i64;
    let rise: i64 = high - low;
    assert(0 <= rise * rest <= 65536 * 4096 && (rise * rest) / 4096 <= rise) by (nonlinear_arith)
        requires
            0 <= rise <= 65536,
            0 <= rest < 4096,
    ;
    (low + (rise * rest) / 4096) as i32
}

/// Clips `sample` softly: samples within full scale pass unchanged, and
/// no output passes one and a half times full scale.
pub fn soft_clip(sample: i128) -> (clipped: i32)
    requires
        sample > i128::MIN,
    ensures
        clipped == soft_clip_value(sample as int),
        -CLIP_LIMIT <= clipped <= CLIP_LIMIT,
{
    proof {
        lemma_soft_clip_limit(sample as int);
    }
    if sample >= -(ONE as i128) && sample <= ONE as i128 {
        sample as i32
    } else if sample > 0 {
        ONE + tanh_of(sample - ONE as i128) / 2
    } else {
        -(ONE + tanh_of(-sample - ONE as i128) / 2)
    }
}

} // verus!
