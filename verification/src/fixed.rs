//! Fixed-point levels and linear interpolation.

use vstd::prelude::*;

verus! {

/// Full scale: the integer that stands for the level 1.0.
pub const ONE: i32 = 65536;

/// Whether `level` is a valid amplitude, between silence and full scale.
pub open spec fn is_level(level: int) -> bool {
    0 <= level <= ONE
}

/// The quotient of `value` by the positive `divisor`, rounded toward 0,
/// so that opposite values have opposite quotients.
pub open spec fn toward_zero(value: int, divisor: int) -> int {
    if value >= 0 {
        value / divisor
    } else {
        -((-value) / divisor)
    }
}

/// The product of two numbers in units of 1/65536, in the same units:
/// `value` divided by full scale, rounded toward 0.
pub open spec fn scaled(value: int) -> int {
    toward_zero(value, ONE as int)
}

/// Computes [`scaled`].
pub fn scale(value: i128) -> (quotient: i128)
    requires
        value > i128::MIN,
    ensures
        quotient == scaled(value as int),
        value >= 0 ==> 0 <= quotient <= value,
        value <= 0 ==> value <= quotient <= 0,
{
    if value >= 0 {
        value / 65536
    } else {
        -((-value) / 65536)
    }
}

/// The valid amplitude nearest to `level`.
pub open spec fn clamped_level(level: int) -> int {
    if level < 0 {
        0
    } else if level > ONE {
        ONE as int
    } else {
        level
    }
}

/// Brings `level` into the range of valid amplitudes.
pub fn clamp_level(level: i32) -> (clamped: i32)
    ensures
        clamped == clamped_level(level as int),
        is_level(clamped as int),
{
    if level < 0 {
        0
    } else if level > ONE {
        ONE
    } else {
        level
    }
}

/// The level on a linear ramp of `length` samples from `start` to `end`,
/// `position` samples after its first one. The first sample is `start`
/// and the last is `end`; a ramp of a single sample is its `end`.
pub open spec fn ramp_value(start: int, end: int, position: int, length: int) -> int {
    if length <= 1 {
        end
    } else if start <= end {
        start + ((end - start) * position) / (length - 1)
    } else {
        start - ((start - end) * position) / (length - 1)
    }
}

/// A ramp never leaves the interval between its two end levels.
pub proof fn lemma_ramp_value_between(start: int, end: int, position: int, length: int)
    requires
        0 <= position < length,
    ensures
        start <= end ==> start <= ramp_value(start, end, position, length) <= end,
        end <= start ==> end <= ramp_value(start, end, position, length) <= start,
{
    if length > 1 {
        let span = if start <= end { end - start } else { start - end };
        let d = length - 1;
        assert(0 <= (span * position) / d <= span) by (nonlinear_arith)
            requires
                0 <= span,
                0 <= position <= d,
                d > 0,
        ;
    }
}

/// A ramp of two or more samples begins on `start`, and every ramp ends
/// on `end`.
pub proof fn lemma_ramp_value_ends(start: int, end: int, length: int)
    requires
        1 <= length,
    ensures
        length >= 2 ==> ramp_value(start, end, 0, length) == start,
        ramp_value(start, end, length - 1, length) == end,
{
    if length > 1 {
        let span = if start <= end { end - start } else { start - end };
        let d = length - 1;
        assert((span * 0) / d == 0 && (span * d) / d == span) by (nonlinear_arith)
            requires
                d > 0,
        ;
    }
}

/// Computes [`ramp_value`] for two levels.
pub fn ramp_sample(start: i32, end: i32, position: usize, length: usize) -> (level: i32)
    requires
        is_level(start as int),
        is_level(end as int),
        position < length,
    ensures
        level == ramp_value(start as int, end as int, position as int, length as int),
        is_level(level as int),
{
    proof {
        lemma_ramp_value_between(start as int, end as int, position as int, length as int);
    }
    if length <= 1 {
        return end;
    }
    let span: u128 = if start <= end {
        (end - start) as u128
    } else {
        (start - end) as u128
    };
    let d: u128 = (length - 1) as u128;
    assert(span * (position as u128) <= 65536 * 0x1_0000_0000_0000_0000) by (nonlinear_arith)
        requires
            span <= 65536,
            position as u128 <= 0x1_0000_0000_0000_0000,
    ;
    let offset: u128 = (span * (position as u128)) / d;
    assert(offset <= span) by (nonlinear_arith)
        requires
            offset == (span * position) / (d as int),
            position <= d,
            d > 0,
    ;
    if start <= end {
        start + (offset as i32)
    } else {
        start - (offset as i32)
    }
}

} // verus!
