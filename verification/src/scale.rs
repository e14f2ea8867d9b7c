//! Integer rescaling of ADC readings into PWM duty values.

use vstd::prelude::*;

verus! {

/// Quotient of `a / b` rounded toward zero, as Rust's integer division computes it.
pub open spec fn trunc_div(a: int, b: int) -> int {
    let q: int = (if a < 0 { -a } else { a }) / (if b < 0 { -b } else { b });
    if (a < 0) == (b < 0) { q } else { -q }
}

/// Dividing by a positive divisor never grows the magnitude.
proof fn lemma_quotient_bounds(a: int, b: int)
    requires
        b > 0,
    ensures
        a >= 0 ==> 0 <= a / b <= a,
        a < 0 ==> 0 <= (-a) / b <= -a,
{
    if a >= 0 {
        assert(0 <= a / b <= a) by (nonlinear_arith)
            requires
                a >= 0,
                b > 0,
        ;
    } else {
        assert(0 <= (-a) / b <= -a) by (nonlinear_arith)
            requires
                -a > 0,
                b > 0,
        ;
    }
}

/// What rounding toward zero means: the remainder left by `trunc_div` has the
/// sign of the dividend and is smaller in magnitude than the divisor.
pub proof fn lemma_trunc_div_remainder(a: int, b: int)
    requires
        b != 0,
    ensures
        ({
            let rem = a - trunc_div(a, b) * b;
            &&& (a >= 0 ==> 0 <= rem)
            &&& (a <= 0 ==> rem <= 0)
            &&& (b > 0 ==> -b < rem < b)
            &&& (b < 0 ==> b < rem < -b)
        }),
{
    let x: int = if a < 0 { -a } else { a };
    let y: int = if b < 0 { -b } else { b };
    let q = x / y;
    assert(x - q * y >= 0 && x - q * y < y) by (nonlinear_arith)
        requires
            x >= 0,
            y > 0,
            q == x / y,
    ;
    if a >= 0 && b > 0 {
        assert(a - q * b == x - q * y);
    } else if a >= 0 && b < 0 {
        assert(a - (-q) * b == x - q * y) by (nonlinear_arith)
            requires
                x == a,
                y == -b,
        ;
    } else if a < 0 && b > 0 {
        assert(a - (-q) * b == -(x - q * y)) by (nonlinear_arith)
            requires
                x == -a,
                y == b,
        ;
    } else {
        assert(a - q * b == -(x - q * y)) by (nonlinear_arith)
            requires
                x == -a,
                y == -b,
        ;
    }
}

/// On non-negative dividends and positive divisors `remap` is plain integer
/// division: `remap(v, 0, full, 0, span) == v * span / full`.
pub proof fn lemma_remap_from_zero(v: int, full: int, span: int)
    requires
        v >= 0,
        span >= 0,
        full > 0,
    ensures
        spec_remap(v, 0, full, 0, span) == v * span / full,
{
    assert(v * span >= 0) by (nonlinear_arith)
        requires
            v >= 0,
            span >= 0,
    ;
}

/// Negating both operands leaves a rounded-toward-zero quotient unchanged.
proof fn lemma_trunc_div_negate_both(a: int, b: int)
    requires
        b != 0,
    ensures
        trunc_div(a, b) == trunc_div(-a, -b),
{
}

/// What `remap` computes: `value * (new_max - new_min) / (old_max - old_min)`,
/// with the division rounded toward zero. `old_min` and `new_min` only enter
/// through the two differences.
pub open spec fn spec_remap(value: int, old_min: int, old_max: int, new_min: int, new_max: int) -> int {
    trunc_div(value * (new_max - new_min), old_max - old_min)
}

/// The inputs on which every intermediate step of `remap` stays inside `i32`
/// and the divisor is non-zero.
pub open spec fn remap_defined(value: int, old_min: int, old_max: int, new_min: int, new_max: int) -> bool {
    &&& i32::MIN <= new_max - new_min <= i32::MAX
    &&& i32::MIN <= old_max - old_min <= i32::MAX
    &&& old_max - old_min != 0
    &&& i32::MIN <= value * (new_max - new_min) <= i32::MAX
    &&& !(value * (new_max - new_min) == i32::MIN && old_max - old_min == -1)
}

/// Rescales `value` by the ratio of the two span widths:
/// `value * (new_max - new_min) / (old_max - old_min)`.
pub fn remap(value: i32, old_min: i32, old_max: i32, new_min: i32, new_max: i32) -> (r: i32)
    requires
        remap_defined(value as int, old_min as int, old_max as int, new_min as int, new_max as int),
    ensures
        r == spec_remap(value as int, old_min as int, old_max as int, new_min as int, new_max as int),
        // The quotient rounded toward zero: the remainder `num - r * den` has
        // the sign of `num` and is smaller in magnitude than `den`.
        ({
            let num = value * (new_max - new_min);
            let den = old_max - old_min;
            let rem = num - r * den;
            &&& (num >= 0 ==> 0 <= rem)
            &&& (num <= 0 ==> rem <= 0)
            &&& (den > 0 ==> -den < rem < den)
            &&& (den < 0 ==> den < rem < -den)
        }),
{
    let num = value * (new_max - new_min);
    let den = old_max - old_min;
    // Rust's `/` rounds toward zero, so negating both operands leaves the
    // quotient unchanged; dividing by a positive divisor keeps the proof linear.
    let (n, d): (i64, i64) = if den > 0 {
        (num as i64, den as i64)
    } else {
        (-(num as i64), -(den as i64))
    };
    proof {
        lemma_trunc_div_negate_both(num as int, den as int);
        lemma_quotient_bounds(n as int, d as int);
    }
    let q: i64 = n / d;
    assert(q == trunc_div(num as int, den as int));
    proof {
        lemma_trunc_div_remainder(num as int, den as int);
    }
    proof {
        if n > i32::MAX {
            assert(d >= 2);
            assert(2 * q <= n) by (nonlinear_arith)
                requires q == n / d, n >= 0, d >= 2;
        }
    }
    q as i32
}

/// Full-scale reading of the 12-bit one-shot ADC.
pub const ADC_FULL_SCALE: u16 = 4095;

/// Duty count that keeps a 10-bit LEDC channel fully on.
pub const NIGHTLAMP_FULL_DUTY: i32 = 1024;

/// Largest duty count of a 10-bit LEDC channel driven by a potentiometer.
pub const POT_DUTY_MAX: u32 = 1023;

/// Night-lamp duty for one ADC reading: the lamp is driven only at full-scale
/// light level, with `remap(adc, 0, 4095, 0, 1024)`; every lower reading gives 0.
pub open spec fn spec_nightlamp_duty(adc_value: int) -> int {
    if adc_value < 4095 { 0 } else { spec_remap(adc_value, 0, 4095, 0, 1024) }
}

/// The duty written to the night-lamp LED for one light-sensor reading.
pub fn nightlamp_duty(adc_value: u16) -> (r: i32)
    ensures
        r == spec_nightlamp_duty(adc_value as int),
        r == (if adc_value < 4095 { 0 } else { adc_value * 1024 / 4095 }),
        adc_value <= 4095 ==> r == (if adc_value == 4095 { 1024i32 } else { 0i32 }),
{
    if adc_value < ADC_FULL_SCALE {
        0
    } else {
        assert(0 <= adc_value * 1024 <= 65535 * 1024) by (nonlinear_arith)
            requires adc_value <= 65535;
        remap(adc_value as i32, 0, 4095, 0, NIGHTLAMP_FULL_DUTY)
    }
}

/// Inverted potentiometer duty: `1023 - remap(adc, 0, 4095, 0, 1023)`,
/// i.e. the LED dims as the knob reading rises.
pub open spec fn spec_potentiometer_duty(adc_value: int) -> int {
    1023 - adc_value * 1023 / 4095
}

/// The duty written to a potentiometer-controlled LED for one ADC reading.
/// Readings above the 12-bit range by more than the rounding slack would make
/// the subtraction underflow, so they are outside the domain.
pub fn potentiometer_duty(adc_value: u16) -> (r: u32)
    requires
        adc_value * 1023 / 4095 <= 1023,
    ensures
        r == 1023 - adc_value * 1023 / 4095,
        r == spec_potentiometer_duty(adc_value as int),
        r == 1023 - spec_remap(adc_value as int, 0, 4095, 0, 1023),
        r <= 1023,
{
    let v = adc_value as u32;
    assert(0 <= v * 1023 <= 65535 * 1023) by (nonlinear_arith)
        requires v <= 65535;
    let scaled = v * 1023 / 4095;
    POT_DUTY_MAX - scaled
}

/// Turning the potentiometer up never brightens the LED, the extreme knob
/// positions give fully on and fully off, every 12-bit reading gives a duty in
/// range, and the duty is `1023 - remap(v, 0, 4095, 0, 1023)`, i.e.
/// `1023 - v * 1023 / 4095`.
pub proof fn lemma_potentiometer_duty_monotone(a: int, b: int)
    requires
        0 <= a <= b <= 4095,
    ensures
        1023 - b * 1023 / 4095 <= 1023 - a * 1023 / 4095,
        0 <= 1023 - b * 1023 / 4095 <= 1023,
        a * 1023 / 4095 <= 1023,
        spec_potentiometer_duty(a) == 1023 - a * 1023 / 4095,
        spec_remap(a, 0, 4095, 0, 1023) == a * 1023 / 4095,
        spec_potentiometer_duty(b) <= spec_potentiometer_duty(a),
        spec_potentiometer_duty(0) == 1023,
        spec_potentiometer_duty(4095) == 0,
{
    assert(a * 1023 / 4095 <= b * 1023 / 4095) by (nonlinear_arith)
        requires
            0 <= a <= b,
    ;
    assert(0 <= b * 1023 / 4095 <= 1023) by (nonlinear_arith)
        requires
            0 <= b <= 4095,
    ;
    assert(0 <= a * 1023 / 4095 <= 1023) by (nonlinear_arith)
        requires
            0 <= a <= 4095,
    ;
    lemma_remap_from_zero(a, 4095, 1023);
}

} // verus!
