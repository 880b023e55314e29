//! Unit systems and the conversion of raw SI values into them.
//!
//! A value is a fixed-point integer that counts millionths of its unit: one
//! metre per second is `UNIT`, 2.5 degrees Celsius is `2 * UNIT + UNIT / 2`.
use crate::arith::{div_floor, lemma_div_between, str_equal};
use vstd::arithmetic::div_mod::{lemma_div_is_ordered_by_denominator, lemma_div_multiples_vanish};
use vstd::prelude::*;

verus! {

/// One whole unit, in millionths.
pub const UNIT: i64 = 1_000_000;

/// Minutes per mile at a speed of one metre per second, in millionths.
pub const PACE_US_AT_UNIT_SPEED: i64 = 26_822_400;

/// Minutes per kilometre at a speed of one metre per second, in millionths.
pub const PACE_METRIC_AT_UNIT_SPEED: i64 = 16_666_667;

/// The largest magnitude a fixed-point value taken from a record may have:
/// 2^53 millionths, about nine billion whole units.
pub const MAX_MAGNITUDE: i64 = 9_007_199_254_740_992;

/// Unit of measure system.
#[derive(Clone, Copy, Debug, PartialEq, Eq, Structural)]
pub enum Units {
    Metric,
    US,
    Raw,
}

/// The unit system that a selector label names; any other label is raw.
pub open spec fn units_of_label(label: Seq<char>) -> Units {
    if label == "⚽ Metric"@ {
        Units::Metric
    } else if label == "🏈 US"@ {
        Units::US
    } else {
        Units::Raw
    }
}

/// Maps the label that a unit selector shows to its unit system.
pub fn units_from_label(label: &str) -> (r: Units)
    ensures
        r == units_of_label(label@),
{
    let metric = "⚽ Metric";
    let us = "🏈 US";
    if str_equal(label, metric) {
        Units::Metric
    } else if str_equal(label, us) {
        Units::US
    } else {
        Units::Raw
    }
}

/// Pace in minutes per distance unit for a speed in metres per second.
/// Speeds under one metre per second are read as exactly one.
pub open spec fn pace_spec(speed: int, units: Units) -> int {
    match units {
        Units::US => if speed < UNIT {
            PACE_US_AT_UNIT_SPEED as int
        } else {
            PACE_US_AT_UNIT_SPEED * UNIT / (speed as int)
        },
        Units::Metric => if speed < UNIT {
            PACE_METRIC_AT_UNIT_SPEED as int
        } else {
            PACE_METRIC_AT_UNIT_SPEED * UNIT / (speed as int)
        },
        Units::Raw => speed,
    }
}

/// Distance in miles (US), kilometres (Metric) or metres (raw).
pub open spec fn distance_spec(distance: int, units: Units) -> int {
    match units {
        Units::US => distance * 62_137_119 / 100_000_000_000,
        Units::Metric => distance / 1000,
        Units::Raw => distance,
    }
}

/// Altitude in feet (US) or metres.
pub open spec fn altitude_spec(altitude: int, units: Units) -> int {
    match units {
        Units::US => altitude * 32_808_399 / 10_000_000,
        _ => altitude,
    }
}

/// Temperature in degrees Fahrenheit (US) or Celsius.
pub open spec fn temperature_spec(temperature: int, units: Units) -> int {
    match units {
        Units::US => temperature * 9 / 5 + 32 * UNIT,
        _ => temperature,
    }
}

/// Degrees, in millionths, of a position given in semicircles.
pub open spec fn degrees_spec(semi: int) -> int {
    semi * 180 * UNIT / 2_147_483_648
}

/// Hours, minutes and seconds, each truncated, of a time in seconds.
pub open spec fn elapsed_spec(time: int) -> (int, int, int) {
    let t = if time >= 0 { time / (UNIT as int) } else { -time / (UNIT as int) };
    let (h, m, s) = (t / 3600, t % 3600 / 60, t % 60);
    if time >= 0 { (h, m, s) } else { (-h, -m, -s) }
}

/// Converts a speed (m/s) to pace (min/mile, min/km).
pub fn cvt_pace(speed: i64, units: &Units) -> (r: i64)
    ensures
        r == pace_spec(speed as int, *units),
{
    match units {
        Units::US => pace_at(speed, PACE_US_AT_UNIT_SPEED),
        Units::Metric => pace_at(speed, PACE_METRIC_AT_UNIT_SPEED),
        Units::Raw => speed,
    }
}

/// `at_unit / speed` in fixed point, with speeds under one unit read as one.
fn pace_at(speed: i64, at_unit: i64) -> (r: i64)
    requires
        0 < at_unit <= PACE_US_AT_UNIT_SPEED,
    ensures
        r == if speed < UNIT { at_unit as int } else { at_unit * UNIT / (speed as int) },
{
    if speed < UNIT {
        at_unit
    } else {
        assert((at_unit as int) * (UNIT as int) <= PACE_US_AT_UNIT_SPEED * UNIT) by (nonlinear_arith)
            requires 0 < at_unit <= PACE_US_AT_UNIT_SPEED;
        let n: u128 = (at_unit as u128) * (UNIT as u128);
        let q: u128 = n / (speed as u128);
        proof {
            lemma_div_is_ordered_by_denominator(n as int, UNIT as int, speed as int);
            assert(n as int / UNIT as int == at_unit) by (nonlinear_arith)
                requires n == at_unit * UNIT;
        }
        q as i64
    }
}

/// Converts a distance in metres to miles or kilometres.
pub fn cvt_distance(distance: i64, units: &Units) -> (r: i64)
    ensures
        r == distance_spec(distance as int, *units),
{
    match units {
        Units::US => {
            let n: i128 = (distance as i128) * 62_137_119;
            let q = div_floor(n, 100_000_000_000);
            proof {
                shrinks(distance as int, 62_137_119, 100_000_000_000);
            }
            q as i64
        },
        Units::Metric => {
            let q = div_floor(distance as i128, 1000);
            proof {
                lemma_div_between(distance as int, 1000);
            }
            q as i64
        },
        Units::Raw => distance,
    }
}

/// Converts an altitude in metres to feet or metres.
pub fn cvt_altitude(altitude: i64, units: &Units) -> (r: i64)
    requires
        i64::MIN <= altitude_spec(altitude as int, *units) <= i64::MAX,
    ensures
        r == altitude_spec(altitude as int, *units),
{
    match units {
        Units::US => {
            let n: i128 = (altitude as i128) * 32_808_399;
            div_floor(n, 10_000_000) as i64
        },
        _ => altitude,
    }
}

/// Converts a temperature in degrees Celsius to Fahrenheit or Celsius.
pub fn cvt_temperature(temperature: i64, units: &Units) -> (r: i64)
    requires
        i64::MIN <= temperature_spec(temperature as int, *units) <= i64::MAX,
    ensures
        r == temperature_spec(temperature as int, *units),
{
    match units {
        Units::US => {
            let n: i128 = (temperature as i128) * 9;
            (div_floor(n, 5) + 32 * (UNIT as i128)) as i64
        },
        _ => temperature,
    }
}

/// Converts a position in semicircles to degrees.
pub fn semi_to_degrees(semi: i64) -> (r: i64)
    ensures
        r == degrees_spec(semi as int),
{
    assert(-1_700_000_000_000_000_000_000_000_000 <= semi * 180_000_000 <= 1_700_000_000_000_000_000_000_000_000)
        by (nonlinear_arith)
        requires
            -9_223_372_036_854_775_808 <= semi <= 9_223_372_036_854_775_807,
    ;
    let n: i128 = (semi as i128) * 180 * (UNIT as i128);
    let q = div_floor(n, 2_147_483_648);
    proof {
        let lo: int = i64::MIN * 180 * UNIT;
        let hi: int = i64::MAX * 180 * UNIT;
        assert(lo <= n <= hi) by (nonlinear_arith)
            requires
                n == semi * 180 * UNIT,
                i64::MIN <= semi <= i64::MAX,
                lo == i64::MIN * 180 * UNIT,
                hi == i64::MAX * 180 * UNIT,
        ;
        vstd::arithmetic::div_mod::lemma_div_is_ordered(lo, n as int, 2_147_483_648);
        vstd::arithmetic::div_mod::lemma_div_is_ordered(n as int, hi, 2_147_483_648);
        assert(lo / 2_147_483_648 >= i64::MIN);
        assert(hi / 2_147_483_648 <= i64::MAX);
    }
    q as i64
}

/// Splits an elapsed time in seconds into hours, minutes and seconds,
/// each truncated toward zero.
pub fn cvt_elapsed_time(time_in_sec: i64) -> (r: (i64, i64, i64))
    ensures
        (r.0 as int, r.1 as int, r.2 as int) == elapsed_spec(time_in_sec as int),
{
    let a: u128 = if time_in_sec >= 0 {
        time_in_sec as u128
    } else {
        (-(time_in_sec as i128)) as u128
    };
    let t: u128 = a / (UNIT as u128);
    let h: u128 = t / 3600;
    let m: u128 = t % 3600 / 60;
    let s: u128 = t % 60;
    proof {
        vstd::arithmetic::div_mod::lemma_div_is_ordered(a as int, 9_223_372_036_854_775_808, UNIT as int);
        assert(9_223_372_036_854_775_808int / (UNIT as int) < 10_000_000_000_000);
    }
    if time_in_sec >= 0 {
        (h as i64, m as i64, s as i64)
    } else {
        (-(h as i64), -(m as i64), -(s as i64))
    }
}

/// In a metric or US unit system, pace does not increase as speed grows from
/// one metre per second upward.
pub proof fn lemma_pace_nonincreasing(slow: int, fast: int, units: Units)
    requires
        units != Units::Raw,
        UNIT <= slow <= fast,
    ensures
        pace_spec(fast, units) <= pace_spec(slow, units),
{
    let c: int = if units == Units::US {
        PACE_US_AT_UNIT_SPEED as int
    } else {
        PACE_METRIC_AT_UNIT_SPEED as int
    };
    assert(c * UNIT >= 0) by (nonlinear_arith)
        requires c > 0;
    lemma_div_is_ordered_by_denominator(c * UNIT, slow, fast);
}

/// In a metric or US unit system, every speed under one metre per second gets
/// the pace of exactly one metre per second: a finite value, never more than
/// 26.8224 minutes.
pub proof fn lemma_pace_clamped(speed: int, units: Units)
    requires
        units != Units::Raw,
        speed < UNIT,
    ensures
        pace_spec(speed, units) == pace_spec(UNIT as int, units),
        0 < pace_spec(speed, units) <= PACE_US_AT_UNIT_SPEED,
{
    lemma_div_multiples_vanish(PACE_US_AT_UNIT_SPEED as int, UNIT as int);
    lemma_div_multiples_vanish(PACE_METRIC_AT_UNIT_SPEED as int, UNIT as int);
}

/// Converting a value within `MAX_MAGNITUDE` keeps it well inside `i64`.
pub proof fn lemma_conversions_fit(v: int, units: Units)
    requires
        -MAX_MAGNITUDE <= v <= MAX_MAGNITUDE,
    ensures
        -4 * MAX_MAGNITUDE <= altitude_spec(v, units) <= 4 * MAX_MAGNITUDE,
        -4 * MAX_MAGNITUDE <= temperature_spec(v, units) <= 4 * MAX_MAGNITUDE,
        -MAX_MAGNITUDE <= distance_spec(v, units) <= MAX_MAGNITUDE,
        -MAX_MAGNITUDE <= pace_spec(v, units) <= MAX_MAGNITUDE,
{
    assert(-MAX_MAGNITUDE * 32_808_399 <= v * 32_808_399 <= MAX_MAGNITUDE * 32_808_399)
        by (nonlinear_arith)
        requires
            -MAX_MAGNITUDE <= v <= MAX_MAGNITUDE,
    ;
    vstd::arithmetic::div_mod::lemma_div_is_ordered(-MAX_MAGNITUDE * 32_808_399, v * 32_808_399, 10_000_000);
    vstd::arithmetic::div_mod::lemma_div_is_ordered(v * 32_808_399, MAX_MAGNITUDE * 32_808_399, 10_000_000);
    vstd::arithmetic::div_mod::lemma_div_is_ordered(-MAX_MAGNITUDE * 9, v * 9, 5);
    vstd::arithmetic::div_mod::lemma_div_is_ordered(v * 9, MAX_MAGNITUDE * 9, 5);
    shrinks(v, 62_137_119, 100_000_000_000);
    lemma_div_between(v, 1000);
    if v >= UNIT {
        vstd::arithmetic::div_mod::lemma_div_is_ordered_by_denominator(
            PACE_US_AT_UNIT_SPEED * UNIT,
            UNIT as int,
            v,
        );
        vstd::arithmetic::div_mod::lemma_div_is_ordered_by_denominator(
            PACE_METRIC_AT_UNIT_SPEED * UNIT,
            UNIT as int,
            v,
        );
        lemma_div_multiples_vanish(PACE_US_AT_UNIT_SPEED as int, UNIT as int);
        lemma_div_multiples_vanish(PACE_METRIC_AT_UNIT_SPEED as int, UNIT as int);
        vstd::arithmetic::div_mod::lemma_div_pos_is_pos(PACE_US_AT_UNIT_SPEED * UNIT, v);
        vstd::arithmetic::div_mod::lemma_div_pos_is_pos(PACE_METRIC_AT_UNIT_SPEED * UNIT, v);
    }
}

/// Multiplying by `num` and dividing by a larger `den` keeps a value's bounds.
proof fn shrinks(v: int, num: int, den: int)
    requires
        0 < num <= den,
    ensures
        v >= 0 ==> 0 <= v * num / den <= v,
        v < 0 ==> v <= v * num / den <= 0,
{
    lemma_div_between(v * num, den);
    if v >= 0 {
        assert(v * num >= 0) by (nonlinear_arith)
            requires v >= 0, num > 0;
        lemma_div_is_ordered_by_denominator(v * num, num, den);
        lemma_div_multiples_vanish(v, num);
        assert(num * v == v * num) by (nonlinear_arith);
        assert(v * num / num == v);
    } else {
        assert(v * num < 0) by (nonlinear_arith)
            requires v < 0, num > 0;
        assert(v * num >= v * den) by (nonlinear_arith)
            requires v < 0, num <= den;
        vstd::arithmetic::div_mod::lemma_div_is_ordered(v * den, v * num, den);
        lemma_div_multiples_vanish(v, den);
        assert(den * v == v * den) by (nonlinear_arith);
        assert(v * den / den == v);
    }
}

} // verus!
