//! Aligned, unit-converted (x, y) samples for a pair of per-sample fields.
use crate::arith::str_equal;
use crate::records::{
    TelemetryRecord, get_msg_record_field_as_vec, named_values, record_series, series_of,
};
use crate::units::{
    MAX_MAGNITUDE, Units, altitude_spec, cvt_altitude, cvt_distance, cvt_pace, cvt_temperature,
    distance_spec, lemma_conversions_fit, pace_spec, temperature_spec,
};
use vstd::prelude::*;

verus! {

/// The x value of a sample: distances are converted, other fields pass through.
pub open spec fn convert_x(name: Seq<char>, v: int, units: Units) -> int {
    if name == "distance"@ {
        distance_spec(v, units)
    } else {
        v
    }
}

/// The y value of a sample: speed becomes pace, altitude and temperature are
/// converted, other fields pass through.
pub open spec fn convert_y(name: Seq<char>, v: int, units: Units) -> int {
    if name == "enhanced_speed"@ {
        pace_spec(v, units)
    } else if name == "enhanced_altitude"@ {
        altitude_spec(v, units)
    } else if name == "temperature"@ {
        temperature_spec(v, units)
    } else {
        v
    }
}

/// How many samples two series of these lengths give. An empty series gives
/// none; otherwise the last sample is dropped, of the y series when the x
/// series is longer and of the x series else.
pub open spec fn aligned_len(x_len: int, y_len: int) -> int {
    if x_len == 0 || y_len == 0 {
        0
    } else if x_len > y_len {
        y_len - 1
    } else {
        x_len - 1
    }
}

/// The aligned, converted samples of two raw series.
pub open spec fn align(xs: Seq<i64>, ys: Seq<i64>, x_name: Seq<char>, y_name: Seq<char>, units: Units) -> Seq<(i64, i64)> {
    Seq::new(
        aligned_len(xs.len() as int, ys.len() as int) as nat,
        |i: int|
            (
                convert_x(x_name, xs[i] as int, units) as i64,
                convert_y(y_name, ys[i] as int, units) as i64,
            ),
    )
}

/// The samples that `get_xy` gives for a pair of fields.
pub open spec fn xy_of(data: Seq<TelemetryRecord>, units: Units, x_name: Seq<char>, y_name: Seq<char>) -> Seq<(i64, i64)> {
    align(series_of(data, x_name), series_of(data, y_name), x_name, y_name, units)
}

/// Every value in a per-sample series lies within `MAX_MAGNITUDE`.
pub open spec fn within_magnitude(s: Seq<i64>) -> bool {
    forall|i: int| 0 <= i < s.len() ==> -MAX_MAGNITUDE <= #[trigger] s[i] <= MAX_MAGNITUDE
}

proof fn lemma_named_values_bounded(fs: Seq<crate::records::Field>, name: Seq<char>, n: int)
    ensures
        within_magnitude(named_values(fs, name, n)),
    decreases n,
{
    if n > 0 {
        lemma_named_values_bounded(fs, name, n - 1);
    }
}

proof fn lemma_record_series_bounded(rs: Seq<TelemetryRecord>, name: Seq<char>, n: int)
    ensures
        within_magnitude(record_series(rs, name, n)),
    decreases n,
{
    if n > 0 {
        lemma_record_series_bounded(rs, name, n - 1);
        lemma_named_values_bounded(rs[n - 1].fields@, name, rs[n - 1].fields@.len() as int);
    }
}

/// Converts one x value.
fn x_value(name: &str, v: i64, units: &Units) -> (r: i64)
    requires
        -MAX_MAGNITUDE <= v <= MAX_MAGNITUDE,
    ensures
        r == convert_x(name@, v as int, *units),
{
    if str_equal(name, "distance") {
        cvt_distance(v, units)
    } else {
        v
    }
}

/// Converts one y value.
fn y_value(name: &str, v: i64, units: &Units) -> (r: i64)
    requires
        -MAX_MAGNITUDE <= v <= MAX_MAGNITUDE,
    ensures
        r == convert_y(name@, v as int, *units),
{
    if str_equal(name, "enhanced_speed") {
        cvt_pace(v, units)
    } else if str_equal(name, "enhanced_altitude") {
        proof {
            lemma_conversions_fit(v as int, *units);
        }
        cvt_altitude(v, units)
    } else if str_equal(name, "temperature") {
        proof {
            lemma_conversions_fit(v as int, *units);
        }
        cvt_temperature(v, units)
    } else {
        v
    }
}

/// Retrieves the converted (x, y) samples of two per-sample fields.
///
/// The two raw series are paired by position. When both are non-empty, the
/// last sample is dropped: of the y series when the x series is longer, of
/// the x series otherwise. This evens out the off-by-one difference in
/// length that paired sensor streams often show; it is no synchronisation
/// by time. When either series is empty there are no samples.
pub fn get_xy(data: &Vec<TelemetryRecord>, units: &Units, x_field_name: &str, y_field_name: &str) -> (r: Vec<(i64, i64)>)
    ensures
        r@ == xy_of(data@, *units, x_field_name@, y_field_name@),
{
    let x = get_msg_record_field_as_vec(data, x_field_name);
    let y = get_msg_record_field_as_vec(data, y_field_name);
    proof {
        lemma_record_series_bounded(data@, x_field_name@, data@.len() as int);
        lemma_record_series_bounded(data@, y_field_name@, data@.len() as int);
    }
    let mut end: usize = 0;
    if x.len() != 0 {
        end = x.len() - 1;
    }
    if x.len() > y.len() && x.len() != 0 && y.len() != 0 {
        end = y.len() - 1;
    }
    let mut pairs: Vec<(i64, i64)> = Vec::new();
    if x.len() != 0 && y.len() != 0 {
        let mut i: usize = 0;
        while i < end
            invariant
                end == aligned_len(x@.len() as int, y@.len() as int),
                end < x@.len(),
                end < y@.len(),
                i <= end,
                within_magnitude(x@),
                within_magnitude(y@),
                pairs@ =~= align(x@, y@, x_field_name@, y_field_name@, *units).take(i as int),
            decreases end - i,
        {
            let xv = x_value(x_field_name, x[i], units);
            let yv = y_value(y_field_name, y[i], units);
            pairs.push((xv, yv));
            i = i + 1;
        }
    }
    assert(pairs@ =~= align(x@, y@, x_field_name@, y_field_name@, *units));
    pairs
}

} // verus!
