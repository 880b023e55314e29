//! The textual session and lap report, with heart-rate zone times.
use crate::arith::str_equal;
use crate::cache::string_of;
use crate::records::{
    Field, FieldValue, MessageKind, TelemetryRecord, fixed_of, fixed_value, integer_of,
    integer_value, numeric_elements, extract_vector, get_time_in_zone_field, session_zones,
};
use crate::text::{
    decimal, decimal_chars, fixed_chars, fixed_text, left_aligned, push_chars, push_left_aligned,
    push_right_aligned, push_str, push_zero_padded, right_aligned, signed_chars, signed_text,
    zero_padded,
};
use crate::units::{
    UNIT, Units, altitude_spec, cvt_altitude, cvt_distance, cvt_elapsed_time,
    cvt_pace, cvt_temperature, degrees_spec, distance_spec, elapsed_spec, lemma_conversions_fit,
    pace_spec, temperature_spec,
};
use vstd::prelude::*;

verus! {

/// `s` without its trailing zeros.
pub open spec fn trim_zeros(s: Seq<char>) -> Seq<char>
    decreases s.len(),
{
    if s.len() > 0 && s.last() == '0' {
        trim_zeros(s.drop_last())
    } else {
        s
    }
}

/// A value in millionths written as briefly as it is exact: `3`, `2.5`, `-0.125`.
pub open spec fn real_text(m: int) -> Seq<char> {
    let a = if m < 0 { -m } else { m };
    let sign = if m < 0 { seq!['-'] } else { Seq::empty() };
    let frac = a % (UNIT as int);
    let whole = sign + decimal((a / (UNIT as int)) as nat);
    if frac == 0 {
        whole
    } else {
        whole + seq!['.'] + trim_zeros(zero_padded(frac, 6))
    }
}

/// The first `n` values written briefly and separated by `, `.
pub open spec fn joined(xs: Seq<i64>, n: int) -> Seq<char>
    decreases n,
{
    if n <= 0 {
        Seq::empty()
    } else if n == 1 {
        real_text(xs[0] as int)
    } else {
        joined(xs, n - 1) + ", "@ + real_text(xs[n - 1] as int)
    }
}

/// How a field value is shown as it is: numbers in decimal, text as it is,
/// an array as its numbers in brackets, an invalid value as nothing.
pub open spec fn value_text(v: FieldValue) -> Seq<char> {
    match v {
        FieldValue::SInt(i) => signed_text(i as int),
        FieldValue::UInt(u) => decimal(u as nat),
        FieldValue::Real(m) => real_text(m as int),
        FieldValue::Text(t) => t@,
        FieldValue::Array(_) => seq!['['] + joined(numeric_elements(v), numeric_elements(v).len() as int) + seq![']'],
        FieldValue::Invalid => Seq::empty(),
    }
}

/// Writes a value in millionths briefly.
fn real_chars(m: i64) -> (r: Vec<char>)
    ensures
        r@ == real_text(m as int),
{
    let a: u128 = if m < 0 { (-(m as i128)) as u128 } else { m as u128 };
    let mut r: Vec<char> = Vec::new();
    if m < 0 {
        r.push('-');
    }
    let whole = decimal_chars(a / (UNIT as u128));
    push_chars(&mut r, &whole);
    let frac: u128 = a % (UNIT as u128);
    if frac != 0 {
        r.push('.');
        let mut digits: Vec<char> = Vec::new();
        push_zero_padded(&mut digits, frac as i128, 6);
        let ghost padded = digits@;
        while digits.len() > 0 && digits[digits.len() - 1] == '0'
            invariant
                trim_zeros(digits@) == trim_zeros(padded),
            decreases digits@.len(),
        {
            let ghost prev = digits@;
            digits.pop();
            proof {
                assert(digits@ =~= prev.drop_last());
            }
        }
        push_chars(&mut r, &digits);
    }
    r
}

/// Writes a field value as it is.
fn value_chars(v: &FieldValue) -> (r: Vec<char>)
    ensures
        r@ == value_text(*v),
{
    match v {
        FieldValue::SInt(i) => signed_chars(*i as i128),
        FieldValue::UInt(u) => decimal_chars(*u as u128),
        FieldValue::Real(m) => real_chars(*m),
        FieldValue::Text(t) => {
            let mut r: Vec<char> = Vec::new();
            push_str(&mut r, t.as_str());
            r
        },
        FieldValue::Array(_) => {
            let xs = extract_vector(v);
            let mut r: Vec<char> = Vec::new();
            r.push('[');
            let ghost start = r@;
            let mut i: usize = 0;
            while i < xs.len()
                invariant
                    i <= xs@.len(),
                    r@ == start + joined(xs@, i as int),
                decreases xs@.len() - i,
            {
                if i > 0 {
                    push_str(&mut r, ", ");
                }
                let t = real_chars(xs[i]);
                push_chars(&mut r, &t);
                proof {
                    if i == 0 {
                        assert(joined(xs@, 1) == real_text(xs@[0] as int));
                        assert(r@ =~= start + joined(xs@, 1));
                    } else {
                        assert(r@ =~= start + joined(xs@, i + 1));
                    }
                }
                i = i + 1;
            }
            r.push(']');
            r
        },
        FieldValue::Invalid => Vec::new(),
    }
}

/// Names of positions, shown in degrees.
pub open spec fn is_position_name(n: Seq<char>) -> bool {
    n == "start_position_lat"@ || n == "start_position_long"@ || n == "end_position_lat"@ || n
        == "end_position_long"@
}

/// Names of fields shown as they are, with their own unit.
pub open spec fn is_plain_name(n: Seq<char>) -> bool {
    n == "total_strides"@ || n == "total_calories"@ || n == "avg_heart_rate"@ || n
        == "max_heart_rate"@ || n == "avg_running_cadence"@ || n == "max_running_cadence"@ || n
        == "total_training_effect"@ || n == "first_lap_index"@ || n == "num_laps"@ || n
        == "avg_fractional_cadence"@ || n == "max_fractional_cadence"@ || n
        == "total_anaerobic_training_effect"@ || n == "sport"@ || n == "sub_sport"@ || n
        == "timestamp"@ || n == "start_time"@
}

/// Names of climbs, shown as altitudes.
pub open spec fn is_climb_name(n: Seq<char>) -> bool {
    n == "total_ascent"@ || n == "total_descent"@
}

/// Names of durations, shown as hours, minutes and seconds.
pub open spec fn is_duration_name(n: Seq<char>) -> bool {
    n == "total_elapsed_time"@ || n == "total_timer_time"@
}

/// Names of temperatures.
pub open spec fn is_temperature_name(n: Seq<char>) -> bool {
    n == "min_temperature"@ || n == "max_temperature"@ || n == "avg_temperature"@
}

/// Names of speeds, shown as paces.
pub open spec fn is_speed_name(n: Seq<char>) -> bool {
    n == "enhanced_avg_speed"@ || n == "enhanced_max_speed"@
}

/// The unit written after a converted altitude, distance, temperature or pace.
pub open spec fn suffix(kind: int, u: Units) -> Seq<char> {
    match u {
        Units::US => if kind == 0 {
            "feet"@
        } else if kind == 1 {
            "miles"@
        } else if kind == 2 {
            "°F"@
        } else {
            "min/mile"@
        },
        Units::Metric => if kind == 0 {
            "meters"@
        } else if kind == 1 {
            "kilometers"@
        } else if kind == 2 {
            "°C"@
        } else {
            "min/km"@
        },
        Units::Raw => ""@,
    }
}

/// The numeric value, in millionths, of an integer field value.
pub open spec fn integer_fixed_of(v: FieldValue) -> Option<i64> {
    match v {
        FieldValue::SInt(_) => fixed_of(v),
        FieldValue::UInt(_) => fixed_of(v),
        _ => None,
    }
}

/// A converted value with two decimals and its unit.
pub open spec fn converted_line(name: Seq<char>, v: int, kind: int, u: Units) -> Seq<char> {
    left_aligned(name, 23) + ": "@ + fixed_text(v, 2) + " "@ + suffix(kind, u) + "\n"@
}

/// Hours, minutes and seconds as `Hh:MMm:SSs`.
pub open spec fn hms_text(t: (int, int, int)) -> Seq<char> {
    signed_text(t.0) + "h:"@ + zero_padded(t.1, 2) + "m:"@ + zero_padded(t.2, 2) + "s\n"@
}

/// The report line of a field under a unit system; `None` for a field that
/// no rule covers or whose value does not suit its rule.
pub open spec fn field_text(f: Field, u: Units) -> Option<Seq<char>> {
    let n = f.name@;
    let head = left_aligned(n, 23) + ": "@;
    if is_position_name(n) {
        match integer_of(f.value) {
            Some(semi) => Some(
                head + left_aligned(fixed_text(degrees_spec(semi as int), 3), 6) + "°\n"@,
            ),
            None => None,
        }
    } else if is_plain_name(n) {
        Some(head + value_text(f.value) + " "@ + f.units@ + "\n"@)
    } else if is_climb_name(n) {
        match fixed_of(f.value) {
            Some(v) => Some(converted_line(n, altitude_spec(v as int, u), 0, u)),
            None => None,
        }
    } else if n == "total_distance"@ {
        match fixed_of(f.value) {
            Some(v) => Some(converted_line(n, distance_spec(v as int, u), 1, u)),
            None => None,
        }
    } else if is_duration_name(n) {
        match fixed_of(f.value) {
            Some(v) => Some(head + hms_text(elapsed_spec(v as int))),
            None => None,
        }
    } else if is_temperature_name(n) {
        match integer_fixed_of(f.value) {
            Some(v) => Some(converted_line(n, temperature_spec(v as int, u), 2, u)),
            None => None,
        }
    } else if is_speed_name(n) {
        match fixed_of(f.value) {
            Some(v) => Some(converted_line(n, pace_spec(v as int, u), 3, u)),
            None => None,
        }
    } else {
        None
    }
}

fn is_position(n: &str) -> (r: bool)
    ensures
        r == is_position_name(n@),
{
    str_equal(n, "start_position_lat") || str_equal(n, "start_position_long") || str_equal(
        n,
        "end_position_lat",
    ) || str_equal(n, "end_position_long")
}

fn is_plain(n: &str) -> (r: bool)
    ensures
        r == is_plain_name(n@),
{
    str_equal(n, "total_strides") || str_equal(n, "total_calories") || str_equal(
        n,
        "avg_heart_rate",
    ) || str_equal(n, "max_heart_rate") || str_equal(n, "avg_running_cadence") || str_equal(
        n,
        "max_running_cadence",
    ) || str_equal(n, "total_training_effect") || str_equal(n, "first_lap_index") || str_equal(
        n,
        "num_laps",
    ) || str_equal(n, "avg_fractional_cadence") || str_equal(n, "max_fractional_cadence")
        || str_equal(n, "total_anaerobic_training_effect") || str_equal(n, "sport") || str_equal(
        n,
        "sub_sport",
    ) || str_equal(n, "timestamp") || str_equal(n, "start_time")
}

fn is_climb(n: &str) -> (r: bool)
    ensures
        r == is_climb_name(n@),
{
    str_equal(n, "total_ascent") || str_equal(n, "total_descent")
}

fn is_duration(n: &str) -> (r: bool)
    ensures
        r == is_duration_name(n@),
{
    str_equal(n, "total_elapsed_time") || str_equal(n, "total_timer_time")
}

fn is_temperature(n: &str) -> (r: bool)
    ensures
        r == is_temperature_name(n@),
{
    str_equal(n, "min_temperature") || str_equal(n, "max_temperature") || str_equal(
        n,
        "avg_temperature",
    )
}

fn is_speed(n: &str) -> (r: bool)
    ensures
        r == is_speed_name(n@),
{
    str_equal(n, "enhanced_avg_speed") || str_equal(n, "enhanced_max_speed")
}

fn suffix_str(kind: u8, u: &Units) -> (r: &'static str)
    ensures
        r@ == suffix(kind as int, *u),
{
    match u {
        Units::US => if kind == 0 {
            "feet"
        } else if kind == 1 {
            "miles"
        } else if kind == 2 {
            "°F"
        } else {
            "min/mile"
        },
        Units::Metric => if kind == 0 {
            "meters"
        } else if kind == 1 {
            "kilometers"
        } else if kind == 2 {
            "°C"
        } else {
            "min/km"
        },
        Units::Raw => "",
    }
}

fn converted_chars(name: &str, v: i64, kind: u8, u: &Units) -> (r: Vec<char>)
    ensures
        r@ == converted_line(name@, v as int, kind as int, *u),
{
    let mut out: Vec<char> = Vec::new();
    let mut n: Vec<char> = Vec::new();
    push_str(&mut n, name);
    push_left_aligned(&mut out, &n, 23);
    push_str(&mut out, ": ");
    let t = fixed_chars(v as i128, false);
    push_chars(&mut out, &t);
    push_str(&mut out, " ");
    push_str(&mut out, suffix_str(kind, u));
    push_str(&mut out, "\n");
    out
}

/// Writes hours, minutes and seconds.
fn push_hms(out: &mut Vec<char>, t: (i64, i64, i64))
    ensures
        final(out)@ == old(out)@ + hms_text((t.0 as int, t.1 as int, t.2 as int)),
{
    let h = signed_chars(t.0 as i128);
    push_chars(out, &h);
    push_str(out, "h:");
    push_zero_padded(out, t.1 as i128, 2);
    push_str(out, "m:");
    push_zero_padded(out, t.2 as i128, 2);
    push_str(out, "s\n");
}

/// The report line of a field as characters.
fn field_chars(fld: &Field, units: &Units) -> (r: Option<Vec<char>>)
    ensures
        match field_text(*fld, *units) {
            Some(t) => r matches Some(v) && v@ == t,
            None => r is None,
        },
{
    let name = fld.name.as_str();
    let mut head: Vec<char> = Vec::new();
    let mut n: Vec<char> = Vec::new();
    push_str(&mut n, name);
    push_left_aligned(&mut head, &n, 23);
    push_str(&mut head, ": ");
    if is_position(name) {
        match integer_value(&fld.value) {
            Some(semi) => {
                assert(-0x8000_0000_0000_0000 * 180_000_000 <= semi * 180_000_000
                    <= 0xffff_ffff_ffff_ffff * 180_000_000) by (nonlinear_arith)
                    requires
                        -0x8000_0000_0000_0000 <= semi <= 0xffff_ffff_ffff_ffff,
                ;
                let deg = crate::arith::div_floor(semi * 180 * (UNIT as i128), 2_147_483_648);
                proof {
                    crate::arith::lemma_div_between(semi * 180_000_000, 2_147_483_648);
                }
                let t = fixed_chars(deg, true);
                push_left_aligned(&mut head, &t, 6);
                push_str(&mut head, "°\n");
                Some(head)
            },
            None => None,
        }
    } else if is_plain(name) {
        let t = value_chars(&fld.value);
        push_chars(&mut head, &t);
        push_str(&mut head, " ");
        push_str(&mut head, fld.units.as_str());
        push_str(&mut head, "\n");
        Some(head)
    } else if is_climb(name) {
        match fixed_value(&fld.value) {
            Some(v) => {
                proof {
                    lemma_conversions_fit(v as int, *units);
                }
                Some(converted_chars(name, cvt_altitude(v, units), 0, units))
            },
            None => None,
        }
    } else if str_equal(name, "total_distance") {
        match fixed_value(&fld.value) {
            Some(v) => Some(converted_chars(name, cvt_distance(v, units), 1, units)),
            None => None,
        }
    } else if is_duration(name) {
        match fixed_value(&fld.value) {
            Some(v) => {
                push_hms(&mut head, cvt_elapsed_time(v));
                Some(head)
            },
            None => None,
        }
    } else if is_temperature(name) {
        let whole = match &fld.value {
            FieldValue::SInt(_) => fixed_value(&fld.value),
            FieldValue::UInt(_) => fixed_value(&fld.value),
            _ => None,
        };
        match whole {
            Some(v) => {
                proof {
                    lemma_conversions_fit(v as int, *units);
                }
                Some(converted_chars(name, cvt_temperature(v, units), 2, units))
            },
            None => None,
        }
    } else if is_speed(name) {
        match fixed_value(&fld.value) {
            Some(v) => Some(converted_chars(name, cvt_pace(v, units), 3, units)),
            None => None,
        }
    } else {
        None
    }
}

/// Converts a field's value to the user's units and writes its report line;
/// `None` for a field that no rule covers or whose value does not suit its
/// rule.
pub fn format_string_for_field(fld: &Field, user_unit: &Units) -> (r: Option<String>)
    ensures
        match field_text(*fld, *user_unit) {
            Some(t) => r matches Some(s) && s@ == t,
            None => r is None,
        },
{
    match field_chars(fld, user_unit) {
        Some(v) => Some(string_of(&v)),
        None => None,
    }
}

/// One entry of the report, as the library builds it.
#[derive(Debug)]
pub enum SummaryLine {
    /// The header of a Session record's section.
    Session,
    /// The header of the `n`th Lap record's section, counting from 1.
    Lap(u64),
    /// A field line, or a line of the heart-rate zone breakdown.
    Text(String),
}

/// The mathematical content of a report entry.
pub enum LineModel {
    Session,
    Lap(int),
    Text(Seq<char>),
}

impl View for SummaryLine {
    type V = LineModel;

    open spec fn view(&self) -> LineModel {
        match self {
            SummaryLine::Session => LineModel::Session,
            SummaryLine::Lap(n) => LineModel::Lap(*n as int),
            SummaryLine::Text(t) => LineModel::Text(t@),
        }
    }
}

/// The text of a Session header.
pub open spec fn session_header() -> Seq<char> {
    "\n============================ Session ==================================\n\n"@
}

/// The text of the header of the `n`th lap.
pub open spec fn lap_header(n: int) -> Seq<char> {
    "\n------------------------------ Lap "@ + decimal(n as nat)
        + "-----------------------------------\n\n"@
}

/// The text of an entry.
pub open spec fn line_text(l: LineModel) -> Seq<char> {
    match l {
        LineModel::Session => session_header(),
        LineModel::Lap(n) => lap_header(n),
        LineModel::Text(t) => t,
    }
}

/// The texts of the first `n` entries, in order.
pub open spec fn texts(ls: Seq<LineModel>, n: int) -> Seq<char>
    decreases n,
{
    if n <= 0 {
        Seq::empty()
    } else {
        texts(ls, n - 1) + line_text(ls[n - 1])
    }
}

/// The entry of a field, if it has a report line.
pub open spec fn field_entry(f: Field, u: Units) -> Seq<LineModel> {
    match field_text(f, u) {
        Some(t) => seq![LineModel::Text(t)],
        None => Seq::empty(),
    }
}

/// The entries of the first `n` fields.
pub open spec fn field_lines(fs: Seq<Field>, u: Units, n: int) -> Seq<LineModel>
    decreases n,
{
    if n <= 0 {
        Seq::empty()
    } else {
        field_lines(fs, u, n - 1) + field_entry(fs[n - 1], u)
    }
}

/// How many of the first `n` records are laps.
pub open spec fn lap_count(rs: Seq<TelemetryRecord>, n: int) -> int
    decreases n,
{
    if n <= 0 {
        0
    } else {
        lap_count(rs, n - 1) + if rs[n - 1].kind == MessageKind::Lap { 1int } else { 0 }
    }
}

/// The section of record `i`: a header and its field lines for a Session or
/// Lap record, nothing for the others.
pub open spec fn section(rs: Seq<TelemetryRecord>, u: Units, i: int) -> Seq<LineModel> {
    let fields = field_lines(rs[i].fields@, u, rs[i].fields@.len() as int);
    match rs[i].kind {
        MessageKind::Session => seq![LineModel::Session] + fields,
        MessageKind::Lap => seq![LineModel::Lap(lap_count(rs, i + 1))] + fields,
        _ => Seq::empty(),
    }
}

/// The sections of the first `n` records.
pub open spec fn record_lines(rs: Seq<TelemetryRecord>, u: Units, n: int) -> Seq<LineModel>
    decreases n,
{
    if n <= 0 {
        Seq::empty()
    } else {
        record_lines(rs, u, n - 1) + section(rs, u, n - 1)
    }
}

/// The upper limit of zone `z`: its limit, or 220 bpm past the last one.
pub open spec fn zone_upper(limits: Seq<i64>, z: int) -> int {
    if z < limits.len() {
        limits[z] as int
    } else {
        220 * UNIT
    }
}

/// The lower limit of zone `z`: the upper limit of the zone below, or 0.
pub open spec fn zone_lower(limits: Seq<i64>, z: int) -> int {
    if z == 0 {
        0
    } else {
        zone_upper(limits, z - 1)
    }
}

/// Whole beats per minute, truncated toward zero.
pub open spec fn whole_bpm(v: int) -> int {
    if v >= 0 {
        v / (UNIT as int)
    } else {
        -((-v) / (UNIT as int))
    }
}

/// The line of zone `z` with time `t` in it.
pub open spec fn zone_text(z: int, t: int, limits: Seq<i64>) -> Seq<char> {
    "Zone "@ + decimal(z as nat) + " ("@ + right_aligned(signed_text(whole_bpm(zone_lower(limits, z))), 3)
        + "-"@ + right_aligned(signed_text(whole_bpm(zone_upper(limits, z))), 3) + " bpm): "@
        + hms_text(elapsed_spec(t))
}

/// The title of the zone breakdown.
pub open spec fn zone_title() -> Seq<char> {
    "\n=================== Time in Heart Rate Zones for Session  ========\n\n"@
}

/// The zone breakdown: a title, a line per zone, and a blank line.
pub open spec fn zone_section(times: Seq<i64>, limits: Seq<i64>) -> Seq<LineModel> {
    seq![LineModel::Text(zone_title())] + Seq::new(
        times.len(),
        |z: int| LineModel::Text(zone_text(z, times[z] as int, limits)),
    ) + seq![LineModel::Text("\n"@)]
}

/// The whole report: the sections of the records in order, then the zone
/// breakdown when a TimeInZone record refers to the session.
pub open spec fn summary_model(rs: Seq<TelemetryRecord>, u: Units) -> Seq<LineModel> {
    record_lines(rs, u, rs.len() as int) + match session_zones(rs) {
        Some(z) => zone_section(z.0, z.1),
        None => Seq::empty(),
    }
}

/// The report as text.
pub open spec fn summary_text(rs: Seq<TelemetryRecord>, u: Units) -> Seq<char> {
    texts(summary_model(rs, u), summary_model(rs, u).len() as int)
}

/// The lap numbers of the Lap headers among some entries, in order.
pub open spec fn lap_numbers(ls: Seq<LineModel>) -> Seq<int>
    decreases ls.len(),
{
    if ls.len() == 0 {
        Seq::empty()
    } else {
        lap_numbers(ls.drop_last()) + match ls.last() {
            LineModel::Lap(n) => seq![n],
            _ => Seq::empty(),
        }
    }
}

proof fn lemma_lap_numbers_concat(a: Seq<LineModel>, b: Seq<LineModel>)
    ensures
        lap_numbers(a + b) == lap_numbers(a) + lap_numbers(b),
    decreases b.len(),
{
    if b.len() == 0 {
        assert(a + b =~= a);
        assert(lap_numbers(b) =~= Seq::empty());
        assert(lap_numbers(a) + lap_numbers(b) =~= lap_numbers(a));
    } else {
        lemma_lap_numbers_concat(a, b.drop_last());
        assert((a + b).drop_last() =~= a + b.drop_last());
        assert(lap_numbers(a) + lap_numbers(b.drop_last()) + match b.last() {
            LineModel::Lap(n) => seq![n],
            _ => Seq::empty(),
        } =~= lap_numbers(a) + lap_numbers(b));
    }
}

proof fn lemma_lap_numbers_single(l: LineModel)
    ensures
        lap_numbers(seq![l]) == match l {
            LineModel::Lap(n) => seq![n],
            _ => Seq::<int>::empty(),
        },
{
    assert(seq![l].drop_last() =~= Seq::<LineModel>::empty());
    assert(lap_numbers(Seq::<LineModel>::empty()) == Seq::<int>::empty());
    assert(seq![l].last() == l);
    assert(Seq::<int>::empty() + match l {
        LineModel::Lap(n) => seq![n],
        _ => Seq::<int>::empty(),
    } =~= match l {
        LineModel::Lap(n) => seq![n],
        _ => Seq::<int>::empty(),
    });
}

proof fn lemma_no_laps_in_fields(fs: Seq<Field>, u: Units, n: int)
    ensures
        lap_numbers(field_lines(fs, u, n)) == Seq::<int>::empty(),
    decreases n,
{
    if n > 0 {
        lemma_no_laps_in_fields(fs, u, n - 1);
        lemma_lap_numbers_concat(field_lines(fs, u, n - 1), field_entry(fs[n - 1], u));
        match field_text(fs[n - 1], u) {
            Some(t) => lemma_lap_numbers_single(LineModel::Text(t)),
            None => {
                assert(lap_numbers(Seq::<LineModel>::empty()) == Seq::<int>::empty());
            },
        }
        assert(lap_numbers(field_lines(fs, u, n)) =~= Seq::<int>::empty());
    }
}

proof fn lemma_record_laps(rs: Seq<TelemetryRecord>, u: Units, n: int)
    requires
        0 <= n <= rs.len(),
    ensures
        lap_numbers(record_lines(rs, u, n)) == Seq::new(lap_count(rs, n) as nat, |i: int| i + 1),
    decreases n,
{
    if n > 0 {
        lemma_record_laps(rs, u, n - 1);
        let i = n - 1;
        let fields = field_lines(rs[i].fields@, u, rs[i].fields@.len() as int);
        lemma_no_laps_in_fields(rs[i].fields@, u, rs[i].fields@.len() as int);
        lemma_lap_numbers_concat(record_lines(rs, u, i), section(rs, u, i));
        assert(lap_count(rs, n) >= 0) by {
            lemma_lap_count_nonneg(rs, n);
        }
        match rs[i].kind {
            MessageKind::Session => {
                let head = seq![LineModel::Session];
                lemma_lap_numbers_concat(head, fields);
                lemma_lap_numbers_single(LineModel::Session);
                assert(lap_numbers(section(rs, u, i)) =~= Seq::<int>::empty());
            },
            MessageKind::Lap => {
                let head = seq![LineModel::Lap(lap_count(rs, n))];
                lemma_lap_numbers_concat(head, fields);
                lemma_lap_numbers_single(LineModel::Lap(lap_count(rs, n)));
                assert(lap_numbers(section(rs, u, i)) =~= seq![lap_count(rs, n)]);
            },
            _ => {
                assert(section(rs, u, i) =~= Seq::<LineModel>::empty());
                assert(lap_numbers(Seq::<LineModel>::empty()) == Seq::<int>::empty());
            },
        }
        assert(record_lines(rs, u, n) == record_lines(rs, u, i) + section(rs, u, i));
        assert(lap_count(rs, n) == lap_count(rs, i) + if rs[i].kind == MessageKind::Lap {
            1int
        } else {
            0
        });
        lemma_lap_count_nonneg(rs, i);
        assert(lap_numbers(record_lines(rs, u, n)) =~= Seq::new(
            lap_count(rs, n) as nat,
            |j: int| j + 1,
        ));
    }
}

proof fn lemma_lap_count_nonneg(rs: Seq<TelemetryRecord>, n: int)
    ensures
        lap_count(rs, n) >= 0,
    decreases n,
{
    if n > 0 {
        lemma_lap_count_nonneg(rs, n - 1);
    }
}

proof fn lemma_no_laps_in_zones(times: Seq<i64>, limits: Seq<i64>)
    ensures
        lap_numbers(zone_section(times, limits)) == Seq::<int>::empty(),
{
    let ls = zone_section(times, limits);
    assert forall|k: int| 0 <= k <= ls.len() implies lap_numbers(#[trigger] ls.take(k))
        == Seq::<int>::empty() by {
        lemma_no_laps_prefix(ls, k);
    }
    assert(ls.take(ls.len() as int) =~= ls);
}

proof fn lemma_no_laps_prefix(ls: Seq<LineModel>, k: int)
    requires
        0 <= k <= ls.len(),
        forall|j: int| 0 <= j < ls.len() ==> !(#[trigger] ls[j] is Lap),
    ensures
        lap_numbers(ls.take(k)) == Seq::<int>::empty(),
    decreases k,
{
    if k > 0 {
        lemma_no_laps_prefix(ls, k - 1);
        assert(ls.take(k).drop_last() =~= ls.take(k - 1));
        assert(!(ls.take(k).last() is Lap));
        assert(lap_numbers(ls.take(k)) =~= Seq::<int>::empty());
    }
}

/// However the fields read, the report holds one Lap header per Lap record,
/// numbered 1, 2, 3, ... in the order of the records.
pub proof fn lemma_lap_headers(rs: Seq<TelemetryRecord>, u: Units)
    ensures
        lap_numbers(summary_model(rs, u)) == Seq::new(
            lap_count(rs, rs.len() as int) as nat,
            |i: int| i + 1,
        ),
{
    lemma_record_laps(rs, u, rs.len() as int);
    let tail = match session_zones(rs) {
        Some(z) => zone_section(z.0, z.1),
        None => Seq::empty(),
    };
    lemma_lap_numbers_concat(record_lines(rs, u, rs.len() as int), tail);
    match session_zones(rs) {
        Some(z) => {
            lemma_no_laps_in_zones(z.0, z.1);
        },
        None => {
            assert(lap_numbers(tail) =~= Seq::<int>::empty());
        },
    }
    assert(lap_numbers(summary_model(rs, u)) =~= Seq::new(
        lap_count(rs, rs.len() as int) as nat,
        |i: int| i + 1,
    ));
}

/// The contents of some report entries.
pub open spec fn models(v: Seq<SummaryLine>) -> Seq<LineModel> {
    v.map_values(|l: SummaryLine| l@)
}

/// Appends the entries of a record's fields.
fn push_field_lines(fields: &Vec<Field>, units: &Units, out: &mut Vec<SummaryLine>)
    ensures
        models(final(out)@) == models(old(out)@) + field_lines(fields@, *units, fields@.len() as int),
{
    let ghost start = models(out@);
    let mut i: usize = 0;
    while i < fields.len()
        invariant
            i <= fields@.len(),
            models(out@) == start + field_lines(fields@, *units, i as int),
        decreases fields@.len() - i,
    {
        let ghost before = out@;
        match format_string_for_field(&fields[i], units) {
            Some(t) => {
                let ghost tv = t@;
                out.push(SummaryLine::Text(t));
                assert(models(out@) =~= models(before).push(LineModel::Text(tv)));
                assert(field_entry(fields@[i as int], *units) =~= seq![LineModel::Text(tv)]);
            },
            None => {
                assert(field_entry(fields@[i as int], *units) =~= Seq::<LineModel>::empty());
            },
        }
        assert(models(out@) =~= start + field_lines(fields@, *units, i + 1));
        i = i + 1;
    }
}

/// Whole beats per minute of a limit in millionths, truncated toward zero.
fn whole_bpm_of(v: i128) -> (r: i128)
    requires
        -0x1_0000_0000_0000_0000_0000 <= v <= 0x1_0000_0000_0000_0000_0000,
    ensures
        r == whole_bpm(v as int),
{
    if v >= 0 {
        ((v as u128) / (UNIT as u128)) as i128
    } else {
        -(((-v) as u128 / (UNIT as u128)) as i128)
    }
}

/// The line of zone `z`.
fn zone_chars(z: usize, t: i64, limits: &Vec<i64>) -> (r: Vec<char>)
    ensures
        r@ == zone_text(z as int, t as int, limits@),
{
    let upper: i128 = if z < limits.len() {
        limits[z] as i128
    } else {
        220 * (UNIT as i128)
    };
    let lower: i128 = if z == 0 {
        0
    } else if z - 1 < limits.len() {
        limits[z - 1] as i128
    } else {
        220 * (UNIT as i128)
    };
    let mut out: Vec<char> = Vec::new();
    push_str(&mut out, "Zone ");
    let zd = decimal_chars(z as u128);
    push_chars(&mut out, &zd);
    push_str(&mut out, " (");
    let lo = signed_chars(whole_bpm_of(lower));
    push_right_aligned(&mut out, &lo, 3);
    push_str(&mut out, "-");
    let hi = signed_chars(whole_bpm_of(upper));
    push_right_aligned(&mut out, &hi, 3);
    push_str(&mut out, " bpm): ");
    push_hms(&mut out, cvt_elapsed_time(t));
    out
}

/// Builds the report entries: for each Session record a header and its field
/// lines, for each Lap record a numbered header (counting from 1) and its
/// field lines, then the heart-rate zone breakdown when a TimeInZone record
/// refers to the session.
pub fn summary_lines(data: &Vec<TelemetryRecord>, units: &Units) -> (r: Vec<SummaryLine>)
    ensures
        models(r@) == summary_model(data@, *units),
{
    let mut out: Vec<SummaryLine> = Vec::new();
    let mut laps: u64 = 0;
    let mut i: usize = 0;
    while i < data.len()
        invariant
            i <= data@.len(),
            models(out@) == record_lines(data@, *units, i as int),
            laps == lap_count(data@, i as int),
            laps <= i,
        decreases data@.len() - i,
    {
        let ghost before = models(out@);
        proof {
            lemma_lap_count_nonneg(data@, i as int);
        }
        match data[i].kind {
            MessageKind::Session => {
                out.push(SummaryLine::Session);
                assert(models(out@) =~= before + seq![LineModel::Session]);
                push_field_lines(&data[i].fields, units, &mut out);
                assert(models(out@) =~= record_lines(data@, *units, i + 1));
            },
            MessageKind::Lap => {
                laps = laps + 1;
                out.push(SummaryLine::Lap(laps));
                assert(models(out@) =~= before + seq![LineModel::Lap(laps as int)]);
                push_field_lines(&data[i].fields, units, &mut out);
                assert(models(out@) =~= record_lines(data@, *units, i + 1));
            },
            _ => {
                assert(models(out@) =~= record_lines(data@, *units, i + 1));
            },
        }
        i = i + 1;
    }
    let ghost recs = models(out@);
    match get_time_in_zone_field(data) {
        (Some(times), Some(limits)) => {
            let mut title: Vec<char> = Vec::new();
            push_str(&mut title, "\n=================== Time in Heart Rate Zones for Session  ========\n\n");
            let title_string = string_of(&title);
            out.push(SummaryLine::Text(title_string));
            let ghost start = models(out@);
            assert(start =~= recs.push(LineModel::Text(zone_title())));
            let mut z: usize = 0;
            while z < times.len()
                invariant
                    z <= times@.len(),
                    models(out@) == start + Seq::new(
                        z as nat,
                        |k: int| LineModel::Text(zone_text(k, times@[k] as int, limits@)),
                    ),
                decreases times@.len() - z,
            {
                let line = zone_chars(z, times[z], &limits);
                let line_string = string_of(&line);
                let ghost prev = out@;
                out.push(SummaryLine::Text(line_string));
                assert(models(out@) =~= models(prev).push(
                    LineModel::Text(zone_text(z as int, times@[z as int] as int, limits@)),
                ));
                assert(models(out@) =~= start + Seq::new(
                    (z + 1) as nat,
                    |k: int| LineModel::Text(zone_text(k, times@[k] as int, limits@)),
                ));
                z = z + 1;
            }
            let mut blank: Vec<char> = Vec::new();
            push_str(&mut blank, "\n");
            let blank_string = string_of(&blank);
            let ghost prev = out@;
            out.push(SummaryLine::Text(blank_string));
            assert(models(out@) =~= models(prev).push(LineModel::Text("\n"@)));
            assert(models(out@) =~= summary_model(data@, *units));
        },
        _ => {
            assert(models(out@) =~= summary_model(data@, *units));
        },
    }
    out
}

/// Writes the text of one entry.
fn push_line(out: &mut Vec<char>, l: &SummaryLine)
    ensures
        final(out)@ == old(out)@ + line_text(l@),
{
    match l {
        SummaryLine::Session => {
            push_str(out, "\n============================ Session ==================================\n\n");
        },
        SummaryLine::Lap(n) => {
            let ghost start = out@;
            push_str(out, "\n------------------------------ Lap ");
            let d = decimal_chars(*n as u128);
            push_chars(out, &d);
            push_str(out, "-----------------------------------\n\n");
            assert(out@ =~= start + lap_header(*n as int));
        },
        SummaryLine::Text(t) => {
            push_str(out, t.as_str());
        },
    }
}

/// Builds the text report of a file under a unit system.
pub fn build_summary(data: &Vec<TelemetryRecord>, units: &Units) -> (r: String)
    ensures
        r@ == summary_text(data@, *units),
{
    let lines = summary_lines(data, units);
    let ghost ms = summary_model(data@, *units);
    let mut out: Vec<char> = Vec::new();
    let mut i: usize = 0;
    while i < lines.len()
        invariant
            i <= lines@.len(),
            models(lines@) == ms,
            out@ == texts(ms, i as int),
        decreases lines@.len() - i,
    {
        push_line(&mut out, &lines[i]);
        assert(lines@[i as int]@ == ms[i as int]);
        i = i + 1;
    }
    string_of(&out)
}

} // verus!
