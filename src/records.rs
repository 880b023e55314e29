//! The parsed telemetry records and typed field lookup over them.
use crate::arith::str_equal;
use crate::units::{MAX_MAGNITUDE, UNIT};
use vstd::prelude::*;

verus! {

/// The kind of a parsed message.
#[derive(Clone, Copy, Debug, PartialEq, Eq, Structural)]
pub enum MessageKind {
    Session,
    Lap,
    Record,
    TimeInZone,
    Other,
}

/// The value of one field, as the parser typed it.
#[derive(Debug)]
pub enum FieldValue {
    /// Any signed integer width.
    SInt(i64),
    /// Any unsigned integer width.
    UInt(u64),
    /// A floating value, in millionths.
    Real(i64),
    /// Text: strings, enumeration names and timestamps as the parser shows them.
    Text(String),
    /// Several values of one field.
    Array(Vec<FieldValue>),
    /// A value that the parser marked invalid.
    Invalid,
}

/// One named field of a record, with its physical unit (possibly empty).
#[derive(Debug)]
pub struct Field {
    pub name: String,
    pub value: FieldValue,
    pub units: String,
}

/// One parsed message: its kind and its fields in order.
#[derive(Debug)]
pub struct TelemetryRecord {
    pub kind: MessageKind,
    pub fields: Vec<Field>,
}

/// A fixed-point value kept only when it lies within `MAX_MAGNITUDE`.
pub open spec fn bounded(x: int) -> Option<i64> {
    if -MAX_MAGNITUDE <= x <= MAX_MAGNITUDE {
        Some(x as i64)
    } else {
        None
    }
}

/// The numeric value of a field value in millionths, if it is a number
/// within range.
pub open spec fn fixed_of(v: FieldValue) -> Option<i64> {
    match v {
        FieldValue::SInt(i) => bounded(i * UNIT),
        FieldValue::UInt(u) => bounded(u * UNIT),
        FieldValue::Real(m) => bounded(m as int),
        _ => None,
    }
}

/// The integer held by a field value that is an integer.
pub open spec fn integer_of(v: FieldValue) -> Option<i128> {
    match v {
        FieldValue::SInt(i) => Some(i as i128),
        FieldValue::UInt(u) => Some(u as i128),
        _ => None,
    }
}

/// Normalises a numeric field value to millionths of its unit; text, arrays,
/// invalid values and numbers beyond `MAX_MAGNITUDE` give `None`.
pub fn fixed_value(v: &FieldValue) -> (r: Option<i64>)
    ensures
        r == fixed_of(*v),
{
    match v {
        FieldValue::SInt(i) => {
            assert(-10_000_000_000_000_000_000_000_000 <= (*i as int) * 1_000_000
                <= 10_000_000_000_000_000_000_000_000) by (nonlinear_arith)
                requires
                    -9_223_372_036_854_775_808 <= *i <= 9_223_372_036_854_775_807,
            ;
            bound_fixed((*i as i128) * (UNIT as i128))
        },
        FieldValue::UInt(u) => {
            assert(0 <= (*u as int) * 1_000_000 <= 20_000_000_000_000_000_000_000_000)
                by (nonlinear_arith)
                requires
                    0 <= *u <= 18_446_744_073_709_551_615,
            ;
            bound_fixed((*u as i128) * (UNIT as i128))
        },
        FieldValue::Real(m) => bound_fixed(*m as i128),
        _ => None,
    }
}

fn bound_fixed(x: i128) -> (r: Option<i64>)
    ensures
        r == bounded(x as int),
{
    if -(MAX_MAGNITUDE as i128) <= x && x <= MAX_MAGNITUDE as i128 {
        Some(x as i64)
    } else {
        None
    }
}

/// The integer held by an integer field value; other values give `None`.
pub fn integer_value(v: &FieldValue) -> (r: Option<i128>)
    ensures
        r == integer_of(*v),
{
    match v {
        FieldValue::SInt(i) => Some(*i as i128),
        FieldValue::UInt(u) => Some(*u as i128),
        _ => None,
    }
}

/// The numeric elements of an array value, in order; a value that is not an
/// array gives no elements.
pub open spec fn numeric_elements(v: FieldValue) -> Seq<i64> {
    match v {
        FieldValue::Array(a) => numeric_prefix(a@, a@.len() as int),
        _ => Seq::empty(),
    }
}

/// The numeric values among the first `n` elements of `a`.
pub open spec fn numeric_prefix(a: Seq<FieldValue>, n: int) -> Seq<i64>
    decreases n,
{
    if n <= 0 {
        Seq::empty()
    } else {
        let before = numeric_prefix(a, n - 1);
        match fixed_of(a[n - 1]) {
            Some(x) => before.push(x),
            None => before,
        }
    }
}

/// Extracts the numeric elements of an array value.
pub fn extract_vector(v: &FieldValue) -> (r: Vec<i64>)
    ensures
        r@ == numeric_elements(*v),
{
    let mut out: Vec<i64> = Vec::new();
    match v {
        FieldValue::Array(a) => {
            let mut i: usize = 0;
            while i < a.len()
                invariant
                    i <= a@.len(),
                    out@ == numeric_prefix(a@, i as int),
                decreases a@.len() - i,
            {
                match fixed_value(&a[i]) {
                    Some(x) => out.push(x),
                    None => {},
                }
                i = i + 1;
            }
        },
        _ => {},
    }
    out
}

/// The value of the first field named `name` among the first `n` fields.
pub open spec fn first_named(fs: Seq<Field>, name: Seq<char>, n: int) -> Option<FieldValue>
    decreases n,
{
    if n <= 0 {
        None
    } else {
        match first_named(fs, name, n - 1) {
            Some(v) => Some(v),
            None => if fs[n - 1].name@ == name {
                Some(fs[n - 1].value)
            } else {
                None
            },
        }
    }
}

/// The value of the first field named `name` in a record.
pub open spec fn field_named(r: TelemetryRecord, name: Seq<char>) -> Option<FieldValue> {
    first_named(r.fields@, name, r.fields@.len() as int)
}

/// Among the first `n` records, the value of the field named `name` in the
/// first Session record that has one.
pub open spec fn session_field(rs: Seq<TelemetryRecord>, name: Seq<char>, n: int) -> Option<
    FieldValue,
>
    decreases n,
{
    if n <= 0 {
        None
    } else {
        match session_field(rs, name, n - 1) {
            Some(v) => Some(v),
            None => if rs[n - 1].kind == MessageKind::Session {
                field_named(rs[n - 1], name)
            } else {
                None
            },
        }
    }
}

/// The numeric session value of the field named `name`.
pub open spec fn session_value(rs: Seq<TelemetryRecord>, name: Seq<char>) -> Option<i64> {
    match session_field(rs, name, rs.len() as int) {
        Some(v) => fixed_of(v),
        None => None,
    }
}

/// The numeric values of the fields named `name` among the first `n` fields.
pub open spec fn named_values(fs: Seq<Field>, name: Seq<char>, n: int) -> Seq<i64>
    decreases n,
{
    if n <= 0 {
        Seq::empty()
    } else {
        let before = named_values(fs, name, n - 1);
        if fs[n - 1].name@ == name {
            match fixed_of(fs[n - 1].value) {
                Some(x) => before.push(x),
                None => before,
            }
        } else {
            before
        }
    }
}

/// The numeric values of the fields named `name` across the first `n`
/// records, keeping only Record-kind (per-sample) messages, in order.
pub open spec fn record_series(rs: Seq<TelemetryRecord>, name: Seq<char>, n: int) -> Seq<i64>
    decreases n,
{
    if n <= 0 {
        Seq::empty()
    } else {
        let before = record_series(rs, name, n - 1);
        if rs[n - 1].kind == MessageKind::Record {
            before + named_values(rs[n - 1].fields@, name, rs[n - 1].fields@.len() as int)
        } else {
            before
        }
    }
}

/// The per-sample series of the field named `name`.
pub open spec fn series_of(rs: Seq<TelemetryRecord>, name: Seq<char>) -> Seq<i64> {
    record_series(rs, name, rs.len() as int)
}

/// Finds the first field named `name`.
fn find_field(fields: &Vec<Field>, name: &str) -> (r: Option<usize>)
    ensures
        match r {
            Some(j) => j < fields@.len() && first_named(fields@, name@, fields@.len() as int)
                == Some(fields@[j as int].value),
            None => first_named(fields@, name@, fields@.len() as int) is None,
        },
{
    let mut i: usize = 0;
    while i < fields.len()
        invariant
            i <= fields@.len(),
            first_named(fields@, name@, i as int) is None,
        decreases fields@.len() - i,
    {
        if str_equal(fields[i].name.as_str(), name) {
            proof {
                lemma_first_named_stable(fields@, name@, i + 1, fields@.len() as int);
            }
            return Some(i);
        }
        i = i + 1;
    }
    None
}

/// Returns the numeric value of the field named `field_name` in the first
/// Session record that has such a field; `None` when no Session record has
/// it or its value is not a number.
pub fn get_sess_record_field(data: &Vec<TelemetryRecord>, field_name: &str) -> (r: Option<i64>)
    ensures
        r == session_value(data@, field_name@),
{
    let mut i: usize = 0;
    while i < data.len()
        invariant
            i <= data@.len(),
            session_field(data@, field_name@, i as int) is None,
        decreases data@.len() - i,
    {
        if data[i].kind == MessageKind::Session {
            match find_field(&data[i].fields, field_name) {
                Some(j) => {
                    proof {
                        assert(session_field(data@, field_name@, i + 1) == Some(
                            data@[i as int].fields@[j as int].value,
                        ));
                        lemma_session_field_stable(data@, field_name@, i + 1, data@.len() as int);
                    }
                    return fixed_value(&data[i].fields[j].value);
                },
                None => {},
            }
        }
        i = i + 1;
    }
    None
}

/// Once found, the first Session value stays the same over longer prefixes.
proof fn lemma_session_field_stable(rs: Seq<TelemetryRecord>, name: Seq<char>, m: int, k: int)
    requires
        m <= k,
        session_field(rs, name, m) is Some,
    ensures
        session_field(rs, name, k) == session_field(rs, name, m),
    decreases k - m,
{
    if m < k {
        lemma_session_field_stable(rs, name, m, k - 1);
    }
}

/// Once found, the first field of a name stays the same over longer prefixes.
proof fn lemma_first_named_stable(fs: Seq<Field>, name: Seq<char>, m: int, k: int)
    requires
        m <= k,
        first_named(fs, name, m) is Some,
    ensures
        first_named(fs, name, k) == first_named(fs, name, m),
    decreases k - m,
{
    if m < k {
        lemma_first_named_stable(fs, name, m, k - 1);
    }
}

/// Collects the numeric values of the fields named `name` in `fields`.
fn push_named_values(fields: &Vec<Field>, name: &str, out: &mut Vec<i64>)
    ensures
        final(out)@ == old(out)@ + named_values(fields@, name@, fields@.len() as int),
{
    let ghost start = out@;
    let mut i: usize = 0;
    while i < fields.len()
        invariant
            i <= fields@.len(),
            out@ == start + named_values(fields@, name@, i as int),
        decreases fields@.len() - i,
    {
        if str_equal(fields[i].name.as_str(), name) {
            match fixed_value(&fields[i].value) {
                Some(x) => {
                    out.push(x);
                    proof {
                        assert(out@ =~= start + named_values(fields@, name@, i + 1));
                    }
                },
                None => {},
            }
        }
        i = i + 1;
    }
}

/// Returns, in order, the numeric values of the fields named `field_name`
/// across all Record-kind (per-sample) messages.
pub fn get_msg_record_field_as_vec(data: &Vec<TelemetryRecord>, field_name: &str) -> (r: Vec<
    i64,
>)
    ensures
        r@ == series_of(data@, field_name@),
{
    let mut out: Vec<i64> = Vec::new();
    let mut i: usize = 0;
    while i < data.len()
        invariant
            i <= data@.len(),
            out@ == record_series(data@, field_name@, i as int),
        decreases data@.len() - i,
    {
        if data[i].kind == MessageKind::Record {
            push_named_values(&data[i].fields, field_name, &mut out);
        }
        i = i + 1;
    }
    out
}

/// A `reference_mesg` field whose text is `session`.
pub open spec fn is_session_reference(f: Field) -> bool {
    &&& f.name@ == "reference_mesg"@
    &&& match f.value {
        FieldValue::Text(t) => t@ == "session"@,
        _ => false,
    }
}

/// A TimeInZone record that refers to the session.
pub open spec fn refers_to_session(r: TelemetryRecord) -> bool {
    &&& r.kind == MessageKind::TimeInZone
    &&& exists|j: int| 0 <= j < r.fields@.len() && #[trigger] is_session_reference(r.fields@[j])
}

/// The numeric array elements of the field named `name` in a record.
pub open spec fn array_named(r: TelemetryRecord, name: Seq<char>) -> Seq<i64> {
    match field_named(r, name) {
        Some(v) => numeric_elements(v),
        None => Seq::empty(),
    }
}

/// Among the first `n` records, the time spent in each heart-rate zone and
/// the zones' upper limits, from the last TimeInZone record that refers to
/// the session.
pub open spec fn zones_upto(rs: Seq<TelemetryRecord>, n: int) -> Option<(Seq<i64>, Seq<i64>)>
    decreases n,
{
    if n <= 0 {
        None
    } else if refers_to_session(rs[n - 1]) {
        Some(
            (
                array_named(rs[n - 1], "time_in_hr_zone"@),
                array_named(rs[n - 1], "hr_zone_high_boundary"@),
            ),
        )
    } else {
        zones_upto(rs, n - 1)
    }
}

/// The session's heart-rate zone times and upper limits, if any record gives them.
pub open spec fn session_zones(rs: Seq<TelemetryRecord>) -> Option<(Seq<i64>, Seq<i64>)> {
    zones_upto(rs, rs.len() as int)
}

/// Whether a record refers to the session by its `reference_mesg` field.
fn has_session_reference(r: &TelemetryRecord) -> (b: bool)
    ensures
        b == exists|j: int| 0 <= j < r.fields@.len() && #[trigger] is_session_reference(r.fields@[j]),
{
    let mut i: usize = 0;
    while i < r.fields.len()
        invariant
            i <= r.fields@.len(),
            forall|j: int| 0 <= j < i ==> !#[trigger] is_session_reference(r.fields@[j]),
        decreases r.fields@.len() - i,
    {
        let f = &r.fields[i];
        if str_equal(f.name.as_str(), "reference_mesg") {
            match &f.value {
                FieldValue::Text(t) => {
                    if str_equal(t.as_str(), "session") {
                        assert(is_session_reference(r.fields@[i as int]));
                        return true;
                    }
                },
                _ => {},
            }
        }
        i = i + 1;
    }
    false
}

/// The numeric elements of the array field named `name` in a record.
fn array_field(r: &TelemetryRecord, name: &str) -> (v: Vec<i64>)
    ensures
        v@ == array_named(*r, name@),
{
    match find_field(&r.fields, name) {
        Some(j) => extract_vector(&r.fields[j].value),
        None => Vec::new(),
    }
}

/// Returns the time spent in each heart-rate zone (seconds) and the zones'
/// upper limits (bpm), from the last TimeInZone record that refers to the
/// session; both are `None` when there is no such record.
pub fn get_time_in_zone_field(data: &Vec<TelemetryRecord>) -> (r: (Option<Vec<i64>>, Option<Vec<i64>>))
    ensures
        match session_zones(data@) {
            Some((times, limits)) => r.0 matches Some(t) && r.1 matches Some(l) && t@ == times
                && l@ == limits,
            None => r.0 is None && r.1 is None,
        },
{
    let mut result: (Option<Vec<i64>>, Option<Vec<i64>>) = (None, None);
    let mut i: usize = 0;
    while i < data.len()
        invariant
            i <= data@.len(),
            match zones_upto(data@, i as int) {
                Some((times, limits)) => result.0 matches Some(t) && result.1 matches Some(l)
                    && t@ == times && l@ == limits,
                None => result.0 is None && result.1 is None,
            },
        decreases data@.len() - i,
    {
        if data[i].kind == MessageKind::TimeInZone && has_session_reference(&data[i]) {
            let times = array_field(&data[i], "time_in_hr_zone");
            let limits = array_field(&data[i], "hr_zone_high_boundary");
            result = (Some(times), Some(limits));
        }
        i = i + 1;
    }
    result
}

} // verus!
