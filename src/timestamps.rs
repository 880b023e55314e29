//! Timestamps of records, parsed from the text the parser shows for them.
use crate::arith::str_equal;
use crate::cache::string_of;
use crate::text::{push_chars, push_zero_padded, signed_chars, signed_text, zero_padded};
use crate::records::{Field, FieldValue, MessageKind, TelemetryRecord};
use chrono::{Datelike, Timelike};
use vstd::prelude::*;

verus! {

/// A calendar date and time of day, to the second.
#[derive(Clone, Copy, Debug, PartialEq, Eq, Structural)]
pub struct Timestamp {
    pub year: i32,
    pub month: u32,
    pub day: u32,
    pub hour: u32,
    pub minute: u32,
    pub second: u32,
}

/// Why the timestamps of a file could not be read.
#[derive(Clone, Copy, Debug, PartialEq, Eq, Structural)]
pub enum TimestampError {
    /// A timestamp field does not hold text in the form
    /// `YYYY-MM-DD HH:MM:SS ±hh:mm`.
    Unparseable,
}

/// Year, month, day, hour, minute and second of a text in the form
/// `%Y-%m-%d %H:%M:%S %z`; `None` when the text does not parse.
pub uninterp spec fn parsed_timestamp(text: Seq<char>) -> Option<(i32, u32, u32, u32, u32, u32)>;

/// Relies on chrono's `NaiveDateTime::parse_from_str` with the format
/// `%Y-%m-%d %H:%M:%S %z`, and on the `Datelike` and `Timelike` getters of
/// the parsed value.
#[verifier::external_body]
fn parse_timestamp(text: &str) -> (r: Option<(i32, u32, u32, u32, u32, u32)>)
    ensures
        r == parsed_timestamp(text@),
{
    match chrono::NaiveDateTime::parse_from_str(text, "%Y-%m-%d %H:%M:%S %z") {
        Ok(t) => Some((t.year(), t.month(), t.day(), t.hour(), t.minute(), t.second())),
        Err(_) => None,
    }
}

/// The timestamp that a field value gives, if it is text that parses.
pub open spec fn stamp_of(v: FieldValue) -> Option<Timestamp> {
    match v {
        FieldValue::Text(t) => match parsed_timestamp(t@) {
            Some(p) => Some(
                Timestamp {
                    year: p.0,
                    month: p.1,
                    day: p.2,
                    hour: p.3,
                    minute: p.4,
                    second: p.5,
                },
            ),
            None => None,
        },
        _ => None,
    }
}

/// The timestamps of the fields named `name` among the first `n` fields;
/// `None` when one of them does not parse.
pub open spec fn field_stamps(fs: Seq<Field>, name: Seq<char>, n: int) -> Option<Seq<Timestamp>>
    decreases n,
{
    if n <= 0 {
        Some(Seq::empty())
    } else {
        match field_stamps(fs, name, n - 1) {
            None => None,
            Some(before) => if fs[n - 1].name@ == name {
                match stamp_of(fs[n - 1].value) {
                    Some(t) => Some(before.push(t)),
                    None => None,
                }
            } else {
                Some(before)
            },
        }
    }
}

/// The timestamps of the fields named `name` in the records of one kind
/// among the first `n` records, in order; `None` when one does not parse.
pub open spec fn kind_stamps(rs: Seq<TelemetryRecord>, kind: MessageKind, name: Seq<char>, n: int) -> Option<Seq<Timestamp>>
    decreases n,
{
    if n <= 0 {
        Some(Seq::empty())
    } else {
        match kind_stamps(rs, kind, name, n - 1) {
            None => None,
            Some(before) => if rs[n - 1].kind == kind {
                match field_stamps(rs[n - 1].fields@, name, rs[n - 1].fields@.len() as int) {
                    Some(more) => Some(before + more),
                    None => None,
                }
            } else {
                Some(before)
            },
        }
    }
}

/// The per-sample timestamps of a file.
pub open spec fn sample_stamps(rs: Seq<TelemetryRecord>) -> Option<Seq<Timestamp>> {
    kind_stamps(rs, MessageKind::Record, "timestamp"@, rs.len() as int)
}

/// The session start times of a file.
pub open spec fn start_stamps(rs: Seq<TelemetryRecord>) -> Option<Seq<Timestamp>> {
    kind_stamps(rs, MessageKind::Session, "start_time"@, rs.len() as int)
}

/// Parses a field value as a timestamp.
fn value_stamp(v: &FieldValue) -> (r: Option<Timestamp>)
    ensures
        r == stamp_of(*v),
{
    match v {
        FieldValue::Text(t) => match parse_timestamp(t.as_str()) {
            Some(p) => Some(
                Timestamp { year: p.0, month: p.1, day: p.2, hour: p.3, minute: p.4, second: p.5 },
            ),
            None => None,
        },
        _ => None,
    }
}

proof fn lemma_field_stamps_fail(fs: Seq<Field>, name: Seq<char>, m: int, k: int)
    requires
        m <= k,
        field_stamps(fs, name, m) is None,
    ensures
        field_stamps(fs, name, k) is None,
    decreases k - m,
{
    if m < k {
        lemma_field_stamps_fail(fs, name, m, k - 1);
    }
}

proof fn lemma_kind_stamps_fail(rs: Seq<TelemetryRecord>, kind: MessageKind, name: Seq<char>, m: int, k: int)
    requires
        m <= k,
        kind_stamps(rs, kind, name, m) is None,
    ensures
        kind_stamps(rs, kind, name, k) is None,
    decreases k - m,
{
    if m < k {
        lemma_kind_stamps_fail(rs, kind, name, m, k - 1);
    }
}

/// Appends the timestamps of the fields named `name`, or fails on the first
/// that does not parse.
fn push_field_stamps(fields: &Vec<Field>, name: &str, out: &mut Vec<Timestamp>) -> (ok: bool)
    ensures
        ok ==> (field_stamps(fields@, name@, fields@.len() as int) matches Some(s) && final(out)@
            == old(out)@ + s),
        !ok ==> field_stamps(fields@, name@, fields@.len() as int) is None,
{
    let ghost start = out@;
    let mut i: usize = 0;
    while i < fields.len()
        invariant
            i <= fields@.len(),
            field_stamps(fields@, name@, i as int) matches Some(s) && out@ == start + s,
        decreases fields@.len() - i,
    {
        if str_equal(fields[i].name.as_str(), name) {
            match value_stamp(&fields[i].value) {
                Some(t) => {
                    out.push(t);
                    proof {
                        let s = field_stamps(fields@, name@, i as int)->0;
                        assert(out@ =~= start + s.push(t));
                    }
                },
                None => {
                    proof {
                        lemma_field_stamps_fail(fields@, name@, i + 1, fields@.len() as int);
                    }
                    return false;
                },
            }
        }
        i = i + 1;
    }
    true
}

/// The timestamps of the fields named `name` in the records of one kind.
fn collect_stamps(data: &Vec<TelemetryRecord>, kind: MessageKind, name: &str) -> (r: Result<Vec<Timestamp>, TimestampError>)
    ensures
        match kind_stamps(data@, kind, name@, data@.len() as int) {
            Some(s) => r matches Ok(v) && v@ == s,
            None => r == Err::<Vec<Timestamp>, TimestampError>(TimestampError::Unparseable),
        },
{
    let mut out: Vec<Timestamp> = Vec::new();
    let mut i: usize = 0;
    while i < data.len()
        invariant
            i <= data@.len(),
            kind_stamps(data@, kind, name@, i as int) matches Some(s) && out@ == s,
        decreases data@.len() - i,
    {
        if data[i].kind == kind {
            let ghost before = out@;
            let ok = push_field_stamps(&data[i].fields, name, &mut out);
            if !ok {
                proof {
                    lemma_kind_stamps_fail(data@, kind, name@, i + 1, data@.len() as int);
                }
                return Err(TimestampError::Unparseable);
            }
        }
        i = i + 1;
    }
    Ok(out)
}

/// Returns the timestamp of every Record-kind (per-sample) message, in order.
/// A timestamp that does not parse fails the whole extraction: a wrong date
/// is never put in its place.
pub fn get_timestamps(data: &Vec<TelemetryRecord>) -> (r: Result<Vec<Timestamp>, TimestampError>)
    ensures
        match sample_stamps(data@) {
            Some(s) => r matches Ok(v) && v@ == s,
            None => r == Err::<Vec<Timestamp>, TimestampError>(TimestampError::Unparseable),
        },
{
    collect_stamps(data, MessageKind::Record, "timestamp")
}

/// The (year, month, day) of the last session start time; (0, 0, 0) when no
/// session gives one.
pub open spec fn start_date_of(s: Seq<Timestamp>) -> (i32, u32, u32) {
    if s.len() == 0 {
        (0, 0, 0)
    } else {
        (s.last().year, s.last().month, s.last().day)
    }
}

/// Returns the date a run started on: that of the last session start time,
/// or (0, 0, 0) when there is none. A start time that does not parse fails.
pub fn get_run_start_date(data: &Vec<TelemetryRecord>) -> (r: Result<(i32, u32, u32), TimestampError>)
    ensures
        match start_stamps(data@) {
            Some(s) => r == Ok::<(i32, u32, u32), TimestampError>(start_date_of(s)),
            None => r == Err::<(i32, u32, u32), TimestampError>(TimestampError::Unparseable),
        },
{
    match collect_stamps(data, MessageKind::Session, "start_time") {
        Ok(v) => {
            if v.len() == 0 {
                Ok((0, 0, 0))
            } else {
                let t = v[v.len() - 1];
                Ok((t.year, t.month, t.day))
            }
        },
        Err(e) => Err(e),
    }
}

/// The text of a timestamp, `YYYY-MM-DD HH:MM:SS`; a year outside 0 to 9999
/// carries its sign.
pub open spec fn stamp_text(t: Timestamp) -> Seq<char> {
    let year = if 0 <= t.year <= 9999 {
        zero_padded(t.year as int, 4)
    } else if t.year > 9999 {
        seq!['+'] + signed_text(t.year as int)
    } else {
        signed_text(t.year as int)
    };
    year + seq!['-'] + zero_padded(t.month as int, 2) + seq!['-'] + zero_padded(t.day as int, 2)
        + seq![' '] + zero_padded(t.hour as int, 2) + seq![':'] + zero_padded(t.minute as int, 2)
        + seq![':'] + zero_padded(t.second as int, 2)
}

impl Timestamp {
    /// Writes the timestamp as `YYYY-MM-DD HH:MM:SS`.
    pub fn to_text(&self) -> (r: String)
        ensures
            r@ == stamp_text(*self),
    {
        let mut out: Vec<char> = Vec::new();
        if 0 <= self.year && self.year <= 9999 {
            push_zero_padded(&mut out, self.year as i128, 4);
        } else {
            if self.year > 9999 {
                out.push('+');
            }
            let y = signed_chars(self.year as i128);
            push_chars(&mut out, &y);
        }
        out.push('-');
        push_zero_padded(&mut out, self.month as i128, 2);
        out.push('-');
        push_zero_padded(&mut out, self.day as i128, 2);
        out.push(' ');
        push_zero_padded(&mut out, self.hour as i128, 2);
        out.push(':');
        push_zero_padded(&mut out, self.minute as i128, 2);
        out.push(':');
        push_zero_padded(&mut out, self.second as i128, 2);
        proof {
            let year = if 0 <= self.year <= 9999 {
                zero_padded(self.year as int, 4)
            } else if self.year > 9999 {
                seq!['+'] + signed_text(self.year as int)
            } else {
                signed_text(self.year as int)
            };
            assert(out@ =~= stamp_text(*self));
        }
        string_of(&out)
    }
}

} // verus!
