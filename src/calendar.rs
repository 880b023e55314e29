//! Date predicates that pick a seasonal symbol for the runner's marker.
use crate::arith::{div_small, mod_small};
use chrono::Datelike;
use vstd::prelude::*;

verus! {

/// The weekday of a calendar date, numbered from Monday as 0 to Sunday as 6.
pub uninterp spec fn weekday_of(year: i32, month: u32, day: u32) -> u32;

/// Relies on chrono's `NaiveDate::from_ymd_opt`, which gives no date for a
/// day that does not exist and builds any November 1st of the years
/// -262143 to 262142 (its `MIN_YEAR` and `MAX_YEAR`), and on
/// `Weekday::num_days_from_monday`, which numbers Monday 0 through Sunday 6.
#[verifier::external_body]
fn weekday_number(year: i32, month: u32, day: u32) -> (r: Option<u32>)
    ensures
        r matches Some(w) ==> w < 7 && w == weekday_of(year, month, day),
        month == 11 && day == 1 && -262_143 <= year <= 262_142 ==> r is Some,
{
    match chrono::NaiveDate::from_ymd_opt(year, month, day) {
        Some(date) => Some(date.weekday().num_days_from_monday()),
        None => None,
    }
}

/// The day in November of the fourth Thursday, given the weekday (Monday 0)
/// of November 1st.
pub open spec fn fourth_thursday(first_weekday: int) -> int {
    1 + (3 + 7 - first_weekday) % 7 + 21
}

/// Whether `day` of November is the fourth Thursday, given the weekday
/// (Monday 0) of November 1st.
pub fn is_fourth_thursday(first_weekday: u32, day: u32) -> (r: bool)
    requires
        first_weekday < 7,
    ensures
        r == (day == fourth_thursday(first_weekday as int)),
{
    let days_until_first_thursday: u32 = (3 + 7 - first_weekday) % 7;
    let thanksgiving_day: u32 = 1 + days_until_first_thursday + 21;
    day == thanksgiving_day
}

/// Determines whether a date is American Thanksgiving, the fourth Thursday
/// of November. The weekday of November 1st comes from the calendar; a year
/// that the calendar cannot represent gives `false`.
pub fn is_american_thanksgiving(year: i32, month: u32, day: u32) -> (r: bool)
    ensures
        -262_143 <= year <= 262_142 ==> (r <==> month == 11 && 22 <= day <= 28 && day
            == fourth_thursday(weekday_of(year, 11, 1) as int)),
        r ==> month == 11 && 22 <= day <= 28 && weekday_of(year, 11, 1) < 7 && day
            == fourth_thursday(weekday_of(year, 11, 1) as int),
        !(month == 11 && 22 <= day <= 28) ==> !r,
{
    if month != 11 {
        return false;
    }
    if day < 22 || day > 28 {
        return false;
    }
    match weekday_number(year, 11, 1) {
        Some(w) => is_fourth_thursday(w, day),
        None => false,
    }
}

/// The month and day of Easter Sunday in a year, by the anonymous Gregorian
/// computus (Meeus/Jones/Butcher); all divisions round down.
pub open spec fn easter_date(y: int) -> (int, int) {
    let a = y % 19;
    let b = y / 100;
    let c = y % 100;
    let d = b / 4;
    let e = b % 4;
    let f = (b + 8) / 25;
    let g = (b - f + 1) / 3;
    let h = (19 * a + b - d - g + 15) % 30;
    let i = c / 4;
    let k = c % 4;
    let l = (32 + 2 * e + 2 * i - h - k) % 7;
    let m = (a + 11 * h + 22 * l) / 451;
    ((h + l - 7 * m + 114) / 31, (h + l - 7 * m + 114) % 31 + 1)
}

/// Whether a date is Easter Sunday.
pub open spec fn easter_on(year: i32, month: u32, day: u32) -> bool {
    easter_date(year as int) == (month as int, day as int)
}

/// Calculates whether a date falls on Easter Sunday.
pub fn is_easter(year: i32, month: u32, day: u32) -> (r: bool)
    ensures
        r == easter_on(year, month, day),
{
    let y = year as i64;
    let a = mod_small(y, 19);
    let b = div_small(y, 100);
    let c = mod_small(y, 100);
    let d = div_small(b, 4);
    let e = mod_small(b, 4);
    let f = div_small(b + 8, 25);
    let g = div_small(b - f + 1, 3);
    let h = mod_small(19 * a + b - d - g + 15, 30);
    let i = div_small(c, 4);
    let k = mod_small(c, 4);
    let l = mod_small(32 + 2 * e + 2 * i - h - k, 7);
    let m = div_small(a + 11 * h + 22 * l, 451);
    let easter_mon = div_small(h + l - 7 * m + 114, 31);
    let easter_day = mod_small(h + l - 7 * m + 114, 31) + 1;
    day as i64 == easter_day && month as i64 == easter_mon
}

/// The symbol shown for the runner on the map, chosen by the run's date.
#[derive(Clone, Copy, Debug, PartialEq, Eq, Structural)]
pub enum DaySymbol {
    Runner,
    Champagne,
    Clover,
    Fireworks,
    Pumpkin,
    Santa,
    Gift,
    Turkey,
    Bunny,
}

/// The symbol for a date, given whether it is Thanksgiving and whether it is
/// Easter: Easter first, then Thanksgiving, then the fixed-date holidays.
pub open spec fn symbol_spec(month: u32, day: u32, thanksgiving: bool, easter: bool) -> DaySymbol {
    if easter {
        DaySymbol::Bunny
    } else if thanksgiving {
        DaySymbol::Turkey
    } else if month == 12 && day == 31 {
        DaySymbol::Champagne
    } else if month == 12 && day == 25 {
        DaySymbol::Gift
    } else if month == 12 && day == 24 {
        DaySymbol::Santa
    } else if month == 10 && day == 31 {
        DaySymbol::Pumpkin
    } else if month == 7 && day == 4 {
        DaySymbol::Fireworks
    } else if month == 3 && day == 17 {
        DaySymbol::Clover
    } else if month == 1 && day == 1 {
        DaySymbol::Champagne
    } else {
        DaySymbol::Runner
    }
}

/// Chooses the symbol for a date whose Thanksgiving and Easter status is known.
pub fn symbol_for(month: u32, day: u32, thanksgiving: bool, easter: bool) -> (r: DaySymbol)
    ensures
        r == symbol_spec(month, day, thanksgiving, easter),
{
    if easter {
        DaySymbol::Bunny
    } else if thanksgiving {
        DaySymbol::Turkey
    } else if month == 12 && day == 31 {
        DaySymbol::Champagne
    } else if month == 12 && day == 25 {
        DaySymbol::Gift
    } else if month == 12 && day == 24 {
        DaySymbol::Santa
    } else if month == 10 && day == 31 {
        DaySymbol::Pumpkin
    } else if month == 7 && day == 4 {
        DaySymbol::Fireworks
    } else if month == 3 && day == 17 {
        DaySymbol::Clover
    } else if month == 1 && day == 1 {
        DaySymbol::Champagne
    } else {
        DaySymbol::Runner
    }
}

/// Whether a date is Thanksgiving, for a year the calendar represents.
pub open spec fn thanksgiving_on(year: i32, month: u32, day: u32) -> bool {
    month == 11 && 22 <= day <= 28 && day == fourth_thursday(weekday_of(year, 11, 1) as int)
}

/// Chooses the symbol for the date of a run.
pub fn day_symbol(year: i32, month: u32, day: u32) -> (r: DaySymbol)
    ensures
        -262_143 <= year <= 262_142 ==> r == symbol_spec(
            month,
            day,
            thanksgiving_on(year, month, day),
            easter_on(year, month, day),
        ),
        r == symbol_spec(month, day, false, easter_on(year, month, day)) || (month == 11 && 22
            <= day <= 28 && day == fourth_thursday(weekday_of(year, 11, 1) as int) && r
            == symbol_spec(month, day, true, easter_on(year, month, day))),
{
    let thanksgiving = is_american_thanksgiving(year, month, day);
    let easter = is_easter(year, month, day);
    symbol_for(month, day, thanksgiving, easter)
}

impl DaySymbol {
    /// The symbol as Pango markup at twice the normal size.
    pub fn markup(&self) -> (r: &'static str)
        ensures
            *self == DaySymbol::Runner ==> r@ == "<span size=\"200%\">🏃</span>"@,
            *self == DaySymbol::Champagne ==> r@ == "<span size=\"200%\">🍾</span>"@,
            *self == DaySymbol::Clover ==> r@ == "<span size=\"200%\">🍀</span>"@,
            *self == DaySymbol::Fireworks ==> r@ == "<span size=\"200%\">🎆</span>"@,
            *self == DaySymbol::Pumpkin ==> r@ == "<span size=\"200%\">🎃</span>"@,
            *self == DaySymbol::Santa ==> r@ == "<span size=\"200%\">🎅</span>"@,
            *self == DaySymbol::Gift ==> r@ == "<span size=\"200%\">🎁</span>"@,
            *self == DaySymbol::Turkey ==> r@ == "<span size=\"200%\">🦃</span>"@,
            *self == DaySymbol::Bunny ==> r@ == "<span size=\"200%\">🐰</span>"@,
    {
        match self {
            DaySymbol::Runner => "<span size=\"200%\">🏃</span>",
            DaySymbol::Champagne => "<span size=\"200%\">🍾</span>",
            DaySymbol::Clover => "<span size=\"200%\">🍀</span>",
            DaySymbol::Fireworks => "<span size=\"200%\">🎆</span>",
            DaySymbol::Pumpkin => "<span size=\"200%\">🎃</span>",
            DaySymbol::Santa => "<span size=\"200%\">🎅</span>",
            DaySymbol::Gift => "<span size=\"200%\">🎁</span>",
            DaySymbol::Turkey => "<span size=\"200%\">🦃</span>",
            DaySymbol::Bunny => "<span size=\"200%\">🐰</span>",
        }
    }
}

} // verus!
