//! Immutable caches of everything the graphs and the map draw, rebuilt
//! whole whenever the unit system or a zoom factor changes.
use crate::range::{empty_range, is_range_of, set_plot_range, PlotRange, RangeError, MIN_ZOOM};
use crate::records::{get_sess_record_field, session_value, TelemetryRecord};
use crate::series::{get_xy, xy_of};
use crate::text::{
    fixed_chars, fixed_text, push_right_aligned, push_zero_padded, right_aligned, zero_padded,
};
use crate::timestamps::{get_timestamps, sample_stamps, Timestamp};
use crate::units::{Units, MAX_MAGNITUDE, UNIT};
use vstd::prelude::*;

verus! {

broadcast use vstd::string::to_string_from_display_ensures_for_str;

/// How the values of a y axis are written.
#[derive(Clone, Copy, Debug, PartialEq, Eq, Structural)]
pub enum YFormatter {
    /// Two decimals, right-aligned in seven characters.
    Numeric,
    /// Minutes and seconds, `mm:ss`, of a value in minutes.
    PaceMinSec,
}

/// A value in millionths with two decimals, right-aligned in seven characters.
pub open spec fn numeric_text(v: int) -> Seq<char> {
    right_aligned(fixed_text(v, 2), 7)
}

/// A pace in millionths of a minute as `mm:ss`: whole minutes (toward zero)
/// and the rest in seconds, rounded half away from zero.
pub open spec fn pace_text(v: int) -> Seq<char> {
    let a = if v < 0 { -v } else { v };
    let m = a / (UNIT as int);
    let s = (a % (UNIT as int) * 60 + UNIT / 2) / (UNIT as int);
    if v < 0 {
        zero_padded(-m, 2) + seq![':'] + zero_padded(-s, 2)
    } else {
        zero_padded(m, 2) + seq![':'] + zero_padded(s, 2)
    }
}

/// The text of a y value under a formatter.
pub open spec fn formatted(f: YFormatter, v: int) -> Seq<char> {
    match f {
        YFormatter::Numeric => numeric_text(v),
        YFormatter::PaceMinSec => pace_text(v),
    }
}

/// Relies on std's `String: FromIterator<char>`: the string holds the
/// characters in order.
#[verifier::external_body]
pub(crate) fn string_of(chars: &Vec<char>) -> (r: String)
    ensures
        r@ == chars@,
{
    String::from_iter(chars.iter())
}

impl YFormatter {
    /// Writes a y value (in millionths) for an axis label.
    pub fn format(&self, v: i64) -> (r: String)
        ensures
            r@ == formatted(*self, v as int),
    {
        let mut out: Vec<char> = Vec::new();
        match self {
            YFormatter::Numeric => {
                let t = fixed_chars(v as i128, false);
                push_right_aligned(&mut out, &t, 7);
            },
            YFormatter::PaceMinSec => {
                let a: u128 = if v < 0 { (-(v as i128)) as u128 } else { v as u128 };
                let m: u128 = a / (UNIT as u128);
                let s: u128 = (a % (UNIT as u128) * 60 + (UNIT as u128) / 2) / (UNIT as u128);
                if v < 0 {
                    push_zero_padded(&mut out, -(m as i128), 2);
                    out.push(':');
                    push_zero_padded(&mut out, -(s as i128), 2);
                } else {
                    push_zero_padded(&mut out, m as i128, 2);
                    out.push(':');
                    push_zero_padded(&mut out, s as i128, 2);
                }
            },
        }
        string_of(&out)
    }
}

/// Everything needed to draw one graph.
#[derive(Debug)]
pub struct GraphAttributes {
    pub plotvals: Vec<(i64, i64)>,
    pub caption: String,
    pub xlabel: String,
    pub ylabel: String,
    pub plot_range: PlotRange,
    pub y_formatter: YFormatter,
}

/// The graphs of pace, heart rate, cadence, elevation and temperature
/// against distance, and the timestamp of every sample.
#[derive(Debug)]
pub struct GraphCache {
    pub distance_pace: GraphAttributes,
    pub distance_heart_rate: GraphAttributes,
    pub distance_cadence: GraphAttributes,
    pub distance_elevation: GraphAttributes,
    pub distance_temperature: GraphAttributes,
    pub time_stamps: Vec<Timestamp>,
}

/// The path of the run: raw (latitude, longitude) pairs in semicircles.
#[derive(Debug)]
pub struct MapCache {
    pub run_path: Vec<(i64, i64)>,
}

/// Why a graph cache could not be built.
#[derive(Clone, Copy, Debug, PartialEq, Eq, Structural)]
pub enum CacheError {
    /// A zoom factor is below `MIN_ZOOM` while there is data to draw.
    InvalidZoom,
    /// A sample timestamp does not parse.
    Unparseable,
}

/// The label of the distance axis.
pub open spec fn distance_label(u: Units) -> Seq<char> {
    match u {
        Units::US => "Distance (miles)"@,
        Units::Metric => "Distance (km)"@,
        Units::Raw => ""@,
    }
}

/// The y field, caption, y label and formatter of each of the five graphs.
pub open spec fn graph_y_field(g: int) -> Seq<char> {
    if g == 0 {
        "enhanced_speed"@
    } else if g == 1 {
        "heart_rate"@
    } else if g == 2 {
        "cadence"@
    } else if g == 3 {
        "enhanced_altitude"@
    } else {
        "temperature"@
    }
}

/// The y-axis label of each graph under a unit system; raw units show none.
pub open spec fn graph_ylabel(g: int, u: Units) -> Seq<char> {
    if u == Units::Raw {
        ""@
    } else if g == 0 {
        if u == Units::US { "Pace (min/mile)"@ } else { "Pace (min/km)"@ }
    } else if g == 1 {
        "Heart rate (bpm)"@
    } else if g == 2 {
        "Cadence"@
    } else if g == 3 {
        if u == Units::US { "Elevation (feet)"@ } else { "Elevation (m)"@ }
    } else {
        if u == Units::US { "Temperature (°F)"@ } else { "Temperature (°C)"@ }
    }
}

/// The caption of each graph.
pub open spec fn graph_caption(g: int) -> Seq<char> {
    if g == 0 {
        "Pace"@
    } else if g == 1 {
        "Heart rate"@
    } else if g == 2 {
        "Cadence"@
    } else if g == 3 {
        "Elevation"@
    } else {
        "Temperature"@
    }
}

/// `a` is graph `g` of the records under a unit system and zooms: its
/// samples against distance, their range, and its labels.
pub open spec fn is_graph_of(a: GraphAttributes, g: int, d: Seq<TelemetryRecord>, u: Units, zoom_x: int, zoom_y: int) -> bool {
    &&& a.plotvals@ == xy_of(d, u, "distance"@, graph_y_field(g))
    &&& a.plotvals@.len() == 0 ==> a.plot_range == empty_range()
    &&& a.plotvals@.len() > 0 ==> is_range_of(a.plot_range, a.plotvals@, zoom_x, zoom_y)
    &&& a.caption@ == graph_caption(g)
    &&& a.xlabel@ == distance_label(u)
    &&& a.ylabel@ == graph_ylabel(g, u)
    &&& a.y_formatter == if g == 0 { YFormatter::PaceMinSec } else { YFormatter::Numeric }
}

/// `c` is the graph cache of the records under a unit system and zooms.
pub open spec fn is_graph_cache_of(c: GraphCache, d: Seq<TelemetryRecord>, u: Units, zoom_x: int, zoom_y: int) -> bool {
    &&& is_graph_of(c.distance_pace, 0, d, u, zoom_x, zoom_y)
    &&& is_graph_of(c.distance_heart_rate, 1, d, u, zoom_x, zoom_y)
    &&& is_graph_of(c.distance_cadence, 2, d, u, zoom_x, zoom_y)
    &&& is_graph_of(c.distance_elevation, 3, d, u, zoom_x, zoom_y)
    &&& is_graph_of(c.distance_temperature, 4, d, u, zoom_x, zoom_y)
    &&& sample_stamps(d) == Some(c.time_stamps@)
}

/// Whether any of the five graphs has samples to draw.
pub open spec fn has_graph_data(d: Seq<TelemetryRecord>, u: Units) -> bool {
    exists|g: int| 0 <= g < 5 && #[trigger] xy_of(d, u, "distance"@, graph_y_field(g)).len() > 0
}

/// Whether the zoom factors are both at least `MIN_ZOOM`.
pub open spec fn zoom_valid(zoom_x: int, zoom_y: int) -> bool {
    zoom_x >= MIN_ZOOM && zoom_y >= MIN_ZOOM
}

/// The y field of graph `g`.
fn y_field(g: usize) -> (r: &'static str)
    requires
        g < 5,
    ensures
        r@ == graph_y_field(g as int),
{
    if g == 0 {
        "enhanced_speed"
    } else if g == 1 {
        "heart_rate"
    } else if g == 2 {
        "cadence"
    } else if g == 3 {
        "enhanced_altitude"
    } else {
        "temperature"
    }
}

/// The caption of graph `g`.
fn caption(g: usize) -> (r: &'static str)
    requires
        g < 5,
    ensures
        r@ == graph_caption(g as int),
{
    if g == 0 {
        "Pace"
    } else if g == 1 {
        "Heart rate"
    } else if g == 2 {
        "Cadence"
    } else if g == 3 {
        "Elevation"
    } else {
        "Temperature"
    }
}

/// The y-axis label of graph `g`.
fn ylabel(g: usize, units: &Units) -> (r: &'static str)
    requires
        g < 5,
    ensures
        r@ == graph_ylabel(g as int, *units),
{
    if *units == Units::Raw {
        ""
    } else if g == 0 {
        if *units == Units::US { "Pace (min/mile)" } else { "Pace (min/km)" }
    } else if g == 1 {
        "Heart rate (bpm)"
    } else if g == 2 {
        "Cadence"
    } else if g == 3 {
        if *units == Units::US { "Elevation (feet)" } else { "Elevation (m)" }
    } else {
        if *units == Units::US { "Temperature (°F)" } else { "Temperature (°C)" }
    }
}

/// The distance-axis label.
fn xlabel(units: &Units) -> (r: &'static str)
    ensures
        r@ == distance_label(*units),
{
    match units {
        Units::US => "Distance (miles)",
        Units::Metric => "Distance (km)",
        Units::Raw => "",
    }
}

/// Builds graph `g` against distance.
fn build_graph(d: &Vec<TelemetryRecord>, units: &Units, g: usize, zoom_x: i64, zoom_y: i64) -> (r: Result<GraphAttributes, CacheError>)
    requires
        g < 5,
    ensures
        match r {
            Ok(a) => is_graph_of(a, g as int, d@, *units, zoom_x as int, zoom_y as int),
            Err(e) => e == CacheError::InvalidZoom,
        },
        r is Err <==> xy_of(d@, *units, "distance"@, graph_y_field(g as int)).len() > 0
            && !zoom_valid(zoom_x as int, zoom_y as int),
{
    let xy = get_xy(d, units, "distance", y_field(g));
    let range = match set_plot_range(&xy, zoom_x, zoom_y) {
        Ok(p) => p,
        Err(RangeError::InvalidZoom) => {
            return Err(CacheError::InvalidZoom);
        },
    };
    Ok(
        GraphAttributes {
            plotvals: xy,
            caption: caption(g).to_string(),
            xlabel: xlabel(units).to_string(),
            ylabel: ylabel(g, units).to_string(),
            plot_range: range,
            y_formatter: if g == 0 {
                YFormatter::PaceMinSec
            } else {
                YFormatter::Numeric
            },
        },
    )
}

/// Calculates, once, the attributes of every graph and the sample
/// timestamps.
///
/// Fails with `InvalidZoom` when a zoom factor is below `MIN_ZOOM` and some
/// graph has samples, and otherwise with `Unparseable` when a sample
/// timestamp does not parse.
pub fn instantiate_graph_cache(d: &Vec<TelemetryRecord>, units: &Units, zoom_x: i64, zoom_y: i64) -> (r: Result<GraphCache, CacheError>)
    ensures
        has_graph_data(d@, *units) && !zoom_valid(zoom_x as int, zoom_y as int) ==> r
            == Err::<GraphCache, CacheError>(CacheError::InvalidZoom),
        !(has_graph_data(d@, *units) && !zoom_valid(zoom_x as int, zoom_y as int))
            && sample_stamps(d@) is None ==> r == Err::<GraphCache, CacheError>(
            CacheError::Unparseable,
        ),
        !(has_graph_data(d@, *units) && !zoom_valid(zoom_x as int, zoom_y as int))
            && sample_stamps(d@) is Some ==> (r matches Ok(c) && is_graph_cache_of(
            c,
            d@,
            *units,
            zoom_x as int,
            zoom_y as int,
        )),
{
    let distance_pace = match build_graph(d, units, 0, zoom_x, zoom_y) {
        Ok(a) => a,
        Err(e) => {
            return Err(e);
        },
    };
    let distance_heart_rate = match build_graph(d, units, 1, zoom_x, zoom_y) {
        Ok(a) => a,
        Err(e) => {
            return Err(e);
        },
    };
    let distance_cadence = match build_graph(d, units, 2, zoom_x, zoom_y) {
        Ok(a) => a,
        Err(e) => {
            return Err(e);
        },
    };
    let distance_elevation = match build_graph(d, units, 3, zoom_x, zoom_y) {
        Ok(a) => a,
        Err(e) => {
            return Err(e);
        },
    };
    let distance_temperature = match build_graph(d, units, 4, zoom_x, zoom_y) {
        Ok(a) => a,
        Err(e) => {
            return Err(e);
        },
    };
    proof {
        if has_graph_data(d@, *units) {
            let g = choose|g: int| 0 <= g < 5 && #[trigger] xy_of(d@, *units, "distance"@, graph_y_field(g)).len() > 0;
            assert(g == 0 || g == 1 || g == 2 || g == 3 || g == 4);
        }
    }
    let time_stamps = match get_timestamps(d) {
        Ok(t) => t,
        Err(_) => {
            return Err(CacheError::Unparseable);
        },
    };
    Ok(
        GraphCache {
            distance_pace,
            distance_heart_rate,
            distance_cadence,
            distance_elevation,
            distance_temperature,
            time_stamps,
        },
    )
}

/// The run path of the records: their (latitude, longitude) samples.
pub open spec fn run_path_of(d: Seq<TelemetryRecord>) -> Seq<(i64, i64)> {
    xy_of(d, Units::Raw, "position_lat"@, "position_long"@)
}

/// Captures, once, the positions of the run in semicircles. They do not
/// depend on the unit system, and are paired as any two series are.
pub fn instantiate_map_cache(d: &Vec<TelemetryRecord>) -> (r: MapCache)
    ensures
        r.run_path@ == run_path_of(d@),
{
    MapCache { run_path: get_xy(d, &Units::Raw, "position_lat", "position_long") }
}

/// Building the graph cache twice from the same records, unit system and
/// zooms gives the same samples, ranges, labels and timestamps: nothing but
/// those inputs decides them.
pub proof fn lemma_graph_cache_deterministic(
    c1: GraphCache,
    c2: GraphCache,
    d: Seq<TelemetryRecord>,
    u: Units,
    zoom_x: int,
    zoom_y: int,
)
    requires
        is_graph_cache_of(c1, d, u, zoom_x, zoom_y),
        is_graph_cache_of(c2, d, u, zoom_x, zoom_y),
    ensures
        c1.distance_pace.plotvals@ == c2.distance_pace.plotvals@,
        c1.distance_heart_rate.plotvals@ == c2.distance_heart_rate.plotvals@,
        c1.distance_cadence.plotvals@ == c2.distance_cadence.plotvals@,
        c1.distance_elevation.plotvals@ == c2.distance_elevation.plotvals@,
        c1.distance_temperature.plotvals@ == c2.distance_temperature.plotvals@,
        c1.distance_pace.plot_range == c2.distance_pace.plot_range,
        c1.distance_heart_rate.plot_range == c2.distance_heart_rate.plot_range,
        c1.distance_cadence.plot_range == c2.distance_cadence.plot_range,
        c1.distance_elevation.plot_range == c2.distance_elevation.plot_range,
        c1.distance_temperature.plot_range == c2.distance_temperature.plot_range,
        c1.distance_pace.ylabel@ == c2.distance_pace.ylabel@,
        c1.time_stamps@ == c2.time_stamps@,
{
}

/// Degrees, in millionths, of a position in millionths of a semicircle.
pub open spec fn fixed_degrees(v: int) -> int {
    v * 180 / 2_147_483_648
}

/// The midpoint of two positions, in millionths of a degree.
pub open spec fn midpoint(a: int, b: int) -> int {
    (fixed_degrees(a) + fixed_degrees(b)) / 2
}

/// Where the map is first centred: the middle of the session's bounding box
/// (`nec_lat`, `nec_long`, `swc_lat`, `swc_long`), when the session gives all
/// four corners.
pub open spec fn center_of(d: Seq<TelemetryRecord>) -> Option<(int, int)> {
    match (
        session_value(d, "nec_lat"@),
        session_value(d, "nec_long"@),
        session_value(d, "swc_lat"@),
        session_value(d, "swc_long"@),
    ) {
        (Some(a), Some(b), Some(c), Some(e)) => Some(
            (midpoint(a as int, c as int), midpoint(b as int, e as int)),
        ),
        _ => None,
    }
}

fn degrees_of_fixed(v: i64) -> (r: i64)
    requires
        -MAX_MAGNITUDE <= v <= MAX_MAGNITUDE,
    ensures
        r == fixed_degrees(v as int),
        -1_000_000_000 <= r <= 1_000_000_000,
{
    proof {
        vstd::arithmetic::div_mod::lemma_div_is_ordered(-MAX_MAGNITUDE * 180, v * 180, 2_147_483_648);
        vstd::arithmetic::div_mod::lemma_div_is_ordered(v * 180, MAX_MAGNITUDE * 180, 2_147_483_648);
    }
    crate::arith::div_floor((v as i128) * 180, 2_147_483_648) as i64
}

fn midpoint_of(a: i64, b: i64) -> (r: i64)
    requires
        -MAX_MAGNITUDE <= a <= MAX_MAGNITUDE,
        -MAX_MAGNITUDE <= b <= MAX_MAGNITUDE,
    ensures
        r == midpoint(a as int, b as int),
{
    let s = degrees_of_fixed(a) + degrees_of_fixed(b);
    crate::arith::div_small(s, 2)
}

/// Finds the centre of the session's bounding box, in millionths of a
/// degree; `None` when a corner is missing.
pub fn map_center(d: &Vec<TelemetryRecord>) -> (r: Option<(i64, i64)>)
    ensures
        match center_of(d@) {
            Some(c) => r matches Some(p) && p.0 == c.0 && p.1 == c.1,
            None => r is None,
        },
{
    let nec_lat = get_sess_record_field(d, "nec_lat");
    let nec_long = get_sess_record_field(d, "nec_long");
    let swc_lat = get_sess_record_field(d, "swc_lat");
    let swc_long = get_sess_record_field(d, "swc_long");
    match (nec_lat, nec_long, swc_lat, swc_long) {
        (Some(a), Some(b), Some(c), Some(e)) => {
            proof {
                lemma_session_value_bounded(d@, "nec_lat"@);
                lemma_session_value_bounded(d@, "nec_long"@);
                lemma_session_value_bounded(d@, "swc_lat"@);
                lemma_session_value_bounded(d@, "swc_long"@);
            }
            Some((midpoint_of(a, c), midpoint_of(b, e)))
        },
        _ => None,
    }
}

proof fn lemma_session_value_bounded(d: Seq<TelemetryRecord>, name: Seq<char>)
    ensures
        session_value(d, name) matches Some(v) ==> -MAX_MAGNITUDE <= v <= MAX_MAGNITUDE,
{
}

} // verus!
