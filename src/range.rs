//! Statistically stable plot ranges for a sample series.
use crate::arith::div_floor;
use crate::stats::{
    max_of, max_vec, mean_and_standard_deviation, mean_of, min_of, min_vec, std_dev_of,
};
use crate::units::UNIT;
use vstd::prelude::*;

verus! {

/// The smallest zoom factor accepted, in millionths: 0.01.
pub const MIN_ZOOM: i64 = 10_000;

/// Half-open intervals `[x_start, x_end)` and `[y_start, y_end)` that bound a
/// series for drawing, in millionths.
#[derive(Clone, Copy, Debug, PartialEq, Eq, Structural)]
pub struct PlotRange {
    pub x_start: i128,
    pub x_end: i128,
    pub y_start: i128,
    pub y_end: i128,
}

/// Why no plot range could be given.
#[derive(Clone, Copy, Debug, PartialEq, Eq, Structural)]
pub enum RangeError {
    /// A zoom factor is below `MIN_ZOOM`.
    InvalidZoom,
}

/// The x values of a sample series.
pub open spec fn xs_of(d: Seq<(i64, i64)>) -> Seq<i64> {
    Seq::new(d.len(), |i: int| d[i].0)
}

/// The y values of a sample series.
pub open spec fn ys_of(d: Seq<(i64, i64)>) -> Seq<i64> {
    Seq::new(d.len(), |i: int| d[i].1)
}

/// Half the height of the y range: two standard deviations over the zoom.
pub open spec fn half_height(ys: Seq<i64>, zoom_y: int) -> int {
    2 * std_dev_of(ys) * UNIT / zoom_y
}

/// The range of a non-empty series at valid zooms: x from the least x to the
/// greatest x over the x zoom; y two standard deviations over the y zoom
/// either side of the mean.
pub open spec fn is_range_of(p: PlotRange, d: Seq<(i64, i64)>, zoom_x: int, zoom_y: int) -> bool {
    &&& p.x_start == min_of(xs_of(d))
    &&& p.x_end == max_of(xs_of(d)) * UNIT / zoom_x
    &&& p.y_start == mean_of(ys_of(d)) - half_height(ys_of(d), zoom_y)
    &&& p.y_end == mean_of(ys_of(d)) + half_height(ys_of(d), zoom_y)
}

/// The degenerate range of an empty series.
pub open spec fn empty_range() -> PlotRange {
    PlotRange { x_start: 0, x_end: 0, y_start: 0, y_end: 0 }
}

/// Splits a sample series into its x and y values.
fn unzip(data: &Vec<(i64, i64)>) -> (r: (Vec<i64>, Vec<i64>))
    ensures
        r.0@ == xs_of(data@),
        r.1@ == ys_of(data@),
{
    let mut xs: Vec<i64> = Vec::new();
    let mut ys: Vec<i64> = Vec::new();
    let mut i: usize = 0;
    while i < data.len()
        invariant
            i <= data@.len(),
            xs@ =~= xs_of(data@).take(i as int),
            ys@ =~= ys_of(data@).take(i as int),
        decreases data@.len() - i,
    {
        xs.push(data[i].0);
        ys.push(data[i].1);
        i = i + 1;
    }
    assert(xs@ =~= xs_of(data@));
    assert(ys@ =~= ys_of(data@));
    (xs, ys)
}

/// Finds the plot range of a sample series.
///
/// An empty series gives the degenerate range `(0..0, 0..0)`. Otherwise a
/// zoom factor below `MIN_ZOOM` is rejected. The y range is a ±2σ envelope
/// about the mean rather than the extremes, so that a single bad sample does
/// not blow out the axis.
pub fn set_plot_range(data: &Vec<(i64, i64)>, zoom_x: i64, zoom_y: i64) -> (r: Result<PlotRange, RangeError>)
    ensures
        data@.len() == 0 ==> r == Ok::<PlotRange, RangeError>(empty_range()),
        data@.len() > 0 && (zoom_x < MIN_ZOOM || zoom_y < MIN_ZOOM) ==> r == Err::<PlotRange, RangeError>(RangeError::InvalidZoom),
        data@.len() > 0 && zoom_x >= MIN_ZOOM && zoom_y >= MIN_ZOOM ==> (r matches Ok(p)
            && is_range_of(p, data@, zoom_x as int, zoom_y as int)),
{
    if data.len() == 0 {
        return Ok(PlotRange { x_start: 0, x_end: 0, y_start: 0, y_end: 0 });
    }
    if zoom_x < MIN_ZOOM || zoom_y < MIN_ZOOM {
        return Err(RangeError::InvalidZoom);
    }
    let (xs, ys) = unzip(data);
    let lo = match min_vec(&xs) {
        Some(m) => m,
        None => 0,
    };
    let hi = match max_vec(&xs) {
        Some(m) => m,
        None => 0,
    };
    let (mean, sd) = mean_and_standard_deviation(&ys);
    let m: i64 = match mean {
        Some(m) => m,
        None => 0,
    };
    let s: u64 = match sd {
        Some(s) => s,
        None => 0,
    };
    assert((hi as int) * 1_000_000 <= 0x7fff_ffff_ffff_ffff * 1_000_000) by (nonlinear_arith)
        requires hi <= 0x7fff_ffff_ffff_ffff;
    assert((hi as int) * 1_000_000 >= -0x8000_0000_0000_0000 * 1_000_000) by (nonlinear_arith)
        requires hi >= -0x8000_0000_0000_0000;
    let x_end = div_floor((hi as i128) * (UNIT as i128), zoom_x as i128);
    assert(2 * (s as int) * 1_000_000 <= 2 * 0xffff_ffff_ffff_ffff * 1_000_000) by (nonlinear_arith)
        requires s <= 0xffff_ffff_ffff_ffff;
    let w = div_floor(2 * (s as i128) * (UNIT as i128), zoom_y as i128);
    proof {
        crate::arith::lemma_div_between(2 * (s as int) * 1_000_000, zoom_y as int);
    }
    Ok(PlotRange { x_start: lo as i128, x_end, y_start: m as i128 - w, y_end: m as i128 + w })
}

} // verus!
