use siliconsneaker2::range::{set_plot_range, PlotRange, RangeError};
use siliconsneaker2::stats::{isqrt, max_vec, mean_and_standard_deviation, min_vec};
use siliconsneaker2::units::UNIT;

fn three_points() -> Vec<(i64, i64)> {
    vec![(UNIT, 10 * UNIT), (2 * UNIT, 20 * UNIT), (3 * UNIT, 30 * UNIT)]
}

#[test]
fn zero_zoom_is_rejected() {
    assert_eq!(set_plot_range(&three_points(), 0, UNIT), Err(RangeError::InvalidZoom));
    assert_eq!(set_plot_range(&three_points(), UNIT, 0), Err(RangeError::InvalidZoom));
    assert_eq!(set_plot_range(&three_points(), 9_999, UNIT), Err(RangeError::InvalidZoom));
}

#[test]
fn empty_series_gives_degenerate_range() {
    let zero = PlotRange { x_start: 0, x_end: 0, y_start: 0, y_end: 0 };
    assert_eq!(set_plot_range(&Vec::new(), UNIT, UNIT), Ok(zero));
    assert_eq!(set_plot_range(&Vec::new(), 0, 0), Ok(zero));
}

#[test]
fn three_points_range() {
    let r = set_plot_range(&three_points(), UNIT, UNIT).unwrap();
    assert_eq!(r.x_start, UNIT as i128);
    assert_eq!(r.x_end, 3 * UNIT as i128);
    assert_eq!((r.y_start + r.y_end) / 2, 20 * UNIT as i128);
    // sigma = sqrt(200/3) = 8.164965
    assert_eq!(r.y_start, 20_000_000 - 16_329_930);
    assert_eq!(r.y_end, 20_000_000 + 16_329_930);
}

#[test]
fn zoom_narrows_the_range() {
    let r = set_plot_range(&three_points(), 2 * UNIT, 2 * UNIT).unwrap();
    assert_eq!(r.x_end, 1_500_000);
    assert_eq!(r.y_start, 20_000_000 - 8_164_965);
}

#[test]
fn mean_and_deviation() {
    assert_eq!(mean_and_standard_deviation(&vec![]), (None, None));
    assert_eq!(mean_and_standard_deviation(&vec![2, 4, 4, 4, 5, 5, 7, 9]), (Some(5), Some(2)));
    assert_eq!(mean_and_standard_deviation(&vec![-3, -4]), (Some(-4), Some(0)));
    assert_eq!(mean_and_standard_deviation(&vec![i64::MAX, i64::MIN]), (Some(-1), Some(9_223_372_036_854_775_807)));
}

#[test]
fn extremes_and_roots() {
    assert_eq!(min_vec(&vec![3, -1, 7]), Some(-1));
    assert_eq!(max_vec(&vec![3, -1, 7]), Some(7));
    assert_eq!(min_vec(&vec![]), None);
    assert_eq!(isqrt(0), 0);
    assert_eq!(isqrt(99), 9);
    assert_eq!(isqrt(100), 10);
    assert_eq!(isqrt(u128::MAX), u64::MAX);
}
