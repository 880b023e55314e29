use siliconsneaker2::units::{
    cvt_altitude, cvt_distance, cvt_elapsed_time, cvt_pace, cvt_temperature, semi_to_degrees,
    units_from_label, Units, UNIT,
};

#[test]
fn temperature_of_zero_celsius() {
    assert_eq!(cvt_temperature(0, &Units::Metric), 0);
    assert_eq!(cvt_temperature(0, &Units::US), 32 * UNIT);
    assert_eq!(cvt_temperature(0, &Units::Raw), 0);
    assert_eq!(cvt_temperature(100 * UNIT, &Units::US), 212 * UNIT);
    assert_eq!(cvt_temperature(-40 * UNIT, &Units::US), -40 * UNIT);
}

#[test]
fn distance_of_a_kilometre_and_a_mile() {
    assert_eq!(cvt_distance(1000 * UNIT, &Units::Metric), UNIT);
    let mile = cvt_distance(1_609_340_000, &Units::US);
    assert!((mile - UNIT).abs() <= 1000);
    assert_eq!(mile, 999_997);
    assert_eq!(cvt_distance(1234, &Units::Raw), 1234);
}

#[test]
fn pace_falls_as_speed_rises() {
    assert_eq!(cvt_pace(2 * UNIT, &Units::US), 13_411_200);
    assert_eq!(cvt_pace(UNIT, &Units::Metric), 16_666_667);
    let mut last = cvt_pace(UNIT, &Units::US);
    for speed in [UNIT + 1, 2 * UNIT, 3 * UNIT, 5 * UNIT, 10 * UNIT] {
        let p = cvt_pace(speed, &Units::US);
        assert!(p <= last);
        last = p;
    }
}

#[test]
fn pace_is_clamped_below_one_metre_per_second() {
    assert_eq!(cvt_pace(0, &Units::US), 26_822_400);
    assert_eq!(cvt_pace(500_000, &Units::Metric), 16_666_667);
    assert_eq!(cvt_pace(-3 * UNIT, &Units::Metric), 16_666_667);
    assert_eq!(cvt_pace(500_000, &Units::Raw), 500_000);
}

#[test]
fn altitude_in_feet() {
    assert_eq!(cvt_altitude(1000 * UNIT, &Units::US), 3_280_839_900);
    assert_eq!(cvt_altitude(1000 * UNIT, &Units::Metric), 1000 * UNIT);
}

#[test]
fn semicircles_to_degrees() {
    assert_eq!(semi_to_degrees(1 << 30), 90 * UNIT);
    assert_eq!(semi_to_degrees(-(1 << 30)), -90 * UNIT);
    assert_eq!(semi_to_degrees(0), 0);
}

#[test]
fn elapsed_time_is_truncated() {
    assert_eq!(cvt_elapsed_time(3725 * UNIT + 999_999), (1, 2, 5));
    assert_eq!(cvt_elapsed_time(59 * UNIT), (0, 0, 59));
    assert_eq!(cvt_elapsed_time(-3725 * UNIT), (-1, -2, -5));
}

#[test]
fn unit_labels() {
    assert_eq!(units_from_label("⚽ Metric"), Units::Metric);
    assert_eq!(units_from_label("🏈 US"), Units::US);
    assert_eq!(units_from_label("Metric"), Units::Raw);
}
