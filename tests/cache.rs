use siliconsneaker2::cache::{
    instantiate_graph_cache, instantiate_map_cache, map_center, CacheError, YFormatter,
};
use siliconsneaker2::records::{Field, FieldValue, MessageKind, TelemetryRecord};
use siliconsneaker2::units::{Units, UNIT};

fn field(name: &str, value: FieldValue) -> Field {
    Field { name: name.to_string(), value, units: String::new() }
}

fn run(stamp: &str) -> Vec<TelemetryRecord> {
    (0..6u64)
        .map(|i| TelemetryRecord {
            kind: MessageKind::Record,
            fields: vec![
                field("timestamp", FieldValue::Text(stamp.to_string())),
                field("position_lat", FieldValue::SInt(500_000_000 + i as i64)),
                field("position_long", FieldValue::SInt(-1_100_000_000 - i as i64)),
                field("distance", FieldValue::UInt(i * 500)),
                field("enhanced_speed", FieldValue::Real(2_500_000 + (i as i64) * 100_000)),
                field("heart_rate", FieldValue::UInt(140 + i)),
                field("cadence", FieldValue::UInt(85)),
                field("enhanced_altitude", FieldValue::Real(30_000_000)),
                field("temperature", FieldValue::SInt(21)),
            ],
        })
        .collect()
}

#[test]
fn rebuilding_gives_identical_series() {
    let data = run("2024-11-28 07:00:00 -06:00");
    let a = instantiate_graph_cache(&data, &Units::US, UNIT, UNIT).unwrap();
    let b = instantiate_graph_cache(&data, &Units::US, UNIT, UNIT).unwrap();
    assert_eq!(a.distance_pace.plotvals, b.distance_pace.plotvals);
    assert_eq!(a.distance_heart_rate.plotvals, b.distance_heart_rate.plotvals);
    assert_eq!(a.distance_cadence.plotvals, b.distance_cadence.plotvals);
    assert_eq!(a.distance_elevation.plotvals, b.distance_elevation.plotvals);
    assert_eq!(a.distance_temperature.plotvals, b.distance_temperature.plotvals);
    assert_eq!(a.distance_pace.plot_range, b.distance_pace.plot_range);
    assert_eq!(a.time_stamps, b.time_stamps);
    assert_eq!(a.distance_pace.plotvals.len(), 5);
    assert_eq!(a.time_stamps.len(), 6);
    assert_eq!(a.distance_temperature.plotvals[0].1, 69_800_000);
}

#[test]
fn labels_follow_units() {
    let data = run("2024-11-28 07:00:00 -06:00");
    let us = instantiate_graph_cache(&data, &Units::US, UNIT, UNIT).unwrap();
    assert_eq!(us.distance_pace.caption, "Pace");
    assert_eq!(us.distance_pace.ylabel, "Pace (min/mile)");
    assert_eq!(us.distance_pace.xlabel, "Distance (miles)");
    assert_eq!(us.distance_pace.y_formatter, YFormatter::PaceMinSec);
    assert_eq!(us.distance_elevation.ylabel, "Elevation (feet)");
    let metric = instantiate_graph_cache(&data, &Units::Metric, UNIT, UNIT).unwrap();
    assert_eq!(metric.distance_temperature.ylabel, "Temperature (°C)");
    assert_eq!(metric.distance_heart_rate.y_formatter, YFormatter::Numeric);
    let raw = instantiate_graph_cache(&data, &Units::Raw, UNIT, UNIT).unwrap();
    assert_eq!(raw.distance_cadence.ylabel, "");
    assert_eq!(raw.distance_cadence.caption, "Cadence");
}

#[test]
fn graph_cache_errors() {
    let data = run("2024-11-28 07:00:00 -06:00");
    assert_eq!(instantiate_graph_cache(&data, &Units::US, 0, UNIT).err(), Some(CacheError::InvalidZoom));
    let bad = run("not a time");
    assert_eq!(instantiate_graph_cache(&bad, &Units::US, UNIT, UNIT).err(), Some(CacheError::Unparseable));
    let empty = instantiate_graph_cache(&Vec::new(), &Units::US, 0, 0).unwrap();
    assert!(empty.distance_pace.plotvals.is_empty());
}

#[test]
fn map_cache_keeps_semicircles() {
    let data = run("2024-11-28 07:00:00 -06:00");
    let m = instantiate_map_cache(&data);
    assert_eq!(m.run_path.len(), 5);
    assert_eq!(m.run_path[1], (500_000_001 * UNIT, -1_100_000_001 * UNIT));
}

#[test]
fn map_center_of_session_box() {
    let mut data = run("2024-11-28 07:00:00 -06:00");
    assert_eq!(map_center(&data), None);
    data.push(TelemetryRecord {
        kind: MessageKind::Session,
        fields: vec![
            field("nec_lat", FieldValue::SInt(1 << 30)),
            field("nec_long", FieldValue::SInt(1 << 29)),
            field("swc_lat", FieldValue::SInt(0)),
            field("swc_long", FieldValue::SInt(-(1 << 29))),
        ],
    });
    assert_eq!(map_center(&data), Some((45 * UNIT, 0)));
}

#[test]
fn axis_formatters() {
    assert_eq!(YFormatter::PaceMinSec.format(5_500_000), "05:30");
    assert_eq!(YFormatter::PaceMinSec.format(12_016_667), "12:01");
    assert_eq!(YFormatter::Numeric.format(3_141_593), "   3.14");
    assert_eq!(YFormatter::Numeric.format(-2_005_000), "  -2.01");
    assert_eq!(YFormatter::Numeric.format(123_456_789_000), "123456.79");
}
