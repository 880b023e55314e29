use siliconsneaker2::records::{Field, FieldValue, MessageKind, TelemetryRecord};
use siliconsneaker2::series::get_xy;
use siliconsneaker2::units::{Units, UNIT};

fn sample(fields: Vec<(&str, FieldValue)>) -> TelemetryRecord {
    TelemetryRecord {
        kind: MessageKind::Record,
        fields: fields
            .into_iter()
            .map(|(n, v)| Field { name: n.to_string(), value: v, units: String::new() })
            .collect(),
    }
}

#[test]
fn longer_x_series_is_cut_to_the_shorter() {
    let mut data = Vec::new();
    for i in 0..10u64 {
        if i < 8 {
            data.push(sample(vec![("distance", FieldValue::UInt(i * 1000)), ("heart_rate", FieldValue::UInt(100 + i))]));
        } else {
            data.push(sample(vec![("distance", FieldValue::UInt(i * 1000))]));
        }
    }
    let xy = get_xy(&data, &Units::Metric, "distance", "heart_rate");
    assert_eq!(xy.len(), 7);
    assert_eq!(xy[3], (3 * UNIT, 103 * UNIT));
}

#[test]
fn equal_lengths_drop_the_last_sample() {
    let data: Vec<TelemetryRecord> = (0..4u64)
        .map(|i| sample(vec![("distance", FieldValue::UInt(i * 1609)), ("enhanced_speed", FieldValue::UInt(2))]))
        .collect();
    let xy = get_xy(&data, &Units::US, "distance", "enhanced_speed");
    assert_eq!(xy.len(), 3);
    assert_eq!(xy[1], (999_786, 13_411_200));
    let raw = get_xy(&data, &Units::Raw, "distance", "enhanced_speed");
    assert_eq!(raw[2], (3218 * UNIT, 2 * UNIT));
}

#[test]
fn shorter_x_series_drops_its_last() {
    let data = vec![
        sample(vec![("distance", FieldValue::UInt(0)), ("temperature", FieldValue::SInt(10))]),
        sample(vec![("distance", FieldValue::UInt(5)), ("temperature", FieldValue::SInt(20))]),
        sample(vec![("temperature", FieldValue::SInt(30))]),
    ];
    let xy = get_xy(&data, &Units::US, "distance", "temperature");
    assert_eq!(xy, vec![(0, 50 * UNIT)]);
}

#[test]
fn empty_series_give_no_samples() {
    let data = vec![sample(vec![("distance", FieldValue::UInt(1))])];
    assert!(get_xy(&data, &Units::Metric, "distance", "heart_rate").is_empty());
    assert!(get_xy(&Vec::new(), &Units::Metric, "distance", "heart_rate").is_empty());
}
