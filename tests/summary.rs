use siliconsneaker2::records::{Field, FieldValue, MessageKind, TelemetryRecord};
use siliconsneaker2::summary::{build_summary, format_string_for_field, summary_lines, SummaryLine};
use siliconsneaker2::units::{Units, UNIT};

fn field(name: &str, value: FieldValue, units: &str) -> Field {
    Field { name: name.to_string(), value, units: units.to_string() }
}

fn lap(calories: u64) -> TelemetryRecord {
    TelemetryRecord {
        kind: MessageKind::Lap,
        fields: vec![field("total_calories", FieldValue::UInt(calories), "kcal")],
    }
}

#[test]
fn three_laps_three_headers() {
    let data = vec![lap(10), lap(20), lap(30)];
    let numbers: Vec<u64> = summary_lines(&data, &Units::Metric)
        .iter()
        .filter_map(|l| match l {
            SummaryLine::Lap(n) => Some(*n),
            _ => None,
        })
        .collect();
    assert_eq!(numbers, vec![1, 2, 3]);
    let text = build_summary(&data, &Units::Metric);
    assert_eq!(text.matches("------------------------------ Lap ").count(), 3);
    assert!(text.contains("------------------------------ Lap 1-----------------------------------\n"));
    assert!(text.contains("------------------------------ Lap 3-----------------------------------\n"));
}

#[test]
fn laps_count_without_fields() {
    let data = vec![
        TelemetryRecord { kind: MessageKind::Lap, fields: vec![] },
        TelemetryRecord { kind: MessageKind::Record, fields: vec![] },
        TelemetryRecord { kind: MessageKind::Lap, fields: vec![field("weird", FieldValue::Invalid, "")] },
    ];
    let text = build_summary(&data, &Units::US);
    assert_eq!(
        text,
        "\n------------------------------ Lap 1-----------------------------------\n\n\n------------------------------ Lap 2-----------------------------------\n\n"
    );
}

#[test]
fn session_report_text() {
    let data = vec![TelemetryRecord {
        kind: MessageKind::Session,
        fields: vec![
            field("sport", FieldValue::Text("running".to_string()), ""),
            field("total_distance", FieldValue::Real(5_000 * UNIT), "m"),
        ],
    }];
    assert_eq!(
        build_summary(&data, &Units::Metric),
        "\n============================ Session ==================================\n\nsport                  : running \ntotal_distance         : 5.00 kilometers\n"
    );
}

#[test]
fn field_lines() {
    let f = |name: &str, v: FieldValue, u: &str, units: Units| format_string_for_field(&field(name, v, u), &units);
    assert_eq!(f("total_distance", FieldValue::Real(5_000 * UNIT), "m", Units::US).unwrap(), "total_distance         : 3.11 miles\n");
    assert_eq!(f("total_timer_time", FieldValue::Real(3_725_500_000), "s", Units::US).unwrap(), "total_timer_time       : 1h:02m:05s\n");
    assert_eq!(f("start_position_lat", FieldValue::SInt(1 << 30), "semicircles", Units::US).unwrap(), "start_position_lat     : 90.000°\n");
    assert_eq!(f("end_position_long", FieldValue::SInt(1 << 20), "semicircles", Units::US).unwrap(), "end_position_long      : 0.088 °\n");
    assert_eq!(f("avg_heart_rate", FieldValue::UInt(150), "bpm", Units::Metric).unwrap(), "avg_heart_rate         : 150 bpm\n");
    assert_eq!(f("total_training_effect", FieldValue::Real(2_500_000), "", Units::Metric).unwrap(), "total_training_effect  : 2.5 \n");
    assert_eq!(f("avg_temperature", FieldValue::SInt(20), "C", Units::US).unwrap(), "avg_temperature        : 68.00 °F\n");
    assert_eq!(f("avg_temperature", FieldValue::Real(20 * UNIT), "C", Units::US), None);
    assert_eq!(f("total_ascent", FieldValue::UInt(100), "m", Units::US).unwrap(), "total_ascent           : 328.08 feet\n");
    assert_eq!(f("enhanced_avg_speed", FieldValue::Real(2_500_000), "m/s", Units::Metric).unwrap(), "enhanced_avg_speed     : 6.67 min/km\n");
    assert_eq!(f("enhanced_max_speed", FieldValue::Real(2_500_000), "m/s", Units::Raw).unwrap(), "enhanced_max_speed     : 2.50 \n");
    assert_eq!(f("unknown_field", FieldValue::UInt(1), "", Units::Metric), None);
    assert_eq!(f("start_position_lat", FieldValue::Real(1), "", Units::Metric), None);
}

#[test]
fn heart_rate_zone_breakdown() {
    let data = vec![TelemetryRecord {
        kind: MessageKind::TimeInZone,
        fields: vec![
            field("reference_mesg", FieldValue::Text("session".to_string()), ""),
            field(
                "time_in_hr_zone",
                FieldValue::Array(vec![
                    FieldValue::Real(60 * UNIT),
                    FieldValue::Real(120 * UNIT),
                    FieldValue::Real(3_723 * UNIT),
                ]),
                "s",
            ),
            field(
                "hr_zone_high_boundary",
                FieldValue::Array(vec![FieldValue::UInt(120), FieldValue::UInt(140)]),
                "bpm",
            ),
        ],
    }];
    assert_eq!(
        build_summary(&data, &Units::Metric),
        "\n=================== Time in Heart Rate Zones for Session  ========\n\nZone 0 (  0-120 bpm): 0h:01m:00s\nZone 1 (120-140 bpm): 0h:02m:00s\nZone 2 (140-220 bpm): 1h:02m:03s\n\n"
    );
}
