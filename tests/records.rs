use siliconsneaker2::records::{
    extract_vector, fixed_value, get_msg_record_field_as_vec, get_sess_record_field,
    get_time_in_zone_field, integer_value, Field, FieldValue, MessageKind, TelemetryRecord,
};
use siliconsneaker2::units::UNIT;

fn field(name: &str, value: FieldValue) -> Field {
    Field { name: name.to_string(), value, units: String::new() }
}

fn record(kind: MessageKind, fields: Vec<Field>) -> TelemetryRecord {
    TelemetryRecord { kind, fields }
}

#[test]
fn numeric_normalisation() {
    assert_eq!(fixed_value(&FieldValue::SInt(-5)), Some(-5 * UNIT));
    assert_eq!(fixed_value(&FieldValue::UInt(150)), Some(150 * UNIT));
    assert_eq!(fixed_value(&FieldValue::Real(2_500_000)), Some(2_500_000));
    assert_eq!(fixed_value(&FieldValue::UInt(u64::MAX)), None);
    assert_eq!(fixed_value(&FieldValue::Text("running".to_string())), None);
    assert_eq!(fixed_value(&FieldValue::Invalid), None);
    assert_eq!(integer_value(&FieldValue::UInt(7)), Some(7));
    assert_eq!(integer_value(&FieldValue::Real(7)), None);
}

#[test]
fn array_elements() {
    let v = FieldValue::Array(vec![
        FieldValue::UInt(120),
        FieldValue::Text("x".to_string()),
        FieldValue::Real(1_500_000),
    ]);
    assert_eq!(extract_vector(&v), vec![120 * UNIT, 1_500_000]);
    assert_eq!(extract_vector(&FieldValue::UInt(3)), Vec::<i64>::new());
}

#[test]
fn session_field_lookup() {
    let data = vec![
        record(MessageKind::Lap, vec![field("total_distance", FieldValue::Real(1))]),
        record(MessageKind::Session, vec![field("sport", FieldValue::Text("running".to_string()))]),
        record(MessageKind::Session, vec![
            field("total_distance", FieldValue::Real(5_000 * UNIT)),
            field("total_distance", FieldValue::Real(7)),
        ]),
        record(MessageKind::Session, vec![field("total_distance", FieldValue::Real(9))]),
    ];
    assert_eq!(get_sess_record_field(&data, "total_distance"), Some(5_000 * UNIT));
    assert_eq!(get_sess_record_field(&data, "sport"), None);
    assert_eq!(get_sess_record_field(&data, "nec_lat"), None);
}

#[test]
fn per_sample_series() {
    let data = vec![
        record(MessageKind::Record, vec![field("heart_rate", FieldValue::UInt(100))]),
        record(MessageKind::Lap, vec![field("heart_rate", FieldValue::UInt(1))]),
        record(MessageKind::Record, vec![field("heart_rate", FieldValue::Text("n/a".to_string()))]),
        record(MessageKind::Record, vec![field("cadence", FieldValue::UInt(80)), field("heart_rate", FieldValue::UInt(110))]),
    ];
    assert_eq!(get_msg_record_field_as_vec(&data, "heart_rate"), vec![100 * UNIT, 110 * UNIT]);
    assert_eq!(get_msg_record_field_as_vec(&data, "cadence"), vec![80 * UNIT]);
    assert_eq!(get_msg_record_field_as_vec(&data, "power"), Vec::<i64>::new());
}

fn zones(reference: &str, first: u64) -> TelemetryRecord {
    record(MessageKind::TimeInZone, vec![
        field("reference_mesg", FieldValue::Text(reference.to_string())),
        field("time_in_hr_zone", FieldValue::Array(vec![FieldValue::Real(60 * UNIT), FieldValue::Real(120 * UNIT)])),
        field("hr_zone_high_boundary", FieldValue::Array(vec![FieldValue::UInt(first)])),
    ])
}

#[test]
fn heart_rate_zones() {
    assert_eq!(get_time_in_zone_field(&vec![]), (None, None));
    let data = vec![zones("session", 120), zones("lap", 130)];
    assert_eq!(
        get_time_in_zone_field(&data),
        (Some(vec![60 * UNIT, 120 * UNIT]), Some(vec![120 * UNIT]))
    );
    let later = vec![zones("session", 120), zones("session", 125)];
    assert_eq!(get_time_in_zone_field(&later).1, Some(vec![125 * UNIT]));
}
