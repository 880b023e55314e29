use siliconsneaker2::records::{Field, FieldValue, MessageKind, TelemetryRecord};
use siliconsneaker2::timestamps::{get_run_start_date, get_timestamps, Timestamp, TimestampError};

fn stamped(kind: MessageKind, name: &str, text: &str) -> TelemetryRecord {
    TelemetryRecord {
        kind,
        fields: vec![Field {
            name: name.to_string(),
            value: FieldValue::Text(text.to_string()),
            units: String::new(),
        }],
    }
}

#[test]
fn sample_timestamps_parse() {
    let data = vec![
        stamped(MessageKind::Record, "timestamp", "2024-11-28 07:00:00 -06:00"),
        stamped(MessageKind::Lap, "timestamp", "garbage"),
        stamped(MessageKind::Record, "timestamp", "2024-11-28 07:00:01 +0000"),
    ];
    let t = get_timestamps(&data).unwrap();
    assert_eq!(t.len(), 2);
    assert_eq!(
        t[0],
        Timestamp { year: 2024, month: 11, day: 28, hour: 7, minute: 0, second: 0 }
    );
    assert_eq!(t[1].second, 1);
    assert_eq!(t[0].to_text(), "2024-11-28 07:00:00");
}

#[test]
fn bad_timestamp_fails_the_extraction() {
    let data = vec![
        stamped(MessageKind::Record, "timestamp", "2024-11-28 07:00:00 -06:00"),
        stamped(MessageKind::Record, "timestamp", "yesterday"),
    ];
    assert_eq!(get_timestamps(&data), Err(TimestampError::Unparseable));
    assert_eq!(get_timestamps(&Vec::new()), Ok(Vec::new()));
}

#[test]
fn run_start_date() {
    assert_eq!(get_run_start_date(&Vec::new()), Ok((0, 0, 0)));
    let data = vec![stamped(MessageKind::Session, "start_time", "2024-03-31 06:15:00 +01:00")];
    assert_eq!(get_run_start_date(&data), Ok((2024, 3, 31)));
    let bad = vec![stamped(MessageKind::Session, "start_time", "31/03/2024")];
    assert_eq!(get_run_start_date(&bad), Err(TimestampError::Unparseable));
}

#[test]
fn timestamp_text_pads_fields() {
    let t = Timestamp { year: 987, month: 1, day: 2, hour: 3, minute: 4, second: 5 };
    assert_eq!(t.to_text(), "0987-01-02 03:04:05");
}
