use bar_daemon::battery::BatteryItem;
use bar_daemon::codec::{
    decode_message, decode_reply, encode_message, encode_reply, message_round_trip,
    reply_round_trip,
};
use bar_daemon::daemon::{DaemonItem, DaemonMessage, DaemonReply};
use bar_daemon::volume::VolumeItem;

fn msg_eq(a: &DaemonMessage, b: &DaemonMessage) -> bool {
    match (a, b) {
        (
            DaemonMessage::SetValue { item: i1, value: v1 },
            DaemonMessage::SetValue { item: i2, value: v2 },
        ) => i1 == i2 && v1 == v2,
        (DaemonMessage::Get { item: i1 }, DaemonMessage::Get { item: i2 }) => i1 == i2,
        (DaemonMessage::Listen, DaemonMessage::Listen) => true,
        _ => false,
    }
}

fn reply_eq(a: &DaemonReply, b: &DaemonReply) -> bool {
    match (a, b) {
        (
            DaemonReply::Value { item: i1, value: v1 },
            DaemonReply::Value { item: i2, value: v2 },
        ) => i1 == i2 && v1 == v2,
        (
            DaemonReply::Tuples { item: i1, tuples: t1 },
            DaemonReply::Tuples { item: i2, tuples: t2 },
        ) => i1 == i2 && t1 == t2,
        (DaemonReply::AllTuples { tuples: t1 }, DaemonReply::AllTuples { tuples: t2 }) => t1 == t2,
        (DaemonReply::Error(m1), DaemonReply::Error(m2)) => m1 == m2,
        _ => false,
    }
}

#[test]
fn round_trip_set_message() {
    let m = DaemonMessage::SetValue {
        item: DaemonItem::Volume(VolumeItem::Mute),
        value: String::from("true"),
    };
    let r = message_round_trip(&m);
    assert!(msg_eq(&m, &r));
}

#[test]
fn round_trip_get_message() {
    let m = DaemonMessage::Get { item: DaemonItem::Battery(BatteryItem::Percent) };
    let r = message_round_trip(&m);
    assert!(msg_eq(&m, &r));
}

#[test]
fn round_trip_listen_message() {
    let m = DaemonMessage::Listen;
    let r = message_round_trip(&m);
    assert!(msg_eq(&m, &r));
}

#[test]
fn round_trip_message_with_unicode_value() {
    let m = DaemonMessage::SetValue {
        item: DaemonItem::FanProfile(bar_daemon::fan_profile::FanProfileItem::Profile),
        value: String::from("Quiet — naïve ✓"),
    };
    let decoded = decode_message(&encode_message(&m)).expect("decodes");
    assert!(msg_eq(&m, &decoded));
}

#[test]
fn round_trip_value_reply() {
    let r = DaemonReply::Value {
        item: DaemonItem::Volume(VolumeItem::Percent),
        value: String::from("42"),
    };
    let d = reply_round_trip(&r);
    assert!(reply_eq(&r, &d));
}

#[test]
fn round_trip_tuples_reply() {
    let r = DaemonReply::Tuples {
        item: DaemonItem::Battery(BatteryItem::All),
        tuples: vec![
            (String::from("state"), String::from("Charging")),
            (String::from("percent"), String::from("88")),
        ],
    };
    let d = reply_round_trip(&r);
    assert!(reply_eq(&r, &d));
}

#[test]
fn round_trip_all_tuples_reply() {
    let r = DaemonReply::AllTuples {
        tuples: vec![
            (
                String::from("volume"),
                vec![(String::from("percent"), String::from("10"))],
            ),
            (String::from("ram"), vec![]),
        ],
    };
    let d = reply_round_trip(&r);
    assert!(reply_eq(&r, &d));
}

#[test]
fn round_trip_error_reply() {
    let r = DaemonReply::Error(String::from("could not parse: x"));
    let d = reply_round_trip(&r);
    assert!(reply_eq(&r, &d));
}

#[test]
fn decode_rejects_empty_and_garbage() {
    assert!(decode_message(&vec![]).is_none());
    assert!(decode_message(&vec![9, 9, 9]).is_none());
    assert!(decode_reply(&vec![]).is_none());
    assert!(decode_reply(&vec![250, 0, 0]).is_none());
}

#[test]
fn decode_rejects_truncated_message() {
    let m = DaemonMessage::SetValue {
        item: DaemonItem::Volume(VolumeItem::Percent),
        value: String::from("55"),
    };
    let mut bytes = encode_message(&m);
    bytes.truncate(bytes.len() - 1);
    assert!(decode_message(&bytes).is_none());
}

#[test]
fn decode_ignores_trailing_padding() {
    let m = DaemonMessage::Get { item: DaemonItem::All };
    let mut bytes = encode_message(&m);
    bytes.extend_from_slice(&[0u8; 16]);
    let decoded = decode_message(&bytes).expect("decodes with padding");
    assert!(msg_eq(&m, &decoded));
}
