use bar_daemon::bluetooth::BluetoothItem;
use bar_daemon::codec::encode_message;
use bar_daemon::daemon::{
    match_get_command, match_set_command, on_read, DaemonItem, DaemonMessage, DaemonReply,
    NotifyDecision, ProviderData, SocketAction,
};
use bar_daemon::listener::ClientMessage;
use bar_daemon::volume::VolumeItem;

// Scenario: Get{Volume(Percent)} against a stub provider reading of "42"
// yields Value{Volume(Percent), "42"}.
#[test]
fn get_volume_percent_from_stub() {
    let item = DaemonItem::Volume(VolumeItem::Percent);
    let reply = match_get_command(item, &ProviderData::Volume { percent: 42, mute: false });
    match reply {
        DaemonReply::Value { item: i, value } => {
            assert_eq!(i, item);
            assert_eq!(value, "42");
        }
        other => panic!("unexpected reply: {other:?}"),
    }
}

// Scenario: Set{Volume(Mute), "true"} is echoed, plans the wpctl command,
// and publishes exactly one update-trigger signal.
#[test]
fn set_volume_mute_echoes_and_signals() {
    let (tx, mut rx) = tokio::sync::mpsc::unbounded_channel::<ClientMessage>();
    let item = DaemonItem::Volume(VolumeItem::Mute);
    let message = DaemonMessage::SetValue { item, value: String::from("true") };
    let bytes = encode_message(&message);

    match on_read(&bytes, &tx) {
        SocketAction::Dispatch { message: m, signal } => {
            match m {
                DaemonMessage::SetValue { item: i, value } => {
                    assert_eq!(i, item);
                    assert_eq!(value, "true");
                }
                other => panic!("unexpected message: {other:?}"),
            }
            assert_eq!(signal, Some(ClientMessage::UpdateVolume));
        }
        other => panic!("unexpected action: {other:?}"),
    }
    assert_eq!(rx.try_recv().unwrap(), ClientMessage::UpdateVolume);
    assert!(rx.try_recv().is_err(), "exactly one signal is published");

    let resp = match_set_command(
        item,
        String::from("true"),
        &ProviderData::Volume { percent: 30, mute: false },
    );
    match resp.reply {
        DaemonReply::Value { item: i, value } => {
            assert_eq!(i, item);
            assert_eq!(value, "true");
        }
        other => panic!("unexpected reply: {other:?}"),
    }
    let cmd = resp.command.expect("mute set plans a command");
    assert_eq!(cmd.name, "wpctl");
    assert_eq!(cmd.args, vec!["set-mute", "@DEFAULT_SINK@", "1"]);
    assert_eq!(resp.notify, NotifyDecision::Recheck);
}

// Set{All} always yields Error, whatever the value.
#[test]
fn set_all_is_always_an_error() {
    for value in ["", "true", "42", "anything at all"] {
        let resp = match_set_command(
            DaemonItem::All,
            String::from(value),
            &ProviderData::All(bar_daemon::tuples::ProviderReadings {
                volume_percent: 0,
                volume_mute: false,
                brightness_output: String::new(),
                bluetooth_output: String::new(),
                battery_output: String::new(),
                ram_output: String::new(),
                fan_profile_output: String::new(),
            }),
        );
        assert!(matches!(resp.reply, DaemonReply::Error(_)));
        assert!(resp.command.is_none());
    }
}

// A provider whose output does not parse yields Error, never a panic, and
// one observation answers the whole Get.
#[test]
fn get_with_unreadable_output_yields_error() {
    let reply = match_get_command(
        DaemonItem::Battery(bar_daemon::battery::BatteryItem::Percent),
        &ProviderData::Battery { output: String::from("nonsense") },
    );
    assert!(matches!(reply, DaemonReply::Error(_)));
}

// Listen never produces a framed reply: the connection is handed off.
#[test]
fn listen_is_handed_off_without_reply() {
    let (tx, mut rx) = tokio::sync::mpsc::unbounded_channel::<ClientMessage>();
    let bytes = encode_message(&DaemonMessage::Listen);
    assert!(matches!(on_read(&bytes, &tx), SocketAction::Register));
    assert!(rx.try_recv().is_err(), "listen publishes no signal");
}

// Undecodable bytes terminate the connection.
#[test]
fn garbage_terminates_connection() {
    let (tx, _rx) = tokio::sync::mpsc::unbounded_channel::<ClientMessage>();
    assert!(matches!(on_read(&vec![99, 1, 2], &tx), SocketAction::Terminate));
}

// A bluetooth set with an unparseable boolean is rejected.
#[test]
fn set_bluetooth_bad_bool_is_error() {
    let resp = match_set_command(
        DaemonItem::Bluetooth(BluetoothItem::State),
        String::from("maybe"),
        &ProviderData::Bluetooth { output: String::from("hci0 power on") },
    );
    assert!(matches!(resp.reply, DaemonReply::Error(_)));
}

// A bluetooth set that flips the state notifies now; a no-op set does not.
#[test]
fn bluetooth_notify_exactly_on_change() {
    let on_output = String::from("hci0 power on");
    let changed = match_set_command(
        DaemonItem::Bluetooth(BluetoothItem::State),
        String::from("false"),
        &ProviderData::Bluetooth { output: on_output.clone() },
    );
    assert_eq!(changed.notify, NotifyDecision::Now);
    let unchanged = match_set_command(
        DaemonItem::Bluetooth(BluetoothItem::State),
        String::from("true"),
        &ProviderData::Bluetooth { output: on_output },
    );
    assert_eq!(unchanged.notify, NotifyDecision::No);
}

// Get{All} assembles every provider's tuples into one snapshot reply.
#[test]
fn get_all_builds_full_snapshot() {
    let readings = bar_daemon::tuples::ProviderReadings {
        volume_percent: 42,
        volume_mute: false,
        brightness_output: String::from("nvidia_wmi_ec_backlight,backlight,60,60%,100"),
        bluetooth_output: String::from("hci0 power on"),
        battery_output: String::from("Battery 0: Discharging, 45%, 01:20:11 remaining"),
        ram_output: String::from("total\nMem: 100 50 40 10 20 30"),
        fan_profile_output: String::from("x\na b c Quiet\n"),
    };
    match match_get_command(DaemonItem::All, &ProviderData::All(readings)) {
        DaemonReply::AllTuples { tuples } => {
            assert_eq!(tuples.len(), 6);
            assert_eq!(tuples[0].0, "volume");
            assert_eq!(tuples[3].0, "battery");
            assert_eq!(tuples[3].1[1].1, "45");
        }
        other => panic!("unexpected reply: {other:?}"),
    }
}

// Set on battery or ram echoes the value without planning anything; those
// providers have nothing to set.
#[test]
fn set_battery_echoes_without_command() {
    let resp = match_set_command(
        DaemonItem::Battery(bar_daemon::battery::BatteryItem::Percent),
        String::from("77"),
        &ProviderData::Battery { output: String::from("irrelevant") },
    );
    match resp.reply {
        DaemonReply::Value { value, .. } => assert_eq!(value, "77"),
        other => panic!("unexpected reply: {other:?}"),
    }
    assert!(resp.command.is_none());
    assert_eq!(resp.notify, NotifyDecision::No);
}

// A fan-profile set plans the exact asusctl invocation.
#[test]
fn set_fan_profile_plans_exact_command() {
    let resp = match_set_command(
        DaemonItem::FanProfile(bar_daemon::fan_profile::FanProfileItem::Profile),
        String::from("next"),
        &ProviderData::FanProfile { output: String::from("x\na b c Balanced\n") },
    );
    let cmd = resp.command.expect("a profile set plans a command");
    assert_eq!(cmd.name, "asusctl");
    assert_eq!(cmd.args, vec!["profile", "-P", "Quiet"]);
}
