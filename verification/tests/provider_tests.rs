use bar_daemon::battery::{Battery, BatteryState};
use bar_daemon::bluetooth::Bluetooth;
use bar_daemon::brightness::Brightness;
use bar_daemon::fan_profile::{FanProfile, FanState};
use bar_daemon::memory::Memory;
use bar_daemon::ram::Ram;
use bar_daemon::volume::Volume;

const ACPI: &str = "Battery 0: Discharging, 45%, 01:20:11 remaining";

#[test]
fn battery_parses_acpi_output() {
    let (state, percent, time) = Battery::get(ACPI).unwrap();
    assert_eq!(state, BatteryState::Discharging);
    assert_eq!(percent, 45);
    assert_eq!(time, "01:20:11");
}

#[test]
fn battery_state_without_time_part() {
    let out = "Battery 0: Fully charged, 100%";
    assert_eq!(Battery::get_state(out).unwrap(), BatteryState::FullyCharged);
    assert_eq!(Battery::get_percent(out).unwrap(), 100);
    assert_eq!(Battery::get_time(out).unwrap(), "");
}

#[test]
fn battery_icon_levels() {
    assert_eq!(Battery::get_icon(&BatteryState::Discharging, 45), "battery-level-40");
    assert_eq!(Battery::get_icon(&BatteryState::Charging, 97), "battery-level-90-charging");
    assert_eq!(Battery::get_icon(&BatteryState::FullyCharged, 100), "battery-level-100-charged");
    assert_eq!(Battery::get_icon(&BatteryState::NotCharging, 50), "battery-missing");
}

#[test]
fn battery_tuples_and_rejections() {
    let tuples = Battery::get_tuples(ACPI).unwrap();
    assert_eq!(tuples[0], (String::from("state"), String::from("Discharging")));
    assert_eq!(tuples[1], (String::from("percent"), String::from("45")));
    assert_eq!(tuples[2], (String::from("time"), String::from("01:20:11")));
    assert_eq!(tuples[3], (String::from("icon"), String::from("battery-level-40-symbolic")));
    assert!(Battery::get_state("Battery 0: Sleeping, 5%").is_err());
    assert!(Battery::get_percent("Battery 0: Charging, many%").is_err());
}

#[test]
fn battery_notify_only_on_drop_to_level() {
    let at_20 = "Battery 0: Discharging, 20%, 00:30:00 remaining";
    assert!(Battery::notify(21, at_20).unwrap().is_some());
    assert!(Battery::notify(20, at_20).unwrap().is_none(), "no drop, no notification");
    assert!(Battery::notify(22, ACPI).unwrap().is_none(), "45 is not a notify level");
    let charging_at_20 = "Battery 0: Charging, 20%, 00:30:00 until charged";
    assert!(Battery::notify(21, charging_at_20).unwrap().is_none());
}

#[test]
fn bluetooth_state_and_tuples() {
    assert_eq!(Bluetooth::get_state("hci0 power on").unwrap(), true);
    assert_eq!(Bluetooth::get_state("hci0 power off").unwrap(), false);
    assert!(Bluetooth::get_state("off").is_err());
    let tuples = Bluetooth::get_tuples("hci0 power on").unwrap();
    assert_eq!(tuples[0], (String::from("state"), String::from("true")));
    assert_eq!(
        tuples[1],
        (String::from("icon"), String::from("bluetooth-active-symbolic.svg"))
    );
    let cmd = Bluetooth::set_state(false);
    assert_eq!(cmd.name, "bluetooth");
    assert_eq!(cmd.args, vec!["off"]);
}

const BRI: &str = "nvidia_wmi_ec_backlight,backlight,60,60%,100";

#[test]
fn brightness_percent_and_set() {
    assert_eq!(Brightness::get(BRI).unwrap(), 60);
    let cmd = Brightness::set_monitor("80", BRI).unwrap();
    assert_eq!(cmd.name, "brightnessctl");
    assert_eq!(cmd.args, vec!["-d", "nvidia_wmi_ec_backlight", "s", "80%"]);
    let up = Brightness::set_monitor("+50", BRI).unwrap();
    assert_eq!(up.args[3], "100%", "relative set clamps at one hundred");
    let down = Brightness::set_monitor("-75", BRI).unwrap();
    assert_eq!(down.args[3], "0%", "relative set clamps at zero");
    assert!(Brightness::set_monitor("bright", BRI).is_err());
}

#[test]
fn brightness_should_notify_on_change_only() {
    let after = "nvidia_wmi_ec_backlight,backlight,80,80%,100";
    assert!(Brightness::should_notify(BRI, after));
    assert!(!Brightness::should_notify(BRI, BRI));
}

const ASUSCTL: &str = "Active profile:\nCurrent fan profile: Balanced\n";

#[test]
fn fan_profile_parse_and_cycle() {
    assert_eq!(FanProfile::get_profile(ASUSCTL).unwrap(), FanState::Balanced);
    let next = FanProfile::set_profile("next", ASUSCTL).unwrap();
    assert_eq!(next.args, vec!["profile", "-P", "Quiet"]);
    let prev = FanProfile::set_profile("prev", ASUSCTL).unwrap();
    assert_eq!(prev.args, vec!["profile", "-P", "Performance"]);
    let named = FanProfile::set_profile(" Performance ", ASUSCTL).unwrap();
    assert_eq!(named.args, vec!["profile", "-P", "Performance"]);
    assert!(FanProfile::set_profile("fastest", ASUSCTL).is_err());
}

#[test]
fn fan_profile_prev_wraps_around() {
    let quiet = "x\na b c Performance\n";
    assert_eq!(FanProfile::get_profile(quiet).unwrap(), FanState::Performance);
    let prev = FanProfile::set_profile("prev", quiet).unwrap();
    assert_eq!(prev.args[2], "Quiet");
}

const FREE: &str = "              total        used        free\nMem:    16000000000  4000000000  9000000000\nSwap:             0           0           0";

#[test]
fn ram_parses_free_output() {
    // The columns differ, so a read of the wrong one cannot pass: used is
    // the second token of the Mem line, not the free column after it.
    let (total, used, percent) = Ram::get(FREE).unwrap();
    assert_eq!(total, 16000000000);
    assert_eq!(used, 4000000000);
    assert_eq!(percent, 25);
    assert_eq!(Ram::get_used(FREE).unwrap(), 4000000000);
    let tuples = Ram::get_tuples(FREE).unwrap();
    assert_eq!(tuples[0], (String::from("total"), String::from("16000000000")));
    assert_eq!(tuples[1], (String::from("used"), String::from("4000000000")));
    assert_eq!(tuples[2], (String::from("percent"), String::from("25")));
    assert!(Ram::get("one line only").is_err());
}

#[test]
fn volume_icon_ranges() {
    assert_eq!(Volume::get_icon(0, false), "audio-volume-muted");
    assert_eq!(Volume::get_icon(50, true), "audio-volume-muted");
    assert_eq!(Volume::get_icon(20, false), "audio-volume-low");
    assert_eq!(Volume::get_icon(50, false), "audio-volume-medium");
    assert_eq!(Volume::get_icon(100, false), "audio-volume-high");
    assert_eq!(Volume::get_icon(130, false), "audio-volume-overamplified");
}

#[test]
fn volume_mute_detection_and_set() {
    assert_eq!(Volume::get_mute("Volume: 0.50").unwrap(), false);
    assert_eq!(Volume::get_mute("Volume: 0.50 [MUTED]").unwrap(), true);
    assert!(Volume::get_mute("Volume: ").is_err());
    let toggle = Volume::set_mute("toggle").unwrap();
    assert_eq!(toggle.args, vec!["set-mute", "@DEFAULT_SINK@", "toggle"]);
    let off = Volume::set_mute("false").unwrap();
    assert_eq!(off.args[2], "0");
    assert!(Volume::set_mute("sometimes").is_err());
}

const FREE_MEM: &str = "              total        used        free\nMem:    16000000000  4000000000  8000000000";

#[test]
fn memory_cache_and_queries() {
    let tup = Memory::get_json_tuple(FREE_MEM).unwrap();
    assert_eq!(tup[0], (String::from("used_bytes"), String::from("4000000000")));
    // the percentage divides by the second field, as the original did
    assert_eq!(tup[1], (String::from("used_percent"), String::from("25")));
    assert_eq!(tup[2], (String::from("icon"), String::from("nvidia-ram-symbolic.svg")));
    assert_eq!(
        Memory::parse_args(&tup, &vec![String::from("ub")]).unwrap(),
        "4000000000"
    );
    assert_eq!(
        Memory::parse_args(&tup, &vec![String::from("used_percent")]).unwrap(),
        "25"
    );
    assert!(Memory::parse_args(&tup, &vec![String::from("wrong")]).is_err());
    assert!(Memory::parse_args(&tup, &vec![]).is_err());
}

#[test]
fn volume_notify_decision_on_pair_change() {
    assert!(Volume::should_notify(30, false, 40, false));
    assert!(Volume::should_notify(30, false, 30, true));
    assert!(!Volume::should_notify(30, false, 30, false));
}

#[test]
fn fan_notify_decision_on_profile_change() {
    let quiet = "x\na b c Quiet\n";
    let balanced = "x\na b c Balanced\n";
    assert!(FanProfile::should_notify(quiet, balanced));
    assert!(!FanProfile::should_notify(quiet, quiet));
    assert!(!FanProfile::should_notify("garbage", balanced));
}

#[test]
fn brightness_parse_item_plans_the_set() {
    let item =
        bar_daemon::daemon::DaemonItem::Brightness(bar_daemon::brightness::BrightnessItem::Monitor);
    let resp = Brightness::parse_item(
        item,
        &bar_daemon::brightness::BrightnessItem::Monitor,
        Some(String::from("+25")),
        BRI,
    )
    .unwrap();
    match resp.reply {
        bar_daemon::daemon::DaemonReply::Value { value, .. } => assert_eq!(value, "+25"),
        other => panic!("unexpected reply: {other:?}"),
    }
    let cmd = resp.command.expect("a monitor set plans a command");
    assert_eq!(cmd.name, "brightnessctl");
    assert_eq!(cmd.args, vec!["-d", "nvidia_wmi_ec_backlight", "s", "85%"]);
}

#[test]
fn volume_notify_carries_icon_and_percent_hint() {
    let cmd = Volume::notify(42, false);
    assert_eq!(cmd.name, "dunstify");
    assert_eq!(
        cmd.args,
        vec![
            "-u",
            "normal",
            "-r",
            "42069",
            "-i",
            "audio-volume-medium-symbolic",
            "-t",
            "1000",
            "-h",
            "int:value:42",
            "Volume: ",
        ]
    );
}
