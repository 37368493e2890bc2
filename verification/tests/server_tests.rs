use bar_daemon::channel::ServerCommand;
use bar_daemon::cli::{match_cli, parse_bool, CliAction, CliCommands};
use bar_daemon::daemon::{DaemonItem, DaemonMessage};
use bar_daemon::server::{
    parse_args, parse_get_args, parse_update_args, process_socket_message, RefreshTarget,
    ServerError, ServerRequest, ServerState, ServerStep,
};
use bar_daemon::tuples::{get_all_tuples, tuple_name_to_tuples, ProviderReadings, TupleName};

fn strings(parts: &[&str]) -> Vec<String> {
    parts.iter().map(|s| String::from(*s)).collect()
}

#[test]
fn socket_message_splits_on_whitespace() {
    assert_eq!(process_socket_message("get volume percent\n"), strings(&["get", "volume", "percent"]));
}

#[test]
fn get_args_need_a_provider_and_a_query() {
    assert!(matches!(parse_get_args(&strings(&["get"])), Err(ServerError::EmptyArguments)));
    assert!(matches!(parse_get_args(&strings(&["get", "volume"])), Err(ServerError::EmptyArguments)));
    match parse_get_args(&strings(&["get", "vol", "percent"])).unwrap() {
        ServerCommand::GetVol { args } => assert_eq!(args, strings(&["percent"])),
        other => panic!("unexpected command: {other:?}"),
    }
    assert!(matches!(
        parse_get_args(&strings(&["get", "cpu", "percent"])),
        Err(ServerError::IncorrectArgument { .. })
    ));
}

#[test]
fn update_args_always_end_with_update_all() {
    let cmds = parse_update_args(&strings(&["update"])).unwrap();
    assert_eq!(cmds.len(), 1);
    assert!(matches!(cmds[0], ServerCommand::UpdateAll));
    let cmds = parse_update_args(&strings(&["update", "mem"])).unwrap();
    assert_eq!(cmds.len(), 2);
    assert!(matches!(cmds[0], ServerCommand::UpdateMem));
    assert!(matches!(cmds[1], ServerCommand::UpdateAll));
    assert!(parse_update_args(&strings(&["update", "gpu"])).is_err());
}

#[test]
fn request_parsing_routes_on_first_word() {
    assert!(matches!(parse_args(&strings(&[])), Err(ServerError::EmptyArguments)));
    assert!(matches!(parse_args(&strings(&["listen"])).unwrap(), ServerRequest::Listen));
    assert!(matches!(
        parse_args(&strings(&["get", "bat", "percent"])).unwrap(),
        ServerRequest::Query(ServerCommand::GetBat { .. })
    ));
    assert!(matches!(parse_args(&strings(&["shout"])), Err(ServerError::IncorrectArgument { .. })));
}

fn state() -> ServerState {
    ServerState {
        vol_tup: vec![(String::from("percent"), String::from("42"))],
        bri_tup: vec![(String::from("brightness"), String::from("60"))],
        bat_tup: vec![(String::from("percent"), String::from("88"))],
        mem_tup: vec![
            (String::from("used_bytes"), String::from("4000")),
            (String::from("used_percent"), String::from("25")),
            (String::from("icon"), String::from("nvidia-ram-symbolic.svg")),
        ],
        blu_tup: vec![(String::from("state"), String::from("true"))],
    }
}

#[test]
fn channel_step_answers_queries_from_caches() {
    let st = state();
    match st.server_channel_step(&ServerCommand::GetVol { args: strings(&["percent"]) }) {
        ServerStep::Respond(Ok(v)) => assert_eq!(v, "42"),
        other => panic!("unexpected step: {other:?}"),
    }
    match st.server_channel_step(&ServerCommand::GetMem { args: strings(&["used_p"]) }) {
        ServerStep::Respond(Ok(v)) => assert_eq!(v, "25"),
        other => panic!("unexpected step: {other:?}"),
    }
    match st.server_channel_step(&ServerCommand::GetVol { args: strings(&["nope"]) }) {
        ServerStep::Respond(Err(ServerError::IncorrectArgument { .. })) => {}
        other => panic!("unexpected step: {other:?}"),
    }
    assert!(matches!(
        st.server_channel_step(&ServerCommand::UpdateBat),
        ServerStep::Refresh(RefreshTarget::Bat)
    ));
    assert!(matches!(st.server_channel_step(&ServerCommand::UpdateAll), ServerStep::Broadcast));
}

#[test]
fn refresh_replaces_one_cache() {
    let mut st = state();
    st.apply_refresh(RefreshTarget::Vol, vec![(String::from("percent"), String::from("10"))]);
    assert_eq!(st.vol_tup[0].1, "10");
    assert_eq!(st.bat_tup[0].1, "88");
}

#[test]
fn all_json_keeps_provider_order() {
    let st = state();
    let json = st.get_all_json();
    assert_eq!(
        json,
        "{\"volume\":{\"percent\":\"42\"},\"brightness\":{\"brightness\":\"60\"},\"battery\":{\"percent\":\"88\"},\"memory\":{\"used_bytes\":\"4000\",\"used_percent\":\"25\",\"icon\":\"nvidia-ram-symbolic.svg\"},\"bluetooth\":{\"state\":\"true\"}}"
    );
}

fn readings() -> ProviderReadings {
    ProviderReadings {
        volume_percent: 42,
        volume_mute: false,
        brightness_output: String::from("nvidia_wmi_ec_backlight,backlight,60,60%,100"),
        bluetooth_output: String::from("hci0 power on"),
        battery_output: String::from("Battery 0: Discharging, 45%, 01:20:11 remaining"),
        ram_output: String::from("total\nMem: 100 50 40 10 20 30"),
        fan_profile_output: String::from("x\na b c Quiet\n"),
    }
}

#[test]
fn snapshot_holds_every_provider_in_order() {
    let groups = get_all_tuples(&readings()).unwrap();
    let names: Vec<&str> = groups.iter().map(|g| g.0.as_str()).collect();
    assert_eq!(names, vec!["volume", "brightness", "bluetooth", "battery", "ram", "fan_profile"]);
    assert_eq!(groups[0].1[0].1, "42");
    assert_eq!(groups[5].1[0].1, "Quiet");
}

#[test]
fn snapshot_aborts_whole_when_one_provider_fails() {
    let mut r = readings();
    r.battery_output = String::from("nonsense");
    assert!(get_all_tuples(&r).is_err());
}

#[test]
fn tuple_names_index_and_dispatch() {
    assert!(matches!(TupleName::from_index(0).unwrap(), TupleName::Volume));
    assert!(matches!(TupleName::from_index(5).unwrap(), TupleName::FanProfile));
    assert!(TupleName::from_index(6).is_err());
    assert_eq!(TupleName::Ram.as_str(), "ram");
    let ram = tuple_name_to_tuples(&TupleName::Ram, &readings()).unwrap();
    assert_eq!(ram[0].0, "total");
}

#[test]
fn cli_bool_parsing_is_case_insensitive() {
    assert_eq!(parse_bool("true").unwrap(), true);
    assert_eq!(parse_bool("TRUE").unwrap(), true);
    assert_eq!(parse_bool("1").unwrap(), true);
    assert_eq!(parse_bool("False").unwrap(), false);
    assert_eq!(parse_bool("0").unwrap(), false);
    assert!(parse_bool("si").is_err());
}

#[test]
fn bare_get_asks_for_everything() {
    match match_cli(CliCommands::GetCmd { commands: None }) {
        CliAction::Send(DaemonMessage::Get { item }) => assert_eq!(item, DaemonItem::All),
        other => panic!("unexpected action: {other:?}"),
    }
    assert!(matches!(match_cli(CliCommands::Listen), CliAction::Listen));
    assert!(matches!(match_cli(CliCommands::Daemon), CliAction::Daemon));
}
