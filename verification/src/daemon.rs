//! The daemon's wire data model: what a client may ask (`DaemonMessage`),
//! what it is answered (`DaemonReply`), and the addressing of one value,
//! one provider, or everything (`DaemonItem`).
use vstd::prelude::*;

use crate::battery::BatteryItem;
use crate::bluetooth::BluetoothItem;
use crate::brightness::BrightnessItem;
use crate::fan_profile::FanProfileItem;
use crate::ram::RamItem;
use crate::volume::VolumeItem;

verus! {

/// Names one addressable target: a single leaf of one provider, a whole
/// provider (its `All` leaf), or the union of every provider (`All`).
#[derive(Debug, Clone, Copy, PartialEq, Eq, Structural)]
pub enum DaemonItem {
    Volume(VolumeItem),
    Brightness(BrightnessItem),
    Bluetooth(BluetoothItem),
    Battery(BatteryItem),
    Ram(RamItem),
    FanProfile(FanProfileItem),
    All,
}

/// One request read from a client connection.
#[derive(Debug, Clone)]
pub enum DaemonMessage {
    SetValue { item: DaemonItem, value: String },
    Get { item: DaemonItem },
    Listen,
}

/// One reply written back for a `Set` or `Get`; `Listen` gets none.
#[derive(Debug, Clone)]
pub enum DaemonReply {
    Value { item: DaemonItem, value: String },
    Tuples { item: DaemonItem, tuples: Vec<(String, String)> },
    AllTuples { tuples: Vec<(String, Vec<(String, String)>)> },
    Error(String),
}

/// Whether, and when, a provider-specific desktop notification should follow
/// a handled request.
#[derive(Debug, Clone, Copy, PartialEq, Eq, Structural)]
pub enum NotifyDecision {
    /// No notification.
    No,
    /// Notify right after the planned command ran.
    Now,
    /// Observe the provider again after the planned command ran and notify
    /// exactly when the observable state changed.
    Recheck,
}

/// What handling one request yields: the reply to send back, the external
/// command to run first (if any), and the notification decision.
#[derive(Debug, Clone)]
pub struct ItemResponse {
    pub reply: DaemonReply,
    pub command: Option<crate::command::Command>,
    pub notify: NotifyDecision,
}

/// Mathematical shape of a `DaemonMessage`: the strings as char sequences.
pub enum MessageModel {
    SetValue { item: DaemonItem, value: Seq<char> },
    Get { item: DaemonItem },
    Listen,
}

/// Mathematical shape of a `DaemonReply`.
pub enum ReplyModel {
    Value { item: DaemonItem, value: Seq<char> },
    Tuples { item: DaemonItem, tuples: Seq<(Seq<char>, Seq<char>)> },
    AllTuples { tuples: Seq<(Seq<char>, Seq<(Seq<char>, Seq<char>)>)> },
    Error(Seq<char>),
}

/// The name/value pairs a tuple list holds, as char sequences.
pub open spec fn pairs_view(v: Seq<(String, String)>) -> Seq<(Seq<char>, Seq<char>)> {
    v.map_values(|p: (String, String)| (p.0@, p.1@))
}

/// The named groups of a global snapshot, as char sequences.
pub open spec fn groups_view(v: Seq<(String, Vec<(String, String)>)>) -> Seq<
    (Seq<char>, Seq<(Seq<char>, Seq<char>)>),
> {
    v.map_values(|g: (String, Vec<(String, String)>)| (g.0@, pairs_view(g.1@)))
}

impl View for DaemonMessage {
    type V = MessageModel;

    open spec fn view(&self) -> MessageModel {
        match self {
            DaemonMessage::SetValue { item, value } => MessageModel::SetValue {
                item: *item,
                value: value@,
            },
            DaemonMessage::Get { item } => MessageModel::Get { item: *item },
            DaemonMessage::Listen => MessageModel::Listen,
        }
    }
}

impl View for DaemonReply {
    type V = ReplyModel;

    open spec fn view(&self) -> ReplyModel {
        match self {
            DaemonReply::Value { item, value } => ReplyModel::Value {
                item: *item,
                value: value@,
            },
            DaemonReply::Tuples { item, tuples } => ReplyModel::Tuples {
                item: *item,
                tuples: pairs_view(tuples@),
            },
            DaemonReply::AllTuples { tuples } => ReplyModel::AllTuples {
                tuples: groups_view(tuples@),
            },
            DaemonReply::Error(m) => ReplyModel::Error(m@),
        }
    }
}

/// The one provider observation a request needs: plain parsed values for
/// volume, the raw tool output for the others, or a full reading for the
/// global snapshot. A `Get` or `Set` consumes exactly one of these, so the
/// dispatcher never waits on more than one provider call.
#[derive(Debug, Clone)]
pub enum ProviderData {
    Volume { percent: u32, mute: bool },
    Brightness { output: String },
    Bluetooth { output: String },
    Battery { output: String },
    Ram { output: String },
    FanProfile { output: String },
    All(crate::tuples::ProviderReadings),
}

/// The observation fits the addressed item.
pub open spec fn data_matches(item: DaemonItem, data: &ProviderData) -> bool {
    match item {
        DaemonItem::Volume(_) => data is Volume,
        DaemonItem::Brightness(_) => data is Brightness,
        DaemonItem::Bluetooth(_) => data is Bluetooth,
        DaemonItem::Battery(_) => data is Battery,
        DaemonItem::Ram(_) => data is Ram,
        DaemonItem::FanProfile(_) => data is FanProfile,
        DaemonItem::All => data is All,
    }
}

/// The reply a `Get` yields from its observation, or nothing when the
/// observation does not parse — the dispatcher then answers `Error`.
pub open spec fn spec_get_reply(item: DaemonItem, data: &ProviderData) -> Option<ReplyModel> {
    match item {
        DaemonItem::Volume(leaf) => {
            let percent = data->Volume_percent;
            let mute = data->Volume_mute;
            Some(
                match leaf {
                    crate::volume::VolumeItem::Percent => ReplyModel::Value {
                        item,
                        value: crate::text::dec_str(percent as int),
                    },
                    crate::volume::VolumeItem::Mute => ReplyModel::Value {
                        item,
                        value: if mute {
                            "true"@
                        } else {
                            "false"@
                        },
                    },
                    crate::volume::VolumeItem::Icon => ReplyModel::Value {
                        item,
                        value: crate::volume::spec_volume_icon(percent, mute),
                    },
                    crate::volume::VolumeItem::All => ReplyModel::Tuples {
                        item,
                        tuples: crate::volume::spec_volume_tuples(percent, mute),
                    },
                },
            )
        },
        DaemonItem::Brightness(leaf) => {
            let out = data->Brightness_output@;
            if !crate::brightness::spec_bri_ok(out) {
                None
            } else {
                Some(
                    match leaf {
                        crate::brightness::BrightnessItem::Monitor => ReplyModel::Value {
                            item,
                            value: crate::text::dec_str(
                                crate::brightness::spec_bri_percent(out) as int,
                            ),
                        },
                        crate::brightness::BrightnessItem::Keyboard => ReplyModel::Value {
                            item,
                            value: crate::text::dec_str(
                                crate::brightness::spec_bri_percent(out) as int,
                            ),
                        },
                        crate::brightness::BrightnessItem::Icon => ReplyModel::Value {
                            item,
                            value: crate::brightness::spec_bri_icon(
                                true,
                                crate::brightness::spec_bri_percent(out),
                            ),
                        },
                        crate::brightness::BrightnessItem::All => ReplyModel::Tuples {
                            item,
                            tuples: crate::brightness::spec_bri_tuples(out),
                        },
                    },
                )
            }
        },
        DaemonItem::Bluetooth(leaf) => {
            let out = data->Bluetooth_output@;
            match crate::bluetooth::spec_bt_state(out) {
                None => None,
                Some(state) => Some(
                    match leaf {
                        crate::bluetooth::BluetoothItem::State => ReplyModel::Value {
                            item,
                            value: if state {
                                "true"@
                            } else {
                                "false"@
                            },
                        },
                        crate::bluetooth::BluetoothItem::Icon => ReplyModel::Value {
                            item,
                            value: crate::bluetooth::spec_bt_icon(state),
                        },
                        crate::bluetooth::BluetoothItem::All => ReplyModel::Tuples {
                            item,
                            tuples: crate::bluetooth::spec_bt_tuples(out),
                        },
                    },
                ),
            }
        },
        DaemonItem::Battery(leaf) => {
            let out = data->Battery_output@;
            match leaf {
                crate::battery::BatteryItem::State => match crate::battery::spec_state_of(
                    crate::battery::spec_state_text(out),
                ) {
                    None => None,
                    Some(st) => Some(
                        ReplyModel::Value {
                            item,
                            value: crate::battery::spec_state_string(st),
                        },
                    ),
                },
                crate::battery::BatteryItem::Percent => if crate::battery::spec_percent_ok(out) {
                    Some(
                        ReplyModel::Value {
                            item,
                            value: crate::text::dec_str(crate::battery::spec_percent_of(out)),
                        },
                    )
                } else {
                    None
                },
                crate::battery::BatteryItem::Time => match crate::battery::spec_time_of(out) {
                    None => None,
                    Some(t) => Some(ReplyModel::Value { item, value: t }),
                },
                crate::battery::BatteryItem::Icon => if crate::battery::spec_battery_ok(out) {
                    Some(
                        ReplyModel::Value {
                            item,
                            value: crate::battery::spec_battery_icon(
                                crate::battery::spec_state_of(
                                    crate::battery::spec_state_text(out),
                                )->0,
                                crate::battery::spec_percent_of(out) as u32,
                            ),
                        },
                    )
                } else {
                    None
                },
                crate::battery::BatteryItem::All => if crate::battery::spec_battery_ok(out) {
                    Some(
                        ReplyModel::Tuples {
                            item,
                            tuples: crate::battery::spec_battery_tuples(out),
                        },
                    )
                } else {
                    None
                },
            }
        },
        DaemonItem::Ram(leaf) => {
            let out = data->Ram_output@;
            match leaf {
                crate::ram::RamItem::Total => if crate::ram::spec_ram_field_ok(out, 0) {
                    Some(
                        ReplyModel::Value {
                            item,
                            value: crate::text::dec_str(crate::ram::spec_ram_field(out, 0)),
                        },
                    )
                } else {
                    None
                },
                crate::ram::RamItem::Used => if crate::ram::spec_ram_field_ok(out, 1) {
                    Some(
                        ReplyModel::Value {
                            item,
                            value: crate::text::dec_str(crate::ram::spec_ram_field(out, 1)),
                        },
                    )
                } else {
                    None
                },
                crate::ram::RamItem::Percent => if crate::ram::spec_ram_ok(out) {
                    Some(
                        ReplyModel::Value {
                            item,
                            value: crate::text::dec_str(
                                crate::ram::spec_ram_percent(
                                    crate::ram::spec_ram_field(out, 1) as u64,
                                    crate::ram::spec_ram_field(out, 0) as u64,
                                ) as int,
                            ),
                        },
                    )
                } else {
                    None
                },
                crate::ram::RamItem::Icon => Some(
                    ReplyModel::Value { item, value: "nvidia-ram"@ + crate::ICON_END@ },
                ),
                crate::ram::RamItem::All => if crate::ram::spec_ram_ok(out) {
                    Some(ReplyModel::Tuples { item, tuples: crate::ram::spec_ram_tuples(out) })
                } else {
                    None
                },
            }
        },
        DaemonItem::FanProfile(leaf) => {
            let out = data->FanProfile_output@;
            match leaf {
                crate::fan_profile::FanProfileItem::Profile => match
                    crate::fan_profile::spec_fan_profile(out) {
                    None => None,
                    Some(p) => Some(
                        ReplyModel::Value {
                            item,
                            value: crate::fan_profile::spec_fan_string(p),
                        },
                    ),
                },
                crate::fan_profile::FanProfileItem::Icon => Some(
                    ReplyModel::Value { item, value: "sensors-fan"@ + crate::ICON_END@ },
                ),
            }
        },
        DaemonItem::All => {
            let readings = data->All_0;
            if crate::tuples::spec_readings_ok(&readings) {
                Some(ReplyModel::AllTuples { tuples: crate::tuples::spec_all_tuples(&readings) })
            } else {
                None
            }
        },
    }
}

/// Dispatches one `Get`: exactly one provider observation in, exactly one
/// reply out; an observation that does not parse yields `Error` and never a
/// panic or a dropped connection.
pub fn match_get_command(item: DaemonItem, data: &ProviderData) -> (r: DaemonReply)
    requires
        data_matches(item, data),
    ensures
        match spec_get_reply(item, data) {
            Some(m) => r@ == m,
            None => r is Error,
        },
{
    match (item, data) {
        (DaemonItem::Volume(leaf), ProviderData::Volume { percent, mute }) => {
            match crate::volume::Volume::parse_item(item, &leaf, None, *percent, *mute) {
                Ok(resp) => resp.reply,
                Err(e) => DaemonReply::Error(e.message()),
            }
        },
        (DaemonItem::Brightness(leaf), ProviderData::Brightness { output }) => {
            match crate::brightness::Brightness::parse_item(item, &leaf, None, output.as_str()) {
                Ok(resp) => resp.reply,
                Err(e) => DaemonReply::Error(e.message()),
            }
        },
        (DaemonItem::Bluetooth(leaf), ProviderData::Bluetooth { output }) => {
            match crate::bluetooth::Bluetooth::parse_item(item, leaf, None, output.as_str()) {
                Ok(resp) => resp.reply,
                Err(e) => DaemonReply::Error(e.message()),
            }
        },
        (DaemonItem::Battery(leaf), ProviderData::Battery { output }) => {
            match crate::battery::Battery::parse_item(item, &leaf, output.as_str()) {
                Ok(reply) => reply,
                Err(e) => DaemonReply::Error(e.message()),
            }
        },
        (DaemonItem::Ram(leaf), ProviderData::Ram { output }) => {
            match crate::ram::Ram::parse_item(item, &leaf, output.as_str()) {
                Ok(reply) => reply,
                Err(e) => DaemonReply::Error(e.message()),
            }
        },
        (DaemonItem::FanProfile(leaf), ProviderData::FanProfile { output }) => {
            match crate::fan_profile::FanProfile::parse_item(item, &leaf, None, output.as_str()) {
                Ok(resp) => resp.reply,
                Err(e) => DaemonReply::Error(e.message()),
            }
        },
        (DaemonItem::All, ProviderData::All(readings)) => {
            match crate::tuples::get_all_tuples(readings) {
                Ok(tuples) => DaemonReply::AllTuples { tuples },
                Err(e) => DaemonReply::Error(e.message()),
            }
        },
        _ => {
            proof {
                assert(false);
            }
            DaemonReply::Error(String::new())
        },
    }
}

/// Whether a `Set` is turned away: `All` always is; otherwise exactly when
/// the value does not parse for the leaf or the observation needed to plan
/// the change does not parse.
pub open spec fn spec_set_rejected(item: DaemonItem, value: Seq<char>, data: &ProviderData) -> bool {
    match item {
        DaemonItem::All => true,
        DaemonItem::Volume(leaf) => leaf == crate::volume::VolumeItem::Mute && !(value
            == "toggle"@ || value == "true"@ || value == "false"@),
        DaemonItem::Bluetooth(_) => crate::bluetooth::spec_bt_state(data->Bluetooth_output@)
            is None || !(value == "true"@ || value == "false"@),
        DaemonItem::Brightness(leaf) => (leaf == crate::brightness::BrightnessItem::Monitor
            || leaf == crate::brightness::BrightnessItem::Keyboard) && !(
        crate::brightness::spec_bri_ok(data->Brightness_output@)
            && crate::brightness::spec_bri_target(
            value,
            crate::brightness::spec_bri_percent(data->Brightness_output@),
        ) is Some),
        DaemonItem::FanProfile(leaf) => leaf == crate::fan_profile::FanProfileItem::Profile && !(
        crate::fan_profile::spec_fan_profile(data->FanProfile_output@) is Some && (
        crate::fan_profile::spec_fan_of(crate::text::spec_trim(value)) is Some || value == "next"@
            || value == "prev"@)),
        DaemonItem::Battery(_) => false,
        DaemonItem::Ram(_) => false,
    }
}

/// Dispatches one `Set`: plans the provider command and the notification,
/// and echoes the value on success. `Set` on `All` is always an error, for
/// any value. A rejected set is answered `Error` and plans nothing.
pub fn match_set_command(item: DaemonItem, value: String, data: &ProviderData) -> (r: ItemResponse)
    requires
        data_matches(item, data),
    ensures
        r.reply is Error <==> spec_set_rejected(item, value@, data),
        item is All ==> (r.reply is Error && r.command is None),
        !spec_set_rejected(item, value@, data) ==> (r.reply matches DaemonReply::Value {
            item: i,
            value: v,
        } && i == item && v@ == value@),
        spec_set_rejected(item, value@, data) ==> r.command is None,
        !spec_set_rejected(item, value@, data) ==> match item {
            DaemonItem::Volume(leaf) => if leaf == crate::volume::VolumeItem::Mute {
                r.command matches Some(cmd) && cmd.name@ == "wpctl"@ && cmd.args.deep_view()
                    =~~= seq![
                    "set-mute"@,
                    "@DEFAULT_SINK@"@,
                    if value@ == "toggle"@ {
                        "toggle"@
                    } else if value@ == "true"@ {
                        "1"@
                    } else {
                        "0"@
                    },
                ]
            } else {
                r.command is None
            },
            DaemonItem::Bluetooth(leaf) => if leaf == crate::bluetooth::BluetoothItem::State {
                r.command matches Some(cmd) && cmd.name@ == "bluetooth"@ && cmd.args.deep_view()
                    =~~= seq![
                    if value@ == "true"@ {
                        "on"@
                    } else {
                        "off"@
                    },
                ]
            } else {
                r.command is None
            },
            DaemonItem::Brightness(leaf) => {
                let out = data->Brightness_output@;
                if leaf == crate::brightness::BrightnessItem::Monitor {
                    r.command matches Some(cmd) && cmd.name@ == "brightnessctl"@
                        && cmd.args.deep_view() =~~= crate::brightness::spec_bri_set_args(
                        crate::brightness::MONITOR_ID@,
                        crate::brightness::spec_bri_target(
                            value@,
                            crate::brightness::spec_bri_percent(out),
                        )->0,
                    )
                } else if leaf == crate::brightness::BrightnessItem::Keyboard {
                    r.command matches Some(cmd) && cmd.name@ == "brightnessctl"@
                        && cmd.args.deep_view() =~~= crate::brightness::spec_bri_set_args(
                        crate::brightness::KEYBOARD_ID@,
                        crate::brightness::spec_bri_target(
                            value@,
                            crate::brightness::spec_bri_percent(out),
                        )->0,
                    )
                } else {
                    r.command is None
                }
            },
            DaemonItem::FanProfile(leaf) => if leaf
                == crate::fan_profile::FanProfileItem::Profile {
                r.command matches Some(cmd) && cmd.name@ == "asusctl"@ && cmd.args.deep_view()
                    =~~= seq![
                    "profile"@,
                    "-P"@,
                    crate::fan_profile::spec_fan_target(value@, data->FanProfile_output@),
                ]
            } else {
                r.command is None
            },
            DaemonItem::Battery(_) => r.command is None,
            DaemonItem::Ram(_) => r.command is None,
            DaemonItem::All => r.command is None,
        },
        !spec_set_rejected(item, value@, data) ==> r.notify == match item {
            DaemonItem::Volume(_) => NotifyDecision::Recheck,
            DaemonItem::Brightness(_) => NotifyDecision::Recheck,
            DaemonItem::FanProfile(_) => NotifyDecision::Recheck,
            DaemonItem::Bluetooth(_) => if (value@ == "true"@) != crate::bluetooth::spec_bt_state(
                data->Bluetooth_output@,
            )->0 {
                NotifyDecision::Now
            } else {
                NotifyDecision::No
            },
            DaemonItem::Battery(_) => NotifyDecision::No,
            DaemonItem::Ram(_) => NotifyDecision::No,
            DaemonItem::All => NotifyDecision::No,
        },
{
    let err_none = |e: crate::error::DaemonError| -> (r: ItemResponse)
        ensures
            r.reply is Error && r.command is None,
        {
            ItemResponse {
                reply: DaemonReply::Error(e.message()),
                command: None,
                notify: NotifyDecision::No,
            }
        };
    match (item, data) {
        (DaemonItem::Volume(leaf), ProviderData::Volume { percent, mute }) => {
            match crate::volume::Volume::parse_item(item, &leaf, Some(value), *percent, *mute) {
                Ok(resp) => resp,
                Err(e) => err_none(e),
            }
        },
        (DaemonItem::Brightness(leaf), ProviderData::Brightness { output }) => {
            match crate::brightness::Brightness::parse_item(
                item,
                &leaf,
                Some(value),
                output.as_str(),
            ) {
                Ok(resp) => resp,
                Err(e) => err_none(e),
            }
        },
        (DaemonItem::Bluetooth(leaf), ProviderData::Bluetooth { output }) => {
            match crate::bluetooth::Bluetooth::parse_item(
                item,
                leaf,
                Some(value),
                output.as_str(),
            ) {
                Ok(resp) => resp,
                Err(e) => err_none(e),
            }
        },
        (DaemonItem::FanProfile(leaf), ProviderData::FanProfile { output }) => {
            match crate::fan_profile::FanProfile::parse_item(
                item,
                &leaf,
                Some(value),
                output.as_str(),
            ) {
                Ok(resp) => resp,
                Err(e) => err_none(e),
            }
        },
        (DaemonItem::Battery(_), _) | (DaemonItem::Ram(_), _) => ItemResponse {
            reply: DaemonReply::Value { item, value },
            command: None,
            notify: NotifyDecision::No,
        },
        (DaemonItem::All, _) => ItemResponse {
            reply: DaemonReply::Error(
                String::from_str("cannot set every value at once"),
            ),
            command: None,
            notify: NotifyDecision::No,
        },
        _ => {
            proof {
                assert(false);
            }
            ItemResponse {
                reply: DaemonReply::Error(String::new()),
                command: None,
                notify: NotifyDecision::No,
            }
        },
    }
}

/// The update-trigger signal a `Set` on this item publishes.
pub open spec fn spec_update_signal(item: DaemonItem) -> crate::listener::ClientMessage {
    match item {
        DaemonItem::Volume(_) => crate::listener::ClientMessage::UpdateVolume,
        DaemonItem::Brightness(_) => crate::listener::ClientMessage::UpdateBrightness,
        DaemonItem::Bluetooth(_) => crate::listener::ClientMessage::UpdateBluetooth,
        DaemonItem::Battery(_) => crate::listener::ClientMessage::UpdateBattery,
        DaemonItem::Ram(_) => crate::listener::ClientMessage::UpdateRam,
        DaemonItem::FanProfile(_) => crate::listener::ClientMessage::UpdateFanProfile,
        DaemonItem::All => crate::listener::ClientMessage::UpdateAll,
    }
}

/// Exec mirror of `spec_update_signal`.
pub fn update_signal(item: &DaemonItem) -> (r: crate::listener::ClientMessage)
    ensures
        r == spec_update_signal(*item),
{
    match item {
        DaemonItem::Volume(_) => crate::listener::ClientMessage::UpdateVolume,
        DaemonItem::Brightness(_) => crate::listener::ClientMessage::UpdateBrightness,
        DaemonItem::Bluetooth(_) => crate::listener::ClientMessage::UpdateBluetooth,
        DaemonItem::Battery(_) => crate::listener::ClientMessage::UpdateBattery,
        DaemonItem::Ram(_) => crate::listener::ClientMessage::UpdateRam,
        DaemonItem::FanProfile(_) => crate::listener::ClientMessage::UpdateFanProfile,
        DaemonItem::All => crate::listener::ClientMessage::UpdateAll,
    }
}

/// What one socket read makes the connection do next.
#[derive(Debug)]
pub enum SocketAction {
    /// Undecodable bytes: drop the connection.
    Terminate,
    /// `Listen`: hand the socket to the registry; no reply is ever framed
    /// for it.
    Register,
    /// `Get` or `Set`: observe the provider, dispatch, and reply. For a
    /// `Set` the update-trigger signal noted here was already published.
    Dispatch { message: DaemonMessage, signal: Option<crate::listener::ClientMessage> },
}

/// Decides a connection's next step from the bytes one read yielded, and for
/// a `Set` publishes its update-trigger signal on the channel first.
pub fn on_read(
    bytes: &Vec<u8>,
    tx: &tokio::sync::mpsc::UnboundedSender<crate::listener::ClientMessage>,
) -> (r: SocketAction)
    ensures
        (forall|m: MessageModel| !crate::codec::enc_msg(m).is_prefix_of(bytes@))
            <==> r is Terminate,
        forall|m: MessageModel|
            crate::codec::enc_msg(m).is_prefix_of(bytes@) ==> match m {
                MessageModel::Listen => r is Register,
                MessageModel::Get { item } => (r matches SocketAction::Dispatch {
                    message,
                    signal,
                } && message@ == m && signal is None),
                MessageModel::SetValue { item, value } => (r matches SocketAction::Dispatch {
                    message,
                    signal,
                } && message@ == m && signal == Some(spec_update_signal(item))),
            },
{
    match crate::codec::decode_message(bytes) {
        None => SocketAction::Terminate,
        Some(message) => match message {
            DaemonMessage::Listen => SocketAction::Register,
            DaemonMessage::Get { item } => SocketAction::Dispatch {
                message: DaemonMessage::Get { item },
                signal: None,
            },
            DaemonMessage::SetValue { item, value } => {
                let signal = update_signal(&item);
                // A refused signal means the broadcast task has shut
                // down; that is not a request-level failure.
                let _delivered = crate::channel::send_client_message(tx, signal);
                SocketAction::Dispatch {
                    message: DaemonMessage::SetValue { item, value },
                    signal: Some(signal),
                }
            },
        },
    }
}

} // verus!
