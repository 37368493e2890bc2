//! Volume provider: icon choice, tuple building, and the decisions around
//! setting volume and mute. Reading the raw mixer level involves a
//! logarithmic-to-linear float conversion, so the surrounding binary hands
//! this module the already-converted percent.
use vstd::prelude::*;
use vstd::string::*;

use crate::command::Command;
use crate::daemon::{
    pairs_view, DaemonItem, DaemonMessage, DaemonReply, ItemResponse, NotifyDecision,
};
use crate::error::DaemonError;
use crate::text::{
    bool_to_string, dec_str, parse_bool_strict, spec_split_ws, spec_trim_start_matches, split_ws,
    str_eq, trim_start_matches, u32_to_string,
};

verus! {

/// One volume field named on the command line.
#[derive(Debug, Clone, Copy)]
pub enum VolumeGetCommands {
    Percent,
    Mute,
    Icon,
}

/// One volume set named on the command line.
#[derive(Debug, Clone)]
pub enum VolumeSetCommands {
    Percent { value: String },
    Mute { value: Option<bool> },
}

/// One addressable field of the volume provider.
#[derive(Debug, Clone, Copy, PartialEq, Eq, Structural)]
pub enum VolumeItem {
    Percent,
    Mute,
    Icon,
    All,
}

/// The tokens of `wpctl get-volume` output with its `Volume: ` prefix
/// stripped: the level, then a mute marker when muted.
pub open spec fn spec_vol_tokens(out: Seq<char>) -> Seq<Seq<char>> {
    spec_split_ws(spec_trim_start_matches(out, "Volume: "@))
}

/// Whether the output says the sink is muted: a token follows the level.
pub open spec fn spec_vol_mute(out: Seq<char>) -> Option<bool> {
    if spec_vol_tokens(out).len() == 0 {
        None
    } else {
        Some(spec_vol_tokens(out).len() >= 2)
    }
}

/// The icon name for a volume percent and mute state.
pub open spec fn spec_volume_icon(percent: u32, muted: bool) -> Seq<char> {
    if muted || percent == 0 {
        "audio-volume-muted"@
    } else if percent <= 33 {
        "audio-volume-low"@
    } else if percent <= 67 {
        "audio-volume-medium"@
    } else if percent <= 100 {
        "audio-volume-high"@
    } else {
        "audio-volume-overamplified"@
    }
}

/// The volume tuple list for a percent and mute state.
pub open spec fn spec_volume_tuples(percent: u32, mute: bool) -> Seq<(Seq<char>, Seq<char>)> {
    seq![
        ("percent"@, dec_str(percent as int)),
        (
            "mute_state"@,
            if mute {
                "true"@
            } else {
                "false"@
            },
        ),
        ("icon"@, spec_volume_icon(percent, mute) + crate::ICON_EXT@),
    ]
}

pub struct Volume;

impl Volume {
    /// The icon name for a volume percent and mute state.
    pub fn get_icon(percent: u32, muted: bool) -> (r: String)
        ensures
            r@ == spec_volume_icon(percent, muted),
    {
        if muted || percent == 0 {
            String::from_str("audio-volume-muted")
        } else if percent <= 33 {
            String::from_str("audio-volume-low")
        } else if percent <= 67 {
            String::from_str("audio-volume-medium")
        } else if percent <= 100 {
            String::from_str("audio-volume-high")
        } else {
            String::from_str("audio-volume-overamplified")
        }
    }

    /// Reads the mute state out of one `wpctl get-volume` output.
    pub fn get_mute(output: &str) -> (r: Result<bool, DaemonError>)
        ensures
            r is Ok <==> spec_vol_mute(output@) is Some,
            r matches Ok(b) ==> Some(b) == spec_vol_mute(output@),
            r matches Err(e) ==> (e matches DaemonError::ParseError(m) && m@ == output@),
    {
        let stripped = trim_start_matches(output, "Volume: ");
        let toks = split_ws(stripped.as_str());
        if toks.len() == 0 {
            Err(DaemonError::ParseError(String::from_str(output)))
        } else {
            Ok(toks.len() >= 2)
        }
    }

    /// Plans the command that sets the mute state: `toggle` is passed
    /// through, a boolean becomes `1` or `0`.
    pub fn set_mute(mute_string: &str) -> (r: Result<Command, DaemonError>)
        ensures
            r is Ok <==> (mute_string@ == "toggle"@ || mute_string@ == "true"@ || mute_string@
                == "false"@),
            r matches Ok(cmd) ==> {
                &&& cmd.name@ == "wpctl"@
                &&& cmd.args.deep_view() =~~= seq![
                    "set-mute"@,
                    "@DEFAULT_SINK@"@,
                    if mute_string@ == "toggle"@ {
                        "toggle"@
                    } else if mute_string@ == "true"@ {
                        "1"@
                    } else {
                        "0"@
                    },
                ]
            },
    {
        let arg: String = if str_eq(mute_string, "toggle") {
            String::from_str("toggle")
        } else {
            let b = parse_bool_strict(mute_string)?;
            if b {
                String::from_str("1")
            } else {
                String::from_str("0")
            }
        };
        let mut cmd = Command::new("wpctl");
        cmd.arg("set-mute");
        cmd.arg("@DEFAULT_SINK@");
        cmd.arg(arg.as_str());
        Ok(cmd)
    }

    /// The name/value pairs of the whole volume state, in their fixed order.
    pub fn get_tuples(percent: u32, mute_state: bool) -> (r: Vec<(String, String)>)
        ensures
            pairs_view(r@) =~~= spec_volume_tuples(percent, mute_state),
    {
        let icon = Self::get_icon(percent, mute_state);
        let mut v: Vec<(String, String)> = Vec::new();
        v.push((String::from_str("percent"), u32_to_string(percent)));
        v.push((String::from_str("mute_state"), bool_to_string(mute_state)));
        v.push((String::from_str("icon"), icon.concat(crate::ICON_EXT)));
        v
    }

    /// Handles one volume request, given the current percent and mute state.
    /// With a value it plans the set: the mute command is built here; the
    /// percent command needs the logarithmic float conversion and is left to
    /// the caller of the planned `Recheck`. The notification fires exactly
    /// when a re-observation differs, which `should_notify` decides.
    pub fn parse_item(
        item: DaemonItem,
        volume_item: &VolumeItem,
        value: Option<String>,
        percent: u32,
        mute: bool,
    ) -> (r: Result<ItemResponse, DaemonError>)
        ensures
            r matches Ok(resp) ==> match value {
                Some(v) => {
                    &&& resp.reply matches DaemonReply::Value { item: i, value: rv } && i == item
                        && rv@ == v@
                    &&& resp.notify == NotifyDecision::Recheck
                    &&& (resp.command is Some <==> volume_item == VolumeItem::Mute)
                    &&& (volume_item == VolumeItem::Mute ==> (resp.command matches Some(cmd)
                        && cmd.name@ == "wpctl"@ && cmd.args.deep_view() =~~= seq![
                        "set-mute"@,
                        "@DEFAULT_SINK@"@,
                        if v@ == "toggle"@ {
                            "toggle"@
                        } else if v@ == "true"@ {
                            "1"@
                        } else {
                            "0"@
                        },
                    ]))
                },
                None => match volume_item {
                    VolumeItem::Percent => resp.reply matches DaemonReply::Value {
                        item: i,
                        value: rv,
                    } && i == item && rv@ == dec_str(percent as int) && resp.command is None,
                    VolumeItem::Mute => resp.reply matches DaemonReply::Value {
                        item: i,
                        value: rv,
                    } && i == item && rv@ == (if mute {
                        "true"@
                    } else {
                        "false"@
                    }) && resp.command is None,
                    VolumeItem::Icon => resp.reply matches DaemonReply::Value {
                        item: i,
                        value: rv,
                    } && i == item && rv@ == spec_volume_icon(percent, mute)
                        && resp.command is None,
                    VolumeItem::All => resp.reply matches DaemonReply::Tuples {
                        item: i,
                        tuples,
                    } && i == item && (pairs_view(tuples@) =~~= spec_volume_tuples(percent, mute))
                        && resp.command is None,
                },
            },
            value is Some && volume_item == VolumeItem::Mute ==> (r is Ok <==> (value->0@
                == "toggle"@ || value->0@ == "true"@ || value->0@ == "false"@)),
            value is Some && volume_item != VolumeItem::Mute ==> r is Ok,
            value is None ==> r is Ok,
    {
        if let Some(value) = value {
            let command: Option<Command> = match volume_item {
                VolumeItem::Mute => Some(Self::set_mute(value.as_str())?),
                _ => None,
            };
            Ok(
                ItemResponse {
                    reply: DaemonReply::Value { item, value },
                    command,
                    notify: NotifyDecision::Recheck,
                },
            )
        } else {
            let reply = match volume_item {
                VolumeItem::Percent => DaemonReply::Value { item, value: u32_to_string(percent) },
                VolumeItem::Mute => DaemonReply::Value { item, value: bool_to_string(mute) },
                VolumeItem::Icon => DaemonReply::Value {
                    item,
                    value: Self::get_icon(percent, mute),
                },
                VolumeItem::All => DaemonReply::Tuples {
                    item,
                    tuples: Self::get_tuples(percent, mute),
                },
            };
            Ok(ItemResponse { reply, command: None, notify: NotifyDecision::No })
        }
    }

    /// Whether a notification is owed after a volume set: exactly when the
    /// observed percent/mute pair changed.
    pub fn should_notify(
        prev_percent: u32,
        prev_mute: bool,
        new_percent: u32,
        new_mute: bool,
    ) -> (r: bool)
        ensures
            r == (prev_percent != new_percent || prev_mute != new_mute),
    {
        prev_percent != new_percent || prev_mute != new_mute
    }

    /// The request one volume get subcommand stands for.
    pub fn match_get_commands(commands: &Option<VolumeGetCommands>) -> (r: DaemonMessage)
        ensures
            r matches DaemonMessage::Get { item } && item == DaemonItem::Volume(
                match commands {
                    Some(VolumeGetCommands::Percent) => VolumeItem::Percent,
                    Some(VolumeGetCommands::Mute) => VolumeItem::Mute,
                    Some(VolumeGetCommands::Icon) => VolumeItem::Icon,
                    None => VolumeItem::All,
                },
            ),
    {
        DaemonMessage::Get {
            item: match commands {
                Some(commands) => match commands {
                    VolumeGetCommands::Percent => DaemonItem::Volume(VolumeItem::Percent),
                    VolumeGetCommands::Mute => DaemonItem::Volume(VolumeItem::Mute),
                    VolumeGetCommands::Icon => DaemonItem::Volume(VolumeItem::Icon),
                },
                None => DaemonItem::Volume(VolumeItem::All),
            },
        }
    }

    /// The request one volume set subcommand stands for; an absent mute value
    /// asks for a toggle.
    pub fn match_set_commands(commands: VolumeSetCommands) -> (r: DaemonMessage)
        ensures
            match commands {
                VolumeSetCommands::Percent { value } => r matches DaemonMessage::SetValue {
                    item,
                    value: v,
                } && item == DaemonItem::Volume(VolumeItem::Percent) && v@ == value@,
                VolumeSetCommands::Mute { value } => r matches DaemonMessage::SetValue {
                    item,
                    value: v,
                } && item == DaemonItem::Volume(VolumeItem::Mute) && v@ == (match value {
                    Some(true) => "true"@,
                    Some(false) => "false"@,
                    None => "toggle"@,
                }),
            },
    {
        match commands {
            VolumeSetCommands::Percent { value } => DaemonMessage::SetValue {
                item: DaemonItem::Volume(VolumeItem::Percent),
                value,
            },
            VolumeSetCommands::Mute { value } => DaemonMessage::SetValue {
                item: DaemonItem::Volume(VolumeItem::Mute),
                value: match value {
                    Some(b) => bool_to_string(b),
                    None => String::from_str("toggle"),
                },
            },
        }
    }

    /// Plans the desktop notification for the current volume state: the
    /// replacement id, the icon for the state, the timeout, the percent as
    /// a progress hint, and the `Volume: ` body.
    pub fn notify(percent: u32, muted: bool) -> (r: Command)
        ensures
            r.name@ == "dunstify"@,
            r.args.deep_view() =~~= seq![
                "-u"@,
                "normal"@,
                "-r"@,
                dec_str(crate::NOTIFICATION_ID as int),
                "-i"@,
                spec_volume_icon(percent, muted) + crate::ICON_END@,
                "-t"@,
                dec_str(crate::NOTIFICATION_TIMEOUT as int),
                "-h"@,
                "int:value:"@ + dec_str(percent as int),
                "Volume: "@,
            ],
    {
        let icon = Self::get_icon(percent, muted);
        let mut cmd = Command::new("dunstify");
        cmd.arg("-u");
        cmd.arg("normal");
        cmd.arg("-r");
        cmd.arg(u32_to_string(crate::NOTIFICATION_ID).as_str());
        cmd.arg("-i");
        cmd.arg(icon.concat(crate::ICON_END).as_str());
        cmd.arg("-t");
        cmd.arg(u32_to_string(crate::NOTIFICATION_TIMEOUT).as_str());
        cmd.arg("-h");
        let mut hint = String::from_str("int:value:");
        hint.append(u32_to_string(percent).as_str());
        cmd.arg(hint.as_str());
        cmd.arg("Volume: ");
        cmd
    }
}

} // verus!
