//! Brightness provider: parsing `brightnessctl` machine-readable output,
//! icon choice, tuple building, and the decisions around setting a level.
//! Levels are handled as whole percents.
use vstd::prelude::*;
use vstd::string::*;

use crate::command::Command;
use crate::daemon::{
    pairs_view, DaemonItem, DaemonMessage, DaemonReply, ItemResponse, NotifyDecision,
};
use crate::error::DaemonError;
use crate::text::{
    dec_body, dec_str, dec_val, parse_u32, spec_split, split_char, u32_to_string, valid_u64_str,
};

verus! {

/// The monitor backlight device `brightnessctl` addresses.
pub const MONITOR_ID: &'static str = "nvidia_wmi_ec_backlight";

/// The keyboard backlight device `brightnessctl` addresses.
pub const KEYBOARD_ID: &'static str = "asus::kbd_backlight";

/// One brightness field named on the command line.
#[derive(Debug, Clone, Copy)]
pub enum BrightnessGetCommands {
    Monitor,
    Keyboard,
    Icon,
}

/// One brightness set named on the command line.
#[derive(Debug, Clone)]
pub enum BrightnessSetCommands {
    Monitor { value: String },
    Keyboard { value: String },
}

/// One addressable field of the brightness provider.
#[derive(Debug, Clone, Copy, PartialEq, Eq, Structural)]
pub enum BrightnessItem {
    Monitor,
    Keyboard,
    Icon,
    All,
}

/// Whether a `brightnessctl -m` output has readable current and maximum
/// fields: its third and fifth comma-separated pieces as numbers.
pub open spec fn spec_bri_ok(out: Seq<char>) -> bool {
    let parts = spec_split(out, ',');
    &&& parts.len() >= 5
    &&& valid_u64_str(parts[2])
    &&& dec_val(dec_body(parts[2])) <= u32::MAX
    &&& valid_u64_str(parts[4])
    &&& dec_val(dec_body(parts[4])) <= u32::MAX
}

/// The percentage a current/maximum pair denotes, rounded down and saturated;
/// a zero maximum saturates.
pub open spec fn spec_bri_percent_of(current: u32, max: u32) -> u32 {
    if max == 0 {
        u32::MAX
    } else if current as int * 100 / max as int > u32::MAX {
        u32::MAX
    } else {
        (current as int * 100 / max as int) as u32
    }
}

/// The percentage one `brightnessctl -m` output reports.
pub open spec fn spec_bri_percent(out: Seq<char>) -> u32 {
    let parts = spec_split(out, ',');
    spec_bri_percent_of(
        dec_val(dec_body(parts[2])) as u32,
        dec_val(dec_body(parts[4])) as u32,
    )
}

/// The icon name for a device and percent.
pub open spec fn spec_bri_icon(monitor: bool, percent: u32) -> Seq<char> {
    if monitor {
        if percent == 0 {
            "display-brightness-off"@
        } else if percent <= 33 {
            "display-brightness-low"@
        } else if percent <= 67 {
            "display-brightness-medium"@
        } else {
            "display-brightness-high"@
        }
    } else {
        if percent == 0 {
            "keyboard-brightness-off"@
        } else if percent <= 33 {
            "keyboard-brightness-medium"@
        } else if percent <= 67 {
            "keyboard-brightness"@
        } else {
            "keyboard-brightness-high"@
        }
    }
}

/// What a set value asks for: an absolute percent, or a change up or down.
pub open spec fn spec_bri_target(value: Seq<char>, current: u32) -> Option<int> {
    if value.len() > 0 && (value[0] == '+' || value[0] == '-') {
        let body = value.skip(1);
        if valid_u64_str(body) && dec_val(dec_body(body)) <= u32::MAX {
            let delta = dec_val(dec_body(body));
            if value[0] == '+' {
                Some(
                    if current + delta > 100 {
                        100
                    } else {
                        current + delta
                    },
                )
            } else {
                Some(
                    if current < delta {
                        0
                    } else {
                        current - delta
                    },
                )
            }
        } else {
            None
        }
    } else {
        if valid_u64_str(value) && dec_val(dec_body(value)) <= u32::MAX {
            Some(dec_val(dec_body(value)))
        } else {
            None
        }
    }
}

/// The argument vector of a planned brightness set: the device, then the
/// clamped target percent.
pub open spec fn spec_bri_set_args(device: Seq<char>, target: int) -> Seq<Seq<char>> {
    seq!["-d"@, device, "s"@, dec_str(target) + "%"@]
}

/// The brightness tuple list a readable monitor output yields.
pub open spec fn spec_bri_tuples(out: Seq<char>) -> Seq<(Seq<char>, Seq<char>)> {
    seq![
        ("brightness"@, dec_str(spec_bri_percent(out) as int)),
        ("icon"@, spec_bri_icon(true, spec_bri_percent(out)) + crate::ICON_EXT@),
    ]
}

pub struct Brightness;

impl Brightness {
    /// Reads the brightness percentage out of one `brightnessctl -m` output.
    pub fn get(output: &str) -> (r: Result<u32, DaemonError>)
        ensures
            r is Ok <==> spec_bri_ok(output@),
            r matches Ok(p) ==> p == spec_bri_percent(output@),
    {
        let parts = split_char(output, ',');
        if parts.len() < 5 {
            return Err(DaemonError::ParseError(String::from_str(output)));
        }
        proof {
            assert(parts@[2]@ == spec_split(output@, ',')[2]);
            assert(parts@[4]@ == spec_split(output@, ',')[4]);
        }
        let current = parse_u32(parts[2].as_str())?;
        let max = parse_u32(parts[4].as_str())?;
        if max == 0 {
            return Ok(u32::MAX);
        }
        let wide: u64 = (current as u64) * 100 / (max as u64);
        proof {
            assert(current as int * 100 / max as int == wide) by (nonlinear_arith)
                requires
                    wide == current as u64 as int * 100 / (max as u64 as int),
                    max > 0,
            ;
        }
        if wide > u32::MAX as u64 {
            Ok(u32::MAX)
        } else {
            Ok(wide as u32)
        }
    }

    /// The icon name for a device and percent; the monitor device gets the
    /// display icons, every other device the keyboard icons.
    pub fn get_icon(device_id: &str, percent: u32) -> (r: String)
        ensures
            r@ == spec_bri_icon(device_id@ == MONITOR_ID@, percent),
    {
        if crate::text::str_eq(device_id, MONITOR_ID) {
            if percent == 0 {
                String::from_str("display-brightness-off")
            } else if percent <= 33 {
                String::from_str("display-brightness-low")
            } else if percent <= 67 {
                String::from_str("display-brightness-medium")
            } else {
                String::from_str("display-brightness-high")
            }
        } else {
            if percent == 0 {
                String::from_str("keyboard-brightness-off")
            } else if percent <= 33 {
                String::from_str("keyboard-brightness-medium")
            } else if percent <= 67 {
                String::from_str("keyboard-brightness")
            } else {
                String::from_str("keyboard-brightness-high")
            }
        }
    }

    /// Plans the command that sets a device's brightness: an absolute percent
    /// is applied as given, a `+`/`-` change is applied to the current
    /// percent and clamped between zero and one hundred.
    pub fn set(device_id: &str, percent_string: &str, current: u32) -> (r: Result<
        Command,
        DaemonError,
    >)
        ensures
            r is Ok <==> spec_bri_target(percent_string@, current) is Some,
            r matches Ok(cmd) ==> {
                &&& cmd.name@ == "brightnessctl"@
                &&& cmd.args.deep_view() =~~= spec_bri_set_args(
                    device_id@,
                    spec_bri_target(percent_string@, current)->0,
                )
            },
    {
        let s_len = percent_string.unicode_len();
        let target: u32 = if s_len > 0 && (percent_string.get_char(0) == '+'
            || percent_string.get_char(0) == '-') {
            let up = percent_string.get_char(0) == '+';
            let body = percent_string.substring_char(1, s_len);
            proof {
                assert(body@ == percent_string@.skip(1));
            }
            let delta = crate::text::parse_u32(body)?;
            if up {
                if current > 100 || delta > 100 - current {
                    100
                } else {
                    current + delta
                }
            } else {
                if current < delta {
                    0
                } else {
                    current - delta
                }
            }
        } else {
            parse_u32(percent_string)?
        };
        let mut arg = u32_to_string(target);
        arg.append("%");
        let mut cmd = Command::new("brightnessctl");
        cmd.arg("-d");
        cmd.arg(device_id);
        cmd.arg("s");
        cmd.arg(arg.as_str());
        Ok(cmd)
    }

    /// Plans a monitor brightness set from the current monitor reading.
    pub fn set_monitor(percent: &str, output: &str) -> (r: Result<Command, DaemonError>)
        ensures
            r is Ok <==> (spec_bri_ok(output@) && spec_bri_target(
                percent@,
                spec_bri_percent(output@),
            ) is Some),
            r matches Ok(cmd) ==> {
                &&& cmd.name@ == "brightnessctl"@
                &&& cmd.args.deep_view() =~~= spec_bri_set_args(
                    MONITOR_ID@,
                    spec_bri_target(percent@, spec_bri_percent(output@))->0,
                )
            },
    {
        let current = Self::get(output)?;
        Self::set(MONITOR_ID, percent, current)
    }

    /// Plans a keyboard brightness set from the current keyboard reading.
    pub fn set_keyboard(percent: &str, output: &str) -> (r: Result<Command, DaemonError>)
        ensures
            r is Ok <==> (spec_bri_ok(output@) && spec_bri_target(
                percent@,
                spec_bri_percent(output@),
            ) is Some),
            r matches Ok(cmd) ==> {
                &&& cmd.name@ == "brightnessctl"@
                &&& cmd.args.deep_view() =~~= spec_bri_set_args(
                    KEYBOARD_ID@,
                    spec_bri_target(percent@, spec_bri_percent(output@))->0,
                )
            },
    {
        let current = Self::get(output)?;
        Self::set(KEYBOARD_ID, percent, current)
    }

    /// The name/value pairs of the whole brightness state, in their fixed
    /// order, from the monitor reading.
    pub fn get_tuples(output: &str) -> (r: Result<Vec<(String, String)>, DaemonError>)
        ensures
            r is Ok <==> spec_bri_ok(output@),
            r matches Ok(v) ==> pairs_view(v@) =~~= spec_bri_tuples(output@),
    {
        let percent = Self::get(output)?;
        let icon = Self::get_icon(MONITOR_ID, percent);
        let mut v: Vec<(String, String)> = Vec::new();
        v.push((String::from_str("brightness"), u32_to_string(percent)));
        v.push((String::from_str("icon"), icon.concat(crate::ICON_EXT)));
        Ok(v)
    }

    /// Handles one brightness request, given the relevant device's output.
    /// With a value it plans the set and asks for a re-observation; the
    /// notification fires exactly when the percent changed.
    pub fn parse_item(
        item: DaemonItem,
        brightness_item: &BrightnessItem,
        value: Option<String>,
        output: &str,
    ) -> (r: Result<ItemResponse, DaemonError>)
        ensures
            r matches Ok(resp) ==> match value {
                Some(v) => {
                    &&& resp.reply matches DaemonReply::Value { item: i, value: rv } && i == item
                        && rv@ == v@
                    &&& resp.notify == NotifyDecision::Recheck
                    &&& (resp.command is Some <==> (brightness_item == BrightnessItem::Monitor
                        || brightness_item == BrightnessItem::Keyboard))
                    &&& (brightness_item == BrightnessItem::Monitor ==> (resp.command matches Some(
                        cmd,
                    ) && cmd.name@ == "brightnessctl"@ && cmd.args.deep_view()
                        =~~= spec_bri_set_args(
                        MONITOR_ID@,
                        spec_bri_target(v@, spec_bri_percent(output@))->0,
                    )))
                    &&& (brightness_item == BrightnessItem::Keyboard ==> (resp.command
                        matches Some(cmd) && cmd.name@ == "brightnessctl"@
                        && cmd.args.deep_view() =~~= spec_bri_set_args(
                        KEYBOARD_ID@,
                        spec_bri_target(v@, spec_bri_percent(output@))->0,
                    )))
                },
                None => match brightness_item {
                    BrightnessItem::Monitor => resp.reply matches DaemonReply::Value {
                        item: i,
                        value: rv,
                    } && i == item && rv@ == dec_str(spec_bri_percent(output@) as int)
                        && resp.command is None,
                    BrightnessItem::Keyboard => resp.reply matches DaemonReply::Value {
                        item: i,
                        value: rv,
                    } && i == item && rv@ == dec_str(spec_bri_percent(output@) as int)
                        && resp.command is None,
                    BrightnessItem::Icon => resp.reply matches DaemonReply::Value {
                        item: i,
                        value: rv,
                    } && i == item && rv@ == spec_bri_icon(true, spec_bri_percent(output@))
                        && resp.command is None,
                    BrightnessItem::All => resp.reply matches DaemonReply::Tuples {
                        item: i,
                        tuples,
                    } && i == item && (pairs_view(tuples@) =~~= spec_bri_tuples(output@))
                        && resp.command is None,
                },
            },
            value is Some ==> (r is Ok <==> match brightness_item {
                BrightnessItem::Monitor => spec_bri_ok(output@) && spec_bri_target(
                    value->0@,
                    spec_bri_percent(output@),
                ) is Some,
                BrightnessItem::Keyboard => spec_bri_ok(output@) && spec_bri_target(
                    value->0@,
                    spec_bri_percent(output@),
                ) is Some,
                BrightnessItem::Icon => true,
                BrightnessItem::All => true,
            }),
            value is None ==> (r is Ok <==> spec_bri_ok(output@)),
    {
        if let Some(value) = value {
            let command: Option<Command> = match brightness_item {
                BrightnessItem::Monitor => Some(Self::set_monitor(value.as_str(), output)?),
                BrightnessItem::Keyboard => Some(Self::set_keyboard(value.as_str(), output)?),
                _ => None,
            };
            Ok(
                ItemResponse {
                    reply: DaemonReply::Value { item, value },
                    command,
                    notify: NotifyDecision::Recheck,
                },
            )
        } else {
            let reply = match brightness_item {
                BrightnessItem::Monitor => DaemonReply::Value {
                    item,
                    value: u32_to_string(Self::get(output)?),
                },
                BrightnessItem::Keyboard => DaemonReply::Value {
                    item,
                    value: u32_to_string(Self::get(output)?),
                },
                BrightnessItem::Icon => {
                    let percent = Self::get(output)?;
                    DaemonReply::Value { item, value: Self::get_icon(MONITOR_ID, percent) }
                },
                BrightnessItem::All => DaemonReply::Tuples {
                    item,
                    tuples: Self::get_tuples(output)?,
                },
            };
            Ok(ItemResponse { reply, command: None, notify: NotifyDecision::No })
        }
    }

    /// Whether a notification is owed after a brightness set: exactly when
    /// the two outputs report different percents.
    pub fn should_notify(prev_output: &str, new_output: &str) -> (r: bool)
        ensures
            r == (spec_bri_ok(prev_output@) && spec_bri_ok(new_output@) && spec_bri_percent(
                prev_output@,
            ) != spec_bri_percent(new_output@)),
    {
        let prev = Self::get(prev_output);
        let new = Self::get(new_output);
        match (prev, new) {
            (Ok(p), Ok(n)) => p != n,
            _ => false,
        }
    }

    /// The request one brightness get subcommand stands for.
    pub fn match_get_commands(commands: Option<BrightnessGetCommands>) -> (r: DaemonMessage)
        ensures
            r matches DaemonMessage::Get { item } && item == DaemonItem::Brightness(
                match commands {
                    Some(BrightnessGetCommands::Monitor) => BrightnessItem::Monitor,
                    Some(BrightnessGetCommands::Keyboard) => BrightnessItem::Keyboard,
                    Some(BrightnessGetCommands::Icon) => BrightnessItem::Icon,
                    None => BrightnessItem::All,
                },
            ),
    {
        DaemonMessage::Get {
            item: match commands {
                Some(commands) => match commands {
                    BrightnessGetCommands::Monitor => DaemonItem::Brightness(
                        BrightnessItem::Monitor,
                    ),
                    BrightnessGetCommands::Keyboard => DaemonItem::Brightness(
                        BrightnessItem::Keyboard,
                    ),
                    BrightnessGetCommands::Icon => DaemonItem::Brightness(BrightnessItem::Icon),
                },
                None => DaemonItem::Brightness(BrightnessItem::All),
            },
        }
    }

    /// The request one brightness set subcommand stands for.
    pub fn match_set_commands(commands: BrightnessSetCommands) -> (r: DaemonMessage)
        ensures
            match commands {
                BrightnessSetCommands::Monitor { value } => r matches DaemonMessage::SetValue {
                    item,
                    value: v,
                } && item == DaemonItem::Brightness(BrightnessItem::Monitor) && v@ == value@,
                BrightnessSetCommands::Keyboard { value } => r matches DaemonMessage::SetValue {
                    item,
                    value: v,
                } && item == DaemonItem::Brightness(BrightnessItem::Keyboard) && v@ == value@,
            },
    {
        match commands {
            BrightnessSetCommands::Monitor { value } => DaemonMessage::SetValue {
                item: DaemonItem::Brightness(BrightnessItem::Monitor),
                value,
            },
            BrightnessSetCommands::Keyboard { value } => DaemonMessage::SetValue {
                item: DaemonItem::Brightness(BrightnessItem::Keyboard),
                value,
            },
        }
    }

    /// Plans the desktop notification for a device's current brightness.
    pub fn notify(device_id: &str, output: &str) -> (r: Result<Command, DaemonError>)
        ensures
            r is Ok <==> spec_bri_ok(output@),
            r matches Ok(cmd) ==> cmd.name@ == "dunstify"@,
    {
        let percent = Self::get(output)?;
        let icon = Self::get_icon(device_id, percent);
        let mut cmd = Command::new("dunstify");
        cmd.arg("-u");
        cmd.arg("normal");
        cmd.arg("-r");
        cmd.arg(u32_to_string(crate::NOTIFICATION_ID).as_str());
        cmd.arg("-i");
        cmd.arg(icon.concat(crate::ICON_END).as_str());
        cmd.arg("-t");
        cmd.arg(u32_to_string(crate::NOTIFICATION_TIMEOUT).as_str());
        cmd.arg("-h");
        let mut hint = String::from_str("int:value:");
        hint.append(u32_to_string(percent).as_str());
        cmd.arg(hint.as_str());
        cmd.arg("Volume: ");
        Ok(cmd)
    }
}

} // verus!
