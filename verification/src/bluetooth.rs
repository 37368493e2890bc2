//! Bluetooth provider: parsing the `bluetooth` tool's output, icon choice,
//! tuple building, and the decisions around switching the radio.
use vstd::prelude::*;
use vstd::string::*;

use crate::command::Command;
use crate::daemon::{pairs_view, DaemonItem, DaemonMessage, DaemonReply, ItemResponse, NotifyDecision};
use crate::error::DaemonError;
use crate::text::{bool_to_string, parse_bool_strict, spec_split_ws, split_ws, str_eq};

verus! {

/// One bluetooth field named on the command line.
#[derive(Debug, Clone, Copy)]
pub enum BluetoothGetCommands {
    State,
    Icon,
}

/// One bluetooth set named on the command line.
#[derive(Debug, Clone, Copy)]
pub enum BluetoothSetCommands {
    State { value: bool },
}

/// One addressable field of the bluetooth provider.
#[derive(Debug, Clone, Copy, PartialEq, Eq, Structural)]
pub enum BluetoothItem {
    State,
    Icon,
    All,
}

/// Whether the `bluetooth` tool's output says the radio is on: its third
/// whitespace token compared against `on`.
pub open spec fn spec_bt_state(out: Seq<char>) -> Option<bool> {
    let toks = spec_split_ws(out);
    if toks.len() < 3 {
        None
    } else {
        Some(toks[2] == "on"@)
    }
}

/// The icon name for a radio state.
pub open spec fn spec_bt_icon(state: bool) -> Seq<char> {
    if state {
        "bluetooth-active"@
    } else {
        "bluetooth-disabled"@
    }
}

/// The bluetooth tuple list a readable output yields.
pub open spec fn spec_bt_tuples(out: Seq<char>) -> Seq<(Seq<char>, Seq<char>)> {
    seq![
        (
            "state"@,
            if spec_bt_state(out)->0 {
                "true"@
            } else {
                "false"@
            },
        ),
        ("icon"@, spec_bt_icon(spec_bt_state(out)->0) + crate::ICON_EXT@),
    ]
}

pub struct Bluetooth;

impl Bluetooth {
    /// Reads the radio state out of one `bluetooth` output.
    pub fn get_state(output: &str) -> (r: Result<bool, DaemonError>)
        ensures
            r is Ok <==> spec_bt_state(output@) is Some,
            r matches Ok(b) ==> Some(b) == spec_bt_state(output@),
            r matches Err(e) ==> (e matches DaemonError::ParseError(m) && m@ == output@),
    {
        let toks = split_ws(output);
        if toks.len() < 3 {
            return Err(DaemonError::ParseError(String::from_str(output)));
        }
        proof {
            assert(toks@[2]@ == spec_split_ws(output@)[2]);
        }
        Ok(str_eq(toks[2].as_str(), "on"))
    }

    /// Plans the command that switches the radio on or off.
    pub fn set_state(state: bool) -> (r: Command)
        ensures
            r.name@ == "bluetooth"@,
            r.args.deep_view() =~~= seq![if state { "on"@ } else { "off"@ }],
    {
        let mut cmd = Command::new("bluetooth");
        cmd.arg(if state { "on" } else { "off" });
        cmd
    }

    /// The icon name for a radio state.
    pub fn get_icon(state: bool) -> (r: String)
        ensures
            r@ == spec_bt_icon(state),
    {
        if state {
            String::from_str("bluetooth-active")
        } else {
            String::from_str("bluetooth-disabled")
        }
    }

    /// The name/value pairs of the whole bluetooth state, in their fixed order.
    pub fn get_tuples(output: &str) -> (r: Result<Vec<(String, String)>, DaemonError>)
        ensures
            r is Ok <==> spec_bt_state(output@) is Some,
            r matches Ok(v) ==> pairs_view(v@) =~~= spec_bt_tuples(output@),
    {
        let state = Self::get_state(output)?;
        let icon = Self::get_icon(state);
        let mut v: Vec<(String, String)> = Vec::new();
        v.push((String::from_str("state"), bool_to_string(state)));
        v.push((String::from_str("icon"), icon.concat(crate::ICON_EXT)));
        Ok(v)
    }

    /// Handles one bluetooth request. With a value it plans the switch and
    /// decides the notification: one fires exactly when the requested state
    /// differs from the state read before the switch. Without a value it
    /// builds the reply from the output.
    pub fn parse_item(
        item: DaemonItem,
        bluetooth_item: BluetoothItem,
        value: Option<String>,
        output: &str,
    ) -> (r: Result<ItemResponse, DaemonError>)
        ensures
            value is Some ==> (r is Ok <==> (spec_bt_state(output@) is Some && (value->0@
                == "true"@ || value->0@ == "false"@))),
            r matches Ok(resp) ==> match value {
                Some(v) => {
                    &&& resp.reply matches DaemonReply::Value { item: i, value: rv } && i == item
                        && rv@ == v@
                    &&& (resp.command is Some <==> bluetooth_item == BluetoothItem::State)
                    &&& resp.command matches Some(cmd) ==> (cmd.name@ == "bluetooth"@
                        && cmd.args.deep_view() =~~= seq![
                        if v@ == "true"@ {
                            "on"@
                        } else {
                            "off"@
                        },
                    ])
                    &&& resp.notify == (if (v@ == "true"@) != spec_bt_state(output@)->0 {
                        NotifyDecision::Now
                    } else {
                        NotifyDecision::No
                    })
                },
                None => match bluetooth_item {
                    BluetoothItem::State => resp.reply matches DaemonReply::Value {
                        item: i,
                        value: rv,
                    } && i == item && rv@ == (if spec_bt_state(output@)->0 {
                        "true"@
                    } else {
                        "false"@
                    }) && resp.command is None && resp.notify == NotifyDecision::No,
                    BluetoothItem::Icon => resp.reply matches DaemonReply::Value {
                        item: i,
                        value: rv,
                    } && i == item && rv@ == spec_bt_icon(spec_bt_state(output@)->0)
                        && resp.command is None && resp.notify == NotifyDecision::No,
                    BluetoothItem::All => resp.reply matches DaemonReply::Tuples {
                        item: i,
                        tuples,
                    } && i == item && (pairs_view(tuples@) =~~= spec_bt_tuples(output@))
                        && resp.command is None && resp.notify == NotifyDecision::No,
                },
            },
            value is None ==> (r is Ok <==> spec_bt_state(output@) is Some),
    {
        if let Some(value) = value {
            let prev_state = Self::get_state(output)?;
            let new_state = parse_bool_strict(value.as_str())?;
            let command = if bluetooth_item == BluetoothItem::State {
                Some(Self::set_state(new_state))
            } else {
                None
            };
            let notify = if prev_state != new_state {
                NotifyDecision::Now
            } else {
                NotifyDecision::No
            };
            Ok(
                ItemResponse {
                    reply: DaemonReply::Value { item, value },
                    command,
                    notify,
                },
            )
        } else {
            let reply = match bluetooth_item {
                BluetoothItem::State => DaemonReply::Value {
                    item,
                    value: bool_to_string(Self::get_state(output)?),
                },
                BluetoothItem::Icon => {
                    let state = Self::get_state(output)?;
                    DaemonReply::Value { item, value: Self::get_icon(state) }
                },
                BluetoothItem::All => DaemonReply::Tuples {
                    item,
                    tuples: Self::get_tuples(output)?,
                },
            };
            Ok(ItemResponse { reply, command: None, notify: NotifyDecision::No })
        }
    }

    /// The request one bluetooth get subcommand stands for.
    pub fn match_get_commands(commands: Option<BluetoothGetCommands>) -> (r: DaemonMessage)
        ensures
            r matches DaemonMessage::Get { item } && item == DaemonItem::Bluetooth(
                match commands {
                    Some(BluetoothGetCommands::State) => BluetoothItem::State,
                    Some(BluetoothGetCommands::Icon) => BluetoothItem::Icon,
                    None => BluetoothItem::All,
                },
            ),
    {
        DaemonMessage::Get {
            item: match commands {
                Some(commands) => match commands {
                    BluetoothGetCommands::State => DaemonItem::Bluetooth(BluetoothItem::State),
                    BluetoothGetCommands::Icon => DaemonItem::Bluetooth(BluetoothItem::Icon),
                },
                None => DaemonItem::Bluetooth(BluetoothItem::All),
            },
        }
    }

    /// The request one bluetooth set subcommand stands for.
    pub fn match_set_commands(commands: &BluetoothSetCommands) -> (r: DaemonMessage)
        ensures
            r matches DaemonMessage::SetValue { item, value } && item == DaemonItem::Bluetooth(
                BluetoothItem::State,
            ) && value@ == (if commands->State_value {
                "true"@
            } else {
                "false"@
            }),
    {
        match commands {
            BluetoothSetCommands::State { value } => DaemonMessage::SetValue {
                item: DaemonItem::Bluetooth(BluetoothItem::State),
                value: bool_to_string(*value),
            },
        }
    }

    /// Plans the desktop notification for the current radio state.
    pub fn notify(output: &str) -> (r: Result<Command, DaemonError>)
        ensures
            r is Ok <==> spec_bt_state(output@) is Some,
            r matches Ok(cmd) ==> cmd.name@ == "dunstify"@,
    {
        let state = Self::get_state(output)?;
        let icon = Self::get_icon(state);
        let mut cmd = Command::new("dunstify");
        cmd.arg("-u");
        cmd.arg("normal");
        cmd.arg("-r");
        cmd.arg(crate::text::u32_to_string(crate::NOTIFICATION_ID).as_str());
        cmd.arg("-i");
        cmd.arg(icon.concat(crate::ICON_END).as_str());
        cmd.arg("-t");
        cmd.arg(crate::text::u32_to_string(crate::NOTIFICATION_TIMEOUT).as_str());
        let mut body = String::from_str("Bluetooth: ");
        body.append(if state { "on" } else { "off" });
        cmd.arg(body.as_str());
        Ok(cmd)
    }
}

} // verus!
