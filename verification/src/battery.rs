//! Battery provider: parsing `acpi -b` output, icon choice, tuple building,
//! and the low-battery notification decision.
use vstd::prelude::*;
use vstd::string::*;

use crate::command::Command;
use crate::daemon::{pairs_view, DaemonItem, DaemonMessage, DaemonReply};
use crate::error::DaemonError;
use crate::text::{
    dec_body, dec_str, dec_val, parse_u32, spec_split, spec_trim, spec_trim_end_matches,
    spec_trim_start_matches, split_char, split_ws, spec_split_ws, str_eq, trim,
    trim_end_matches, trim_start_matches, u32_to_string, valid_u64_str,
};

verus! {

/// The charge state `acpi` reports.
#[derive(PartialEq, Eq, Structural, Debug, Clone, Copy)]
pub enum BatteryState {
    FullyCharged,
    Charging,
    Discharging,
    NotCharging,
}

/// One battery field named on the command line.
#[derive(Debug, Clone, Copy)]
pub enum BatteryGetCommands {
    State,
    Percent,
    Time,
    Icon,
}

/// One addressable field of the battery provider.
#[derive(Debug, Clone, Copy, PartialEq, Eq, Structural)]
pub enum BatteryItem {
    State,
    Percent,
    Time,
    Icon,
    All,
}

/// The display name of a charge state.
pub open spec fn spec_state_string(s: BatteryState) -> Seq<char> {
    match s {
        BatteryState::FullyCharged => "Fully Charged"@,
        BatteryState::Charging => "Charging"@,
        BatteryState::Discharging => "Discharging"@,
        BatteryState::NotCharging => "Not Charging"@,
    }
}

/// The state field of `acpi -b` output: the first comma-separated piece with
/// its `Battery 0: ` prefix stripped.
pub open spec fn spec_state_text(out: Seq<char>) -> Seq<char> {
    spec_trim_start_matches(spec_split(out, ',')[0], "Battery 0: "@)
}

/// Which charge state a state field names, if any.
pub open spec fn spec_state_of(t: Seq<char>) -> Option<BatteryState> {
    if t == "Fully charged"@ {
        Some(BatteryState::FullyCharged)
    } else if t == "Charging"@ {
        Some(BatteryState::Charging)
    } else if t == "Discharging"@ {
        Some(BatteryState::Discharging)
    } else if t == "Not charging"@ {
        Some(BatteryState::NotCharging)
    } else {
        None
    }
}

/// The percent field of `acpi -b` output: the second comma-separated piece,
/// trimmed, with a trailing `%` stripped.
pub open spec fn spec_percent_text(out: Seq<char>) -> Seq<char> {
    spec_trim_end_matches(spec_trim(spec_split(out, ',')[1]), "%"@)
}

/// Whether the output holds a readable percent, and which.
pub open spec fn spec_percent_ok(out: Seq<char>) -> bool {
    &&& spec_split(out, ',').len() >= 2
    &&& valid_u64_str(spec_percent_text(out))
    &&& dec_val(dec_body(spec_percent_text(out))) <= u32::MAX
}

/// The percent the output holds, when `spec_percent_ok`.
pub open spec fn spec_percent_of(out: Seq<char>) -> int {
    dec_val(dec_body(spec_percent_text(out)))
}

/// The remaining-time field: the first whitespace token of the third
/// comma-separated piece, or empty when the piece is missing.
pub open spec fn spec_time_of(out: Seq<char>) -> Option<Seq<char>> {
    let parts = spec_split(out, ',');
    if parts.len() < 3 {
        Some(Seq::empty())
    } else {
        let toks = spec_split_ws(parts[2]);
        if toks.len() == 0 {
            None
        } else {
            Some(toks[0])
        }
    }
}

/// The icon name for a charge state and percent.
pub open spec fn spec_battery_icon(state: BatteryState, percent: u32) -> Seq<char> {
    if state == BatteryState::NotCharging {
        "battery-missing"@
    } else {
        "battery-level-"@ + dec_str((percent / 10 * 10) as int) + (match state {
            BatteryState::Charging => "-charging"@,
            BatteryState::FullyCharged => "-charged"@,
            _ => Seq::<char>::empty(),
        })
    }
}

/// Whether the whole battery reading parses.
pub open spec fn spec_battery_ok(out: Seq<char>) -> bool {
    &&& spec_state_of(spec_state_text(out)) is Some
    &&& spec_percent_ok(out)
    &&& spec_time_of(out) is Some
}

/// The battery tuple list a readable output yields.
pub open spec fn spec_battery_tuples(out: Seq<char>) -> Seq<(Seq<char>, Seq<char>)> {
    seq![
        ("state"@, spec_state_string(spec_state_of(spec_state_text(out))->0)),
        ("percent"@, dec_str(dec_val(dec_body(spec_percent_text(out))))),
        ("time"@, spec_time_of(out)->0),
        (
            "icon"@,
            spec_battery_icon(
                spec_state_of(spec_state_text(out))->0,
                dec_val(dec_body(spec_percent_text(out))) as u32,
            ) + crate::ICON_END@,
        ),
    ]
}

/// The battery levels that trigger a low-battery notification.
pub open spec fn spec_notify_level(p: u32) -> bool {
    p == 5 || p == 15 || p == 20 || p == 30
}

pub struct Battery;

impl Battery {
    /// Reads state, percent and remaining time out of one `acpi -b` output.
    pub fn get(output: &str) -> (r: Result<(BatteryState, u32, String), DaemonError>)
        ensures
            r is Ok <==> (spec_state_of(spec_state_text(output@)) is Some && spec_percent_ok(
                output@,
            ) && spec_time_of(output@) is Some),
            r matches Ok(t) ==> {
                &&& Some(t.0) == spec_state_of(spec_state_text(output@))
                &&& t.1 == spec_percent_of(output@)
                &&& Some(t.2@) == spec_time_of(output@)
            },
    {
        let state = Self::get_state(output)?;
        let percent = Self::get_percent(output)?;
        let time = Self::get_time(output)?;
        Ok((state, percent, time))
    }

    /// Reads the charge state out of one `acpi -b` output.
    pub fn get_state(output: &str) -> (r: Result<BatteryState, DaemonError>)
        ensures
            r is Ok <==> spec_state_of(spec_state_text(output@)) is Some,
            r matches Ok(st) ==> Some(st) == spec_state_of(spec_state_text(output@)),
            r matches Err(e) ==> (e matches DaemonError::ParseError(m) && m@ == spec_state_text(
                output@,
            )),
    {
        let parts = split_char(output, ',');
        proof {
            crate::text::lemma_split_len(output@, ',');
            assert(parts@[0]@ == spec_split(output@, ',')[0]);
        }
        let text = trim_start_matches(parts[0].as_str(), "Battery 0: ");
        if str_eq(text.as_str(), "Fully charged") {
            Ok(BatteryState::FullyCharged)
        } else if str_eq(text.as_str(), "Charging") {
            Ok(BatteryState::Charging)
        } else if str_eq(text.as_str(), "Discharging") {
            Ok(BatteryState::Discharging)
        } else if str_eq(text.as_str(), "Not charging") {
            Ok(BatteryState::NotCharging)
        } else {
            Err(DaemonError::ParseError(text))
        }
    }

    /// Reads the charge percent out of one `acpi -b` output.
    pub fn get_percent(output: &str) -> (r: Result<u32, DaemonError>)
        ensures
            r is Ok <==> spec_percent_ok(output@),
            r matches Ok(p) ==> p == spec_percent_of(output@),
    {
        let parts = split_char(output, ',');
        if parts.len() < 2 {
            return Err(DaemonError::ParseError(String::new()));
        }
        proof {
            assert(parts@[1]@ == spec_split(output@, ',')[1]);
        }
        let trimmed = trim(parts[1].as_str());
        let text = trim_end_matches(trimmed.as_str(), "%");
        parse_u32(text.as_str())
    }

    /// Reads the remaining time out of one `acpi -b` output.
    pub fn get_time(output: &str) -> (r: Result<String, DaemonError>)
        ensures
            r is Ok <==> spec_time_of(output@) is Some,
            r matches Ok(t) ==> Some(t@) == spec_time_of(output@),
            r matches Err(e) ==> e is ParseError,
    {
        let parts = split_char(output, ',');
        if parts.len() < 3 {
            return Ok(String::new());
        }
        proof {
            assert(parts@[2]@ == spec_split(output@, ',')[2]);
        }
        let toks = split_ws(parts[2].as_str());
        if toks.len() == 0 {
            return Err(DaemonError::ParseError(String::new()));
        }
        proof {
            assert(toks@[0]@ == spec_split_ws(spec_split(output@, ',')[2])[0]);
        }
        let mut toks = toks;
        let first = toks.remove(0);
        Ok(first)
    }

    /// The icon name for a charge state and percent.
    pub fn get_icon(state: &BatteryState, percent: u32) -> (r: String)
        ensures
            r@ == spec_battery_icon(*state, percent),
    {
        if *state == BatteryState::NotCharging {
            String::from_str("battery-missing")
        } else {
            let mut r = String::from_str("battery-level-");
            let level = u32_to_string(percent / 10 * 10);
            r.append(level.as_str());
            match state {
                BatteryState::Charging => r.append("-charging"),
                BatteryState::FullyCharged => r.append("-charged"),
                _ => (),
            }
            proof {
                assert(r@ =~= spec_battery_icon(*state, percent));
            }
            r
        }
    }

    /// The name/value pairs of the whole battery state, in their fixed order.
    pub fn get_tuples(output: &str) -> (r: Result<Vec<(String, String)>, DaemonError>)
        ensures
            r is Ok <==> spec_battery_ok(output@),
            r matches Ok(v) ==> pairs_view(v@) =~~= spec_battery_tuples(output@),
    {
        let (state, percent, time) = Self::get(output)?;
        let icon = Self::get_icon(&state, percent);
        let state_string = match state {
            BatteryState::FullyCharged => String::from_str("Fully Charged"),
            BatteryState::Charging => String::from_str("Charging"),
            BatteryState::Discharging => String::from_str("Discharging"),
            BatteryState::NotCharging => String::from_str("Not Charging"),
        };
        let mut v: Vec<(String, String)> = Vec::new();
        v.push((String::from_str("state"), state_string));
        v.push((String::from_str("percent"), u32_to_string(percent)));
        v.push((String::from_str("time"), time));
        v.push((String::from_str("icon"), icon.concat(crate::ICON_END)));
        Ok(v)
    }

    /// Builds the reply for one battery `Get`, from the `acpi -b` output.
    pub fn parse_item(item: DaemonItem, battery_item: &BatteryItem, output: &str) -> (r: Result<
        DaemonReply,
        DaemonError,
    >)
        ensures
            r matches Ok(rep) ==> match battery_item {
                BatteryItem::State => rep matches DaemonReply::Value { item: i, value } && i
                    == item && value@ == spec_state_string(
                    spec_state_of(spec_state_text(output@))->0,
                ),
                BatteryItem::Percent => rep matches DaemonReply::Value { item: i, value } && i
                    == item && value@ == dec_str(spec_percent_of(output@)),
                BatteryItem::Time => rep matches DaemonReply::Value { item: i, value } && i
                    == item && Some(value@) == spec_time_of(output@),
                BatteryItem::Icon => rep matches DaemonReply::Value { item: i, value } && i
                    == item && value@ == spec_battery_icon(
                    spec_state_of(spec_state_text(output@))->0,
                    spec_percent_of(output@) as u32,
                ),
                BatteryItem::All => rep matches DaemonReply::Tuples { item: i, tuples } && i
                    == item && (pairs_view(tuples@) =~~= spec_battery_tuples(output@)),
            },
            r is Ok <==> match battery_item {
                BatteryItem::State => spec_state_of(spec_state_text(output@)) is Some,
                BatteryItem::Percent => spec_percent_ok(output@),
                BatteryItem::Time => spec_time_of(output@) is Some,
                BatteryItem::Icon => spec_battery_ok(output@),
                BatteryItem::All => spec_battery_ok(output@),
            },
    {
        Ok(
            match battery_item {
                BatteryItem::State => {
                    let state = Self::get_state(output)?;
                    let value = match state {
                        BatteryState::FullyCharged => String::from_str("Fully Charged"),
                        BatteryState::Charging => String::from_str("Charging"),
                        BatteryState::Discharging => String::from_str("Discharging"),
                        BatteryState::NotCharging => String::from_str("Not Charging"),
                    };
                    DaemonReply::Value { item, value }
                },
                BatteryItem::Percent => DaemonReply::Value {
                    item,
                    value: u32_to_string(Self::get_percent(output)?),
                },
                BatteryItem::Time => DaemonReply::Value { item, value: Self::get_time(output)? },
                BatteryItem::Icon => {
                    let (state, percent, _) = Self::get(output)?;
                    DaemonReply::Value { item, value: Self::get_icon(&state, percent) }
                },
                BatteryItem::All => DaemonReply::Tuples {
                    item,
                    tuples: Self::get_tuples(output)?,
                },
            },
        )
    }

    /// The request one battery subcommand stands for.
    pub fn match_get_commands(commands: Option<BatteryGetCommands>) -> (r: DaemonMessage)
        ensures
            r matches DaemonMessage::Get { item } && item == DaemonItem::Battery(
                match commands {
                    Some(BatteryGetCommands::State) => BatteryItem::State,
                    Some(BatteryGetCommands::Percent) => BatteryItem::Percent,
                    Some(BatteryGetCommands::Time) => BatteryItem::Time,
                    Some(BatteryGetCommands::Icon) => BatteryItem::Icon,
                    None => BatteryItem::All,
                },
            ),
    {
        DaemonMessage::Get {
            item: match commands {
                Some(commands) => match commands {
                    BatteryGetCommands::State => DaemonItem::Battery(BatteryItem::State),
                    BatteryGetCommands::Percent => DaemonItem::Battery(BatteryItem::Percent),
                    BatteryGetCommands::Time => DaemonItem::Battery(BatteryItem::Time),
                    BatteryGetCommands::Icon => DaemonItem::Battery(BatteryItem::Icon),
                },
                None => DaemonItem::Battery(BatteryItem::All),
            },
        }
    }

    /// Decides whether a fresh reading warrants a low-battery notification,
    /// and plans it: one fires exactly when the charge dropped below the
    /// previous reading while discharging and sits on a notify level.
    pub fn notify(prev_percent: u32, output: &str) -> (r: Result<Option<Command>, DaemonError>)
        ensures
            r is Ok <==> (spec_state_of(spec_state_text(output@)) is Some && spec_percent_ok(
                output@,
            ) && spec_time_of(output@) is Some),
            r matches Ok(c) ==> {
                let state = spec_state_of(spec_state_text(output@))->0;
                let percent = spec_percent_of(output@) as u32;
                (c is Some <==> (percent < prev_percent && state == BatteryState::Discharging
                    && spec_notify_level(percent))) && (c matches Some(cmd) ==> cmd.name@
                    == "dunstify"@)
            },
    {
        let (state, current_percent, _) = Self::get(output)?;
        let fire = current_percent < prev_percent && state == BatteryState::Discharging && (
        current_percent == 5 || current_percent == 15 || current_percent == 20 || current_percent
            == 30);
        if !fire {
            return Ok(None);
        }
        let icon = Self::get_icon(&state, current_percent);
        let mut cmd = Command::new("dunstify");
        cmd.arg("-u");
        cmd.arg("-normal");
        cmd.arg("-t");
        cmd.arg(u32_to_string(crate::NOTIFICATION_TIMEOUT).as_str());
        cmd.arg("-i");
        cmd.arg(icon.concat(crate::ICON_END).as_str());
        cmd.arg("-r");
        cmd.arg(u32_to_string(crate::NOTIFICATION_ID).as_str());
        cmd.arg("-h");
        let mut hint = String::from_str("int:value:");
        hint.append(u32_to_string(current_percent).as_str());
        cmd.arg(hint.as_str());
        cmd.arg("Battery: ");
        Ok(Some(cmd))
    }
}

} // verus!
