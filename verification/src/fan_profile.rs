//! Fan-profile provider: parsing `asusctl profile` output, the cyclic
//! next/previous profile choice, icon, and tuple building.
use vstd::prelude::*;
use vstd::string::*;

use crate::command::Command;
use crate::daemon::{
    pairs_view, DaemonItem, DaemonMessage, DaemonReply, ItemResponse, NotifyDecision,
};
use crate::error::DaemonError;
use crate::text::{
    spec_split, spec_split_ws, spec_trim, split_char, split_ws, str_eq, trim, u32_to_string,
};

verus! {

/// The fan profile `asusctl` reports.
#[derive(PartialEq, Eq, Structural, Debug, Clone, Copy)]
pub enum FanState {
    Performance,
    Balanced,
    Quiet,
}

/// One fan-profile field named on the command line.
#[derive(Debug, Clone, Copy)]
pub enum FanProfileGetCommands {
    Profile,
    Icon,
}

/// One fan-profile set named on the command line.
#[derive(Debug, Clone)]
pub enum FanProfileSetCommands {
    Profile { value: String },
}

/// One addressable field of the fan-profile provider.
#[derive(Debug, Clone, Copy, PartialEq, Eq, Structural)]
pub enum FanProfileItem {
    Profile,
    Icon,
}

/// The display name of a fan profile.
pub open spec fn spec_fan_string(s: FanState) -> Seq<char> {
    match s {
        FanState::Performance => "Performance"@,
        FanState::Balanced => "Balanced"@,
        FanState::Quiet => "Quiet"@,
    }
}

/// Which fan profile a name names, if any.
pub open spec fn spec_fan_of(t: Seq<char>) -> Option<FanState> {
    if t == "Performance"@ {
        Some(FanState::Performance)
    } else if t == "Balanced"@ {
        Some(FanState::Balanced)
    } else if t == "Quiet"@ {
        Some(FanState::Quiet)
    } else {
        None
    }
}

/// The profile token of `asusctl profile -p` output: the fourth whitespace
/// token of its second line.
pub open spec fn spec_fan_token(out: Seq<char>) -> Option<Seq<char>> {
    let lines = spec_split(out, '\n');
    if lines.len() < 2 {
        None
    } else {
        let toks = spec_split_ws(lines[1]);
        if toks.len() < 4 {
            None
        } else {
            Some(toks[3])
        }
    }
}

/// The profile the output reports, if its token names one.
pub open spec fn spec_fan_profile(out: Seq<char>) -> Option<FanState> {
    match spec_fan_token(out) {
        Some(t) => spec_fan_of(t),
        None => None,
    }
}

/// The profile after the current one, in the cycle Performance, Balanced,
/// Quiet, and around again.
pub open spec fn spec_next_profile(s: FanState) -> FanState {
    match s {
        FanState::Performance => FanState::Balanced,
        FanState::Balanced => FanState::Quiet,
        FanState::Quiet => FanState::Performance,
    }
}

/// The profile before the current one in the same cycle.
pub open spec fn spec_prev_profile(s: FanState) -> FanState {
    match s {
        FanState::Performance => FanState::Quiet,
        FanState::Balanced => FanState::Performance,
        FanState::Quiet => FanState::Balanced,
    }
}

/// The profile name a set request resolves to: a named profile as given
/// (trimmed), or the next or previous profile in the cycle.
pub open spec fn spec_fan_target(value: Seq<char>, out: Seq<char>) -> Seq<char> {
    if spec_fan_of(spec_trim(value)) is Some {
        spec_trim(value)
    } else if value == "next"@ {
        spec_fan_string(spec_next_profile(spec_fan_profile(out)->0))
    } else {
        spec_fan_string(spec_prev_profile(spec_fan_profile(out)->0))
    }
}

/// The fan tuple list a readable output yields.
pub open spec fn spec_fan_tuples(out: Seq<char>) -> Seq<(Seq<char>, Seq<char>)> {
    seq![
        ("profile"@, spec_fan_string(spec_fan_profile(out)->0)),
        ("icon"@, "sensors-fan"@ + crate::ICON_END@ + crate::ICON_EXT@),
    ]
}

pub struct FanProfile;

impl FanProfile {
    /// Reads the current profile out of one `asusctl profile -p` output.
    pub fn get_profile(output: &str) -> (r: Result<FanState, DaemonError>)
        ensures
            r is Ok <==> spec_fan_profile(output@) is Some,
            r matches Ok(s) ==> Some(s) == spec_fan_profile(output@),
            r matches Err(e) ==> e is ParseError,
    {
        let lines = split_char(output, '\n');
        if lines.len() < 2 {
            return Err(DaemonError::ParseError(String::from_str(output)));
        }
        proof {
            assert(lines@[1]@ == spec_split(output@, '\n')[1]);
        }
        let toks = split_ws(lines[1].as_str());
        if toks.len() < 4 {
            return Err(DaemonError::ParseError(lines[1].clone()));
        }
        proof {
            assert(toks@[3]@ == spec_split_ws(spec_split(output@, '\n')[1])[3]);
        }
        let token = &toks[3];
        if str_eq(token.as_str(), "Performance") {
            Ok(FanState::Performance)
        } else if str_eq(token.as_str(), "Balanced") {
            Ok(FanState::Balanced)
        } else if str_eq(token.as_str(), "Quiet") {
            Ok(FanState::Quiet)
        } else {
            Err(DaemonError::ParseError(token.clone()))
        }
    }

    /// Plans the command that applies a profile: a profile name is applied as
    /// given (trimmed); `next` and `prev` cycle from the profile the output
    /// reports; anything else is rejected.
    pub fn set_profile(profile_string: &str, output: &str) -> (r: Result<Command, DaemonError>)
        ensures
            r is Ok <==> (spec_fan_of(spec_trim(profile_string@)) is Some || ((profile_string@
                == "next"@ || profile_string@ == "prev"@) && spec_fan_profile(output@) is Some)),
            r matches Ok(cmd) ==> {
                &&& cmd.name@ == "asusctl"@
                &&& cmd.args.deep_view() =~~= seq![
                    "profile"@,
                    "-P"@,
                    spec_fan_target(profile_string@, output@),
                ]
            },
    {
        let trimmed = trim(profile_string);
        let known = str_eq(trimmed.as_str(), "Performance") || str_eq(trimmed.as_str(), "Balanced")
            || str_eq(trimmed.as_str(), "Quiet");
        let target: String = if known {
            trimmed
        } else if str_eq(profile_string, "next") {
            let current = Self::get_profile(output)?;
            match current {
                FanState::Performance => String::from_str("Balanced"),
                FanState::Balanced => String::from_str("Quiet"),
                FanState::Quiet => String::from_str("Performance"),
            }
        } else if str_eq(profile_string, "prev") {
            let current = Self::get_profile(output)?;
            match current {
                FanState::Performance => String::from_str("Quiet"),
                FanState::Balanced => String::from_str("Performance"),
                FanState::Quiet => String::from_str("Balanced"),
            }
        } else {
            return Err(DaemonError::ParseError(String::from_str(profile_string)));
        };
        let mut cmd = Command::new("asusctl");
        cmd.arg("profile");
        cmd.arg("-P");
        cmd.arg(target.as_str());
        Ok(cmd)
    }

    /// The fixed fan icon name.
    pub fn get_icon() -> (r: String)
        ensures
            r@ == "sensors-fan"@ + crate::ICON_END@,
    {
        String::from_str("sensors-fan").concat(crate::ICON_END)
    }

    /// The name/value pairs of the whole fan state, in their fixed order.
    pub fn get_tuples(output: &str) -> (r: Result<Vec<(String, String)>, DaemonError>)
        ensures
            r is Ok <==> spec_fan_profile(output@) is Some,
            r matches Ok(v) ==> pairs_view(v@) =~~= spec_fan_tuples(output@),
    {
        let profile = Self::get_profile(output)?;
        let icon = Self::get_icon();
        let name = match profile {
            FanState::Performance => String::from_str("Performance"),
            FanState::Balanced => String::from_str("Balanced"),
            FanState::Quiet => String::from_str("Quiet"),
        };
        let mut v: Vec<(String, String)> = Vec::new();
        v.push((String::from_str("profile"), name));
        v.push((String::from_str("icon"), icon.concat(crate::ICON_EXT)));
        Ok(v)
    }

    /// Handles one fan-profile request. With a value it plans the profile
    /// switch and asks for a re-observation afterwards: the notification
    /// fires exactly when the profile changed. Without a value it builds the
    /// reply from the output.
    pub fn parse_item(
        item: DaemonItem,
        fan_profile_item: &FanProfileItem,
        value: Option<String>,
        output: &str,
    ) -> (r: Result<ItemResponse, DaemonError>)
        ensures
            r matches Ok(resp) ==> match value {
                Some(v) => {
                    &&& resp.reply matches DaemonReply::Value { item: i, value: rv } && i == item
                        && rv@ == v@
                    &&& (resp.command is Some <==> fan_profile_item == FanProfileItem::Profile)
                    &&& (fan_profile_item == FanProfileItem::Profile ==> (resp.command
                        matches Some(cmd) && cmd.name@ == "asusctl"@ && cmd.args.deep_view()
                        =~~= seq!["profile"@, "-P"@, spec_fan_target(v@, output@)]))
                    &&& resp.notify == NotifyDecision::Recheck
                },
                None => match fan_profile_item {
                    FanProfileItem::Profile => resp.reply matches DaemonReply::Value {
                        item: i,
                        value: rv,
                    } && i == item && rv@ == spec_fan_string(spec_fan_profile(output@)->0)
                        && resp.command is None,
                    FanProfileItem::Icon => resp.reply matches DaemonReply::Value {
                        item: i,
                        value: rv,
                    } && i == item && rv@ == "sensors-fan"@ + crate::ICON_END@
                        && resp.command is None,
                },
            },
            value is None ==> (r is Ok <==> (fan_profile_item == FanProfileItem::Icon
                || spec_fan_profile(output@) is Some)),
            value is Some ==> (r is Ok <==> match fan_profile_item {
                FanProfileItem::Profile => spec_fan_profile(output@) is Some && (spec_fan_of(
                    spec_trim(value->0@),
                ) is Some || value->0@ == "next"@ || value->0@ == "prev"@),
                FanProfileItem::Icon => true,
            }),
    {
        if let Some(value) = value {
            let profile_needed = match fan_profile_item {
                FanProfileItem::Profile => true,
                FanProfileItem::Icon => false,
            };
            let command = if profile_needed {
                // The profile is read before the switch, as the reply must
                // not be sent for a provider that cannot be observed.
                let _ = Self::get_profile(output)?;
                Some(Self::set_profile(value.as_str(), output)?)
            } else {
                None
            };
            Ok(
                ItemResponse {
                    reply: DaemonReply::Value { item, value },
                    command,
                    notify: NotifyDecision::Recheck,
                },
            )
        } else {
            let reply = match fan_profile_item {
                FanProfileItem::Profile => {
                    let profile = Self::get_profile(output)?;
                    let name = match profile {
                        FanState::Performance => String::from_str("Performance"),
                        FanState::Balanced => String::from_str("Balanced"),
                        FanState::Quiet => String::from_str("Quiet"),
                    };
                    DaemonReply::Value { item, value: name }
                },
                FanProfileItem::Icon => DaemonReply::Value { item, value: Self::get_icon() },
            };
            Ok(ItemResponse { reply, command: None, notify: NotifyDecision::No })
        }
    }

    /// Whether a notification is owed after a profile switch: exactly when
    /// the two outputs report different profiles.
    pub fn should_notify(prev_output: &str, new_output: &str) -> (r: bool)
        ensures
            r == (spec_fan_profile(prev_output@) is Some && spec_fan_profile(new_output@) is Some
                && spec_fan_profile(prev_output@) != spec_fan_profile(new_output@)),
    {
        let prev = Self::get_profile(prev_output);
        let new = Self::get_profile(new_output);
        match (prev, new) {
            (Ok(p), Ok(n)) => p != n,
            _ => false,
        }
    }

    /// The request one fan-profile get subcommand stands for.
    pub fn match_get_commands(commands: &FanProfileGetCommands) -> (r: DaemonMessage)
        ensures
            r matches DaemonMessage::Get { item } && item == DaemonItem::FanProfile(
                match commands {
                    FanProfileGetCommands::Profile => FanProfileItem::Profile,
                    FanProfileGetCommands::Icon => FanProfileItem::Icon,
                },
            ),
    {
        DaemonMessage::Get {
            item: match commands {
                FanProfileGetCommands::Profile => DaemonItem::FanProfile(FanProfileItem::Profile),
                FanProfileGetCommands::Icon => DaemonItem::FanProfile(FanProfileItem::Icon),
            },
        }
    }

    /// The request one fan-profile set subcommand stands for.
    pub fn match_set_commands(commands: FanProfileSetCommands) -> (r: DaemonMessage)
        ensures
            r matches DaemonMessage::SetValue { item, value } && item == DaemonItem::FanProfile(
                FanProfileItem::Profile,
            ) && value@ == commands->Profile_value@,
    {
        match commands {
            FanProfileSetCommands::Profile { value } => DaemonMessage::SetValue {
                item: DaemonItem::FanProfile(FanProfileItem::Profile),
                value,
            },
        }
    }

    /// Plans the desktop notification for the current profile.
    pub fn notify(output: &str) -> (r: Result<Command, DaemonError>)
        ensures
            r is Ok <==> spec_fan_profile(output@) is Some,
            r matches Ok(cmd) ==> cmd.name@ == "dunstify"@,
    {
        let profile = Self::get_profile(output)?;
        let icon = Self::get_icon();
        let mut cmd = Command::new("dunstify");
        cmd.arg("-u");
        cmd.arg("-normal");
        cmd.arg("-t");
        cmd.arg(u32_to_string(crate::NOTIFICATION_TIMEOUT).as_str());
        cmd.arg("-i");
        cmd.arg(icon.as_str());
        cmd.arg("-r");
        cmd.arg(u32_to_string(crate::NOTIFICATION_ID).as_str());
        let mut body = String::from_str("Fan Profile: ");
        body.append(
            match profile {
                FanState::Performance => "Performance",
                FanState::Balanced => "Balanced",
                FanState::Quiet => "Quiet",
            },
        );
        cmd.arg(body.as_str());
        Ok(cmd)
    }
}

} // verus!
