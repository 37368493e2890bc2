//! The command-line surface, as plain data: the command tree a parsed
//! invocation yields, the request each command stands for, and the boolean
//! parser the value arguments share. Reading `argv` into this tree is the
//! surrounding binary's job.
use vstd::prelude::*;
use vstd::string::*;

use crate::battery::{Battery, BatteryGetCommands};
use crate::bluetooth::{Bluetooth, BluetoothGetCommands, BluetoothSetCommands};
use crate::brightness::{Brightness, BrightnessGetCommands, BrightnessSetCommands};
use crate::daemon::{DaemonItem, DaemonMessage};
use crate::fan_profile::{FanProfile, FanProfileGetCommands, FanProfileSetCommands};
use crate::ram::{Ram, RamGetCommands};
use crate::text::{eq_lowered, spec_lower};
use crate::volume::{Volume, VolumeGetCommands, VolumeSetCommands};

verus! {

/// One parsed invocation.
#[derive(Debug)]
pub struct Cli {
    pub commands: CliCommands,
}

/// The top-level command.
#[derive(Debug)]
pub enum CliCommands {
    GetCmd { commands: Option<GetCommands> },
    SetCmd { commands: SetCommands },
    Update { commands: UpdateCommands },
    Listen,
    Daemon,
}

/// What `set` may address.
#[derive(Debug)]
pub enum SetCommands {
    Volume { commands: VolumeSetCommands },
    Brightness { commands: BrightnessSetCommands },
    Bluetooth { commands: BluetoothSetCommands },
    FanProfile { commands: FanProfileSetCommands },
}

/// What `update` may address; an update carries no value.
#[derive(Debug, Clone, Copy)]
pub enum UpdateCommands {
    Volume,
    Brightness,
    Bluetooth,
    FanProfile,
}

/// What `get` may address.
#[derive(Debug)]
pub enum GetCommands {
    Volume { commands: Option<VolumeGetCommands> },
    Brightness { commands: Option<BrightnessGetCommands> },
    Bluetooth { commands: Option<BluetoothGetCommands> },
    Battery { commands: Option<BatteryGetCommands> },
    Ram { commands: Option<RamGetCommands> },
    FanProfile { commands: FanProfileGetCommands },
    All,
}

/// What one invocation asks of the process.
#[derive(Debug)]
pub enum CliAction {
    /// Send this request to the daemon and print the reply.
    Send(DaemonMessage),
    /// Subscribe to snapshot pushes and print them.
    Listen,
    /// Run the daemon itself.
    Daemon,
}

/// Decides what an invocation asks for: `get`/`set` become the request they
/// name, a bare `get` asks for everything, `listen` and `daemon` switch the
/// process's role.
pub fn match_cli(commands: CliCommands) -> (r: CliAction)
    ensures
        commands is Listen ==> r is Listen,
        commands is Daemon ==> r is Daemon,
        commands is GetCmd || commands is SetCmd || commands is Update ==> r is Send,
        commands matches CliCommands::GetCmd { commands: None } ==> (r matches CliAction::Send(m)
            && m matches DaemonMessage::Get { item } && item == DaemonItem::All),
{
    match commands {
        CliCommands::GetCmd { commands } => CliAction::Send(
            match commands {
                Some(commands) => match commands {
                    GetCommands::Volume { commands } => Volume::match_get_commands(&commands),
                    GetCommands::Brightness { commands } => Brightness::match_get_commands(
                        commands,
                    ),
                    GetCommands::Bluetooth { commands } => Bluetooth::match_get_commands(commands),
                    GetCommands::Battery { commands } => Battery::match_get_commands(commands),
                    GetCommands::Ram { commands } => Ram::match_get_commands(commands),
                    GetCommands::FanProfile { commands } => FanProfile::match_get_commands(
                        &commands,
                    ),
                    GetCommands::All => DaemonMessage::Get { item: DaemonItem::All },
                },
                None => DaemonMessage::Get { item: DaemonItem::All },
            },
        ),
        CliCommands::SetCmd { commands } => CliAction::Send(
            match commands {
                SetCommands::Volume { commands } => Volume::match_set_commands(commands),
                SetCommands::Brightness { commands } => Brightness::match_set_commands(commands),
                SetCommands::Bluetooth { commands } => Bluetooth::match_set_commands(&commands),
                SetCommands::FanProfile { commands } => FanProfile::match_set_commands(commands),
            },
        ),
        CliCommands::Update { commands } => CliAction::Send(
            DaemonMessage::Get {
                item: match commands {
                    UpdateCommands::Volume => DaemonItem::Volume(
                        crate::volume::VolumeItem::All,
                    ),
                    UpdateCommands::Brightness => DaemonItem::Brightness(
                        crate::brightness::BrightnessItem::All,
                    ),
                    UpdateCommands::Bluetooth => DaemonItem::Bluetooth(
                        crate::bluetooth::BluetoothItem::All,
                    ),
                    UpdateCommands::FanProfile => DaemonItem::FanProfile(
                        crate::fan_profile::FanProfileItem::Profile,
                    ),
                },
            },
        ),
        CliCommands::Listen => CliAction::Listen,
        CliCommands::Daemon => CliAction::Daemon,
    }
}

/// Parses the booleans the command line accepts: `true`/`1` and
/// `false`/`0`, in any letter case; anything else is rejected with a
/// message naming the offending value.
pub fn parse_bool(s: &str) -> (r: Result<bool, String>)
    ensures
        r matches Ok(true) <==> (spec_lower(s@) == "true"@ || spec_lower(s@) == "1"@),
        r matches Ok(false) <==> (spec_lower(s@) == "false"@ || spec_lower(s@) == "0"@),
{
    proof {
        reveal_strlit("true");
        reveal_strlit("false");
        reveal_strlit("1");
        reveal_strlit("0");
        assert("true"@.len() == 4);
        assert("false"@.len() == 5);
        assert("1"@.len() == 1);
        assert("0"@.len() == 1);
        assert("1"@[0] == '1' && "0"@[0] == '0');
    }
    if eq_lowered(s, "true") || eq_lowered(s, "1") {
        Ok(true)
    } else if eq_lowered(s, "false") || eq_lowered(s, "0") {
        Ok(false)
    } else {
        let mut m = String::from_str("Invalid value '");
        m.append(s);
        m.append("' for boolean. Use true/false or 1/0.");
        Err(m)
    }
}

} // verus!
