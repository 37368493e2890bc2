//! The global snapshot: every provider's tuples, under its fixed name, in a
//! fixed stable order. One provider failing aborts the whole snapshot, so a
//! listener never sees partial state.
use vstd::prelude::*;
use vstd::string::*;

use crate::battery::{spec_battery_ok, spec_battery_tuples, Battery};
use crate::bluetooth::{spec_bt_state, spec_bt_tuples, Bluetooth};
use crate::brightness::{spec_bri_ok, spec_bri_tuples, Brightness};
use crate::daemon::groups_view;
use crate::error::DaemonError;
use crate::fan_profile::{spec_fan_profile, spec_fan_tuples, FanProfile};
use crate::ram::{spec_ram_ok, spec_ram_tuples, Ram};
use crate::volume::{spec_volume_tuples, Volume};

verus! {

/// One tuple group of the snapshot, in the snapshot's fixed order.
#[derive(Debug, Clone, Copy, PartialEq, Eq, Structural)]
pub enum TupleName {
    Volume,
    Brightness,
    Bluetooth,
    Battery,
    Ram,
    FanProfile,
}

impl TupleName {
    /// The group at a snapshot position; positions run from zero to five.
    pub fn from_index(value: usize) -> (r: Result<TupleName, DaemonError>)
        ensures
            r is Ok <==> value < 6,
            r matches Ok(t) ==> t == (match value {
                0 => TupleName::Volume,
                1 => TupleName::Brightness,
                2 => TupleName::Bluetooth,
                3 => TupleName::Battery,
                4 => TupleName::Ram,
                _ => TupleName::FanProfile,
            }),
            r matches Err(e) ==> e is TupleNameError,
    {
        match value {
            0 => Ok(TupleName::Volume),
            1 => Ok(TupleName::Brightness),
            2 => Ok(TupleName::Bluetooth),
            3 => Ok(TupleName::Battery),
            4 => Ok(TupleName::Ram),
            5 => Ok(TupleName::FanProfile),
            _ => Err(DaemonError::TupleNameError),
        }
    }

    /// The group's name in the snapshot.
    pub fn as_str(&self) -> (r: &'static str)
        ensures
            r@ == self.spec_name(),
    {
        match self {
            TupleName::Volume => "volume",
            TupleName::Brightness => "brightness",
            TupleName::Bluetooth => "bluetooth",
            TupleName::Battery => "battery",
            TupleName::Ram => "ram",
            TupleName::FanProfile => "fan_profile",
        }
    }

    /// The group's name, as a sequence.
    pub open spec fn spec_name(&self) -> Seq<char> {
        match self {
            TupleName::Volume => "volume"@,
            TupleName::Brightness => "brightness"@,
            TupleName::Bluetooth => "bluetooth"@,
            TupleName::Battery => "battery"@,
            TupleName::Ram => "ram"@,
            TupleName::FanProfile => "fan_profile"@,
        }
    }
}

/// One reading of every provider: the raw tool outputs, and the volume
/// already converted to a linear percent.
#[derive(Debug, Clone)]
pub struct ProviderReadings {
    pub volume_percent: u32,
    pub volume_mute: bool,
    pub brightness_output: String,
    pub bluetooth_output: String,
    pub battery_output: String,
    pub ram_output: String,
    pub fan_profile_output: String,
}

/// Whether every provider's part of a reading parses.
pub open spec fn spec_readings_ok(r: &ProviderReadings) -> bool {
    &&& spec_bri_ok(r.brightness_output@)
    &&& spec_bt_state(r.bluetooth_output@) is Some
    &&& spec_battery_ok(r.battery_output@)
    &&& spec_ram_ok(r.ram_output@)
    &&& spec_fan_profile(r.fan_profile_output@) is Some
}

/// The snapshot a readable reading yields.
pub open spec fn spec_all_tuples(r: &ProviderReadings) -> Seq<
    (Seq<char>, Seq<(Seq<char>, Seq<char>)>),
> {
    seq![
        ("volume"@, spec_volume_tuples(r.volume_percent, r.volume_mute)),
        ("brightness"@, spec_bri_tuples(r.brightness_output@)),
        ("bluetooth"@, spec_bt_tuples(r.bluetooth_output@)),
        ("battery"@, spec_battery_tuples(r.battery_output@)),
        ("ram"@, spec_ram_tuples(r.ram_output@)),
        ("fan_profile"@, spec_fan_tuples(r.fan_profile_output@)),
    ]
}

/// One group's tuples, from the reading.
pub fn tuple_name_to_tuples(tuple_name: &TupleName, readings: &ProviderReadings) -> (r: Result<
    Vec<(String, String)>,
    DaemonError,
>)
    ensures
        r matches Ok(v) ==> match tuple_name {
            TupleName::Volume => crate::daemon::pairs_view(v@) =~~= spec_volume_tuples(
                readings.volume_percent,
                readings.volume_mute,
            ),
            TupleName::Brightness => crate::daemon::pairs_view(v@) =~~= spec_bri_tuples(
                readings.brightness_output@,
            ),
            TupleName::Bluetooth => crate::daemon::pairs_view(v@) =~~= spec_bt_tuples(
                readings.bluetooth_output@,
            ),
            TupleName::Battery => crate::daemon::pairs_view(v@) =~~= spec_battery_tuples(
                readings.battery_output@,
            ),
            TupleName::Ram => crate::daemon::pairs_view(v@) =~~= spec_ram_tuples(
                readings.ram_output@,
            ),
            TupleName::FanProfile => crate::daemon::pairs_view(v@) =~~= spec_fan_tuples(
                readings.fan_profile_output@,
            ),
        },
{
    match tuple_name {
        TupleName::Volume => Ok(
            Volume::get_tuples(readings.volume_percent, readings.volume_mute),
        ),
        TupleName::Brightness => Brightness::get_tuples(readings.brightness_output.as_str()),
        TupleName::Bluetooth => Bluetooth::get_tuples(readings.bluetooth_output.as_str()),
        TupleName::Battery => Battery::get_tuples(readings.battery_output.as_str()),
        TupleName::Ram => Ram::get_tuples(readings.ram_output.as_str()),
        TupleName::FanProfile => FanProfile::get_tuples(readings.fan_profile_output.as_str()),
    }
}

/// The whole snapshot, in the fixed provider order; any provider whose part
/// does not parse aborts the snapshot, so no partial state escapes.
pub fn get_all_tuples(readings: &ProviderReadings) -> (r: Result<
    Vec<(String, Vec<(String, String)>)>,
    DaemonError,
>)
    ensures
        r is Ok <==> spec_readings_ok(readings),
        r matches Ok(v) ==> groups_view(v@) =~~= spec_all_tuples(readings),
{
    let mut v: Vec<(String, Vec<(String, String)>)> = Vec::new();
    v.push(
        (
            String::from_str("volume"),
            Volume::get_tuples(readings.volume_percent, readings.volume_mute),
        ),
    );
    v.push(
        (
            String::from_str("brightness"),
            Brightness::get_tuples(readings.brightness_output.as_str())?,
        ),
    );
    v.push(
        (
            String::from_str("bluetooth"),
            Bluetooth::get_tuples(readings.bluetooth_output.as_str())?,
        ),
    );
    v.push(
        (String::from_str("battery"), Battery::get_tuples(readings.battery_output.as_str())?),
    );
    v.push((String::from_str("ram"), Ram::get_tuples(readings.ram_output.as_str())?));
    v.push(
        (
            String::from_str("fan_profile"),
            FanProfile::get_tuples(readings.fan_profile_output.as_str())?,
        ),
    );
    proof {
        assert(groups_view(v@) =~~= spec_all_tuples(readings));
    }
    Ok(v)
}

} // verus!
