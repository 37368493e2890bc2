//! Channel plumbing: the earlier text protocol's command set, and the
//! trusted face of the unbounded update-trigger channel the handlers use to
//! nudge the broadcast task.
use vstd::prelude::*;
use vstd::string::*;

use crate::listener::ClientMessage;

verus! {

/// One command of the earlier text protocol's server loop.
#[derive(Debug, Clone)]
pub enum ServerCommand {
    UpdateAll,
    GetVol { args: Vec<String> },
    UpdateVol,
    GetBri { args: Vec<String> },
    UpdateBri,
    GetBat { args: Vec<String> },
    UpdateBat,
    GetMem { args: Vec<String> },
    UpdateMem,
    GetBlu { args: Vec<String> },
    UpdateBlu,
}

impl ServerCommand {
    /// A short description of the command, for logs and channel errors.
    pub fn describe(&self) -> (r: String)
        ensures
            self is UpdateAll ==> r@ == "Update server"@,
            self is GetVol ==> r@ == "Get volume"@,
            self is UpdateVol ==> r@ == "Update volume"@,
            self is GetBri ==> r@ == "Get brightness"@,
            self is UpdateBri ==> r@ == "Update brightness"@,
            self is GetBat ==> r@ == "Get battery"@,
            self is UpdateBat ==> r@ == "Update battery"@,
            self is GetMem ==> r@ == "Get memory"@,
            self is UpdateMem ==> r@ == "Update memory"@,
            self is GetBlu ==> r@ == "Get bluetooth"@,
            self is UpdateBlu ==> r@ == "Update bluetooth"@,
    {
        match self {
            ServerCommand::UpdateAll => String::from_str("Update server"),
            ServerCommand::GetVol { .. } => String::from_str("Get volume"),
            ServerCommand::UpdateVol => String::from_str("Update volume"),
            ServerCommand::GetBri { .. } => String::from_str("Get brightness"),
            ServerCommand::UpdateBri => String::from_str("Update brightness"),
            ServerCommand::GetBat { .. } => String::from_str("Get battery"),
            ServerCommand::UpdateBat => String::from_str("Update battery"),
            ServerCommand::GetMem { .. } => String::from_str("Get memory"),
            ServerCommand::UpdateMem => String::from_str("Update memory"),
            ServerCommand::GetBlu { .. } => String::from_str("Get bluetooth"),
            ServerCommand::UpdateBlu => String::from_str("Update bluetooth"),
        }
    }
}

#[verifier::external_type_specification]
#[verifier::external_body]
#[verifier::reject_recursive_types(T)]
pub struct ExUnboundedSender<T>(tokio::sync::mpsc::UnboundedSender<T>);

/// Relies on tokio's `UnboundedSender::send`: it never blocks, and it
/// returns `Ok` exactly while the receiving half still exists. The returned
/// flag says whether the signal was accepted; a refusal means the broadcast
/// task is gone and is only logged.
#[verifier::external_body]
pub fn send_client_message(
    tx: &tokio::sync::mpsc::UnboundedSender<ClientMessage>,
    msg: ClientMessage,
) -> bool {
    tx.send(msg).is_ok()
}

} // verus!
