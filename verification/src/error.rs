//! The daemon's error taxonomy. Variants carry plain strings describing the
//! failure; `message` renders one line for logs and replies.
use vstd::prelude::*;

verus! {

/// Everything that can go wrong inside the daemon's core.
#[derive(Debug, Clone)]
pub enum DaemonError {
    /// A socket operation failed (bind, accept, read or write).
    SocketError(String),
    /// Bytes read from a socket did not decode as a protocol message.
    DecodeError(String),
    /// An external command could not be run.
    CommandError { name: String, args: Vec<String>, e: String },
    /// A command's output did not have the expected shape.
    ParseError(String),
    /// A string did not parse as an integer.
    IntegerFromString(String),
    /// A string did not parse as a boolean.
    BoolFromString(String),
    /// An update-trigger signal could not be delivered.
    ChannelError(String),
    /// A tuple-group index was out of range.
    TupleNameError,
}

impl DaemonError {
    /// One-line description of the error, used in replies and logs.
    pub fn message(&self) -> (r: String)
        ensures
            self matches DaemonError::ParseError(s) ==> r@ == "could not parse: "@ + s@,
            self matches DaemonError::IntegerFromString(s) ==> r@ == "not an integer: "@ + s@,
            self matches DaemonError::BoolFromString(s) ==> r@ == "not a boolean: "@ + s@,
            self matches DaemonError::DecodeError(s) ==> r@ == "undecodable message: "@ + s@,
            self matches DaemonError::SocketError(s) ==> r@ == "socket error: "@ + s@,
            self matches DaemonError::ChannelError(s) ==> r@ == "channel error: "@ + s@,
            self is TupleNameError ==> r@ == "no tuple group with that index"@,
    {
        match self {
            DaemonError::SocketError(s) => String::from_str("socket error: ").concat(s.as_str()),
            DaemonError::DecodeError(s) => String::from_str("undecodable message: ").concat(
                s.as_str(),
            ),
            DaemonError::CommandError { name, args: _, e } => {
                let mut r = String::from_str("command '");
                r.append(name.as_str());
                r.append("' failed: ");
                r.append(e.as_str());
                r
            },
            DaemonError::ParseError(s) => String::from_str("could not parse: ").concat(s.as_str()),
            DaemonError::IntegerFromString(s) => String::from_str("not an integer: ").concat(
                s.as_str(),
            ),
            DaemonError::BoolFromString(s) => String::from_str("not a boolean: ").concat(
                s.as_str(),
            ),
            DaemonError::ChannelError(s) => String::from_str("channel error: ").concat(s.as_str()),
            DaemonError::TupleNameError => String::from_str("no tuple group with that index"),
        }
    }
}

} // verus!
