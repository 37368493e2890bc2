//! Core of a desktop-metrics daemon: the wire protocol and its codec, the
//! request dispatcher, the listener registry with its broadcast planning, the
//! retry state machine, and the pure parsing/decision logic of the metric
//! providers. All I/O (sockets, spawning the external tools, timers) lives in
//! the surrounding binary; this crate only decides, parses, and encodes.
use vstd::prelude::*;

pub mod battery;
pub mod bluetooth;
pub mod brightness;
pub mod channel;
pub mod cli;
pub mod codec;
pub mod command;
pub mod daemon;
pub mod error;
pub mod fan_profile;
pub mod json;
pub mod listener;
pub mod memory;
pub mod ram;
pub mod retry;
pub mod server;
pub mod volume;
pub mod text;
pub mod tuples;

verus! {

/// Filesystem path of the daemon's local socket.
pub const SOCKET_PATH: &'static str = "/tmp/bar_daemon.sock";

/// One socket read uses a buffer of this many bytes; a message must fit in it.
pub const BUFFER_SIZE: usize = 1024;

/// Milliseconds between two polls of the background poller.
pub const POLLING_RATE: u64 = 1000;

/// Suffix appended to icon names.
pub const ICON_END: &'static str = "-symbolic";

/// Suffix appended to icon file names.
pub const ICON_EXT: &'static str = "-symbolic.svg";

/// Replacement id shared by all desktop notifications of the daemon.
pub const NOTIFICATION_ID: u32 = 42069;

/// Milliseconds a desktop notification stays visible.
pub const NOTIFICATION_TIMEOUT: u32 = 1000;

/// A failed provider call is retried up to this many times after the first try.
pub const RETRY_AMOUNT: u32 = 3;

/// Milliseconds slept between two attempts of a retried call.
pub const RETRY_TIMEOUT: u64 = 100;

} // verus!
