//! The wire-level message vocabulary and the dispatch shapes a
//! received message falls into. Encoding to and from the socket
//! happens outside; the library decides what each message means.
use vstd::prelude::*;

use crate::command::Command;
use crate::command::InfoCommand;

verus! {

/// One wire-level message: a terminal reply, a push payload, or a
/// command from a client.
#[derive(Debug, Clone, PartialEq, Eq)]
pub enum Message {
    IpcOk,
    IpcErr(String),
    IpcMessage(String),
    Command(Command),
}

/// How the listener must treat one received message: stop the daemon,
/// start a streaming task, run a one-shot command, or drop the
/// connection.
#[derive(Debug, Clone)]
pub enum DispatchShape {
    /// reply `Ok` and terminate the main loop
    Quit,
    /// spawn a long-lived task pushing state snapshots
    StreamInfo { command: InfoCommand, monitor: bool },
    /// run against the session state and reply exactly once
    OneShot(Command),
    /// not a command: close this connection, touch nothing else
    Invalid,
}

/// What a received message means to the listener.
pub open spec fn spec_classify(m: Message) -> DispatchShape {
    match m {
        Message::Command(c) => match c {
            Command::DaemonQuit => DispatchShape::Quit,
            Command::Info { command, monitor } => DispatchShape::StreamInfo { command, monitor },
            _ => DispatchShape::OneShot(c),
        },
        _ => DispatchShape::Invalid,
    }
}

/// Classify one received message into its dispatch shape.
pub fn classify(m: Message) -> (r: DispatchShape)
    ensures
        r == spec_classify(m),
{
    match m {
        Message::Command(c) => match c {
            Command::DaemonQuit => DispatchShape::Quit,
            Command::Info { command, monitor } => DispatchShape::StreamInfo { command, monitor },
            _ => DispatchShape::OneShot(c),
        },
        _ => DispatchShape::Invalid,
    }
}

} // verus!
