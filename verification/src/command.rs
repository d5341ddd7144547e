//! The user-invocable commands, immutable once constructed. The
//! surrounding process parses them from the command line or from the
//! wire and hands them to the session state for planning.
use vstd::prelude::*;

use crate::events::KEvent;

verus! {

/// An information request served over a streaming connection.
#[derive(Debug, Clone, PartialEq, Eq)]
pub enum InfoCommand {
    Submap,
    /// everything needed to draw widgets for windows, workspaces,
    /// activities and monitors
    MonitorsAllInfo {
        /// smallest icon size to look for, in pixels
        window_icon_try_min_size: Option<u16>,
        /// icon theme to search, the current theme when absent
        window_icon_theme: Option<String>,
    },
}

impl InfoCommand {
    /// The internal event this request injects so that the daemon
    /// produces a first snapshot at once.
    pub fn fired_event(&self) -> (r: Option<KEvent>)
        ensures
            self is MonitorsAllInfo ==> r matches Some(KEvent::MonitorInfoRequested),
            self is Submap ==> r is None,
    {
        match self {
            InfoCommand::MonitorsAllInfo { .. } => Some(KEvent::MonitorInfoRequested),
            InfoCommand::Submap => None,
        }
    }
}

/// A user-invocable operation, carrying its own arguments.
#[derive(Debug, Clone, PartialEq, Eq)]
pub enum Command {
    Daemon,
    DaemonQuit,
    Info { command: InfoCommand, monitor: bool },
    FocusWindow { address: String },
    MoveRight { cycle: bool, move_window: bool },
    MoveLeft { cycle: bool, move_window: bool },
    MoveUp { cycle: bool, move_window: bool },
    MoveDown { cycle: bool, move_window: bool },
    NextActivity { cycle: bool, move_window: bool },
    PrevActivity { cycle: bool, move_window: bool },
    SwitchToActivity { name: String, move_window: bool },
    NextMonitor { cycle: bool, move_window: bool },
    PrevMonitor { cycle: bool, move_window: bool },
    SwapMonitorsActiveWorkspace {
        monitor_1: Option<String>,
        monitor_2: Option<String>,
        move_window: bool,
    },
    SwitchToMonitor { name: String, move_window: bool },
    SwitchToWorkspaceInActivity { name: String, move_window: bool },
    SwitchToWorkspace { name: String, move_window: bool },
    ToggleSpecialWorkspace { name: String, move_window: bool, silent: bool },
    SwitchNamedFocus { name: String, move_window: bool },
    SetNamedFocus { name: String },
}

} // verus!
