//! Configuration of the daemon: the ordered activity list, the grid
//! dimensions, and the behaviour toggles. Loading the file from disk
//! happens outside; the library receives the plain values and
//! validates them.
use std::collections::HashMap;

use vstd::prelude::*;

use crate::command::Command;

verus! {

/// The grid dimensions: workspaces in the x and y directions.
#[derive(Debug, Clone, Copy, PartialEq, Eq, Structural)]
pub struct GridDims(pub i32, pub i32);

/// Behaviour of the mouse-edge poller.
#[derive(Debug, Clone)]
pub struct MouseConfig {
    /// switch workspace when the cursor reaches a screen edge
    pub switch_workspace_on_edge: bool,
    /// polling interval in milliseconds
    pub polling_rate: u64,
    /// number of pixels from the edge that count as the edge
    pub edge_width: u64,
    /// the cursor lands this many pixels inside the opposite edge
    pub edge_margin: u64,
}

impl Default for MouseConfig {
    fn default() -> (r: Self)
        ensures
            r.switch_workspace_on_edge == true,
            r.polling_rate == 300,
            r.edge_width == 0,
            r.edge_margin == 2,
    {
        Self { switch_workspace_on_edge: true, polling_rate: 300, edge_width: 0, edge_margin: 2 }
    }
}

/// Behaviour toggles of the daemon itself.
#[derive(Debug, Clone)]
pub struct DaemonConfig {
    /// run commands directly when no daemon answers
    pub fallback_commands: bool,
    /// remember which workspace was last focused on each activity
    pub remember_activity_focus: bool,
    /// move monitors to a managed activity when they appear
    pub move_monitors_to_hyprkool_activity: bool,
    /// refocus the last active window after a monitor focus change
    pub focus_last_window_on_monitor_change: bool,
    pub mouse: MouseConfig,
}

impl Default for DaemonConfig {
    fn default() -> (r: Self)
        ensures
            r.fallback_commands == true,
            r.remember_activity_focus == true,
            r.move_monitors_to_hyprkool_activity == true,
            r.focus_last_window_on_monitor_change == false,
            r.mouse.switch_workspace_on_edge == true,
            r.mouse.polling_rate == 300,
            r.mouse.edge_width == 0,
            r.mouse.edge_margin == 2,
    {
        Self {
            fallback_commands: true,
            remember_activity_focus: true,
            move_monitors_to_hyprkool_activity: true,
            focus_last_window_on_monitor_change: false,
            mouse: Default::default(),
        }
    }
}

/// The effective configuration: ordered activities, grid dimensions,
/// preset named-focus entries, and the daemon toggles.
#[derive(Debug, Clone)]
pub struct Config {
    /// activity names, in priority order for cycling
    pub activities: Vec<String>,
    /// number of workspaces in the x and y dimensions
    pub workspaces: GridDims,
    pub named_focii: HashMap<String, String>,
    pub daemon: DaemonConfig,
    pub icon_theme: Option<String>,
    pub window_icon_try_min_size: Option<u16>,
}

impl Default for Config {
    fn default() -> (r: Self)
        ensures
            r.activities@.len() == 1,
            r.activities@[0]@ == "default"@,
            r.workspaces == GridDims(2i32, 2i32),
            r.icon_theme is None,
            r.window_icon_try_min_size is None,
            r.daemon.move_monitors_to_hyprkool_activity == true,
            r.daemon.remember_activity_focus == true,
            r.daemon.fallback_commands == true,
            r.daemon.focus_last_window_on_monitor_change == false,
    {
        let mut activities: Vec<String> = Vec::new();
        activities.push(String::from_str("default"));
        Self {
            activities,
            workspaces: GridDims(2, 2),
            named_focii: HashMap::new(),
            daemon: Default::default(),
            icon_theme: None,
            window_icon_try_min_size: None,
        }
    }
}

/// The parsed command-line invocation: an optional configuration
/// directory, the command to run, and whether to bypass a running
/// daemon. Reading it from the process arguments happens outside.
#[derive(Debug, Clone)]
pub struct Cli {
    /// a custom configuration directory
    pub config_dir: Option<String>,
    pub command: Command,
    /// run the command directly even when a daemon is active
    pub force_no_daemon: bool,
}

impl Config {
    /// Whether the configured grid has at least one cell in each
    /// dimension; a zero dimension is rejected at startup.
    pub fn dims_ok(&self) -> (r: bool)
        ensures
            r == (self.workspaces.0 >= 1 && self.workspaces.1 >= 1),
    {
        self.workspaces.0 >= 1 && self.workspaces.1 >= 1
    }
}

} // verus!
