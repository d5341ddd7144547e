//! The daemon's internal event vocabulary, the workspace-animation
//! hints sent to the compositor plugin, and the socket paths derived
//! from the compositor session signature.
use vstd::prelude::*;

verus! {

/// The kind of workspace a monitor-change event reports.
#[derive(Clone, Debug)]
pub enum WorkspaceKind {
    Regular(String),
    Special(Option<String>),
}

/// An internal event, produced by the compositor event bridge or
/// injected synthetically.
#[derive(Clone, Debug)]
pub enum KEvent {
    WindowChange,
    WindowOpen,
    WindowMoved,
    WindowClosed,
    WorkspaceChange,
    MonitorChange { name: String, workspace: Option<WorkspaceKind> },
    MonitorAdded { name: String },
    MonitorRemoved { name: String },
    Submap { name: String },
    MonitorInfoRequested,
}

/// A workspace-switch animation hint for the compositor plugin.
#[derive(Debug, Clone, Copy, PartialEq, Eq, Structural)]
pub enum Animation {
    NoAnim,
    Left,
    Right,
    Up,
    Down,
    Fade,
}

impl Animation {
    /// The numeric code of this hint on the plugin's wire protocol.
    pub fn code(&self) -> (r: u8)
        ensures
            self is NoAnim ==> r == 0,
            self is Left ==> r == 1,
            self is Right ==> r == 2,
            self is Up ==> r == 3,
            self is Down ==> r == 4,
            self is Fade ==> r == 5,
    {
        match self {
            Animation::NoAnim => 0,
            Animation::Left => 1,
            Animation::Right => 2,
            Animation::Up => 3,
            Animation::Down => 4,
            Animation::Fade => 5,
        }
    }

    /// The animation hint for a single-axis grid move: the direction
    /// moved in, or a fade for a diagonal or zero move.
    pub open spec fn spec_for_move(x: int, y: int) -> Animation {
        if x > 0 && y == 0 {
            Animation::Right
        } else if x < 0 && y == 0 {
            Animation::Left
        } else if x == 0 && y > 0 {
            Animation::Down
        } else if x == 0 && y < 0 {
            Animation::Up
        } else {
            Animation::Fade
        }
    }

    /// The animation hint for a single-axis grid move: the direction
    /// moved in, or a fade for a diagonal or zero move.
    pub fn for_move(x: i32, y: i32) -> (r: Animation)
        ensures
            r == Animation::spec_for_move(x as int, y as int),
    {
        if x > 0 && y == 0 {
            Animation::Right
        } else if x < 0 && y == 0 {
            Animation::Left
        } else if x == 0 && y > 0 {
            Animation::Down
        } else if x == 0 && y < 0 {
            Animation::Up
        } else {
            Animation::Fade
        }
    }
}

/// The per-session directory holding the daemon's sockets, derived
/// from the compositor session signature.
pub fn get_socket_dir(hypr_signature: &str) -> (r: String)
    ensures
        r@ == "/tmp/hyprkool/"@.add(hypr_signature@),
{
    let mut r = String::from_str("/tmp/hyprkool/");
    r.append(hypr_signature);
    r
}

/// The path of the daemon's command socket for a session.
pub fn get_socket_path(hypr_signature: &str) -> (r: String)
    ensures
        r@ == "/tmp/hyprkool/"@.add(hypr_signature@).add("/kool.sock"@),
{
    let mut r = get_socket_dir(hypr_signature);
    r.append("/kool.sock");
    r
}

/// The path of the compositor plugin's animation-hint socket for a
/// session.
pub fn get_plugin_socket_path(hypr_signature: &str) -> (r: String)
    ensures
        r@ == "/tmp/hyprkool/"@.add(hypr_signature@).add("/plugin.sock"@),
{
    let mut r = get_socket_dir(hypr_signature);
    r.append("/plugin.sock");
    r
}

} // verus!
