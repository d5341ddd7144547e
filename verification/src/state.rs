//! The session state: the single mutable aggregate the daemon owns.
//! Every command and event is turned here into a new state plus a
//! plan of compositor operations; performing the operations and all
//! I/O happens outside. All mutation goes through this object, and
//! each planning function says exactly how the new state relates to
//! the old one.
use vstd::prelude::*;

use crate::command::Command;
use crate::config::Config;
use crate::events::Animation;
use crate::grid::spec_activity_of;
use crate::grid::spec_translate;
use crate::grid::spec_ws_part;
use crate::grid::spec_ws_of;
use crate::grid::translate;
use crate::grid::KActivity;
use crate::grid::KWorkspace;

verus! {

/// Whether two string slices hold the same characters.
pub fn str_eq(a: &str, b: &str) -> (r: bool)
    ensures
        r == (a@ == b@),
{
    let n = a.unicode_len();
    let m = b.unicode_len();
    if n != m {
        return false;
    }
    let mut i: usize = 0;
    while i < n
        invariant
            0 <= i <= n,
            n == a@.len() && n == b@.len(),
            forall|j: int| 0 <= j < i ==> a@[j] == b@[j],
        decreases n - i,
    {
        if a.get_char(i) != b.get_char(i) {
            return false;
        }
        i += 1;
    }
    proof {
        assert(a@ =~= b@);
    }
    true
}

/// The live attributes of one monitor, as last reported by the
/// compositor.
#[derive(Debug)]
pub struct MonitorInfo {
    pub id: i64,
    pub name: String,
    pub focused: bool,
    pub disabled: bool,
    /// id of the workspace shown on this monitor
    pub active_workspace_id: i64,
    /// name of the workspace shown on this monitor
    pub active_workspace_name: String,
    /// id of the special workspace shown here, 0 for none
    pub special_workspace_id: i64,
    /// position of this monitor in the global layout
    pub x: i32,
    pub y: i32,
}

impl MonitorInfo {
    /// An equal copy of these attributes.
    pub fn duplicate(&self) -> (r: MonitorInfo)
        ensures
            r == *self,
    {
        MonitorInfo {
            id: self.id,
            name: self.name.clone(),
            focused: self.focused,
            disabled: self.disabled,
            active_workspace_id: self.active_workspace_id,
            active_workspace_name: self.active_workspace_name.clone(),
            special_workspace_id: self.special_workspace_id,
            x: self.x,
            y: self.y,
        }
    }
}

/// One window, as reported by the compositor.
#[derive(Debug)]
pub struct WindowData {
    pub address: String,
    pub workspace_id: i64,
    pub workspace_name: String,
    pub title: String,
    pub class: String,
    pub initial_title: String,
    pub focus_history_id: i32,
    /// fullscreen beyond the maximized mode, which blocks edge moves
    pub fullscreen_beyond_max: bool,
}

/// A cursor position in global layout pixels.
#[derive(Debug, Clone, Copy, PartialEq, Eq, Structural)]
pub struct CursorPos {
    pub x: i64,
    pub y: i64,
}

/// Compositor answers a planning step may need. A `None` outer value
/// means the query failed or was not made; planning that needs it
/// reports the failure instead of guessing.
#[derive(Debug)]
pub struct QueryData {
    pub cursor: Option<CursorPos>,
    /// `Some(None)` means the query succeeded and no window is active
    pub active_window: Option<Option<WindowData>>,
    pub clients: Option<Vec<WindowData>>,
}

/// Why a command could not be carried out. Each variant maps to the
/// message the requesting client is shown.
#[derive(Debug, Clone, Copy, PartialEq, Eq, Structural)]
pub enum KError {
    /// the focused monitor is not on a workspace this daemon manages
    NotInKoolWorkspace,
    /// the focused monitor is not on a managed activity
    NotInKoolActivity,
    /// the current workspace names an activity outside the configured list
    UnknownActivity,
    /// no monitor reports itself focused
    NoMonitorFocused,
    /// the `(<x> <y>)` part of a workspace name does not parse
    InvalidWorkspaceName,
    /// the full workspace name holds no activity part
    ActivityNotFound,
    /// the full workspace name holds no position part
    WorkspaceNotFound,
    /// the command needs an active window and there is none
    NoActiveWindow,
    /// no monitor has the requested name
    MonitorNotFound,
    /// the first named monitor does not exist
    Monitor1NotFound,
    /// the second named monitor does not exist
    Monitor2NotFound,
    /// either both monitor names must be given, or neither
    MonitorNamesRequired,
    /// names may be left off only with exactly two monitors
    NotTwoMonitors,
    /// no workspace is bound to the given focus name
    NoSuchNamedFocus,
    /// the command is not executable against session state
    CannotRunHere,
    /// a compositor query this command needs did not answer
    QueryFailed,
}

impl KError {
    /// The message shown to the requesting client.
    pub fn message(&self) -> (r: String)
        ensures
            *self is NotInKoolWorkspace ==> r@ == "not in a hyprkool workspace"@,
            *self is NotInKoolActivity ==> r@ == "not in hyprkool activity"@,
            *self is UnknownActivity ==> r@ == "unknown activity name"@,
            *self is NoMonitorFocused ==> r@ == "no monitor focused :|"@,
            *self is InvalidWorkspaceName ==> r@ == "invalid workspace name"@,
            *self is ActivityNotFound ==> r@ == "activity not found"@,
            *self is WorkspaceNotFound ==> r@ == "workspace not found"@,
            *self is NoActiveWindow ==> r@ == "No active window"@,
            *self is MonitorNotFound ==> r@ == "monitor with provided name does not exist"@,
            *self is Monitor1NotFound ==> r@ == "monitor_1 does not exist"@,
            *self is Monitor2NotFound ==> r@ == "monitor_2 does not exist"@,
            *self is MonitorNamesRequired ==> r@ == "you need to pass either no or both monitor names"@,
            *self is NotTwoMonitors ==> r@
                == "you don't have exactly 2 monitors. you must pass names of both monitors"@,
            *self is NoSuchNamedFocus ==> r@ == "no workspace set to the provided name"@,
            *self is CannotRunHere ==> r@ == "Can't run this command here"@,
            *self is QueryFailed ==> r@ == "could not query the compositor"@,
    {
        match self {
            KError::NotInKoolWorkspace => String::from_str("not in a hyprkool workspace"),
            KError::NotInKoolActivity => String::from_str("not in hyprkool activity"),
            KError::UnknownActivity => String::from_str("unknown activity name"),
            KError::NoMonitorFocused => String::from_str("no monitor focused :|"),
            KError::InvalidWorkspaceName => String::from_str("invalid workspace name"),
            KError::ActivityNotFound => String::from_str("activity not found"),
            KError::WorkspaceNotFound => String::from_str("workspace not found"),
            KError::NoActiveWindow => String::from_str("No active window"),
            KError::MonitorNotFound => String::from_str("monitor with provided name does not exist"),
            KError::Monitor1NotFound => String::from_str("monitor_1 does not exist"),
            KError::Monitor2NotFound => String::from_str("monitor_2 does not exist"),
            KError::MonitorNamesRequired => String::from_str(
                "you need to pass either no or both monitor names",
            ),
            KError::NotTwoMonitors => String::from_str(
                "you don't have exactly 2 monitors. you must pass names of both monitors",
            ),
            KError::NoSuchNamedFocus => String::from_str("no workspace set to the provided name"),
            KError::CannotRunHere => String::from_str("Can't run this command here"),
            KError::QueryFailed => String::from_str("could not query the compositor"),
        }
    }
}

/// One compositor operation a plan asks the outside to perform.
#[derive(Debug, Clone, PartialEq, Eq)]
pub enum Action {
    /// focus a workspace on the current monitor; the argument is
    /// passed to the dispatcher verbatim
    FocusWorkspace { arg: String },
    /// focus the monitor with this id
    FocusMonitorById { id: i64 },
    /// focus the monitor with this name
    FocusMonitorByName { name: String },
    /// move the focused window silently to the named workspace
    MoveWindowTo { name: String },
    /// move the focused window silently to the named special workspace
    MoveWindowToSpecial { name: String },
    /// toggle the named special workspace
    ToggleSpecial { name: String },
    /// focus the window at this address
    FocusWindowByAddress { address: String },
    /// place the cursor at this global position
    MoveCursor { x: i64, y: i64 },
    /// send a best-effort animation hint to the compositor plugin
    SetAnim { anim: Animation },
}

/// One hint followed by a planned tail of operations.
fn prepend_action(first: Action, rest: Vec<Action>) -> (r: Vec<Action>)
    ensures
        r@.len() == 1 + rest@.len(),
        r@[0] == first,
        r@.skip(1) == rest@,
{
    let mut acts: Vec<Action> = Vec::new();
    acts.push(first);
    let n = rest.len();
    let mut rest = rest;
    let ghost restseq = rest@;
    while rest.len() > 0
        invariant
            restseq.len() == n,
            acts@.len() >= 1,
            acts@.len() + rest@.len() == 1 + restseq.len(),
            rest@ =~= restseq.skip(acts@.len() - 1),
            acts@[0] == first,
            forall|j: int| 0 <= j < acts@.len() - 1 ==> #[trigger] acts@[j + 1] == restseq[j],
        decreases rest@.len(),
    {
        let ghost i = acts@.len() - 1;
        let a = rest.remove(0);
        proof {
            assert(restseq.skip(i)[0] == restseq[i]);
            assert(a == restseq[i]);
            assert(rest@ =~= restseq.skip(i + 1));
        }
        acts.push(a);
    }
    proof {
        assert(acts@.skip(1) =~= restseq);
    }
    acts
}

/// There is an entry with this key at index `i`.
pub open spec fn key_at(s: Seq<(String, String)>, k: Seq<char>, i: int) -> bool {
    0 <= i < s.len() && s[i].0@ == k
}

/// Some entry has this key.
pub open spec fn spec_has_key(s: Seq<(String, String)>, k: Seq<char>) -> bool {
    exists|i: int| key_at(s, k, i)
}

/// The value bound to a key, when the keys are unique.
pub open spec fn spec_lookup(s: Seq<(String, String)>, k: Seq<char>) -> Option<Seq<char>> {
    if spec_has_key(s, k) {
        let i = choose|i: int| key_at(s, k, i);
        Some(s[i].1@)
    } else {
        None
    }
}

/// Two entry lists that hold a key at the same indices, with the same
/// values there, and hold it at most once, bind the key alike.
proof fn lemma_lookup_agree(s1: Seq<(String, String)>, s2: Seq<(String, String)>, k: Seq<char>)
    requires
        forall|j: int| #[trigger] key_at(s1, k, j) <==> #[trigger] key_at(s2, k, j),
        forall|j: int| #[trigger] key_at(s1, k, j) ==> s1[j].1@ == s2[j].1@,
        forall|j1: int, j2: int|
            #[trigger] key_at(s1, k, j1) && #[trigger] key_at(s1, k, j2) ==> j1 == j2,
    ensures
        spec_lookup(s1, k) == spec_lookup(s2, k),
{
    if spec_has_key(s1, k) {
        let w1 = choose|j: int| key_at(s1, k, j);
        assert(key_at(s2, k, w1));
        let w2 = choose|j: int| key_at(s2, k, j);
        assert(key_at(s1, k, w2));
        assert(w1 == w2);
        assert(s1[w1].1@ == s2[w1].1@);
    } else {
        if spec_has_key(s2, k) {
            let w = choose|j: int| key_at(s2, k, j);
            assert(key_at(s1, k, w));
        }
    }
}

/// The named-focus bookmarks: a map from a user-chosen name to a
/// workspace name, held as an association list with unique keys.
#[derive(Debug)]
pub struct FocusMap {
    pub entries: Vec<(String, String)>,
}

impl FocusMap {
    /// Keys are pairwise distinct, so each name is bound at most once.
    pub open spec fn wf(&self) -> bool {
        forall|i: int, j: int|
            0 <= i < j < self.entries@.len() ==> (#[trigger] self.entries@[i]).0@ != (
            #[trigger] self.entries@[j]).0@
    }

    pub open spec fn spec_get(&self, k: Seq<char>) -> Option<Seq<char>> {
        spec_lookup(self.entries@, k)
    }

    /// An empty map: no name is bound.
    pub fn new() -> (r: FocusMap)
        ensures
            r.wf(),
            forall|k: Seq<char>| r.spec_get(k) is None,
    {
        let r = FocusMap { entries: Vec::new() };
        proof {
            assert forall|k: Seq<char>| r.spec_get(k) is None by {
                assert(!spec_has_key(r.entries@, k));
            }
        }
        r
    }

    /// The first index bound to this name, if any.
    fn find_idx(&self, name: &str) -> (r: Option<usize>)
        ensures
            match r {
                Some(i) => i < self.entries@.len() && self.entries@[i as int].0@ == name@,
                None => !spec_has_key(self.entries@, name@),
            },
    {
        let n = self.entries.len();
        let mut i: usize = 0;
        while i < n
            invariant
                0 <= i <= n == self.entries@.len(),
                forall|j: int| 0 <= j < i ==> (#[trigger] self.entries@[j]).0@ != name@,
            decreases n - i,
        {
            if str_eq(self.entries[i].0.as_str(), name) {
                return Some(i);
            }
            i += 1;
        }
        proof {
            if spec_has_key(self.entries@, name@) {
                let w = choose|w: int| key_at(self.entries@, name@, w);
                assert(self.entries@[w].0@ == name@);
            }
        }
        None
    }

    /// The workspace name bound to a focus name.
    pub fn get(&self, name: &str) -> (r: Option<String>)
        requires
            self.wf(),
        ensures
            match self.spec_get(name@) {
                Some(v) => r matches Some(s) && s@ == v,
                None => r is None,
            },
    {
        match self.find_idx(name) {
            Some(i) => {
                proof {
                    assert(key_at(self.entries@, name@, i as int));
                    let w = choose|w: int| key_at(self.entries@, name@, w);
                    assert(w == i as int);
                }
                Some(self.entries[i].1.clone())
            },
            None => None,
        }
    }

    /// Bind a name to a workspace name, replacing any previous
    /// binding; every other binding stays.
    pub fn set(&mut self, name: String, ws: String)
        requires
            old(self).wf(),
        ensures
            final(self).wf(),
            final(self).spec_get(name@) == Some(ws@),
            forall|k: Seq<char>|
                k != name@ ==> #[trigger] final(self).spec_get(k) == old(self).spec_get(k),
    {
        let ghost olds = self.entries@;
        match self.find_idx(&name) {
            Some(i) => {
                self.entries.remove(i);
                self.entries.insert(i, (name, ws));
                proof {
                    let news = self.entries@;
                    let ii = i as int;
                    assert(news.len() == olds.len());
                    assert forall|x: int| 0 <= x < news.len() && x != ii implies #[trigger] news[x]
                        == olds[x] by {}
                    assert(news[ii].0@ == name@ && news[ii].1@ == ws@);
                    assert(olds[ii].0@ == name@);
                    assert forall|p: int, q: int| 0 <= p < q < news.len() implies (
                    #[trigger] news[p]).0@ != (#[trigger] news[q]).0@ by {
                        assert(news[p].0@ == olds[p].0@);
                        assert(news[q].0@ == olds[q].0@);
                    }
                    assert(key_at(news, name@, ii));
                    let w = choose|w: int| key_at(news, name@, w);
                    assert(w == ii);
                    assert forall|k: Seq<char>| k != name@ implies #[trigger] spec_lookup(news, k)
                        == spec_lookup(olds, k) by {
                        assert forall|j: int| #[trigger] key_at(olds, k, j) <==> key_at(
                            news,
                            k,
                            j,
                        ) by {
                            if 0 <= j < news.len() && j != ii {
                                assert(news[j] == olds[j]);
                            }
                        }
                        lemma_lookup_agree(olds, news, k);
                    }
                }
            },
            None => {
                proof {
                    assert forall|j: int| 0 <= j < olds.len() implies (#[trigger] olds[j]).0@
                        != name@ by {
                        if olds[j].0@ == name@ {
                            assert(key_at(olds, name@, j));
                        }
                    }
                }
                self.entries.push((name, ws));
                proof {
                    let news = self.entries@;
                    let last = olds.len() as int;
                    assert(news.len() == olds.len() + 1);
                    assert forall|x: int| 0 <= x < last implies #[trigger] news[x] == olds[x] by {}
                    assert(news[last].0@ == name@ && news[last].1@ == ws@);
                    assert forall|p: int, q: int| 0 <= p < q < news.len() implies (
                    #[trigger] news[p]).0@ != (#[trigger] news[q]).0@ by {
                        if q < last {
                            assert(news[p].0@ == olds[p].0@);
                            assert(news[q].0@ == olds[q].0@);
                        } else {
                            assert(news[p].0@ == olds[p].0@);
                        }
                    }
                    assert(key_at(news, name@, last));
                    let w = choose|w: int| key_at(news, name@, w);
                    if w < last {
                        assert(olds[w].0@ == name@);
                    }
                    assert(w == last);
                    assert forall|k: Seq<char>| k != name@ implies #[trigger] spec_lookup(news, k)
                        == spec_lookup(olds, k) by {
                        assert forall|j: int| #[trigger] key_at(olds, k, j) <==> key_at(
                            news,
                            k,
                            j,
                        ) by {
                            if 0 <= j < last {
                                assert(news[j] == olds[j]);
                            } else {
                                if j == last {
                                    assert(news[j].0@ == name@);
                                }
                            }
                        }
                        lemma_lookup_agree(olds, news, k);
                    }
                }
            },
        }
    }

    /// Remove the binding of a name, if any; every other binding
    /// stays.
    pub fn remove(&mut self, name: &str)
        requires
            old(self).wf(),
        ensures
            final(self).wf(),
            final(self).spec_get(name@) is None,
            forall|k: Seq<char>|
                k != name@ ==> #[trigger] final(self).spec_get(k) == old(self).spec_get(k),
    {
        let ghost olds = self.entries@;
        match self.find_idx(name) {
            Some(i) => {
                self.entries.remove(i);
                proof {
                    let news = self.entries@;
                    let ii = i as int;
                    assert(news.len() == olds.len() - 1);
                    assert forall|x: int| 0 <= x < news.len() implies #[trigger] news[x] == (if x
                        < ii {
                        olds[x]
                    } else {
                        olds[x + 1]
                    }) by {}
                    assert(olds[ii].0@ == name@);
                    assert forall|p: int, q: int| 0 <= p < q < news.len() implies (
                    #[trigger] news[p]).0@ != (#[trigger] news[q]).0@ by {
                        let p2 = if p < ii { p } else { p + 1 };
                        let q2 = if q < ii { q } else { q + 1 };
                        assert(news[p] == olds[p2]);
                        assert(news[q] == olds[q2]);
                    }
                    if spec_has_key(news, name@) {
                        let w = choose|w: int| key_at(news, name@, w);
                        if w < ii {
                            assert(olds[w].0@ == name@);
                        } else {
                            assert(olds[w + 1].0@ == name@);
                        }
                    }
                    assert forall|k: Seq<char>| k != name@ implies #[trigger] spec_lookup(news, k)
                        == spec_lookup(olds, k) by {
                        if spec_has_key(olds, k) {
                            let w = choose|w: int| key_at(olds, k, w);
                            assert(olds[w].0@ == k);
                            assert(w != ii);
                            let w2 = if w < ii { w } else { w - 1 };
                            assert(news[w2] == olds[w]);
                            assert(key_at(news, k, w2));
                            let v = choose|v: int| key_at(news, k, v);
                            let v2 = if v < ii { v } else { v + 1 };
                            assert(news[v] == olds[v2]);
                            assert(key_at(olds, k, v2));
                            assert(v2 == w);
                            assert(news[v].1@ == olds[w].1@);
                        } else {
                            if spec_has_key(news, k) {
                                let w = choose|w: int| key_at(news, k, w);
                                let w2 = if w < ii { w } else { w + 1 };
                                assert(news[w] == olds[w2]);
                                assert(key_at(olds, k, w2));
                            }
                        }
                    }
                }
            },
            None => {
                proof {
                    assert(self.entries@ =~= olds);
                }
            },
        }
    }


    pub fn pairs(&self) -> (r: &Vec<(String, String)>)
        requires
            self.wf(),
        ensures
            r == &self.entries,
            forall|i: int|
                0 <= i < r@.len() ==> self.spec_get((#[trigger] r@[i]).0@) == Some(r@[i].1@),
    {
        proof {
            assert forall|i: int| 0 <= i < self.entries@.len() implies self.spec_get(
                (#[trigger] self.entries@[i]).0@,
            ) == Some(self.entries@[i].1@) by {
                let k = self.entries@[i].0@;
                assert(key_at(self.entries@, k, i));
                let w = choose|w: int| key_at(self.entries@, k, w);
                assert(w == i);
            }
        }
        &self.entries
    }
}

/// One monitor as the daemon tracks it: the compositor's live
/// attributes plus, per activity, the grid position last visited
/// there.
#[derive(Debug)]
pub struct KMonitor {
    pub monitor: MonitorInfo,
    pub activities: Vec<KActivity>,
}

/// The monitor's activity list mirrors the configured names, in
/// order.
pub open spec fn activities_match(acts: Seq<KActivity>, names: Seq<String>) -> bool {
    &&& acts.len() == names.len()
    &&& forall|i: int| 0 <= i < acts.len() ==> (#[trigger] acts[i]).name@ == names[i]@
}

impl KMonitor {
    /// Track a newly observed monitor: all configured activities, no
    /// remembered positions.
    pub fn new(m: MonitorInfo, activities: &Vec<String>) -> (r: KMonitor)
        ensures
            r.monitor == m,
            activities_match(r.activities@, activities@),
            forall|i: int|
                0 <= i < r.activities@.len() ==> (#[trigger] r.activities@[i]).last_workspace
                    is None,
    {
        let mut acts: Vec<KActivity> = Vec::new();
        let n = activities.len();
        let mut i: usize = 0;
        while i < n
            invariant
                0 <= i <= n == activities@.len(),
                acts@.len() == i,
                forall|j: int|
                    0 <= j < i ==> (#[trigger] acts@[j]).name@ == activities@[j]@ && acts@[j].last_workspace is None,
            decreases n - i,
        {
            acts.push(KActivity { name: activities[i].clone(), last_workspace: None });
            i += 1;
        }
        KMonitor { monitor: m, activities: acts }
    }

    /// The first position of an activity name in this monitor's list.
    pub fn get_activity_index(&self, name: &str) -> (r: Option<usize>)
        ensures
            match r {
                Some(i) => i < self.activities@.len() && self.activities@[i as int].name@ == name@
                    && (forall|j: int|
                    0 <= j < i ==> (#[trigger] self.activities@[j]).name@ != name@),
                None => forall|j: int|
                    0 <= j < self.activities@.len() ==> (#[trigger] self.activities@[j]).name@
                        != name@,
            },
    {
        let n = self.activities.len();
        let mut i: usize = 0;
        while i < n
            invariant
                0 <= i <= n == self.activities@.len(),
                forall|j: int| 0 <= j < i ==> (#[trigger] self.activities@[j]).name@ != name@,
            decreases n - i,
        {
            if str_eq(self.activities[i].name.as_str(), name) {
                return Some(i);
            }
            i += 1;
        }
        None
    }

    /// The activity and grid position the monitor is on, when its
    /// current workspace is one this daemon manages.
    pub open spec fn spec_current(&self) -> Option<(Seq<char>, KWorkspace)> {
        let aw = self.monitor.active_workspace_name@;
        match (spec_activity_of(aw), spec_ws_of(aw)) {
            (Some(a), Some(w)) => if exists|i: int|
                0 <= i < self.activities@.len() && (#[trigger] self.activities@[i]).name@ == a {
                Some((a, w))
            } else {
                None
            },
            _ => None,
        }
    }

    /// The activity name and grid position of the monitor's current
    /// workspace, when that workspace is managed here.
    pub fn current(&self) -> (r: Option<(String, KWorkspace)>)
        ensures
            r is Some <==> self.spec_current() is Some,
            r matches Some(p) ==> self.spec_current() matches Some(q) && p.0@ == q.0 && p.1 == q.1,
    {
        let a = match KActivity::from_ws_name(self.monitor.active_workspace_name.as_str()) {
            Some(a) => a,
            None => {
                return None;
            },
        };
        let w = match KWorkspace::from_ws_name(self.monitor.active_workspace_name.as_str()) {
            Some(w) => w,
            None => {
                return None;
            },
        };
        match self.get_activity_index(a.name.as_str()) {
            Some(i) => {
                proof {
                    let aw = self.monitor.active_workspace_name@;
                    assert((i as int) < self.activities@.len() && self.activities@[i as int].name@
                        == spec_activity_of(aw)->0);
                }
                Some((a.name, w))
            },
            None => {
                proof {
                    let aw = self.monitor.active_workspace_name@;
                    if exists|i: int|
                        0 <= i < self.activities@.len() && (#[trigger] self.activities@[i]).name@
                            == spec_activity_of(aw)->0 {
                        let i = choose|i: int|
                            0 <= i < self.activities@.len() && (
                            #[trigger] self.activities@[i]).name@ == spec_activity_of(aw)->0;
                        assert(self.activities@[i].name@ == spec_activity_of(aw)->0);
                    }
                }
                None
            },
        }
    }
}

} // verus!

verus! {

/// Index of the first fresh monitor report with a name.
pub open spec fn fresh_first_idx(fs: Seq<MonitorInfo>, n: Seq<char>) -> Option<int>
    decreases fs.len(),
{
    if fs.len() == 0 {
        None
    } else if fs[0].name@ == n {
        Some(0int)
    } else {
        match fresh_first_idx(fs.drop_first(), n) {
            Some(i) => Some(i + 1),
            None => None,
        }
    }
}

/// Whatever `fresh_first_idx` returns is the first report with the
/// name; `None` means no report has it.
pub proof fn lemma_fresh_first_idx_props(fs: Seq<MonitorInfo>, n: Seq<char>)
    ensures
        match fresh_first_idx(fs, n) {
            Some(i) => 0 <= i < fs.len() && fs[i].name@ == n && (forall|j: int|
                0 <= j < i ==> (#[trigger] fs[j]).name@ != n),
            None => forall|j: int| 0 <= j < fs.len() ==> (#[trigger] fs[j]).name@ != n,
        },
    decreases fs.len(),
{
    if fs.len() > 0 && fs[0].name@ != n {
        lemma_fresh_first_idx_props(fs.drop_first(), n);
        match fresh_first_idx(fs.drop_first(), n) {
            Some(i) => {
                assert forall|j: int| 0 <= j < i + 1 implies (#[trigger] fs[j]).name@ != n by {
                    if j > 0 {
                        assert(fs.drop_first()[j - 1] == fs[j]);
                    }
                }
            },
            None => {
                assert forall|j: int| 0 <= j < fs.len() implies (#[trigger] fs[j]).name@ != n by {
                    if j > 0 {
                        assert(fs.drop_first()[j - 1] == fs[j]);
                    }
                }
            },
        }
    }
}

/// A name present at `i` and absent before it is found at `i`.
proof fn lemma_fresh_first_idx_at(fs: Seq<MonitorInfo>, n: Seq<char>, i: int)
    requires
        0 <= i < fs.len(),
        fs[i].name@ == n,
        forall|j: int| 0 <= j < i ==> (#[trigger] fs[j]).name@ != n,
    ensures
        fresh_first_idx(fs, n) == Some(i),
    decreases fs.len(),
{
    if i > 0 {
        assert(fs.drop_first()[i - 1] == fs[i]);
        assert forall|j: int| 0 <= j < i - 1 implies (#[trigger] fs.drop_first()[j]).name@ != n by {
            assert(fs.drop_first()[j] == fs[j + 1]);
        }
        lemma_fresh_first_idx_at(fs.drop_first(), n, i - 1);
    }
}

/// First fresh monitor report carrying a name.
fn find_fresh_idx(fs: &Vec<MonitorInfo>, name: &str) -> (r: Option<usize>)
    ensures
        match r {
            Some(i) => fresh_first_idx(fs@, name@) == Some(i as int),
            None => fresh_first_idx(fs@, name@) is None,
        },
{
    let n = fs.len();
    let mut i: usize = 0;
    while i < n
        invariant
            0 <= i <= n == fs@.len(),
            forall|j: int| 0 <= j < i ==> (#[trigger] fs@[j]).name@ != name@,
        decreases n - i,
    {
        if str_eq(fs[i].name.as_str(), name) {
            proof {
                lemma_fresh_first_idx_at(fs@, name@, i as int);
            }
            return Some(i);
        }
        i += 1;
    }
    proof {
        lemma_fresh_first_idx_props(fs@, name@);
        match fresh_first_idx(fs@, name@) {
            Some(w) => {
                assert(fs@[w].name@ == name@);
            },
            None => {},
        }
    }
    None
}

/// The names of the tracked monitors, in order.
pub open spec fn mons_names(ms: Seq<KMonitor>) -> Seq<Seq<char>> {
    ms.map_values(|m: KMonitor| m.monitor.name@)
}

/// The character sequences of a list of owned strings, in order.
pub open spec fn strs_views(v: Seq<String>) -> Seq<Seq<char>> {
    v.map_values(|x: String| x@)
}

/// Filtering a sequence extended by one element keeps the element
/// exactly when it satisfies the predicate.
pub proof fn lemma_filter_push<A>(s: Seq<A>, e: A, p: spec_fn(A) -> bool)
    ensures
        s.push(e).filter(p) == if p(e) {
            s.filter(p).push(e)
        } else {
            s.filter(p)
        },
{
    let t = s.push(e);
    assert(t.drop_last() =~= s);
    assert(t.last() == e);
    reveal_with_fuel(Seq::filter, 2);
}

/// Mapping over a sequence extended by one element appends the image
/// of that element.
pub proof fn lemma_map_values_push<A, B>(s: Seq<A>, e: A, f: spec_fn(A) -> B)
    ensures
        s.push(e).map_values(f) == s.map_values(f).push(f(e)),
{
    assert(s.push(e).map_values(f) =~= s.map_values(f).push(f(e)));
}

/// Whether a list of owned names holds a name.
fn names_contains(v: &Vec<String>, s: &str) -> (r: bool)
    ensures
        r == strs_views(v@).contains(s@),
{
    let n = v.len();
    let mut i: usize = 0;
    while i < n
        invariant
            0 <= i <= n == v@.len(),
            forall|j: int| 0 <= j < i ==> (#[trigger] v@[j])@ != s@,
        decreases n - i,
    {
        if str_eq(v[i].as_str(), s) {
            proof {
                assert(strs_views(v@)[i as int] == s@);
            }
            return true;
        }
        i += 1;
    }
    proof {
        let mapped = strs_views(v@);
        if mapped.contains(s@) {
            let w = choose|w: int| 0 <= w < mapped.len() && mapped[w] == s@;
            assert(v@[w]@ == s@);
        }
    }
    false
}

/// A tracked monitor refreshed from the reports: its attributes are
/// replaced by the first report with its name, its activity memory
/// stays.
pub open spec fn spec_update_kept(m: KMonitor, fs: Seq<MonitorInfo>) -> KMonitor {
    match fresh_first_idx(fs, m.monitor.name@) {
        Some(j) => KMonitor { monitor: fs[j], activities: m.activities },
        None => m,
    }
}

/// Refreshing a tracked monitor from the reports, as a function.
pub open spec fn upd_fn(fs: Seq<MonitorInfo>) -> spec_fn(KMonitor) -> KMonitor {
    |m: KMonitor| spec_update_kept(m, fs)
}

/// The monitor is still reported.
pub open spec fn kept_pred(fs: Seq<MonitorInfo>) -> spec_fn(KMonitor) -> bool {
    |m: KMonitor| fresh_first_idx(fs, m.monitor.name@) is Some
}

/// The report names a monitor not yet tracked.
pub open spec fn new_pred(names: Seq<Seq<char>>) -> spec_fn(MonitorInfo) -> bool {
    |f: MonitorInfo| !names.contains(f.name@)
}

/// Newly tracked monitors, pointwise: each carries the corresponding
/// report's attributes, the configured activities, and no remembered
/// positions.
pub open spec fn news_match(ms: Seq<KMonitor>, fs: Seq<MonitorInfo>, anames: Seq<String>) -> bool {
    &&& ms.len() == fs.len()
    &&& forall|i: int| 0 <= i < ms.len() ==> (#[trigger] ms[i]).monitor == fs[i]
    &&& forall|i: int|
        0 <= i < ms.len() ==> activities_match((#[trigger] ms[i]).activities@, anames)
    &&& forall|i: int, j: int|
        0 <= i < ms.len() && 0 <= j < (#[trigger] ms[i]).activities@.len() ==> (
        #[trigger] ms[i].activities@[j]).last_workspace is None
}

/// The session state: the configuration, the tracked monitors, and
/// the named-focus bookmarks. Exactly one instance exists per daemon
/// process, owned by the reactor.
#[derive(Debug)]
pub struct State {
    pub config: Config,
    pub monitors: Vec<KMonitor>,
    pub harpoon_map: FocusMap,
}

impl State {
    /// Structural soundness: a positive grid, at least one activity,
    /// unique bookmark names each bound to a workspace name the
    /// daemon can re-parse, and every monitor tracking exactly the
    /// configured activities.
    pub open spec fn wf(&self) -> bool {
        &&& self.config.workspaces.0 >= 1
        &&& self.config.workspaces.1 >= 1
        &&& self.config.activities@.len() >= 1
        &&& self.harpoon_map.wf()
        &&& forall|k: Seq<char>|
            (#[trigger] self.harpoon_map.spec_get(k)) matches Some(v) ==> spec_activity_of(v)
                is Some && spec_ws_of(v) is Some
        &&& forall|i: int|
            0 <= i < self.monitors@.len() ==> activities_match(
                (#[trigger] self.monitors@[i]).activities@,
                self.config.activities@,
            )
    }

    /// A fresh session state: the given configuration, one tracked
    /// monitor per report, and no bookmarks.
    pub fn new(config: Config, monitors: &Vec<MonitorInfo>) -> (r: State)
        requires
            config.workspaces.0 >= 1,
            config.workspaces.1 >= 1,
            config.activities@.len() >= 1,
        ensures
            r.wf(),
            r.config == config,
            news_match(r.monitors@, monitors@, config.activities@),
            forall|k: Seq<char>| r.harpoon_map.spec_get(k) is None,
    {
        let mut ms: Vec<KMonitor> = Vec::new();
        let n = monitors.len();
        let mut i: usize = 0;
        while i < n
            invariant
                0 <= i <= n == monitors@.len(),
                ms@.len() == i,
                news_match(ms@, monitors@.take(i as int), config.activities@),
            decreases n - i,
        {
            let km = KMonitor::new(monitors[i].duplicate(), &config.activities);
            ms.push(km);
            proof {
                assert(monitors@.take(i + 1) =~= monitors@.take(i as int).push(monitors@[i as int]));
            }
            i += 1;
        }
        proof {
            assert(monitors@.take(n as int) =~= monitors@);
        }
        State { config, monitors: ms, harpoon_map: FocusMap::new() }
    }

    /// A grid position moved by a delta under this configuration.
    pub fn moved_ws(&self, ws: KWorkspace, wrap: bool, x: i32, y: i32) -> (r: KWorkspace)
        requires
            self.wf(),
        ensures
            r == spec_translate(
                ws,
                wrap,
                x as int,
                y as int,
                self.config.workspaces.0 as int,
                self.config.workspaces.1 as int,
            ),
            1 <= r.x <= self.config.workspaces.0,
            1 <= r.y <= self.config.workspaces.1,
    {
        translate(ws, wrap, x, y, self.config.workspaces.0, self.config.workspaces.1)
    }

    /// Some tracked monitor reports itself focused.
    pub open spec fn spec_has_focused(&self) -> bool {
        exists|i: int|
            0 <= i < self.monitors@.len() && (#[trigger] self.monitors@[i]).monitor.focused
    }

    /// The first tracked monitor that reports itself focused.
    pub fn focused_monitor_idx(&self) -> (r: Option<usize>)
        ensures
            match r {
                Some(i) => i < self.monitors@.len() && self.monitors@[i as int].monitor.focused
                    && (forall|j: int|
                    0 <= j < i ==> !(#[trigger] self.monitors@[j]).monitor.focused),
                None => !self.spec_has_focused(),
            },
    {
        let n = self.monitors.len();
        let mut i: usize = 0;
        while i < n
            invariant
                0 <= i <= n == self.monitors@.len(),
                forall|j: int| 0 <= j < i ==> !(#[trigger] self.monitors@[j]).monitor.focused,
            decreases n - i,
        {
            if self.monitors[i].monitor.focused {
                return Some(i);
            }
            i += 1;
        }
        proof {
            if self.spec_has_focused() {
                let w = choose|w: int|
                    0 <= w < self.monitors@.len() && (#[trigger] self.monitors@[w]).monitor.focused;
                assert(self.monitors@[w].monitor.focused);
            }
        }
        None
    }

    /// Refresh the tracked monitors from a full report: a monitor
    /// still reported keeps its place and its activity memory and
    /// takes the reported attributes; one no longer reported is
    /// dropped; a newly reported one is appended with the configured
    /// activities and no memory. The configuration and the bookmarks
    /// are untouched.
    pub fn update_monitors(&mut self, fresh: &Vec<MonitorInfo>)
        requires
            old(self).wf(),
        ensures
            final(self).wf(),
            final(self).config == old(self).config,
            final(self).harpoon_map == old(self).harpoon_map,
            ({
                let kept = old(self).monitors@.filter(kept_pred(fresh@));
                let news = fresh@.filter(new_pred(mons_names(old(self).monitors@)));
                &&& final(self).monitors@.len() == kept.len() + news.len()
                &&& forall|i: int|
                    0 <= i < kept.len() ==> #[trigger] final(self).monitors@[i]
                        == spec_update_kept(kept[i], fresh@)
                &&& news_match(
                    final(self).monitors@.skip(kept.len() as int),
                    news,
                    old(self).config.activities@,
                )
            }),
    {
        let ghost fs = fresh@;
        // names known before this refresh
        let mut old_names: Vec<String> = Vec::new();
        let n0 = self.monitors.len();
        let mut i: usize = 0;
        while i < n0
            invariant
                0 <= i <= n0 == self.monitors@.len(),
                old_names@.len() == i,
                forall|j: int|
                    0 <= j < i ==> (#[trigger] old_names@[j])@
                        == self.monitors@[j].monitor.name@,
            decreases n0 - i,
        {
            old_names.push(self.monitors[i].monitor.name.clone());
            i += 1;
        }
        proof {
            assert(strs_views(old_names@) =~= mons_names(self.monitors@));
        }
        let ghost names = mons_names(old(self).monitors@);

        let mut olds_vec: Vec<KMonitor> = Vec::new();
        core::mem::swap(&mut self.monitors, &mut olds_vec);
        let ghost oldseq = old(self).monitors@;
        proof {
            assert(olds_vec@ == oldseq);
        }

        // keep and refresh the monitors still reported
        let total: usize = olds_vec.len();
        let mut k: usize = 0;
        while olds_vec.len() > 0
            invariant
                self.config == old(self).config,
                self.harpoon_map == old(self).harpoon_map,
                old(self).wf(),
                oldseq == old(self).monitors@,
                oldseq.len() == total,
                fs == fresh@,
                k + olds_vec@.len() == oldseq.len(),
                olds_vec@ =~= oldseq.skip(k as int),
                self.monitors@ == oldseq.take(k as int).filter(kept_pred(fs)).map_values(
                    upd_fn(fs),
                ),
                forall|i2: int|
                    0 <= i2 < self.monitors@.len() ==> activities_match(
                        (#[trigger] self.monitors@[i2]).activities@,
                        old(self).config.activities@,
                    ),
            decreases olds_vec@.len(),
        {
            let m = olds_vec.remove(0);
            proof {
                assert(oldseq.skip(k as int)[0] == oldseq[k as int]);
                assert(m == oldseq[k as int]);
                assert(olds_vec@ =~= oldseq.skip(k as int + 1));
                assert(oldseq.take(k as int + 1) =~= oldseq.take(k as int).push(
                    oldseq[k as int],
                ));
                lemma_filter_push(oldseq.take(k as int), oldseq[k as int], kept_pred(fs));
            }
            match find_fresh_idx(fresh, m.monitor.name.as_str()) {
                Some(j) => {
                    proof {
                        lemma_fresh_first_idx_props(fs, m.monitor.name@);
                    }
                    let km = KMonitor { monitor: fresh[j].duplicate(), activities: m.activities };
                    proof {
                        assert(km == spec_update_kept(oldseq[k as int], fs));
                        assert((kept_pred(fs))(oldseq[k as int]));
                        lemma_map_values_push(
                            oldseq.take(k as int).filter(kept_pred(fs)),
                            oldseq[k as int],
                            upd_fn(fs),
                        );
                        assert((upd_fn(fs))(oldseq[k as int]) == km);
                    }
                    self.monitors.push(km);
                },
                None => {
                    proof {
                        assert(!(kept_pred(fs))(oldseq[k as int]));
                    }
                },
            }
            k += 1;
        }
        proof {
            assert(oldseq.take(oldseq.len() as int) =~= oldseq);
        }
        let ghost keptres = self.monitors@;

        // append the monitors reported for the first time
        let nf = fresh.len();
        let mut j: usize = 0;
        while j < nf
            invariant
                self.config == old(self).config,
                self.harpoon_map == old(self).harpoon_map,
                old(self).wf(),
                0 <= j <= nf == fs.len(),
                fresh@ == fs,
                names == mons_names(old(self).monitors@),
                strs_views(old_names@) == names,
                keptres == old(self).monitors@.filter(kept_pred(fs)).map_values(upd_fn(fs)),
                self.monitors@.len() == keptres.len() + fs.take(j as int).filter(
                    new_pred(names),
                ).len(),
                self.monitors@.take(keptres.len() as int) == keptres,
                news_match(
                    self.monitors@.skip(keptres.len() as int),
                    fs.take(j as int).filter(new_pred(names)),
                    old(self).config.activities@,
                ),
                forall|i2: int|
                    0 <= i2 < self.monitors@.len() ==> activities_match(
                        (#[trigger] self.monitors@[i2]).activities@,
                        old(self).config.activities@,
                    ),
            decreases nf - j,
        {
            proof {
                assert(fs.take(j as int + 1) =~= fs.take(j as int).push(fs[j as int]));
                lemma_filter_push(fs.take(j as int), fs[j as int], new_pred(names));
            }
            let is_old = names_contains(&old_names, fresh[j].name.as_str());
            if !is_old {
                proof {
                    assert((new_pred(names))(fs[j as int]));
                }
                let ghost pre = self.monitors@;
                let km = KMonitor::new(fresh[j].duplicate(), &self.config.activities);
                self.monitors.push(km);
                proof {
                    let kl = keptres.len() as int;
                    assert(self.monitors@.take(kl) =~= pre.take(kl));
                    let newpart = self.monitors@.skip(kl);
                    let prepart = pre.skip(kl);
                    assert(newpart =~= prepart.push(km));
                    let wanted = fs.take(j as int + 1).filter(new_pred(names));
                    let prewanted = fs.take(j as int).filter(new_pred(names));
                    assert(wanted == prewanted.push(fs[j as int]));
                    assert(newpart.len() == wanted.len());
                    assert(km.monitor == fs[j as int]);
                    assert forall|q: int| 0 <= q < newpart.len() implies (#[trigger] newpart[q]).monitor
                        == wanted[q] by {
                        if q < newpart.len() - 1 {
                            assert(newpart[q] == prepart[q]);
                            assert(wanted[q] == prewanted[q]);
                        } else {
                            assert(newpart[q] == km);
                            assert(wanted[q] == fs[j as int]);
                        }
                    }
                    assert forall|q: int| 0 <= q < newpart.len() implies activities_match(
                        (#[trigger] newpart[q]).activities@,
                        old(self).config.activities@,
                    ) by {
                        if q < newpart.len() - 1 {
                            assert(newpart[q] == prepart[q]);
                        } else {
                            assert(newpart[q] == km);
                        }
                    }
                    assert forall|q: int, q2: int|
                        0 <= q < newpart.len() && 0 <= q2 < (
                        #[trigger] newpart[q]).activities@.len() implies (
                        #[trigger] newpart[q].activities@[q2]).last_workspace is None by {
                        if q < newpart.len() - 1 {
                            assert(newpart[q] == prepart[q]);
                        } else {
                            assert(newpart[q] == km);
                        }
                    }
                }
            } else {
                proof {
                    assert(!(new_pred(names))(fs[j as int]));
                }
            }
            j += 1;
        }
        proof {
            assert(fs.take(nf as int) =~= fs);
            let kept = old(self).monitors@.filter(kept_pred(fresh@));
            assert(keptres.len() == kept.len()) by {
                assert(keptres == kept.map_values(upd_fn(fs)));
            }
            assert forall|i2: int| 0 <= i2 < kept.len() implies #[trigger] self.monitors@[i2]
                == spec_update_kept(kept[i2], fresh@) by {
                assert(self.monitors@.take(keptres.len() as int)[i2] == self.monitors@[i2]);
                assert(keptres[i2] == (upd_fn(fs))(kept[i2]));
            }
        }
    }
}

} // verus!

verus! {

/// Index of the first element satisfying a predicate.
pub open spec fn first_idx_where<A>(s: Seq<A>, p: spec_fn(A) -> bool) -> Option<int>
    decreases s.len(),
{
    if s.len() == 0 {
        None
    } else if p(s[0]) {
        Some(0int)
    } else {
        match first_idx_where(s.drop_first(), p) {
            Some(i) => Some(i + 1),
            None => None,
        }
    }
}

/// Whatever `first_idx_where` returns satisfies the predicate first;
/// `None` means nothing satisfies it.
pub proof fn lemma_first_idx_where_props<A>(s: Seq<A>, p: spec_fn(A) -> bool)
    ensures
        match first_idx_where(s, p) {
            Some(i) => 0 <= i < s.len() && p(s[i]) && (forall|j: int|
                0 <= j < i ==> !p(#[trigger] s[j])),
            None => forall|j: int| 0 <= j < s.len() ==> !p(#[trigger] s[j]),
        },
    decreases s.len(),
{
    if s.len() > 0 && !p(s[0]) {
        lemma_first_idx_where_props(s.drop_first(), p);
        match first_idx_where(s.drop_first(), p) {
            Some(i) => {
                assert forall|j: int| 0 <= j < i + 1 implies !p(#[trigger] s[j]) by {
                    if j > 0 {
                        assert(s.drop_first()[j - 1] == s[j]);
                    }
                }
            },
            None => {
                assert forall|j: int| 0 <= j < s.len() implies !p(#[trigger] s[j]) by {
                    if j > 0 {
                        assert(s.drop_first()[j - 1] == s[j]);
                    }
                }
            },
        }
    }
}

/// An element satisfying the predicate first is found there.
pub proof fn lemma_first_idx_where_at<A>(s: Seq<A>, p: spec_fn(A) -> bool, i: int)
    requires
        0 <= i < s.len(),
        p(s[i]),
        forall|j: int| 0 <= j < i ==> !p(#[trigger] s[j]),
    ensures
        first_idx_where(s, p) == Some(i),
    decreases s.len(),
{
    if i > 0 {
        assert(s.drop_first()[i - 1] == s[i]);
        assert forall|j: int| 0 <= j < i - 1 implies !p(#[trigger] s.drop_first()[j]) by {
            assert(s.drop_first()[j] == s[j + 1]);
        }
        lemma_first_idx_where_at(s.drop_first(), p, i - 1);
    }
}

/// The activity has this name.
pub open spec fn act_name_pred(a: Seq<char>) -> spec_fn(KActivity) -> bool {
    |k: KActivity| k.name@ == a
}

/// First position of an activity name in a monitor's list.
pub open spec fn act_first_idx(s: Seq<KActivity>, a: Seq<char>) -> Option<int> {
    first_idx_where(s, act_name_pred(a))
}

/// The monitor reports itself focused.
pub open spec fn focused_pred() -> spec_fn(KMonitor) -> bool {
    |m: KMonitor| m.monitor.focused
}

/// First monitor reporting itself focused.
pub open spec fn spec_first_focused(ms: Seq<KMonitor>) -> Option<int> {
    first_idx_where(ms, focused_pred())
}

/// The monitor carries this name.
pub open spec fn mon_name_pred(n: Seq<char>) -> spec_fn(KMonitor) -> bool {
    |m: KMonitor| m.monitor.name@ == n
}

/// First monitor carrying a name.
pub open spec fn mon_first_idx(ms: Seq<KMonitor>, n: Seq<char>) -> Option<int> {
    first_idx_where(ms, mon_name_pred(n))
}

/// How a monitor's activity memory changes when it leaves its current
/// workspace: the position it was on is remembered under its current
/// activity; everything else stays. Nothing changes when the monitor
/// is not on a managed workspace.
pub open spec fn spec_remember(oldm: KMonitor, newm: KMonitor) -> bool {
    match oldm.spec_current() {
        Some((a, ws)) => match act_first_idx(oldm.activities@, a) {
            Some(i) => {
                &&& newm.activities@.len() == oldm.activities@.len()
                &&& newm.activities@[i].name == oldm.activities@[i].name
                &&& newm.activities@[i].last_workspace == Some(ws)
                &&& forall|j: int|
                    0 <= j < oldm.activities@.len() && j != i ==> #[trigger] newm.activities@[j]
                        == oldm.activities@[j]
            },
            None => newm.activities == oldm.activities,
        },
        None => newm.activities == oldm.activities,
    }
}

/// The exact operations of a workspace move on a monitor: the focused
/// window moves along when asked and present, an unfocused monitor is
/// focused first, and the workspace itself is focused last.
pub open spec fn move_actions_ok(
    acts: Seq<Action>,
    mon: MonitorInfo,
    wsn: Seq<char>,
    moved_window: bool,
) -> bool {
    let k1: int = if moved_window {
        1int
    } else {
        0int
    };
    let k2: int = k1 + if !mon.focused {
        1int
    } else {
        0int
    };
    &&& acts.len() == k2 + 1
    &&& (moved_window ==> (acts[0] matches Action::MoveWindowTo { name } && name@ == wsn))
    &&& (!mon.focused ==> (acts[k1] matches Action::FocusMonitorById { id } && id == mon.id))
    &&& (acts[k2] matches Action::FocusWorkspace { arg } && arg@ == "name:"@.add(wsn))
}

impl KMonitor {
    /// Remember the current grid position under the current activity,
    /// as happens whenever focus is about to move away.
    fn remember_current(&mut self)
        ensures
            final(self).monitor == old(self).monitor,
            spec_remember(*old(self), *final(self)),
    {
        let cur = self.current();
        match cur {
            Some((a, ws)) => {
                match self.get_activity_index(a.as_str()) {
                    Some(i) => {
                        proof {
                            lemma_first_idx_where_at(
                                self.activities@,
                                act_name_pred(a@),
                                i as int,
                            );
                        }
                        let ghost olds = self.activities@;
                        let name = self.activities.remove(i).name;
                        self.activities.insert(i, KActivity { name, last_workspace: Some(ws) });
                        proof {
                            assert(self.activities@[i as int].name == olds[i as int].name);
                            assert forall|j: int|
                                0 <= j < olds.len() && j != i as int implies #[trigger] self
                                .activities@[j] == olds[j] by {}
                        }
                    },
                    None => {
                        proof {
                            let a0 = (self.spec_current()->0).0;
                            if act_first_idx(self.activities@, a0) matches Some(w) {
                                lemma_first_idx_where_props(self.activities@, act_name_pred(a0));
                            }
                        }
                    },
                }
            },
            None => {},
        }
    }

    /// Plan a move of this monitor to a grid position inside an
    /// activity: remember the position being left, then move the
    /// window if asked, focus this monitor if unfocused, and focus
    /// the target workspace.
    pub fn move_to(
        &mut self,
        activity: String,
        new_ws: KWorkspace,
        move_window: bool,
        have_window: bool,
    ) -> (r: Vec<Action>)
        ensures
            final(self).monitor == old(self).monitor,
            spec_remember(*old(self), *final(self)),
            move_actions_ok(
                r@,
                old(self).monitor,
                crate::grid::spec_ws_name(activity@, new_ws.x as int, new_ws.y as int),
                move_window && have_window,
            ),
    {
        let ws_name = new_ws.name(activity.as_str());
        self.move_to_raw_inner(ws_name, move_window, have_window)
    }

    /// Plan a move of this monitor to a workspace given by its full
    /// name: remember the position being left, then the same
    /// operations as a grid move.
    pub fn move_to_raw(&mut self, ws_name: String, move_window: bool, have_window: bool) -> (r:
        Vec<Action>)
        ensures
            final(self).monitor == old(self).monitor,
            spec_remember(*old(self), *final(self)),
            move_actions_ok(r@, old(self).monitor, ws_name@, move_window && have_window),
    {
        self.move_to_raw_inner(ws_name, move_window, have_window)
    }

    /// Shared body of the two move planners.
    fn move_to_raw_inner(&mut self, ws_name: String, move_window: bool, have_window: bool) -> (r:
        Vec<Action>)
        ensures
            final(self).monitor == old(self).monitor,
            spec_remember(*old(self), *final(self)),
            move_actions_ok(r@, old(self).monitor, ws_name@, move_window && have_window),
    {
        self.remember_current();
        let mut acts: Vec<Action> = Vec::new();
        if move_window && have_window {
            acts.push(Action::MoveWindowTo { name: ws_name.clone() });
        }
        if !self.monitor.focused {
            acts.push(Action::FocusMonitorById { id: self.monitor.id });
        }
        let mut arg = String::from_str("name:");
        arg.append(ws_name.as_str());
        acts.push(Action::FocusWorkspace { arg });
        acts
    }

    /// The grid position a switch to an activity lands on: the
    /// position last visited there, else the current position, else
    /// the first cell.
    pub open spec fn spec_activity_target(&self, a: Seq<char>) -> KWorkspace {
        match act_first_idx(self.activities@, a) {
            Some(i) => match self.activities@[i].last_workspace {
                Some(ws) => ws,
                None => match self.spec_current() {
                    Some((_, ws)) => ws,
                    None => KWorkspace { x: 1, y: 1 },
                },
            },
            None => match self.spec_current() {
                Some((_, ws)) => ws,
                None => KWorkspace { x: 1, y: 1 },
            },
        }
    }

    /// Plan a switch of this monitor to an activity: a fade hint,
    /// then a move to the remembered position there (else the current
    /// position, else the first cell).
    pub fn move_to_activity(&mut self, activity: String, move_window: bool, have_window: bool) -> (r:
        Vec<Action>)
        ensures
            final(self).monitor == old(self).monitor,
            spec_remember(*old(self), *final(self)),
            r@.len() >= 1,
            (r@[0] matches Action::SetAnim { anim } && anim is Fade),
            move_actions_ok(
                r@.skip(1),
                old(self).monitor,
                crate::grid::spec_ws_name(
                    activity@,
                    old(self).spec_activity_target(activity@).x as int,
                    old(self).spec_activity_target(activity@).y as int,
                ),
                move_window && have_window,
            ),
    {
        let target: KWorkspace = match self.get_activity_index(activity.as_str()) {
            Some(i) => {
                proof {
                    lemma_first_idx_where_at(self.activities@, act_name_pred(activity@), i as int);
                }
                match self.activities[i].last_workspace {
                    Some(ws) => ws,
                    None => match self.current() {
                        Some((_, ws)) => ws,
                        None => KWorkspace { x: 1, y: 1 },
                    },
                }
            },
            None => {
                proof {
                    lemma_first_idx_where_props(self.activities@, act_name_pred(activity@));
                }
                match self.current() {
                    Some((_, ws)) => ws,
                    None => KWorkspace { x: 1, y: 1 },
                }
            },
        };
        let inner = self.move_to(activity, target, move_window, have_window);
        crate::state::prepend_action(Action::SetAnim { anim: Animation::Fade }, inner)
    }
}

} // verus!

verus! {

/// The index reached from `cur` by a step of `z`, cycling modulo
/// `len` or clamping to `[0, len)`.
pub open spec fn spec_cycle_idx(cur: int, z: int, len: int, cycle: bool) -> int {
    if cycle {
        (cur + z + len) % len
    } else {
        let t = if cur + z < len - 1 {
            cur + z
        } else {
            len - 1
        };
        if t < 0 {
            0
        } else {
            t
        }
    }
}

/// Step an index by `z`, cycling or clamping.
fn cycle_index(cur: usize, z: i32, len: usize, cycle: bool) -> (r: usize)
    requires
        len >= 1,
        cur < len,
        -1 <= z <= 1,
    ensures
        r as int == spec_cycle_idx(cur as int, z as int, len as int, cycle),
        r < len,
{
    let l: i128 = len as i128;
    let c: i128 = cur as i128 + z as i128;
    if cycle {
        let t: u128 = (c + l) as u128;
        let m: u128 = t % (l as u128);
        proof {
            vstd::arithmetic::div_mod::lemma_mod_pos_bound(t as int, l as int);
        }
        m as usize
    } else {
        let t: i128 = if c < l - 1 {
            c
        } else {
            l - 1
        };
        let t2: i128 = if t < 0 {
            0
        } else {
            t
        };
        t2 as usize
    }
}

/// Remembering a position changes no activity name, so a monitor
/// aligned with the configured activities stays aligned.
proof fn lemma_remember_preserves_match(oldm: KMonitor, newm: KMonitor, names: Seq<String>)
    requires
        spec_remember(oldm, newm),
        activities_match(oldm.activities@, names),
    ensures
        activities_match(newm.activities@, names),
{
    match oldm.spec_current() {
        Some((a, ws)) => {
            match act_first_idx(oldm.activities@, a) {
                Some(i) => {
                    lemma_first_idx_where_props(oldm.activities@, act_name_pred(a));
                    assert forall|j: int| 0 <= j < newm.activities@.len() implies (
                    #[trigger] newm.activities@[j]).name@ == names[j]@ by {
                        if j != i {
                            assert(newm.activities@[j] == oldm.activities@[j]);
                        }
                    }
                },
                None => {},
            }
        },
        None => {},
    }
}

/// The planned operations and state change of a one-step grid move of
/// the focused monitor: a direction hint, then a move to the
/// translated position inside the current activity.
#[verifier::opaque]
pub open spec fn spec_move_plan(
    olds: State,
    news: State,
    acts: Seq<Action>,
    dx: int,
    dy: int,
    cycle: bool,
    moved_window: bool,
) -> bool {
    let fm = spec_first_focused(olds.monitors@)->0;
    let m = olds.monitors@[fm];
    let cur = m.spec_current()->0;
    let nws = spec_translate(
        cur.1,
        cycle,
        dx,
        dy,
        olds.config.workspaces.0 as int,
        olds.config.workspaces.1 as int,
    );
    &&& news.config == olds.config
    &&& news.harpoon_map == olds.harpoon_map
    &&& news.monitors@.len() == olds.monitors@.len()
    &&& forall|j: int|
        0 <= j < olds.monitors@.len() && j != fm ==> #[trigger] news.monitors@[j]
            == olds.monitors@[j]
    &&& news.monitors@[fm].monitor == m.monitor
    &&& spec_remember(m, news.monitors@[fm])
    &&& acts.len() >= 1
    &&& (acts[0] matches Action::SetAnim { anim } && anim == crate::events::Animation::spec_for_move(
        dx,
        dy,
    ))
    &&& move_actions_ok(
        acts.skip(1),
        m.monitor,
        crate::grid::spec_ws_name(cur.0, nws.x as int, nws.y as int),
        moved_window,
    )
}

/// The planned operations and state change of an activity switch of
/// the focused monitor to a given activity name.
#[verifier::opaque]
pub open spec fn spec_switch_activity_plan(
    olds: State,
    news: State,
    acts: Seq<Action>,
    target: Seq<char>,
    moved_window: bool,
) -> bool {
    let fm = spec_first_focused(olds.monitors@)->0;
    let m = olds.monitors@[fm];
    let tgt = m.spec_activity_target(target);
    &&& news.config == olds.config
    &&& news.harpoon_map == olds.harpoon_map
    &&& news.monitors@.len() == olds.monitors@.len()
    &&& forall|j: int|
        0 <= j < olds.monitors@.len() && j != fm ==> #[trigger] news.monitors@[j]
            == olds.monitors@[j]
    &&& news.monitors@[fm].monitor == m.monitor
    &&& spec_remember(m, news.monitors@[fm])
    &&& acts.len() >= 1
    &&& (acts[0] matches Action::SetAnim { anim } && anim is Fade)
    &&& move_actions_ok(
        acts.skip(1),
        m.monitor,
        crate::grid::spec_ws_name(target, tgt.x as int, tgt.y as int),
        moved_window,
    )
}

/// The activity name an activity-cycling step switches to: the
/// neighbour of the current activity in configured order, or the
/// first activity when the monitor is outside every activity.
pub open spec fn spec_cycle_target(olds: State, z: int, cycle: bool) -> Seq<char> {
    let fm = spec_first_focused(olds.monitors@)->0;
    let m = olds.monitors@[fm];
    match m.spec_current() {
        Some((a, _)) => {
            let ai = act_first_idx(m.activities@, a)->0;
            olds.config.activities@[spec_cycle_idx(
                ai,
                z,
                olds.config.activities@.len() as int,
                cycle,
            )]@
        },
        None => olds.config.activities@[0]@,
    }
}

impl State {
    /// Plan a one-step grid move of the focused monitor, with the
    /// movement-direction animation hint.
    pub fn move_towards(
        &mut self,
        x: i32,
        y: i32,
        cycle: bool,
        move_window: bool,
        have_window: bool,
    ) -> (r: Result<Vec<Action>, KError>)
        requires
            old(self).wf(),
            old(self).spec_has_focused(),
            -1 <= x <= 1,
            -1 <= y <= 1,
        ensures
            final(self).wf(),
            final(self).config == old(self).config,
            final(self).harpoon_map == old(self).harpoon_map,
            match r {
                Ok(acts) => spec_move_plan(
                    *old(self),
                    *final(self),
                    acts@,
                    x as int,
                    y as int,
                    cycle,
                    move_window && have_window,
                ),
                Err(e) => e is NotInKoolWorkspace && *final(self) == *old(self),
            },
            r is Err <==> old(self).monitors@[spec_first_focused(
                old(self).monitors@,
            )->0].spec_current() is None,
    {
        proof {
            reveal(spec_move_plan);
        }
        let fm = match self.focused_monitor_idx() {
            Some(i) => i,
            None => {
                proof {
                    assert(false);
                }
                return Err(KError::NoMonitorFocused);
            },
        };
        proof {
            lemma_first_idx_where_at(self.monitors@, focused_pred(), fm as int);
        }
        let (a, ws) = match self.monitors[fm].current() {
            Some(p) => p,
            None => {
                return Err(KError::NotInKoolWorkspace);
            },
        };
        let nws = self.moved_ws(ws, cycle, x, y);
        let anim_first = Action::SetAnim { anim: Animation::for_move(x, y) };
        let ghost oldm = self.monitors@[fm as int];
        let mut m = self.monitors.remove(fm);
        let inner = m.move_to(a, nws, move_window, have_window);
        self.monitors.insert(fm, m);
        proof {
            assert(self.monitors@[fm as int].monitor == oldm.monitor);
            assert forall|j: int|
                0 <= j < old(self).monitors@.len() && j != fm as int implies #[trigger] self
                .monitors@[j] == old(self).monitors@[j] by {}
            lemma_remember_preserves_match(
                oldm,
                self.monitors@[fm as int],
                self.config.activities@,
            );
            assert forall|i2: int| 0 <= i2 < self.monitors@.len() implies activities_match(
                (#[trigger] self.monitors@[i2]).activities@,
                self.config.activities@,
            ) by {
                if i2 != fm as int {
                    assert(self.monitors@[i2] == old(self).monitors@[i2]);
                }
            }
        }
        let acts = prepend_action(anim_first, inner);
        Ok(acts)
    }

    /// Plan an activity switch of the focused monitor to the
    /// neighbouring activity in configured order.
    pub fn cycle_activity(
        &mut self,
        z: i32,
        cycle: bool,
        move_window: bool,
        have_window: bool,
    ) -> (r: Vec<Action>)
        requires
            old(self).wf(),
            old(self).spec_has_focused(),
            z == 1 || z == -1,
        ensures
            final(self).wf(),
            final(self).config == old(self).config,
            final(self).harpoon_map == old(self).harpoon_map,
            spec_switch_activity_plan(
                *old(self),
                *final(self),
                r@,
                spec_cycle_target(*old(self), z as int, cycle),
                move_window && have_window,
            ),
    {
        let fm = match self.focused_monitor_idx() {
            Some(i) => i,
            None => {
                proof {
                    assert(false);
                }
                return Vec::new();
            },
        };
        proof {
            lemma_first_idx_where_at(self.monitors@, focused_pred(), fm as int);
        }
        let target: String = match self.monitors[fm].current() {
            Some((a, _)) => {
                let ai = match self.monitors[fm].get_activity_index(a.as_str()) {
                    Some(i) => i,
                    None => {
                        proof {
                            assert(false);
                        }
                        return Vec::new();
                    },
                };
                proof {
                    lemma_first_idx_where_at(
                        self.monitors@[fm as int].activities@,
                        act_name_pred(a@),
                        ai as int,
                    );
                    assert(self.monitors@[fm as int].activities@.len()
                        == self.config.activities@.len());
                }
                let ni = cycle_index(ai, z, self.config.activities.len(), cycle);
                self.config.activities[ni].clone()
            },
            None => self.config.activities[0].clone(),
        };
        self.switch_activity_inner(fm, target, move_window, have_window)
    }

    /// Plan a switch-to-activity command: a first-time name first
    /// creates the activity (appending it to the ordered list and to
    /// every monitor), then the focused monitor switches to it.
    fn switch_to_activity_cmd(&mut self, name: String, move_window: bool, have_window: bool) -> (r:
        Vec<Action>)
        requires
            old(self).wf(),
            old(self).spec_has_focused(),
        ensures
            final(self).wf(),
            final(self).config.workspaces == old(self).config.workspaces,
            final(self).config.daemon == old(self).config.daemon,
            final(self).config.named_focii == old(self).config.named_focii,
            final(self).config.icon_theme == old(self).config.icon_theme,
            final(self).config.window_icon_try_min_size == old(self).config.window_icon_try_min_size,
            ({
                let known = strs_views(old(self).config.activities@).contains(name@);
                &&& (known ==> final(self).config == old(self).config
                    && spec_switch_activity_plan(
                    *old(self),
                    *final(self),
                    r@,
                    name@,
                    move_window && have_window,
                ))
                &&& (!known ==> exists|mids: State|
                    #![auto]
                    spec_state_appended(*old(self), mids, name) && spec_switch_activity_plan(
                        mids,
                        *final(self),
                        r@,
                        name@,
                        move_window && have_window,
                    ))
            }),
    {
        let fm = match self.focused_monitor_idx() {
            Some(i) => i,
            None => {
                proof {
                    assert(false);
                }
                return Vec::new();
            },
        };
        let known = names_contains(&self.config.activities, name.as_str());
        if !known {
            // a first-time name creates the activity before the switch
            self.append_activity(&name);
            proof {
                reveal(spec_state_appended);
                assert forall|j: int| 0 <= j < fm as int implies !(#[trigger] self
                    .monitors@[j]).monitor.focused by {
                    assert(self.monitors@[j].monitor == old(self).monitors@[j].monitor);
                }
                assert(self.monitors@[fm as int].monitor == old(self).monitors@[fm as int].monitor);
                lemma_first_idx_where_at(self.monitors@, focused_pred(), fm as int);
            }
            let ghost mids = *self;
            let actions = self.switch_activity_inner(fm, name, move_window, have_window);
            proof {
                reveal(spec_state_appended);
                reveal(spec_switch_activity_plan);
                assert(spec_state_appended(*old(self), mids, name));
                assert(self.config == mids.config);
            }
            actions
        } else {
            proof {
                lemma_first_idx_where_at(self.monitors@, focused_pred(), fm as int);
            }
            let ghost pre = *self;
            let actions = self.switch_activity_inner(fm, name, move_window, have_window);
            proof {
                reveal(spec_switch_activity_plan);
                assert(self.config == pre.config);
            }
            actions
        }
    }

    /// Shared body of activity switching on the focused monitor.
    fn switch_activity_inner(
        &mut self,
        fm: usize,
        target: String,
        move_window: bool,
        have_window: bool,
    ) -> (r: Vec<Action>)
        requires
            old(self).wf(),
            spec_first_focused(old(self).monitors@) == Some(fm as int),
            fm < old(self).monitors@.len(),
        ensures
            final(self).wf(),
            final(self).config == old(self).config,
            final(self).harpoon_map == old(self).harpoon_map,
            spec_switch_activity_plan(
                *old(self),
                *final(self),
                r@,
                target@,
                move_window && have_window,
            ),
    {
        proof {
            reveal(spec_switch_activity_plan);
        }
        let mut m = self.monitors.remove(fm);
        let acts = m.move_to_activity(target, move_window, have_window);
        self.monitors.insert(fm, m);
        proof {
            let oldm = old(self).monitors@[fm as int];
            assert(self.monitors@[fm as int].monitor == oldm.monitor);
            assert forall|j: int|
                0 <= j < old(self).monitors@.len() && j != fm as int implies #[trigger] self
                .monitors@[j] == old(self).monitors@[j] by {}
            lemma_remember_preserves_match(
                oldm,
                self.monitors@[fm as int],
                self.config.activities@,
            );
            assert forall|i2: int| 0 <= i2 < self.monitors@.len() implies activities_match(
                (#[trigger] self.monitors@[i2]).activities@,
                self.config.activities@,
            ) by {
                if i2 != fm as int {
                    assert(self.monitors@[i2] == old(self).monitors@[i2]);
                }
            }
        }
        acts
    }
}

} // verus!

verus! {

/// The planned operations of a monitor-cycling step: move the window
/// along if asked and present, a fade hint, then focus the target
/// monitor by name.
#[verifier::opaque]
pub open spec fn spec_cycle_monitor_plan(
    olds: State,
    acts: Seq<Action>,
    z: int,
    cycle: bool,
    moved_window: bool,
) -> bool {
    let mi = spec_first_focused(olds.monitors@)->0;
    let ni = spec_cycle_idx(mi, z, olds.monitors@.len() as int, cycle);
    let tgt = olds.monitors@[ni];
    let k1: int = if moved_window {
        1int
    } else {
        0int
    };
    &&& acts.len() == k1 + 2
    &&& (moved_window ==> (acts[0] matches Action::MoveWindowTo { name } && name@
        == tgt.monitor.active_workspace_name@))
    &&& (acts[k1] matches Action::SetAnim { anim } && anim is Fade)
    &&& (acts[k1 + 1] matches Action::FocusMonitorByName { name } && name@ == tgt.monitor.name@)
}

/// The planned operations of a switch to a named monitor: move the
/// window along if asked and present, then focus that monitor.
#[verifier::opaque]
pub open spec fn spec_switch_monitor_plan(
    olds: State,
    acts: Seq<Action>,
    n: Seq<char>,
    moved_window: bool,
) -> bool {
    let mi = mon_first_idx(olds.monitors@, n)->0;
    let tgt = olds.monitors@[mi];
    let k1: int = if moved_window {
        1int
    } else {
        0int
    };
    &&& acts.len() == k1 + 1
    &&& (moved_window ==> (acts[0] matches Action::MoveWindowTo { name } && name@
        == tgt.monitor.active_workspace_name@))
    &&& (acts[k1] matches Action::FocusMonitorByName { name } && name@ == tgt.monitor.name@)
}

/// The window sits on this workspace id.
pub open spec fn ws_id_pred(id: int) -> spec_fn(WindowData) -> bool {
    |w: WindowData| w.workspace_id == id
}

/// The window carries this address.
pub open spec fn addr_pred(a: Seq<char>) -> spec_fn(WindowData) -> bool {
    |w: WindowData| w.address@ == a
}

/// A focus operation for a window.
pub open spec fn mk_focus_addr() -> spec_fn(WindowData) -> Action {
    |w: WindowData| Action::FocusWindowByAddress { address: w.address }
}

/// The focus operations a focus-window command plans: one per client
/// carrying the address, in client order.
pub open spec fn spec_focus_window_acts(clients: Seq<WindowData>, address: Seq<char>) -> Seq<
    Action,
> {
    clients.filter(addr_pred(address)).map_values(mk_focus_addr())
}

impl State {
    /// Plan a monitor-cycling step: the target is the neighbouring
    /// monitor in tracked order.
    pub fn cycle_monitor(&self, z: i32, cycle: bool, move_window: bool, have_window: bool) -> (r:
        Result<Vec<Action>, KError>)
        requires
            self.wf(),
            z == 1 || z == -1,
        ensures
            match r {
                Ok(acts) => self.spec_has_focused() && spec_cycle_monitor_plan(
                    *self,
                    acts@,
                    z as int,
                    cycle,
                    move_window && have_window,
                ),
                Err(e) => e is NoMonitorFocused && !self.spec_has_focused(),
            },
    {
        proof {
            reveal(spec_cycle_monitor_plan);
        }
        let mi = match self.focused_monitor_idx() {
            Some(i) => i,
            None => {
                return Err(KError::NoMonitorFocused);
            },
        };
        proof {
            lemma_first_idx_where_at(self.monitors@, focused_pred(), mi as int);
        }
        let ni = cycle_index(mi, z, self.monitors.len(), cycle);
        let mut acts: Vec<Action> = Vec::new();
        if move_window && have_window {
            acts.push(
                Action::MoveWindowTo {
                    name: self.monitors[ni].monitor.active_workspace_name.clone(),
                },
            );
        }
        acts.push(Action::SetAnim { anim: Animation::Fade });
        acts.push(Action::FocusMonitorByName { name: self.monitors[ni].monitor.name.clone() });
        Ok(acts)
    }

    /// Plan a switch to the monitor with a given name.
    pub fn switch_to_monitor(&self, name: &str, move_window: bool, have_window: bool) -> (r: Result<
        Vec<Action>,
        KError,
    >)
        requires
            self.wf(),
        ensures
            match r {
                Ok(acts) => mon_first_idx(self.monitors@, name@) is Some
                    && spec_switch_monitor_plan(*self, acts@, name@, move_window && have_window),
                Err(e) => e is MonitorNotFound && mon_first_idx(self.monitors@, name@) is None,
            },
    {
        proof {
            reveal(spec_switch_monitor_plan);
        }
        let n = self.monitors.len();
        let mut i: usize = 0;
        while i < n
            invariant
                0 <= i <= n == self.monitors@.len(),
                forall|j: int|
                    0 <= j < i ==> !(mon_name_pred(name@))(#[trigger] self.monitors@[j]),
            decreases n - i,
        {
            if str_eq(self.monitors[i].monitor.name.as_str(), name) {
                proof {
                    reveal(spec_switch_monitor_plan);
                    lemma_first_idx_where_at(self.monitors@, mon_name_pred(name@), i as int);
                }
                let mut acts: Vec<Action> = Vec::new();
                if move_window && have_window {
                    acts.push(
                        Action::MoveWindowTo {
                            name: self.monitors[i].monitor.active_workspace_name.clone(),
                        },
                    );
                }
                acts.push(
                    Action::FocusMonitorByName { name: self.monitors[i].monitor.name.clone() },
                );
                return Ok(acts);
            }
            i += 1;
        }
        proof {
            lemma_first_idx_where_props(self.monitors@, mon_name_pred(name@));
        }
        Err(KError::MonitorNotFound)
    }

    /// Set or clear a named-focus bookmark: binding the name while it
    /// already points at the current workspace clears it, anything
    /// else binds it to the current workspace.
    /// Set or clear a bookmark. The current workspace name is stored
    /// only when the daemon can later re-parse it; on an unmanaged
    /// workspace nothing is stored and the caller is told so.
    pub fn set_named_focus(&mut self, name: String) -> (r: Result<(), KError>)
        requires
            old(self).wf(),
            old(self).spec_has_focused(),
        ensures
            final(self).wf(),
            final(self).config == old(self).config,
            final(self).monitors == old(self).monitors,
            ({
                let ff = spec_first_focused(old(self).monitors@)->0;
                let w = old(self).monitors@[ff].monitor.active_workspace_name@;
                let parseable = spec_activity_of(w) is Some && spec_ws_of(w) is Some;
                &&& (r is Err <==> !parseable)
                &&& (r matches Err(e) ==> e is NotInKoolWorkspace && *final(self) == *old(self))
                &&& (r is Ok ==> spec_set_named_outcome(*old(self), *final(self), name@))
            }),
    {
        proof {
            reveal(spec_set_named_outcome);
        }
        let fm = match self.focused_monitor_idx() {
            Some(i) => i,
            None => {
                proof {
                    assert(false);
                }
                return Err(KError::NoMonitorFocused);
            },
        };
        proof {
            lemma_first_idx_where_at(self.monitors@, focused_pred(), fm as int);
        }
        let w = self.monitors[fm].monitor.active_workspace_name.clone();
        // never store a name the daemon cannot later re-parse
        if KActivity::from_ws_name(w.as_str()).is_none() || KWorkspace::from_ws_name(
            w.as_str(),
        ).is_none() {
            return Err(KError::NotInKoolWorkspace);
        }
        let same = match self.harpoon_map.get(name.as_str()) {
            Some(v) => str_eq(v.as_str(), w.as_str()),
            None => false,
        };
        if same {
            self.harpoon_map.remove(name.as_str());
        } else {
            self.harpoon_map.set(name, w);
        }
        proof {
            assert forall|k: Seq<char>|
                (#[trigger] self.harpoon_map.spec_get(k)) is Some implies ({
                let v = self.harpoon_map.spec_get(k)->0;
                spec_activity_of(v) is Some && spec_ws_of(v) is Some
            }) by {
                if k != name@ {
                    assert(self.harpoon_map.spec_get(k) == old(self).harpoon_map.spec_get(k));
                }
            }
        }
        Ok(())
    }

    /// Plan a jump to the workspace bound to a focus name.
    pub fn switch_named_focus(&mut self, name: &str, move_window: bool, have_window: bool) -> (r:
        Result<Vec<Action>, KError>)
        requires
            old(self).wf(),
            old(self).spec_has_focused(),
        ensures
            final(self).wf(),
            final(self).config == old(self).config,
            final(self).harpoon_map == old(self).harpoon_map,
            match r {
                Ok(acts) => spec_switch_named_outcome(
                    *old(self),
                    *final(self),
                    acts@,
                    name@,
                    move_window && have_window,
                ),
                Err(e) => e is NoSuchNamedFocus && old(self).harpoon_map.spec_get(name@) is None
                    && *final(self) == *old(self),
            },
    {
        proof {
            reveal(spec_switch_named_outcome);
        }
        let fm = match self.focused_monitor_idx() {
            Some(i) => i,
            None => {
                proof {
                    assert(false);
                }
                return Err(KError::NoMonitorFocused);
            },
        };
        proof {
            lemma_first_idx_where_at(self.monitors@, focused_pred(), fm as int);
        }
        let ws = match self.harpoon_map.get(name) {
            Some(ws) => ws,
            None => {
                return Err(KError::NoSuchNamedFocus);
            },
        };
        let mut m = self.monitors.remove(fm);
        let inner = m.move_to_raw(ws, move_window, have_window);
        self.monitors.insert(fm, m);
        proof {
            let oldm = old(self).monitors@[fm as int];
            assert(self.monitors@[fm as int].monitor == oldm.monitor);
            assert forall|j: int|
                0 <= j < old(self).monitors@.len() && j != fm as int implies #[trigger] self
                .monitors@[j] == old(self).monitors@[j] by {}
            lemma_remember_preserves_match(
                oldm,
                self.monitors@[fm as int],
                self.config.activities@,
            );
            assert forall|i2: int| 0 <= i2 < self.monitors@.len() implies activities_match(
                (#[trigger] self.monitors@[i2]).activities@,
                self.config.activities@,
            ) by {
                if i2 != fm as int {
                    assert(self.monitors@[i2] == old(self).monitors@[i2]);
                }
            }
        }
        let acts = prepend_action(Action::SetAnim { anim: Animation::Fade }, inner);
        Ok(acts)
    }

    /// Plan the focus operations for every client window at an
    /// address.
    pub fn focus_window_acts(&self, address: &str, clients: &Vec<WindowData>) -> (r: Vec<Action>)
        ensures
            r@ == spec_focus_window_acts(clients@, address@),
    {
        let mut acts: Vec<Action> = Vec::new();
        let n = clients.len();
        let mut i: usize = 0;
        while i < n
            invariant
                0 <= i <= n == clients@.len(),
                acts@ == clients@.take(i as int).filter(addr_pred(address@)).map_values(
                    mk_focus_addr(),
                ),
            decreases n - i,
        {
            proof {
                assert(clients@.take(i as int + 1) =~= clients@.take(i as int).push(
                    clients@[i as int],
                ));
                lemma_filter_push(clients@.take(i as int), clients@[i as int], addr_pred(address@));
            }
            if str_eq(clients[i].address.as_str(), address) {
                let a = Action::FocusWindowByAddress { address: clients[i].address.clone() };
                proof {
                    assert((addr_pred(address@))(clients@[i as int]));
                    assert((mk_focus_addr())(clients@[i as int]) == a);
                    lemma_map_values_push(
                        clients@.take(i as int).filter(addr_pred(address@)),
                        clients@[i as int],
                        mk_focus_addr(),
                    );
                }
                acts.push(a);
            } else {
                proof {
                    assert(!(addr_pred(address@))(clients@[i as int]));
                }
            }
            i += 1;
        }
        proof {
            assert(clients@.take(n as int) =~= clients@);
        }
        acts
    }
}

} // verus!

verus! {

/// The monitor is enabled.
pub open spec fn enabled_pred() -> spec_fn(KMonitor) -> bool {
    |m: KMonitor| !m.monitor.disabled
}

/// The name of the workspace a monitor shows.
pub open spec fn active_name_fn() -> spec_fn(KMonitor) -> Seq<char> {
    |m: KMonitor| m.monitor.active_workspace_name@
}

/// The workspace names occupied by enabled monitors, in tracked
/// order.
pub open spec fn spec_taken(ms: Seq<KMonitor>) -> Seq<Seq<char>> {
    ms.filter(enabled_pred()).map_values(active_name_fn())
}

/// A cell a workspace name none of the enabled monitors occupies is
/// occupied by none of them.
pub proof fn lemma_free_cell_unoccupied(ms: Seq<KMonitor>, cell: Seq<char>)
    requires
        !spec_taken(ms).contains(cell),
    ensures
        forall|i: int|
            0 <= i < ms.len() && !(#[trigger] ms[i]).monitor.disabled
                ==> ms[i].monitor.active_workspace_name@ != cell,
{
    assert forall|i: int|
        0 <= i < ms.len() && !(#[trigger] ms[i]).monitor.disabled
            implies ms[i].monitor.active_workspace_name@ != cell by {
        if ms[i].monitor.active_workspace_name@ == cell {
            let f = ms.filter(enabled_pred());
            ms.lemma_filter_contains(enabled_pred(), i);
            assert(f.contains(ms[i]));
            let j = choose|j: int| 0 <= j < f.len() && f[j] == ms[i];
            assert(spec_taken(ms)[j] == cell);
        }
    }
}

/// The cell `(ai2, x2, y2)` comes before `(ai, x, y)` in scan order:
/// activity major, then row, then column.
pub open spec fn cell_earlier(ai2: int, y2: int, x2: int, ai: int, y: int, x: int) -> bool {
    ai2 < ai || (ai2 == ai && (y2 < y || (y2 == y && x2 < x)))
}

/// Every valid cell before `(ai, y, x)` in scan order carries a
/// taken workspace name.
pub open spec fn all_taken_before(
    taken: Seq<Seq<char>>,
    acts: Seq<String>,
    w: int,
    h: int,
    ai: int,
    y: int,
    x: int,
) -> bool {
    forall|ai2: int, y2: int, x2: int|
        0 <= ai2 < acts.len() && 1 <= y2 <= h && 1 <= x2 <= w && cell_earlier(ai2, y2, x2, ai, y, x)
            ==> taken.contains(#[trigger] crate::grid::spec_ws_name(acts[ai2]@, x2, y2))
}

impl State {
    /// The workspace names of the enabled tracked monitors.
    pub fn taken_names(&self) -> (r: Vec<String>)
        ensures
            strs_views(r@) == spec_taken(self.monitors@),
    {
        let mut out: Vec<String> = Vec::new();
        let n = self.monitors.len();
        let mut i: usize = 0;
        while i < n
            invariant
                0 <= i <= n == self.monitors@.len(),
                strs_views(out@) == spec_taken(self.monitors@.take(i as int)),
            decreases n - i,
        {
            proof {
                assert(self.monitors@.take(i as int + 1) =~= self.monitors@.take(i as int).push(
                    self.monitors@[i as int],
                ));
                lemma_filter_push(
                    self.monitors@.take(i as int),
                    self.monitors@[i as int],
                    enabled_pred(),
                );
            }
            if !self.monitors[i].monitor.disabled {
                proof {
                    assert((enabled_pred())(self.monitors@[i as int]));
                    lemma_map_values_push(
                        self.monitors@.take(i as int).filter(enabled_pred()),
                        self.monitors@[i as int],
                        active_name_fn(),
                    );
                }
                let s = self.monitors[i].monitor.active_workspace_name.clone();
                out.push(s);
                proof {
                    assert(strs_views(out@) =~= spec_taken(self.monitors@.take(i as int + 1)));
                }
            } else {
                proof {
                    assert(!(enabled_pred())(self.monitors@[i as int]));
                }
            }
            i += 1;
        }
        proof {
            assert(self.monitors@.take(n as int) =~= self.monitors@);
        }
        out
    }

    /// The first cell in scan order, activity major, whose workspace
    /// name none of the given names holds: the cell a new monitor is
    /// sent to. `None` when every cell is taken.
    pub fn first_free_cell(&self, taken: &Vec<String>) -> (r: Option<(String, KWorkspace)>)
        requires
            self.wf(),
        ensures
            ({
                let w = self.config.workspaces.0 as int;
                let h = self.config.workspaces.1 as int;
                let acts = self.config.activities@;
                match r {
                    Some(p) => exists|ai: int|
                        {
                            &&& 0 <= ai < acts.len()
                            &&& (#[trigger] acts[ai])@ == p.0@
                            &&& 1 <= p.1.x as int <= w
                            &&& 1 <= p.1.y as int <= h
                            &&& !strs_views(taken@).contains(
                                crate::grid::spec_ws_name(p.0@, p.1.x as int, p.1.y as int),
                            )
                            &&& all_taken_before(
                                strs_views(taken@),
                                acts,
                                w,
                                h,
                                ai,
                                p.1.y as int,
                                p.1.x as int,
                            )
                        },
                    None => all_taken_before(
                        strs_views(taken@),
                        acts,
                        w,
                        h,
                        acts.len() as int,
                        1,
                        1,
                    ),
                }
            }),
    {
        let w = self.config.workspaces.0;
        let h = self.config.workspaces.1;
        let na = self.config.activities.len();
        let ghost tv = strs_views(taken@);
        let ghost acts = self.config.activities@;
        let mut ai: usize = 0;
        while ai < na
            invariant
                self.wf(),
                w == self.config.workspaces.0,
                h == self.config.workspaces.1,
                acts == self.config.activities@,
                tv == strs_views(taken@),
                0 <= ai <= na == acts.len(),
                all_taken_before(tv, acts, w as int, h as int, ai as int, 1, 1),
            decreases na - ai,
        {
            let mut y: i64 = 1;
            while y <= h as i64
                invariant
                    self.wf(),
                    w == self.config.workspaces.0,
                    h == self.config.workspaces.1,
                    acts == self.config.activities@,
                    tv == strs_views(taken@),
                    0 <= ai < na == acts.len(),
                    1 <= y <= h as i64 + 1,
                    all_taken_before(tv, acts, w as int, h as int, ai as int, y as int, 1),
                decreases h as i64 + 1 - y,
            {
                let mut x: i64 = 1;
                while x <= w as i64
                    invariant
                        self.wf(),
                        w == self.config.workspaces.0,
                        h == self.config.workspaces.1,
                        acts == self.config.activities@,
                        tv == strs_views(taken@),
                        0 <= ai < na == acts.len(),
                        1 <= y <= h as i64,
                        1 <= x <= w as i64 + 1,
                        all_taken_before(tv, acts, w as int, h as int, ai as int, y as int, x as int),
                    decreases w as i64 + 1 - x,
                {
                    let ws = KWorkspace { x: x as i32, y: y as i32 };
                    let name = ws.name(self.config.activities[ai].as_str());
                    if !names_contains(taken, name.as_str()) {
                        return Some((self.config.activities[ai].clone(), ws));
                    }
                    proof {
                        assert(tv.contains(
                            crate::grid::spec_ws_name(acts[ai as int]@, x as int, y as int),
                        ));
                    }
                    x += 1;
                }
                y += 1;
            }
            ai += 1;
        }
        None
    }
}

} // verus!

verus! {

/// The planned operations of a special-workspace toggle. Without
/// window movement it is a bare toggle; with it, the focused window
/// is pulled back to the active workspace when it already sits on the
/// special workspace (keeping focus unless it is the last window
/// there and the toggle is silent), else pushed onto it.
#[verifier::opaque]
pub open spec fn spec_toggle_plan(
    olds: State,
    acts: Seq<Action>,
    name: Seq<char>,
    move_window: bool,
    silent: bool,
    q: QueryData,
) -> bool {
    let ff = spec_first_focused(olds.monitors@)->0;
    let active = olds.monitors@[ff].monitor.active_workspace_name@;
    let special = "special:"@.add(name);
    &&& acts.len() >= 1
    &&& (acts[0] matches Action::SetAnim { anim } && anim is Fade)
    &&& if !move_window {
        &&& acts.len() == 2
        &&& (acts[1] matches Action::ToggleSpecial { name: n } && n@ == name)
    } else {
        let w = (q.active_window->0)->0;
        if w.workspace_name@ == special {
            let pull_focused = acts.len() == 4 && (acts[1] matches Action::MoveWindowTo { name: n }
                && n@ == active) && (acts[2] matches Action::FocusWorkspace { arg } && arg@
                == active) && (acts[3] matches Action::FocusWindowByAddress { address } && address@
                == w.address@);
            let pull_silent = acts.len() == 2 && (acts[1] matches Action::MoveWindowTo { name: n }
                && n@ == active);
            if silent {
                let c = (q.clients->0)@.filter(ws_id_pred(w.workspace_id as int)).len();
                if c == 1 {
                    pull_focused
                } else {
                    pull_silent
                }
            } else {
                pull_focused
            }
        } else {
            if silent {
                acts.len() == 2 && (acts[1] matches Action::MoveWindowToSpecial { name: n } && n@
                    == name)
            } else {
                acts.len() == 3 && (acts[1] matches Action::MoveWindowToSpecial { name: n } && n@
                    == name) && (acts[2] matches Action::ToggleSpecial { name: n2 } && n2@ == name)
            }
        }
    }
}

impl State {
    /// Plan a toggle of a named special workspace, optionally taking
    /// the focused window along.
    pub fn toggle_special(&self, name: String, move_window: bool, silent: bool, q: &QueryData) -> (r:
        Result<Vec<Action>, KError>)
        requires
            self.wf(),
            move_window ==> self.spec_has_focused(),
        ensures
            match r {
                Ok(acts) => spec_toggle_plan(*self, acts@, name@, move_window, silent, *q),
                Err(e) => move_window && match q.active_window {
                    None => e is QueryFailed,
                    Some(aw) => match aw {
                        None => e is NoActiveWindow,
                        Some(w) => e is QueryFailed && silent && w.workspace_name@ == "special:"@.add(
                            name@,
                        ) && q.clients is None,
                    },
                },
            },
    {
        proof {
            reveal(spec_toggle_plan);
        }
        let mut acts: Vec<Action> = Vec::new();
        acts.push(Action::SetAnim { anim: Animation::Fade });
        if !move_window {
            acts.push(Action::ToggleSpecial { name });
            return Ok(acts);
        }
        let window = match &q.active_window {
            None => {
                return Err(KError::QueryFailed);
            },
            Some(aw) => match aw {
                None => {
                    return Err(KError::NoActiveWindow);
                },
                Some(w) => w,
            },
        };
        let mut special = String::from_str("special:");
        special.append(name.as_str());
        let ff = match self.focused_monitor_idx() {
            Some(i) => i,
            None => {
                proof {
                    assert(false);
                }
                return Err(KError::NoMonitorFocused);
            },
        };
        proof {
            lemma_first_idx_where_at(self.monitors@, focused_pred(), ff as int);
        }
        let active = self.monitors[ff].monitor.active_workspace_name.clone();
        if str_eq(window.workspace_name.as_str(), special.as_str()) {
            let pull_focused = if silent {
                let clients = match &q.clients {
                    None => {
                        return Err(KError::QueryFailed);
                    },
                    Some(c) => c,
                };
                let mut count: u64 = 0;
                let n = clients.len();
                let mut i: usize = 0;
                while i < n
                    invariant
                        0 <= i <= n == clients@.len(),
                        count == clients@.take(i as int).filter(
                            ws_id_pred(window.workspace_id as int),
                        ).len(),
                        count <= i,
                    decreases n - i,
                {
                    proof {
                        assert(clients@.take(i as int + 1) =~= clients@.take(i as int).push(
                            clients@[i as int],
                        ));
                        lemma_filter_push(
                            clients@.take(i as int),
                            clients@[i as int],
                            ws_id_pred(window.workspace_id as int),
                        );
                    }
                    if clients[i].workspace_id == window.workspace_id {
                        count += 1;
                    }
                    i += 1;
                }
                proof {
                    assert(clients@.take(n as int) =~= clients@);
                }
                count == 1
            } else {
                true
            };
            if pull_focused {
                acts.push(Action::MoveWindowTo { name: active.clone() });
                acts.push(Action::FocusWorkspace { arg: active });
                acts.push(Action::FocusWindowByAddress { address: window.address.clone() });
            } else {
                acts.push(Action::MoveWindowTo { name: active });
            }
        } else {
            acts.push(Action::MoveWindowToSpecial { name: name.clone() });
            if !silent {
                acts.push(Action::ToggleSpecial { name });
            }
        }
        Ok(acts)
    }
}

} // verus!

verus! {

/// The full outcome of a monitor-swap command: the validation
/// errors, the no-op on identical names, and which monitor moves to
/// which workspace, as a predicate shared by the planner and the
/// command entry point.
#[verifier::opaque]
pub open spec fn spec_swap_outcome(
    olds: State,
    news: State,
    rr: Result<Seq<Action>, KError>,
    monitor_1: Option<String>,
    monitor_2: Option<String>,
    move_window: bool,
    have_query: bool,
    have_window: bool,
) -> bool {
                let ms = olds.monitors@;
                let ff = spec_first_focused(ms)->0;
                let fname = ms[ff].monitor.name@;
                if monitor_1 matches Some(a) && monitor_2 matches Some(b) && a@ == b@ {
                    rr matches Ok(acts) && acts.len() == 0 && news == olds
                } else if (monitor_1 is Some) != (monitor_2 is Some) {
                    rr matches Err(e) && e is MonitorNamesRequired
                } else if monitor_1 is None && monitor_2 is None && ms.len() != 2 {
                    rr matches Err(e) && e is NotTwoMonitors
                } else {
                    let n1 = match monitor_1 {
                        Some(a) => a@,
                        None => ms[0].monitor.name@,
                    };
                    let n2 = match monitor_2 {
                        Some(b) => b@,
                        None => ms[1].monitor.name@,
                    };
                    if mon_first_idx(ms, n1) is None {
                        rr matches Err(e) && e is Monitor1NotFound
                    } else if mon_first_idx(ms, n2) is None {
                        rr matches Err(e) && e is Monitor2NotFound
                    } else {
                        let mi1 = mon_first_idx(ms, n1)->0;
                        let mi2 = mon_first_idx(ms, n2)->0;
                        let ws1 = ms[mi1].monitor.active_workspace_name@;
                        let ws2 = ms[mi2].monitor.active_workspace_name@;
                        if fname == n1 || fname == n2 {
                            let tgt = if fname == n1 {
                                ws2
                            } else {
                                ws1
                            };
                            if move_window && !have_query {
                                rr matches Err(e) && e is QueryFailed
                            } else {
                                rr matches Ok(acts) && news.monitors@.len() == ms.len() && (
                                forall|j: int|
                                    0 <= j < ms.len() && j != ff ==> #[trigger] news.monitors@[j] == ms[j]) && news.monitors@[ff].monitor
                                    == ms[ff].monitor && spec_remember(
                                    ms[ff],
                                    news.monitors@[ff],
                                ) && move_actions_ok(
                                    acts,
                                    ms[ff].monitor,
                                    tgt,
                                    move_window && have_window,
                                )
                            }
                        } else {
                            rr matches Ok(acts) && acts.len() >= 1 && news.monitors@.len() == ms.len() && (forall|j: int|
                                0 <= j < ms.len() && j != mi1 ==> #[trigger] news.monitors@[j] == ms[j]) && news.monitors@[mi1].monitor
                                == ms[mi1].monitor && spec_remember(
                                ms[mi1],
                                news.monitors@[mi1],
                            ) && move_actions_ok(
                                acts.take(acts.len() - 1),
                                ms[mi1].monitor,
                                ws2,
                                false,
                            ) && (acts.last() matches Action::FocusMonitorByName { name } && name@
                                == fname)
                        }
                    }
                }
}

impl State {
    /// Plan a move of one monitor to a workspace given by name,
    /// remembering the position it leaves.
    fn move_monitor_to_raw(&mut self, mi: usize, ws_name: String, move_window: bool, have_window: bool) -> (r: Vec<Action>)
        requires
            old(self).wf(),
            mi < old(self).monitors@.len(),
        ensures
            final(self).wf(),
            final(self).config == old(self).config,
            final(self).harpoon_map == old(self).harpoon_map,
            final(self).monitors@.len() == old(self).monitors@.len(),
            forall|j: int|
                0 <= j < old(self).monitors@.len() && j != mi as int ==> #[trigger] final(self).monitors@[j] == old(self).monitors@[j],
            final(self).monitors@[mi as int].monitor == old(self).monitors@[mi as int].monitor,
            spec_remember(old(self).monitors@[mi as int], final(self).monitors@[mi as int]),
            move_actions_ok(
                r@,
                old(self).monitors@[mi as int].monitor,
                ws_name@,
                move_window && have_window,
            ),
    {
        let mut m = self.monitors.remove(mi);
        let acts = m.move_to_raw(ws_name, move_window, have_window);
        self.monitors.insert(mi, m);
        proof {
            let oldm = old(self).monitors@[mi as int];
            assert forall|j: int|
                0 <= j < old(self).monitors@.len() && j != mi as int implies #[trigger] self
                .monitors@[j] == old(self).monitors@[j] by {}
            lemma_remember_preserves_match(
                oldm,
                self.monitors@[mi as int],
                self.config.activities@,
            );
            assert forall|i2: int| 0 <= i2 < self.monitors@.len() implies activities_match(
                (#[trigger] self.monitors@[i2]).activities@,
                self.config.activities@,
            ) by {
                if i2 != mi as int {
                    assert(self.monitors@[i2] == old(self).monitors@[i2]);
                }
            }
        }
        acts
    }

    /// First monitor carrying a name.
    fn find_monitor_idx(&self, name: &str) -> (r: Option<usize>)
        ensures
            match r {
                Some(i) => mon_first_idx(self.monitors@, name@) == Some(i as int) && i < self
                    .monitors@.len(),
                None => mon_first_idx(self.monitors@, name@) is None,
            },
    {
        let n = self.monitors.len();
        let mut i: usize = 0;
        while i < n
            invariant
                0 <= i <= n == self.monitors@.len(),
                forall|j: int|
                    0 <= j < i ==> !(mon_name_pred(name@))(#[trigger] self.monitors@[j]),
            decreases n - i,
        {
            if str_eq(self.monitors[i].monitor.name.as_str(), name) {
                proof {
                    lemma_first_idx_where_at(self.monitors@, mon_name_pred(name@), i as int);
                }
                return Some(i);
            }
            i += 1;
        }
        proof {
            lemma_first_idx_where_props(self.monitors@, mon_name_pred(name@));
        }
        None
    }

    /// Plan a swap of the active workspaces of two monitors. With no
    /// names given, the two tracked monitors swap; with both given,
    /// those two. When the focused monitor is one of the two, it
    /// moves to the other's workspace (optionally taking the focused
    /// window); otherwise the first moves to the second's workspace
    /// and focus returns to the focused monitor.
    pub fn swap_monitors(
        &mut self,
        monitor_1: Option<String>,
        monitor_2: Option<String>,
        move_window: bool,
        have_query: bool,
        have_window: bool,
    ) -> (r: Result<Vec<Action>, KError>)
        requires
            old(self).wf(),
            old(self).spec_has_focused(),
        ensures
            final(self).wf(),
            final(self).config == old(self).config,
            final(self).harpoon_map == old(self).harpoon_map,
            r is Err ==> *final(self) == *old(self),
            (match r {
                Ok(acts) => spec_swap_outcome(
                    *old(self),
                    *final(self),
                    Ok(acts@),
                    monitor_1,
                    monitor_2,
                    move_window,
                    have_query,
                    have_window,
                ),
                Err(e) => spec_swap_outcome(
                    *old(self),
                    *final(self),
                    Err(e),
                    monitor_1,
                    monitor_2,
                    move_window,
                    have_query,
                    have_window,
                ),
            }),
    {
        proof {
            reveal(spec_swap_outcome);
        }
        match (&monitor_1, &monitor_2) {
            (Some(a), Some(b)) => {
                if str_eq(a.as_str(), b.as_str()) {
                    return Ok(Vec::new());
                }
            },
            (None, Some(_)) => {
                return Err(KError::MonitorNamesRequired);
            },
            (Some(_), None) => {
                return Err(KError::MonitorNamesRequired);
            },
            (None, None) => {
                if self.monitors.len() != 2 {
                    return Err(KError::NotTwoMonitors);
                }
            },
        }
        let n1: String = match &monitor_1 {
            Some(a) => a.clone(),
            None => self.monitors[0].monitor.name.clone(),
        };
        let n2: String = match &monitor_2 {
            Some(b) => b.clone(),
            None => self.monitors[1].monitor.name.clone(),
        };
        let mi1 = match self.find_monitor_idx(n1.as_str()) {
            Some(i) => i,
            None => {
                return Err(KError::Monitor1NotFound);
            },
        };
        let mi2 = match self.find_monitor_idx(n2.as_str()) {
            Some(i) => i,
            None => {
                return Err(KError::Monitor2NotFound);
            },
        };
        let ws1 = self.monitors[mi1].monitor.active_workspace_name.clone();
        let ws2 = self.monitors[mi2].monitor.active_workspace_name.clone();
        let ff = match self.focused_monitor_idx() {
            Some(i) => i,
            None => {
                proof {
                    assert(false);
                }
                return Err(KError::NoMonitorFocused);
            },
        };
        proof {
            lemma_first_idx_where_at(self.monitors@, focused_pred(), ff as int);
        }
        let f_is_1 = str_eq(self.monitors[ff].monitor.name.as_str(), n1.as_str());
        let f_is_2 = str_eq(self.monitors[ff].monitor.name.as_str(), n2.as_str());
        if f_is_1 || f_is_2 {
            if move_window && !have_query {
                return Err(KError::QueryFailed);
            }
            let tgt = if f_is_1 {
                ws2
            } else {
                ws1
            };
            let acts = self.move_monitor_to_raw(ff, tgt, move_window, have_window);
            Ok(acts)
        } else {
            let mut acts = self.move_monitor_to_raw(mi1, ws2, false, false);
            acts.push(Action::FocusMonitorByName { name: self.monitors[ff].monitor.name.clone() });
            proof {
                assert(acts@.take(acts@.len() - 1) =~= acts@.drop_last());
            }
            Ok(acts)
        }
    }
}

} // verus!

verus! {

/// A first-time activity appended to the session: the ordered list
/// grows by the name, and every monitor tracks it with no remembered
/// position; nothing else changes.
#[verifier::opaque]
pub open spec fn spec_state_appended(olds: State, mids: State, name: String) -> bool {
    &&& mids.config.activities@ == olds.config.activities@.push(name)
    &&& mids.config.workspaces == olds.config.workspaces
    &&& mids.config.daemon == olds.config.daemon
    &&& mids.config.named_focii == olds.config.named_focii
    &&& mids.config.icon_theme == olds.config.icon_theme
    &&& mids.config.window_icon_try_min_size == olds.config.window_icon_try_min_size
    &&& mids.harpoon_map == olds.harpoon_map
    &&& mids.monitors@.len() == olds.monitors@.len()
    &&& forall|j: int|
        0 <= j < olds.monitors@.len() ==> (#[trigger] mids.monitors@[j]).monitor
            == olds.monitors@[j].monitor
    &&& forall|j: int|
        0 <= j < olds.monitors@.len() ==> (#[trigger] mids.monitors@[j]).activities@
            == olds.monitors@[j].activities@.push(KActivity { name, last_workspace: None })
}

impl State {
    /// Track a first-time activity: append its name to the ordered
    /// list and give every monitor a fresh grid for it, with no
    /// remembered position. This seeds one workspace per grid cell,
    /// since every in-bounds cell of a tracked activity names a
    /// workspace.
    fn append_activity(&mut self, name: &String)
        requires
            old(self).wf(),
        ensures
            final(self).wf(),
            spec_state_appended(*old(self), *final(self), *name),
    {
        proof {
            reveal(spec_state_appended);
        }
        self.config.activities.push(name.clone());
        let n = self.monitors.len();
        let ghost oldms = old(self).monitors@;
        let mut i: usize = 0;
        while i < n
            invariant
                n == self.monitors@.len(),
                oldms.len() == n,
                oldms == old(self).monitors@,
                old(self).wf(),
                self.config.activities@ == old(self).config.activities@.push(*name),
                self.config.workspaces == old(self).config.workspaces,
                self.config.daemon == old(self).config.daemon,
                self.config.named_focii == old(self).config.named_focii,
                self.config.icon_theme == old(self).config.icon_theme,
                self.config.window_icon_try_min_size == old(self).config.window_icon_try_min_size,
                self.harpoon_map == old(self).harpoon_map,
                0 <= i <= n,
                forall|j: int|
                    0 <= j < i ==> (#[trigger] self.monitors@[j]).monitor == oldms[j].monitor
                        && self.monitors@[j].activities@ == oldms[j].activities@.push(
                        KActivity { name: *name, last_workspace: None },
                    ),
                forall|j: int| i <= j < n ==> #[trigger] self.monitors@[j] == oldms[j],
            decreases n - i,
        {
            let mut m = self.monitors.remove(i);
            m.activities.push(KActivity { name: name.clone(), last_workspace: None });
            self.monitors.insert(i, m);
            i += 1;
        }
        proof {
            assert forall|j: int| 0 <= j < self.monitors@.len() implies activities_match(
                (#[trigger] self.monitors@[j]).activities@,
                self.config.activities@,
            ) by {
                let oldacts = oldms[j].activities@;
                let oldnames = old(self).config.activities@;
                assert(activities_match(oldacts, oldnames));
                assert forall|q: int|
                    0 <= q < self.monitors@[j].activities@.len() implies (
                #[trigger] self.monitors@[j].activities@[q]).name@
                    == self.config.activities@[q]@ by {
                    if q < oldacts.len() {
                        assert(self.monitors@[j].activities@[q] == oldacts[q]);
                        assert(self.config.activities@[q] == oldnames[q]);
                    }
                }
            }
        }
    }
}

/// The compositor reported an active window.
pub open spec fn have_window_of(q: QueryData) -> bool {
    q.active_window matches Some(Some(_))
}

/// The planned operations and state change of a move of the focused
/// monitor to an explicit activity and grid position: a fade hint,
/// then the move.
#[verifier::opaque]
pub open spec fn spec_move_to_plan(
    olds: State,
    news: State,
    acts: Seq<Action>,
    a: Seq<char>,
    ws: KWorkspace,
    moved_window: bool,
) -> bool {
    let fm = spec_first_focused(olds.monitors@)->0;
    let m = olds.monitors@[fm];
    &&& news.config == olds.config
    &&& news.harpoon_map == olds.harpoon_map
    &&& news.monitors@.len() == olds.monitors@.len()
    &&& forall|j: int|
        0 <= j < olds.monitors@.len() && j != fm ==> #[trigger] news.monitors@[j]
            == olds.monitors@[j]
    &&& news.monitors@[fm].monitor == m.monitor
    &&& spec_remember(m, news.monitors@[fm])
    &&& acts.len() >= 1
    &&& (acts[0] matches Action::SetAnim { anim } && anim is Fade)
    &&& move_actions_ok(
        acts.skip(1),
        m.monitor,
        crate::grid::spec_ws_name(a, ws.x as int, ws.y as int),
        moved_window,
    )
}

/// How a set-named-focus command changes the bookmarks: binding the
/// name while it already points at the current workspace clears it,
/// anything else binds it there.
#[verifier::opaque]
pub open spec fn spec_set_named_outcome(olds: State, news: State, name: Seq<char>) -> bool {
    let ff = spec_first_focused(olds.monitors@)->0;
    let w = olds.monitors@[ff].monitor.active_workspace_name@;
    &&& news.config == olds.config
    &&& news.monitors == olds.monitors
    &&& (olds.harpoon_map.spec_get(name) == Some(w) ==> news.harpoon_map.spec_get(name) is None)
    &&& (olds.harpoon_map.spec_get(name) != Some(w) ==> news.harpoon_map.spec_get(name) == Some(w))
    &&& forall|k: Seq<char>|
        k != name ==> #[trigger] news.harpoon_map.spec_get(k) == olds.harpoon_map.spec_get(k)
}

/// The planned operations and state change of a jump to a bookmarked
/// workspace: a fade hint, then a move to the bound name.
#[verifier::opaque]
pub open spec fn spec_switch_named_outcome(
    olds: State,
    news: State,
    acts: Seq<Action>,
    name: Seq<char>,
    moved_window: bool,
) -> bool {
    let fm = spec_first_focused(olds.monitors@)->0;
    let m = olds.monitors@[fm];
    let ws = olds.harpoon_map.spec_get(name)->0;
    &&& olds.harpoon_map.spec_get(name) is Some
    &&& news.config == olds.config
    &&& news.harpoon_map == olds.harpoon_map
    &&& news.monitors@.len() == olds.monitors@.len()
    &&& (forall|j: int|
        0 <= j < olds.monitors@.len() && j != fm ==> #[trigger] news.monitors@[j]
            == olds.monitors@[j])
    &&& news.monitors@[fm].monitor == m.monitor
    &&& spec_remember(m, news.monitors@[fm])
    &&& acts.len() >= 1
    &&& (acts[0] matches Action::SetAnim { anim } && anim is Fade)
    &&& move_actions_ok(acts.skip(1), m.monitor, ws, moved_window)
}

/// The commands whose planning reads the focused monitor and expects
/// one to exist.
pub open spec fn spec_needs_focused(c: Command) -> bool {
    match c {
        Command::MoveRight { .. } => true,
        Command::MoveLeft { .. } => true,
        Command::MoveUp { .. } => true,
        Command::MoveDown { .. } => true,
        Command::NextActivity { .. } => true,
        Command::PrevActivity { .. } => true,
        Command::SwitchToActivity { .. } => true,
        Command::SwitchToWorkspaceInActivity { .. } => true,
        Command::SwitchToWorkspace { .. } => true,
        Command::ToggleSpecialWorkspace { move_window, .. } => move_window,
        Command::SetNamedFocus { .. } => true,
        Command::SwitchNamedFocus { .. } => true,
        Command::SwapMonitorsActiveWorkspace { .. } => true,
        _ => false,
    }
}

/// A one-shot command's planned operations and state change.
#[derive(Debug)]
pub struct CommandPlan {
    pub actions: Vec<Action>,
    /// inject a monitor-info event so that subscribers see the change
    pub fire_info_event: bool,
}

impl State {
    /// Plan a one-step grid-move command: reject a missing window
    /// query or an unmanaged workspace, else the translated move.
    fn move_cmd(&mut self, dx: i32, dy: i32, cycle: bool, move_window: bool, q: &QueryData) -> (r:
        Result<Vec<Action>, KError>)
        requires
            old(self).wf(),
            old(self).spec_has_focused(),
            -1 <= dx <= 1,
            -1 <= dy <= 1,
        ensures
            final(self).wf(),
            final(self).config == old(self).config,
            final(self).harpoon_map == old(self).harpoon_map,
            r is Err ==> *final(self) == *old(self),
            ({
                let cur = old(self).monitors@[spec_first_focused(
                    old(self).monitors@,
                )->0].spec_current();
                &&& (r is Err <==> ((move_window && q.active_window is None) || cur is None))
                &&& match r {
                    Ok(acts) => spec_move_plan(
                        *old(self),
                        *final(self),
                        acts@,
                        dx as int,
                        dy as int,
                        cycle,
                        move_window && have_window_of(*q),
                    ),
                    Err(e) => if move_window && q.active_window is None {
                        e is QueryFailed
                    } else {
                        e is NotInKoolWorkspace
                    },
                }
            }),
    {
        let hw = match self.window_query(move_window, q) {
            Ok(h) => h,
            Err(e) => {
                return Err(e);
            },
        };
        self.move_towards(dx, dy, cycle, move_window, hw)
    }

    /// Plan a monitor-cycling command, window query included.
    fn cycle_monitor_cmd(&self, z: i32, cycle: bool, move_window: bool, q: &QueryData) -> (r:
        Result<Vec<Action>, KError>)
        requires
            self.wf(),
            z == 1 || z == -1,
        ensures
            match r {
                Ok(acts) => self.spec_has_focused() && spec_cycle_monitor_plan(
                    *self,
                    acts@,
                    z as int,
                    cycle,
                    move_window && have_window_of(*q),
                ),
                Err(e) => if move_window && q.active_window is None {
                    e is QueryFailed
                } else {
                    e is NoMonitorFocused && !self.spec_has_focused()
                },
            },
    {
        let hw = match self.window_query(move_window, q) {
            Ok(h) => h,
            Err(e) => {
                return Err(e);
            },
        };
        self.cycle_monitor(z, cycle, move_window, hw)
    }

    /// Plan a switch to a named monitor, window query included.
    fn switch_monitor_cmd(&self, name: &str, move_window: bool, q: &QueryData) -> (r: Result<
        Vec<Action>,
        KError,
    >)
        requires
            self.wf(),
        ensures
            match r {
                Ok(acts) => mon_first_idx(self.monitors@, name@) is Some
                    && spec_switch_monitor_plan(
                    *self,
                    acts@,
                    name@,
                    move_window && have_window_of(*q),
                ),
                Err(e) => if move_window && q.active_window is None {
                    e is QueryFailed
                } else {
                    e is MonitorNotFound && mon_first_idx(self.monitors@, name@) is None
                },
            },
    {
        let hw = match self.window_query(move_window, q) {
            Ok(h) => h,
            Err(e) => {
                return Err(e);
            },
        };
        self.switch_to_monitor(name, move_window, hw)
    }

    /// Plan a switch to a grid position inside the current activity.
    fn switch_ws_in_activity_cmd(&mut self, name: String, move_window: bool, q: &QueryData) -> (r:
        Result<Vec<Action>, KError>)
        requires
            old(self).wf(),
            old(self).spec_has_focused(),
        ensures
            final(self).wf(),
            final(self).config == old(self).config,
            final(self).harpoon_map == old(self).harpoon_map,
            r is Err ==> *final(self) == *old(self),
            match r {
                Ok(acts) => ({
                    let fm = spec_first_focused(old(self).monitors@)->0;
                    let cur = old(self).monitors@[fm].spec_current();
                    &&& cur is Some
                    &&& spec_ws_part(name@) is Some
                    &&& spec_move_to_plan(
                        *old(self),
                        *final(self),
                        acts@,
                        (cur->0).0,
                        spec_ws_part(name@)->0,
                        move_window && have_window_of(*q),
                    )
                }),
                Err(e) => ({
                    let fm = spec_first_focused(old(self).monitors@)->0;
                    let cur = old(self).monitors@[fm].spec_current();
                    if move_window && q.active_window is None {
                        e is QueryFailed
                    } else if cur is None {
                        e is NotInKoolActivity
                    } else {
                        e is InvalidWorkspaceName && spec_ws_part(name@) is None
                    }
                }),
            },
    {
        let hw = match self.window_query(move_window, q) {
            Ok(h) => h,
            Err(e) => {
                return Err(e);
            },
        };
        let fm = match self.focused_monitor_idx() {
            Some(i) => i,
            None => {
                proof {
                    assert(false);
                }
                return Err(KError::NoMonitorFocused);
            },
        };
        proof {
            lemma_first_idx_where_at(self.monitors@, focused_pred(), fm as int);
        }
        let a = match self.monitors[fm].current() {
            Some((a, _)) => a,
            None => {
                return Err(KError::NotInKoolActivity);
            },
        };
        let ws = match KWorkspace::from_ws_part_of_name(name.as_str()) {
            Some(ws) => ws,
            None => {
                return Err(KError::InvalidWorkspaceName);
            },
        };
        Ok(self.move_to_inner(fm, a, ws, move_window, hw))
    }

    /// Plan a switch to a full workspace name.
    fn switch_ws_cmd(&mut self, name: String, move_window: bool, q: &QueryData) -> (r: Result<
        Vec<Action>,
        KError,
    >)
        requires
            old(self).wf(),
            old(self).spec_has_focused(),
        ensures
            final(self).wf(),
            final(self).config == old(self).config,
            final(self).harpoon_map == old(self).harpoon_map,
            r is Err ==> *final(self) == *old(self),
            match r {
                Ok(acts) => ({
                    &&& spec_activity_of(name@) is Some
                    &&& spec_ws_of(name@) is Some
                    &&& spec_move_to_plan(
                        *old(self),
                        *final(self),
                        acts@,
                        spec_activity_of(name@)->0,
                        spec_ws_of(name@)->0,
                        move_window && have_window_of(*q),
                    )
                }),
                Err(e) => if move_window && q.active_window is None {
                    e is QueryFailed
                } else if spec_activity_of(name@) is None {
                    e is ActivityNotFound
                } else {
                    e is WorkspaceNotFound && spec_ws_of(name@) is None
                },
            },
    {
        let hw = match self.window_query(move_window, q) {
            Ok(h) => h,
            Err(e) => {
                return Err(e);
            },
        };
        let a = match KActivity::from_ws_name(name.as_str()) {
            Some(a) => a,
            None => {
                return Err(KError::ActivityNotFound);
            },
        };
        let ws = match KWorkspace::from_ws_name(name.as_str()) {
            Some(ws) => ws,
            None => {
                return Err(KError::WorkspaceNotFound);
            },
        };
        let fm = match self.focused_monitor_idx() {
            Some(i) => i,
            None => {
                proof {
                    assert(false);
                }
                return Err(KError::NoMonitorFocused);
            },
        };
        proof {
            lemma_first_idx_where_at(self.monitors@, focused_pred(), fm as int);
        }
        Ok(self.move_to_inner(fm, a.name, ws, move_window, hw))
    }

    /// Plan a jump to a bookmarked workspace, window query included.
    fn switch_named_cmd(&mut self, name: &str, move_window: bool, q: &QueryData) -> (r: Result<
        Vec<Action>,
        KError,
    >)
        requires
            old(self).wf(),
            old(self).spec_has_focused(),
        ensures
            final(self).wf(),
            final(self).config == old(self).config,
            final(self).harpoon_map == old(self).harpoon_map,
            r is Err ==> *final(self) == *old(self),
            match r {
                Ok(acts) => spec_switch_named_outcome(
                    *old(self),
                    *final(self),
                    acts@,
                    name@,
                    move_window && have_window_of(*q),
                ),
                Err(e) => if move_window && q.active_window is None {
                    e is QueryFailed
                } else {
                    e is NoSuchNamedFocus && old(self).harpoon_map.spec_get(name@) is None
                },
            },
    {
        let hw = match self.window_query(move_window, q) {
            Ok(h) => h,
            Err(e) => {
                return Err(e);
            },
        };
        self.switch_named_focus(name, move_window, hw)
    }

    /// Plan the command against the session state: the next state is
    /// taken directly, and the compositor operations are returned for
    /// the outside to perform, in order.
    pub fn execute(&mut self, command: Command, q: &QueryData) -> (r: Result<CommandPlan, KError>)
        requires
            old(self).wf(),
            spec_needs_focused(command) ==> old(self).spec_has_focused(),
        ensures
            final(self).wf(),
            (command is SwitchToActivity || final(self).config == old(self).config),
            r is Err ==> *final(self) == *old(self),
            (r matches Ok(p) && p.fire_info_event ==> command is SetNamedFocus),
            (command is Daemon || command is DaemonQuit || command is Info ==> (r matches Err(e)
                && e is CannotRunHere)),
            (command matches Command::MoveRight { cycle, move_window } ==> ({
                let cur = old(self).monitors@[spec_first_focused(
                    old(self).monitors@,
                )->0].spec_current();
                &&& (r is Err <==> ((move_window && q.active_window is None) || cur is None))
                &&& match r {
                    Ok(p) => spec_move_plan(
                        *old(self),
                        *final(self),
                        p.actions@,
                        1,
                        0,
                        cycle,
                        move_window && have_window_of(*q),
                    ),
                    Err(e) => if move_window && q.active_window is None {
                        e is QueryFailed
                    } else {
                        e is NotInKoolWorkspace
                    },
                }
            })),
            (command matches Command::MoveLeft { cycle, move_window } ==> ({
                let cur = old(self).monitors@[spec_first_focused(
                    old(self).monitors@,
                )->0].spec_current();
                &&& (r is Err <==> ((move_window && q.active_window is None) || cur is None))
                &&& match r {
                    Ok(p) => spec_move_plan(
                        *old(self),
                        *final(self),
                        p.actions@,
                        -1,
                        0,
                        cycle,
                        move_window && have_window_of(*q),
                    ),
                    Err(e) => if move_window && q.active_window is None {
                        e is QueryFailed
                    } else {
                        e is NotInKoolWorkspace
                    },
                }
            })),
            (command matches Command::MoveUp { cycle, move_window } ==> ({
                let cur = old(self).monitors@[spec_first_focused(
                    old(self).monitors@,
                )->0].spec_current();
                &&& (r is Err <==> ((move_window && q.active_window is None) || cur is None))
                &&& match r {
                    Ok(p) => spec_move_plan(
                        *old(self),
                        *final(self),
                        p.actions@,
                        0,
                        -1,
                        cycle,
                        move_window && have_window_of(*q),
                    ),
                    Err(e) => if move_window && q.active_window is None {
                        e is QueryFailed
                    } else {
                        e is NotInKoolWorkspace
                    },
                }
            })),
            (command matches Command::MoveDown { cycle, move_window } ==> ({
                let cur = old(self).monitors@[spec_first_focused(
                    old(self).monitors@,
                )->0].spec_current();
                &&& (r is Err <==> ((move_window && q.active_window is None) || cur is None))
                &&& match r {
                    Ok(p) => spec_move_plan(
                        *old(self),
                        *final(self),
                        p.actions@,
                        0,
                        1,
                        cycle,
                        move_window && have_window_of(*q),
                    ),
                    Err(e) => if move_window && q.active_window is None {
                        e is QueryFailed
                    } else {
                        e is NotInKoolWorkspace
                    },
                }
            })),
            (command matches Command::NextActivity { cycle, move_window } ==> match r {
                Ok(p) => spec_switch_activity_plan(
                    *old(self),
                    *final(self),
                    p.actions@,
                    spec_cycle_target(*old(self), 1, cycle),
                    move_window && have_window_of(*q),
                ),
                Err(e) => e is QueryFailed && move_window && q.active_window is None,
            }),
            (command matches Command::PrevActivity { cycle, move_window } ==> match r {
                Ok(p) => spec_switch_activity_plan(
                    *old(self),
                    *final(self),
                    p.actions@,
                    spec_cycle_target(*old(self), -1, cycle),
                    move_window && have_window_of(*q),
                ),
                Err(e) => e is QueryFailed && move_window && q.active_window is None,
            }),
            (command matches Command::SwitchToActivity { name, move_window } ==> match r {
                Ok(p) => ({
                    let known = strs_views(old(self).config.activities@).contains(name@);
                    &&& (known ==> spec_switch_activity_plan(
                        *old(self),
                        *final(self),
                        p.actions@,
                        name@,
                        move_window && have_window_of(*q),
                    ))
                    &&& (!known ==> exists|mids: State|
                        #![auto]
                        spec_state_appended(*old(self), mids, name)
                            && spec_switch_activity_plan(
                            mids,
                            *final(self),
                            p.actions@,
                            name@,
                            move_window && have_window_of(*q),
                        ))
                }),
                Err(e) => e is QueryFailed && move_window && q.active_window is None,
            }),
            (command matches Command::SwitchToWorkspaceInActivity { name, move_window } ==> match r {
                Ok(p) => ({
                    let fm = spec_first_focused(old(self).monitors@)->0;
                    let cur = old(self).monitors@[fm].spec_current();
                    &&& cur is Some
                    &&& spec_ws_part(name@) is Some
                    &&& spec_move_to_plan(
                        *old(self),
                        *final(self),
                        p.actions@,
                        (cur->0).0,
                        spec_ws_part(name@)->0,
                        move_window && have_window_of(*q),
                    )
                }),
                Err(e) => ({
                    let fm = spec_first_focused(old(self).monitors@)->0;
                    let cur = old(self).monitors@[fm].spec_current();
                    if move_window && q.active_window is None {
                        e is QueryFailed
                    } else if cur is None {
                        e is NotInKoolActivity
                    } else {
                        e is InvalidWorkspaceName && spec_ws_part(name@) is None
                    }
                }),
            }),
            (command matches Command::SwitchToWorkspace { name, move_window } ==> match r {
                Ok(p) => ({
                    &&& spec_activity_of(name@) is Some
                    &&& spec_ws_of(name@) is Some
                    &&& spec_move_to_plan(
                        *old(self),
                        *final(self),
                        p.actions@,
                        spec_activity_of(name@)->0,
                        spec_ws_of(name@)->0,
                        move_window && have_window_of(*q),
                    )
                }),
                Err(e) => if move_window && q.active_window is None {
                    e is QueryFailed
                } else if spec_activity_of(name@) is None {
                    e is ActivityNotFound
                } else {
                    e is WorkspaceNotFound && spec_ws_of(name@) is None
                },
            }),
            (command matches Command::NextMonitor { cycle, move_window } ==> *final(self) == *old(
                self,
            ) && match r {
                Ok(p) => spec_cycle_monitor_plan(
                    *old(self),
                    p.actions@,
                    1,
                    cycle,
                    move_window && have_window_of(*q),
                ),
                Err(e) => if move_window && q.active_window is None {
                    e is QueryFailed
                } else {
                    e is NoMonitorFocused && !old(self).spec_has_focused()
                },
            }),
            (command matches Command::PrevMonitor { cycle, move_window } ==> *final(self) == *old(
                self,
            ) && match r {
                Ok(p) => spec_cycle_monitor_plan(
                    *old(self),
                    p.actions@,
                    -1,
                    cycle,
                    move_window && have_window_of(*q),
                ),
                Err(e) => if move_window && q.active_window is None {
                    e is QueryFailed
                } else {
                    e is NoMonitorFocused && !old(self).spec_has_focused()
                },
            }),
            (command matches Command::SwitchToMonitor { name, move_window } ==> *final(self)
                == *old(self) && match r {
                Ok(p) => spec_switch_monitor_plan(
                    *old(self),
                    p.actions@,
                    name@,
                    move_window && have_window_of(*q),
                ),
                Err(e) => if move_window && q.active_window is None {
                    e is QueryFailed
                } else {
                    e is MonitorNotFound && mon_first_idx(old(self).monitors@, name@) is None
                },
            }),
            (command matches Command::SwapMonitorsActiveWorkspace { monitor_1, monitor_2, move_window }
                ==> match r {
                Ok(p) => spec_swap_outcome(
                    *old(self),
                    *final(self),
                    Ok(p.actions@),
                    monitor_1,
                    monitor_2,
                    move_window,
                    q.active_window is Some,
                    have_window_of(*q),
                ),
                Err(e) => spec_swap_outcome(
                    *old(self),
                    *final(self),
                    Err(e),
                    monitor_1,
                    monitor_2,
                    move_window,
                    q.active_window is Some,
                    have_window_of(*q),
                ),
            }),
            (command matches Command::ToggleSpecialWorkspace { name, move_window, silent }
                ==> *final(self) == *old(self) && match r {
                Ok(p) => spec_toggle_plan(*old(self), p.actions@, name@, move_window, silent, *q),
                Err(e) => move_window && match q.active_window {
                    None => e is QueryFailed,
                    Some(aw) => match aw {
                        None => e is NoActiveWindow,
                        Some(w) => e is QueryFailed && silent && w.workspace_name@
                            == "special:"@.add(name@) && q.clients is None,
                    },
                },
            }),
            (command matches Command::SetNamedFocus { name } ==> ({
                let ff = spec_first_focused(old(self).monitors@)->0;
                let w = old(self).monitors@[ff].monitor.active_workspace_name@;
                let parseable = spec_activity_of(w) is Some && spec_ws_of(w) is Some;
                match r {
                    Ok(p) => parseable && p.actions@.len() == 0 && p.fire_info_event
                        && spec_set_named_outcome(*old(self), *final(self), name@),
                    Err(e) => !parseable && e is NotInKoolWorkspace,
                }
            })),
            (command matches Command::SwitchNamedFocus { name, move_window } ==> match r {
                Ok(p) => spec_switch_named_outcome(
                    *old(self),
                    *final(self),
                    p.actions@,
                    name@,
                    move_window && have_window_of(*q),
                ),
                Err(e) => if move_window && q.active_window is None {
                    e is QueryFailed
                } else {
                    e is NoSuchNamedFocus && old(self).harpoon_map.spec_get(name@) is None
                },
            }),
            (command matches Command::FocusWindow { address } ==> *final(self) == *old(self)
                && match r {
                Ok(p) => q.clients is Some && p.actions@ == spec_focus_window_acts(
                    (q.clients->0)@,
                    address@,
                ),
                Err(e) => e is QueryFailed && q.clients is None,
            }),
    {
        match command {
            Command::Daemon => Err(KError::CannotRunHere),
            Command::DaemonQuit => Err(KError::CannotRunHere),
            Command::Info { .. } => Err(KError::CannotRunHere),
            Command::MoveRight { cycle, move_window } => {
                match self.move_cmd(1, 0, cycle, move_window, q) {
                    Ok(actions) => Ok(CommandPlan { actions, fire_info_event: false }),
                    Err(e) => Err(e),
                }
            },
            Command::MoveLeft { cycle, move_window } => {
                match self.move_cmd(-1, 0, cycle, move_window, q) {
                    Ok(actions) => Ok(CommandPlan { actions, fire_info_event: false }),
                    Err(e) => Err(e),
                }
            },
            Command::MoveUp { cycle, move_window } => {
                match self.move_cmd(0, -1, cycle, move_window, q) {
                    Ok(actions) => Ok(CommandPlan { actions, fire_info_event: false }),
                    Err(e) => Err(e),
                }
            },
            Command::MoveDown { cycle, move_window } => {
                match self.move_cmd(0, 1, cycle, move_window, q) {
                    Ok(actions) => Ok(CommandPlan { actions, fire_info_event: false }),
                    Err(e) => Err(e),
                }
            },
            Command::NextActivity { cycle, move_window } => {
                let hw = match self.window_query(move_window, q) {
                    Ok(h) => h,
                    Err(e) => {
                        return Err(e);
                    },
                };
                let actions = self.cycle_activity(1, cycle, move_window, hw);
                Ok(CommandPlan { actions, fire_info_event: false })
            },
            Command::PrevActivity { cycle, move_window } => {
                let hw = match self.window_query(move_window, q) {
                    Ok(h) => h,
                    Err(e) => {
                        return Err(e);
                    },
                };
                let actions = self.cycle_activity(-1, cycle, move_window, hw);
                Ok(CommandPlan { actions, fire_info_event: false })
            },
            Command::SwitchToActivity { name, move_window } => {
                let hw = match self.window_query(move_window, q) {
                    Ok(h) => h,
                    Err(e) => {
                        return Err(e);
                    },
                };
                let actions = self.switch_to_activity_cmd(name, move_window, hw);
                Ok(CommandPlan { actions, fire_info_event: false })
            },
            Command::SwitchToWorkspaceInActivity { name, move_window } => {
                match self.switch_ws_in_activity_cmd(name, move_window, q) {
                    Ok(actions) => Ok(CommandPlan { actions, fire_info_event: false }),
                    Err(e) => Err(e),
                }
            },
            Command::SwitchToWorkspace { name, move_window } => {
                match self.switch_ws_cmd(name, move_window, q) {
                    Ok(actions) => Ok(CommandPlan { actions, fire_info_event: false }),
                    Err(e) => Err(e),
                }
            },
            Command::NextMonitor { cycle, move_window } => {
                match self.cycle_monitor_cmd(1, cycle, move_window, q) {
                    Ok(actions) => Ok(CommandPlan { actions, fire_info_event: false }),
                    Err(e) => Err(e),
                }
            },
            Command::PrevMonitor { cycle, move_window } => {
                match self.cycle_monitor_cmd(-1, cycle, move_window, q) {
                    Ok(actions) => Ok(CommandPlan { actions, fire_info_event: false }),
                    Err(e) => Err(e),
                }
            },
            Command::SwitchToMonitor { name, move_window } => {
                match self.switch_monitor_cmd(name.as_str(), move_window, q) {
                    Ok(actions) => Ok(CommandPlan { actions, fire_info_event: false }),
                    Err(e) => Err(e),
                }
            },
            Command::SwapMonitorsActiveWorkspace { monitor_1, monitor_2, move_window } => {
                let have_query = q.active_window.is_some();
                let hw = match &q.active_window {
                    Some(w) => w.is_some(),
                    None => false,
                };
                match self.swap_monitors(monitor_1, monitor_2, move_window, have_query, hw) {
                    Ok(actions) => Ok(CommandPlan { actions, fire_info_event: false }),
                    Err(e) => Err(e),
                }
            },
            Command::ToggleSpecialWorkspace { name, move_window, silent } => {
                match self.toggle_special(name, move_window, silent, q) {
                    Ok(actions) => Ok(CommandPlan { actions, fire_info_event: false }),
                    Err(e) => Err(e),
                }
            },
            Command::SetNamedFocus { name } => {
                match self.set_named_focus(name) {
                    Ok(()) => Ok(CommandPlan { actions: Vec::new(), fire_info_event: true }),
                    Err(e) => Err(e),
                }
            },
            Command::SwitchNamedFocus { name, move_window } => {
                match self.switch_named_cmd(name.as_str(), move_window, q) {
                    Ok(actions) => Ok(CommandPlan { actions, fire_info_event: false }),
                    Err(e) => Err(e),
                }
            },
            Command::FocusWindow { address } => {
                let clients = match &q.clients {
                    Some(c) => c,
                    None => {
                        return Err(KError::QueryFailed);
                    },
                };
                let actions = self.focus_window_acts(address.as_str(), clients);
                Ok(CommandPlan { actions, fire_info_event: false })
            },
        }
    }

    /// Whether an active window is present, when the command needs
    /// it; the query's failure is the command's failure.
    fn window_query(&self, move_window: bool, q: &QueryData) -> (r: Result<bool, KError>)
        ensures
            match r {
                Ok(h) => h == (move_window && have_window_of(*q)) && (move_window
                    ==> q.active_window is Some),
                Err(e) => e is QueryFailed && move_window && q.active_window is None,
            },
    {
        if move_window {
            match &q.active_window {
                None => Err(KError::QueryFailed),
                Some(w) => Ok(w.is_some()),
            }
        } else {
            Ok(false)
        }
    }

    /// Shared body of the explicit-position moves of the focused
    /// monitor: a fade hint, then the move.
    fn move_to_inner(
        &mut self,
        fm: usize,
        activity: String,
        ws: KWorkspace,
        move_window: bool,
        have_window: bool,
    ) -> (r: Vec<Action>)
        requires
            old(self).wf(),
            spec_first_focused(old(self).monitors@) == Some(fm as int),
            fm < old(self).monitors@.len(),
        ensures
            final(self).wf(),
            final(self).config == old(self).config,
            final(self).harpoon_map == old(self).harpoon_map,
            spec_move_to_plan(
                *old(self),
                *final(self),
                r@,
                activity@,
                ws,
                move_window && have_window,
            ),
    {
        proof {
            reveal(spec_move_to_plan);
        }
        let mut m = self.monitors.remove(fm);
        let inner = m.move_to(activity, ws, move_window, have_window);
        self.monitors.insert(fm, m);
        proof {
            let oldm = old(self).monitors@[fm as int];
            assert(self.monitors@[fm as int].monitor == oldm.monitor);
            assert forall|j: int|
                0 <= j < old(self).monitors@.len() && j != fm as int implies #[trigger] self
                .monitors@[j] == old(self).monitors@[j] by {}
            lemma_remember_preserves_match(
                oldm,
                self.monitors@[fm as int],
                self.config.activities@,
            );
            assert forall|i2: int| 0 <= i2 < self.monitors@.len() implies activities_match(
                (#[trigger] self.monitors@[i2]).activities@,
                self.config.activities@,
            ) by {
                if i2 != fm as int {
                    assert(self.monitors@[i2] == old(self).monitors@[i2]);
                }
            }
        }
        let acts = prepend_action(Action::SetAnim { anim: Animation::Fade }, inner);
        acts
    }
}

} // verus!

verus! {

impl State {
    /// Plan moving a monitor onto a managed activity cell: the first
    /// free cell in scan order, skipping disabled monitors and
    /// monitors already on a managed workspace; afterwards focus
    /// returns to the focused monitor and the cursor to where it was.
    /// Since the moved monitor was not on a managed workspace, no
    /// activity memory changes.
    pub fn move_monitor_to_valid_activity(&mut self, name: &str, move_window: bool, q: &QueryData) -> (r: Result<Vec<Action>, KError>)
        requires
            old(self).wf(),
            old(self).spec_has_focused(),
        ensures
            final(self).wf(),
            final(self).config == old(self).config,
            final(self).harpoon_map == old(self).harpoon_map,
            final(self).monitors@ == old(self).monitors@,
            ({
                let ms = old(self).monitors@;
                let ff = spec_first_focused(ms)->0;
                let fname = ms[ff].monitor.name@;
                let ti = mon_first_idx(ms, name@);
                let w = old(self).config.workspaces.0 as int;
                let h = old(self).config.workspaces.1 as int;
                let cfgacts = old(self).config.activities@;
                match r {
                    Err(e) => e is QueryFailed && (q.cursor is None || (move_window
                        && q.active_window is None)),
                    Ok(acts) => {
                        &&& q.cursor is Some
                        &&& if ti is Some && ms[ti->0].monitor.disabled {
                            acts@.len() == 0
                        } else if ti is Some && ms[ti->0].spec_current() is Some {
                            acts@.len() == 0
                        } else if ti is None || all_taken_before(
                            spec_taken(ms),
                            cfgacts,
                            w,
                            h,
                            cfgacts.len() as int,
                            1,
                            1,
                        ) {
                            &&& acts@.len() == 2
                            &&& (acts@[0] matches Action::FocusMonitorByName { name: n } && n@
                                == fname)
                            &&& (acts@[1] matches Action::MoveCursor { x, y } && x == (
                            q.cursor->0).x && y == (q.cursor->0).y)
                        } else {
                            exists|ai: int, xx: int, yy: int|
                                {
                                    &&& 0 <= ai < cfgacts.len()
                                    &&& 1 <= xx <= w
                                    &&& 1 <= yy <= h
                                    &&& !spec_taken(ms).contains(
                                        #[trigger] crate::grid::spec_ws_name(cfgacts[ai]@, xx, yy),
                                    )
                                    &&& all_taken_before(
                                        spec_taken(ms),
                                        cfgacts,
                                        w,
                                        h,
                                        ai,
                                        yy,
                                        xx,
                                    )
                                    &&& acts@.len() >= 2
                                    &&& move_actions_ok(
                                        acts@.take(acts@.len() - 2),
                                        ms[ti->0].monitor,
                                        crate::grid::spec_ws_name(cfgacts[ai]@, xx, yy),
                                        move_window && have_window_of(*q),
                                    )
                                    &&& (acts@[acts@.len() - 2] matches Action::FocusMonitorByName {
                                        name: n,
                                    } && n@ == fname)
                                    &&& (acts@[acts@.len() - 1] matches Action::MoveCursor { x, y }
                                        && x == (q.cursor->0).x && y == (q.cursor->0).y)
                                }
                        }
                    },
                }
            }),
    {
        let cur: CursorPos = match &q.cursor {
            None => {
                return Err(KError::QueryFailed);
            },
            Some(c) => *c,
        };
        let hw = match self.window_query(move_window, q) {
            Ok(h) => h,
            Err(e) => {
                return Err(e);
            },
        };
        let ff = match self.focused_monitor_idx() {
            Some(i) => i,
            None => {
                proof {
                    assert(false);
                }
                return Err(KError::NoMonitorFocused);
            },
        };
        proof {
            lemma_first_idx_where_at(self.monitors@, focused_pred(), ff as int);
        }
        let fname = self.monitors[ff].monitor.name.clone();
        let ti = match self.find_monitor_idx(name) {
            Some(i) => i,
            None => {
                let mut acts: Vec<Action> = Vec::new();
                acts.push(Action::FocusMonitorByName { name: fname });
                acts.push(Action::MoveCursor { x: cur.x, y: cur.y });
                return Ok(acts);
            },
        };
        if self.monitors[ti].monitor.disabled {
            return Ok(Vec::new());
        }
        match self.monitors[ti].current() {
            Some(_) => {
                return Ok(Vec::new());
            },
            None => {},
        }
        let taken = self.taken_names();
        let mut acts: Vec<Action> = match self.first_free_cell(&taken) {
            Some((a, ws)) => {
                let ghost oldstate = *self;
                let mut m = self.monitors.remove(ti);
                let inner = m.move_to(a, ws, move_window, hw);
                self.monitors.insert(ti, m);
                proof {
                    let oldm = old(self).monitors@[ti as int];
                    assert(oldm.spec_current() is None);
                    assert(self.monitors@[ti as int].activities == oldm.activities);
                    assert(self.monitors@[ti as int].monitor == oldm.monitor);
                    assert(self.monitors@ =~= old(self).monitors@);
                }
                inner
            },
            None => Vec::new(),
        };
        acts.push(Action::FocusMonitorByName { name: fname });
        acts.push(Action::MoveCursor { x: cur.x, y: cur.y });
        proof {
            assert(acts@.take(acts@.len() - 2) =~= acts@.drop_last().drop_last());
        }
        Ok(acts)
    }
}

} // verus!

verus! {

/// The grid delta of one axis of an edge crossing: a backward wrap
/// (dimension minus one) at the low edge, one step at the high edge.
pub open spec fn spec_edge_delta(lc: int, ew: int, size: int, dim: int) -> int {
    if lc <= ew {
        dim - 1
    } else if lc >= size - 1 - ew {
        1
    } else {
        0
    }
}

/// Where the cursor lands on one axis after a crossing: just inside
/// the opposite edge, or where it was if no crossing.
pub open spec fn spec_edge_landing(lc: int, ew: int, em: int, size: int) -> int {
    if lc <= ew {
        size - em
    } else if lc >= size - 1 - ew {
        em
    } else {
        lc
    }
}

/// The animation hint of an edge crossing: the direction crossed, or
/// a fade for a simultaneous crossing on both axes.
pub open spec fn spec_tick_anim(lcx: int, lcy: int, ew: int, width: int, height: int) -> Animation {
    let xc = lcx <= ew || lcx >= width - 1 - ew;
    let yc = lcy <= ew || lcy >= height - 1 - ew;
    if xc && yc {
        Animation::Fade
    } else if yc {
        if lcy <= ew {
            Animation::Up
        } else {
            Animation::Down
        }
    } else {
        if lcx <= ew {
            Animation::Left
        } else {
            Animation::Right
        }
    }
}

impl State {
    /// One step of the mouse-edge poller: when the cursor sits within
    /// the edge width of a screen edge, plan a wrapping grid move in
    /// that direction and a cursor jump to just inside the opposite
    /// edge. Nothing happens when the feature is off, the cursor is
    /// away from every edge, the monitor is outside a managed
    /// workspace, a more-than-maximized fullscreen window holds the
    /// screen, or the move would land where it started. The monitor
    /// sizes are the effective (scale-corrected) ones.
    pub fn tick(&mut self, q: &QueryData, eff_width: i64, eff_height: i64) -> (r: Result<
        Vec<Action>,
        KError,
    >)
        requires
            old(self).wf(),
            old(self).config.daemon.mouse.switch_workspace_on_edge ==> ({
                &&& old(self).spec_has_focused()
                &&& 0 <= eff_width <= 100000000
                &&& 0 <= eff_height <= 100000000
                &&& old(self).config.daemon.mouse.edge_width <= 100000000
                &&& old(self).config.daemon.mouse.edge_margin <= 100000000
                &&& (q.cursor matches Some(c) ==> -4294967296 <= c.x <= 4294967296 && -4294967296
                    <= c.y <= 4294967296)
            }),
        ensures
            final(self).wf(),
            final(self).config == old(self).config,
            final(self).harpoon_map == old(self).harpoon_map,
            ({
                let enabled = old(self).config.daemon.mouse.switch_workspace_on_edge;
                let ff = spec_first_focused(old(self).monitors@)->0;
                let m = old(self).monitors@[ff];
                let ew = old(self).config.daemon.mouse.edge_width as int;
                let em = old(self).config.daemon.mouse.edge_margin as int;
                let nx = old(self).config.workspaces.0 as int;
                let ny = old(self).config.workspaces.1 as int;
                let lcx = (q.cursor->0).x - m.monitor.x as int;
                let lcy = (q.cursor->0).y - m.monitor.y as int;
                let dx = spec_edge_delta(lcx, ew, eff_width as int, nx);
                let dy = spec_edge_delta(lcy, ew, eff_height as int, ny);
                let gx = spec_edge_landing(lcx, ew, em, eff_width as int) + m.monitor.x as int;
                let gy = spec_edge_landing(lcy, ew, em, eff_height as int) + m.monitor.y as int;
                match r {
                    Err(e) => e is QueryFailed && enabled && (q.cursor is None || (dx + dy != 0
                        && m.spec_current() is Some && q.active_window is None))
                        && final(self).monitors@ == old(self).monitors@,
                    Ok(acts) => if !enabled {
                        acts@.len() == 0 && final(self).monitors@ == old(self).monitors@
                    } else {
                        &&& q.cursor is Some
                        &&& if dx + dy == 0 || m.spec_current() is None || (
                        q.active_window matches Some(Some(w)) && w.fullscreen_beyond_max) || spec_translate(
                            (m.spec_current()->0).1,
                            true,
                            dx,
                            dy,
                            nx,
                            ny,
                        ) == (m.spec_current()->0).1 {
                            acts@.len() == 0 && final(self).monitors@ == old(self).monitors@
                        } else {
                            let cur = m.spec_current()->0;
                            let nws = spec_translate(cur.1, true, dx, dy, nx, ny);
                            &&& final(self).monitors@.len() == old(self).monitors@.len()
                            &&& (forall|j: int|
                                0 <= j < old(self).monitors@.len() && j != ff
                                    ==> #[trigger] final(self).monitors@[j] == old(
                                    self,
                                ).monitors@[j])
                            &&& final(self).monitors@[ff].monitor == m.monitor
                            &&& spec_remember(m, final(self).monitors@[ff])
                            &&& acts@.len() >= 2
                            &&& (acts@[0] matches Action::SetAnim { anim } && anim
                                == spec_tick_anim(lcx, lcy, ew, eff_width as int, eff_height as int))
                            &&& move_actions_ok(
                                acts@.subrange(1, acts@.len() - 1),
                                m.monitor,
                                crate::grid::spec_ws_name(cur.0, nws.x as int, nws.y as int),
                                false,
                            )
                            &&& (acts@.last() matches Action::MoveCursor { x, y } && x == gx && y
                                == gy)
                        }
                    },
                }
            }),
    {
        if !self.config.daemon.mouse.switch_workspace_on_edge {
            return Ok(Vec::new());
        }
        let cur: CursorPos = match &q.cursor {
            None => {
                return Err(KError::QueryFailed);
            },
            Some(c) => *c,
        };
        let ew = self.config.daemon.mouse.edge_width as i64;
        let em = self.config.daemon.mouse.edge_margin as i64;
        let nx = self.config.workspaces.0;
        let ny = self.config.workspaces.1;
        let ff = match self.focused_monitor_idx() {
            Some(i) => i,
            None => {
                proof {
                    assert(false);
                }
                return Err(KError::NoMonitorFocused);
            },
        };
        proof {
            lemma_first_idx_where_at(self.monitors@, focused_pred(), ff as int);
        }
        let mon_x = self.monitors[ff].monitor.x as i64;
        let mon_y = self.monitors[ff].monitor.y as i64;
        let lcx = cur.x - mon_x;
        let lcy = cur.y - mon_y;
        let dx: i64 = if lcx <= ew {
            nx as i64 - 1
        } else if lcx >= eff_width - 1 - ew {
            1
        } else {
            0
        };
        let dy: i64 = if lcy <= ew {
            ny as i64 - 1
        } else if lcy >= eff_height - 1 - ew {
            1
        } else {
            0
        };
        if dx + dy == 0 {
            return Ok(Vec::new());
        }
        let landing_x: i64 = if lcx <= ew {
            eff_width - em
        } else if lcx >= eff_width - 1 - ew {
            em
        } else {
            lcx
        };
        let landing_y: i64 = if lcy <= ew {
            eff_height - em
        } else if lcy >= eff_height - 1 - ew {
            em
        } else {
            lcy
        };
        let anim: Animation = {
            let xc = lcx <= ew || lcx >= eff_width - 1 - ew;
            let yc = lcy <= ew || lcy >= eff_height - 1 - ew;
            if xc && yc {
                Animation::Fade
            } else if yc {
                if lcy <= ew {
                    Animation::Up
                } else {
                    Animation::Down
                }
            } else {
                if lcx <= ew {
                    Animation::Left
                } else {
                    Animation::Right
                }
            }
        };
        let (a, ws) = match self.monitors[ff].current() {
            Some(p) => p,
            None => {
                return Ok(Vec::new());
            },
        };
        match &q.active_window {
            None => {
                return Err(KError::QueryFailed);
            },
            Some(aw) => match aw {
                Some(w) => {
                    if w.fullscreen_beyond_max {
                        return Ok(Vec::new());
                    }
                },
                None => {},
            },
        }
        let nws = self.moved_ws(ws, true, dx as i32, dy as i32);
        if nws.x == ws.x && nws.y == ws.y {
            proof {
                assert(nws == ws);
            }
            return Ok(Vec::new());
        }
        let inner = self.move_to_inner_bare(ff, a, nws, false, false);
        let ghost innerseq = inner@;
        let mut acts = prepend_action(Action::SetAnim { anim }, inner);
        acts.push(Action::MoveCursor { x: landing_x + mon_x, y: landing_y + mon_y });
        proof {
            assert(acts@.subrange(1, acts@.len() - 1) =~= innerseq);
        }
        Ok(acts)
    }

    /// The move part of an edge crossing, without the hint.
    fn move_to_inner_bare(
        &mut self,
        fm: usize,
        activity: String,
        ws: KWorkspace,
        move_window: bool,
        have_window: bool,
    ) -> (r: Vec<Action>)
        requires
            old(self).wf(),
            fm < old(self).monitors@.len(),
        ensures
            final(self).wf(),
            final(self).config == old(self).config,
            final(self).harpoon_map == old(self).harpoon_map,
            final(self).monitors@.len() == old(self).monitors@.len(),
            forall|j: int|
                0 <= j < old(self).monitors@.len() && j != fm as int ==> #[trigger] final(self).monitors@[j] == old(self).monitors@[j],
            final(self).monitors@[fm as int].monitor == old(self).monitors@[fm as int].monitor,
            spec_remember(old(self).monitors@[fm as int], final(self).monitors@[fm as int]),
            move_actions_ok(
                r@,
                old(self).monitors@[fm as int].monitor,
                crate::grid::spec_ws_name(activity@, ws.x as int, ws.y as int),
                move_window && have_window,
            ),
    {
        let mut m = self.monitors.remove(fm);
        let acts = m.move_to(activity, ws, move_window, have_window);
        self.monitors.insert(fm, m);
        proof {
            let oldm = old(self).monitors@[fm as int];
            assert forall|j: int|
                0 <= j < old(self).monitors@.len() && j != fm as int implies #[trigger] self
                .monitors@[j] == old(self).monitors@[j] by {}
            lemma_remember_preserves_match(
                oldm,
                self.monitors@[fm as int],
                self.config.activities@,
            );
            assert forall|i2: int| 0 <= i2 < self.monitors@.len() implies activities_match(
                (#[trigger] self.monitors@[i2]).activities@,
                self.config.activities@,
            ) by {
                if i2 != fm as int {
                    assert(self.monitors@[i2] == old(self).monitors@[i2]);
                }
            }
        }
        acts
    }
}

} // verus!

verus! {

/// The landing position of an activity switch: the position last
/// visited on that activity when one is remembered; the monitor's
/// current position when none is; the first cell when the monitor is
/// outside every managed workspace.
pub proof fn lemma_activity_switch_target(m: KMonitor, a: Seq<char>)
    ensures
        (match act_first_idx(m.activities@, a) {
            Some(i) => match m.activities@[i].last_workspace {
                Some(ws) => m.spec_activity_target(a) == ws,
                None => true,
            },
            None => true,
        }),
        ({
            let no_mem = match act_first_idx(m.activities@, a) {
                Some(i) => m.activities@[i].last_workspace is None,
                None => true,
            };
            no_mem ==> m.spec_activity_target(a) == (match m.spec_current() {
                Some(p) => p.1,
                None => KWorkspace { x: 1, y: 1 },
            })
        }),
{
}

/// A bookmark set while on workspace `W` brings focus back exactly to
/// `W` when jumped to later, however many workspaces were visited in
/// between, as long as nothing else touched that bookmark.
pub proof fn lemma_named_focus_round_trip(
    s0: State,
    s1: State,
    s2: State,
    s3: State,
    acts: Seq<Action>,
    name: Seq<char>,
    moved_window: bool,
)
    requires
        spec_set_named_outcome(s0, s1, name),
        s0.harpoon_map.spec_get(name) != Some(
            s0.monitors@[spec_first_focused(s0.monitors@)->0].monitor.active_workspace_name@,
        ),
        s2.harpoon_map.spec_get(name) == s1.harpoon_map.spec_get(name),
        spec_switch_named_outcome(s2, s3, acts, name, moved_window),
    ensures
        move_actions_ok(
            acts.skip(1),
            s2.monitors@[spec_first_focused(s2.monitors@)->0].monitor,
            s0.monitors@[spec_first_focused(s0.monitors@)->0].monitor.active_workspace_name@,
            moved_window,
        ),
{
    reveal(spec_set_named_outcome);
    reveal(spec_switch_named_outcome);
}

} // verus!

verus! {

impl State {
    /// Whether planning a command reads the focused monitor, so that
    /// the caller can test for one first.
    pub fn command_needs_focused(command: &Command) -> (r: bool)
        ensures
            r == spec_needs_focused(*command),
    {
        match command {
            Command::MoveRight { .. } => true,
            Command::MoveLeft { .. } => true,
            Command::MoveUp { .. } => true,
            Command::MoveDown { .. } => true,
            Command::NextActivity { .. } => true,
            Command::PrevActivity { .. } => true,
            Command::SwitchToActivity { .. } => true,
            Command::SwitchToWorkspaceInActivity { .. } => true,
            Command::SwitchToWorkspace { .. } => true,
            Command::ToggleSpecialWorkspace { move_window, .. } => *move_window,
            Command::SetNamedFocus { .. } => true,
            Command::SwitchNamedFocus { .. } => true,
            Command::SwapMonitorsActiveWorkspace { .. } => true,
            _ => false,
        }
    }
}

} // verus!
