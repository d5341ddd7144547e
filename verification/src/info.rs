//! The state snapshots pushed to streaming subscribers: per monitor,
//! per activity, a full grid of workspace cells with their windows
//! and named-focus marks; and the icon lookup bookkeeping for the
//! window decorations.
use vstd::prelude::*;

use crate::config::Config;
use crate::state::strs_views;
use crate::state::Action;
use crate::state::KError;
use crate::state::QueryData;
use crate::state::State;
use crate::state::WindowData;

verus! {

/// Lexicographic order on character sequences by scalar value, the
/// order of Rust's `String` comparison.
pub open spec fn spec_str_le(a: Seq<char>, b: Seq<char>) -> bool
    decreases a.len(),
{
    if a.len() == 0 {
        true
    } else if b.len() == 0 {
        false
    } else if a[0] != b[0] {
        (a[0] as int) < (b[0] as int)
    } else {
        spec_str_le(a.drop_first(), b.drop_first())
    }
}

/// The order on owned strings, as a function.
pub open spec fn str_le_fn() -> spec_fn(String, String) -> bool {
    |a: String, b: String| spec_str_le(a@, b@)
}

/// Any two strings are ordered one way or the other.
pub proof fn lemma_str_le_total(a: Seq<char>, b: Seq<char>)
    ensures
        spec_str_le(a, b) || spec_str_le(b, a),
    decreases a.len(),
{
    if a.len() > 0 && b.len() > 0 && a[0] == b[0] {
        lemma_str_le_total(a.drop_first(), b.drop_first());
    }
}

/// The order is transitive.
pub proof fn lemma_str_le_trans(a: Seq<char>, b: Seq<char>, c: Seq<char>)
    requires
        spec_str_le(a, b),
        spec_str_le(b, c),
    ensures
        spec_str_le(a, c),
    decreases a.len(),
{
    if a.len() > 0 && b.len() > 0 && c.len() > 0 {
        if a[0] == b[0] && b[0] == c[0] {
            lemma_str_le_trans(a.drop_first(), b.drop_first(), c.drop_first());
        }
    }
}

/// Two strings each at most the other are equal, so a sorted list
/// with given contents is arranged in exactly one way.
pub proof fn lemma_str_le_antisym(a: Seq<char>, b: Seq<char>)
    requires
        spec_str_le(a, b),
        spec_str_le(b, a),
    ensures
        a == b,
    decreases a.len(),
{
    if a.len() == 0 {
        assert(b.len() == 0);
        assert(a =~= b);
    } else {
        assert(b.len() > 0);
        if a[0] == b[0] {
            lemma_str_le_antisym(a.drop_first(), b.drop_first());
            assert(a.drop_first().len() == b.drop_first().len());
            assert(a.len() == b.len());
            assert forall|i: int| 0 <= i < a.len() implies a[i] == b[i] by {
                if i > 0 {
                    assert(a.drop_first()[i - 1] == a[i]);
                    assert(b.drop_first()[i - 1] == b[i]);
                }
            }
            assert(a =~= b);
        }
    }
}

/// Whether one string slice is at most another in lexicographic
/// order.
pub fn str_le(a: &str, b: &str) -> (r: bool)
    ensures
        r == spec_str_le(a@, b@),
{
    let na = a.unicode_len();
    let nb = b.unicode_len();
    proof {
        assert(a@.skip(0) =~= a@);
        assert(b@.skip(0) =~= b@);
    }
    let mut i: usize = 0;
    while i < na && i < nb
        invariant
            0 <= i <= na == a@.len(),
            i <= nb == b@.len(),
            forall|j: int| 0 <= j < i ==> a@[j] == b@[j],
            spec_str_le(a@, b@) == spec_str_le(a@.skip(i as int), b@.skip(i as int)),
        decreases na - i,
    {
        let ca = a.get_char(i);
        let cb = b.get_char(i);
        if ca != cb {
            proof {
                assert(a@.skip(i as int)[0] == ca && b@.skip(i as int)[0] == cb);
            }
            return (ca as u32) < (cb as u32);
        }
        proof {
            let sa = a@.skip(i as int);
            let sb = b@.skip(i as int);
            assert(sa[0] == ca && sb[0] == cb);
            assert(sa.drop_first() =~= a@.skip(i as int + 1));
            assert(sb.drop_first() =~= b@.skip(i as int + 1));
        }
        i += 1;
    }
    proof {
        let sa = a@.skip(i as int);
        let sb = b@.skip(i as int);
        if i == na {
            assert(sa.len() == 0);
        } else {
            assert(sb.len() == 0 && sa.len() > 0);
        }
    }
    na <= nb
}

/// Sort owned strings into lexicographic order, keeping exactly the
/// same strings.
pub fn sort_names(v: Vec<String>) -> (r: Vec<String>)
    ensures
        vstd::relations::sorted_by(r@, str_le_fn()),
        r@.to_multiset() == v@.to_multiset(),
{
    broadcast use vstd::seq_lib::group_to_multiset_ensures;
    broadcast use vstd::multiset::group_multiset_axioms;

    let mut out: Vec<String> = Vec::new();
    let n = v.len();
    let mut i: usize = 0;
    while i < n
        invariant
            0 <= i <= n == v@.len(),
            vstd::relations::sorted_by(out@, str_le_fn()),
            out@.to_multiset() == v@.take(i as int).to_multiset(),
            out@.len() == i,
        decreases n - i,
    {
        let s = v[i].clone();
        let m = out.len();
        let mut pos: usize = 0;
        while pos < m && !str_le(s.as_str(), out[pos].as_str())
            invariant
                0 <= pos <= m == out@.len(),
                forall|j: int| 0 <= j < pos ==> !spec_str_le(s@, (#[trigger] out@[j])@),
            decreases m - pos,
        {
            pos += 1;
        }
        let ghost oldout = out@;
        out.insert(pos, s);
        proof {
            assert forall|j: int| 0 <= j < pos implies spec_str_le(
                (#[trigger] oldout[j])@,
                s@,
            ) by {
                lemma_str_le_total(s@, oldout[j]@);
            }
            assert forall|p: int, q: int| 0 <= p < q < out@.len() implies (str_le_fn())(
                out@[p],
                out@[q],
            ) by {
                let pp = if p < pos as int {
                    p
                } else {
                    p - 1
                };
                let qq = if q < pos as int {
                    q
                } else {
                    q - 1
                };
                if p == pos as int {
                    // s against a later element
                    if (pos as int) < (m as int) {
                        assert(spec_str_le(s@, oldout[pos as int]@));
                        if qq > pos as int {
                            assert(vstd::relations::sorted_by(oldout, str_le_fn()));
                            assert((str_le_fn())(oldout[pos as int], oldout[qq]));
                            lemma_str_le_trans(s@, oldout[pos as int]@, oldout[qq]@);
                        }
                    }
                    assert(out@[q] == oldout[qq]);
                } else if q == pos as int {
                    assert(out@[p] == oldout[pp]);
                } else {
                    assert(out@[p] == oldout[pp]);
                    assert(out@[q] == oldout[qq]);
                    if pp != qq {
                        assert((str_le_fn())(oldout[pp], oldout[qq]));
                    }
                }
            }
            // multiset: insert splits into take, element, skip
            let x = out@[pos as int];
            assert(out@ =~= oldout.take(pos as int).push(x).add(oldout.skip(pos as int)));
            vstd::seq_lib::lemma_multiset_commutative(
                oldout.take(pos as int).push(x),
                oldout.skip(pos as int),
            );
            vstd::seq_lib::lemma_multiset_commutative(
                oldout.take(pos as int),
                oldout.skip(pos as int),
            );
            assert(oldout.take(pos as int).add(oldout.skip(pos as int)) =~= oldout);
            oldout.take(pos as int).to_multiset_ensures();
            v@.take(i as int).to_multiset_ensures();
            assert(out@.to_multiset() == oldout.take(pos as int).push(x).to_multiset().add(
                oldout.skip(pos as int).to_multiset(),
            ));
            assert(oldout.take(pos as int).push(x).to_multiset() == oldout.take(
                pos as int,
            ).to_multiset().insert(x));
            assert(oldout.to_multiset() == oldout.take(pos as int).to_multiset().add(
                oldout.skip(pos as int).to_multiset(),
            ));
            assert(out@.to_multiset() =~= oldout.to_multiset().insert(x));
            assert(v@.take(i as int + 1) =~= v@.take(i as int).push(v@[i as int]));
        }
        i += 1;
    }
    proof {
        assert(v@.take(n as int) =~= v@);
    }
    out
}

/// One window on a workspace cell, as shown to subscribers.
#[derive(Debug, Clone, PartialEq, Eq)]
pub struct WindowStatus {
    pub title: String,
    pub class: String,
    pub initial_title: String,
    /// filled in by the icon lookup outside, absent here
    pub icon: Option<String>,
    pub address: String,
    pub focused: bool,
    pub focus_history_id: i32,
}

/// One workspace cell of an activity's grid.
#[derive(Debug, Clone, PartialEq, Eq)]
pub struct WorkspaceStatus {
    pub name: String,
    pub focused: bool,
    pub named_focus: Vec<String>,
    pub windows: Vec<WindowStatus>,
}

/// One activity on a monitor: its grid of cells, row by row.
#[derive(Debug, Clone, PartialEq, Eq)]
pub struct ActivityStatus {
    pub name: String,
    pub focused: bool,
    pub workspaces: Vec<Vec<WorkspaceStatus>>,
}

/// One monitor with all its activities.
#[derive(Debug, Clone, PartialEq, Eq)]
pub struct MonitorStatus {
    pub name: String,
    pub id: i64,
    pub focused: bool,
    pub activities: Vec<ActivityStatus>,
}

/// The current input submap, as shown to subscribers.
#[derive(Debug, Clone, PartialEq, Eq)]
pub struct SubmapStatus {
    pub submap: String,
}

/// One push to subscribers: a submap change or a full monitor
/// snapshot.
#[derive(Debug, Clone, PartialEq, Eq)]
pub enum KInfoEvent {
    Submap(SubmapStatus),
    Monitors(Vec<MonitorStatus>),
}

} // verus!

verus! {

/// A window as shown in a snapshot, before icon decoration.
pub open spec fn win_status_fn() -> spec_fn(WindowData) -> WindowStatus {
    |w: WindowData| WindowStatus {
        title: w.title,
        class: w.class,
        initial_title: w.initial_title,
        icon: None,
        address: w.address,
        focused: w.focus_history_id == 0,
        focus_history_id: w.focus_history_id,
    }
}

/// The window sits on the named workspace.
pub open spec fn on_ws_pred(n: Seq<char>) -> spec_fn(WindowData) -> bool {
    |w: WindowData| w.workspace_name@ == n
}

/// The bookmark points at the named workspace.
pub open spec fn bound_to_pred(cell: Seq<char>) -> spec_fn((String, String)) -> bool {
    |e: (String, String)| e.1@ == cell
}

/// The bookmark's name.
pub open spec fn fst_fn() -> spec_fn((String, String)) -> String {
    |e: (String, String)| e.0
}

/// One snapshot cell is exact: the cell's name, its focus flag, its
/// windows (the clients on it, in client order), and its named-focus
/// marks (the bookmark names bound to it, in lexicographic order).
pub open spec fn ws_status_ok(
    cell: WorkspaceStatus,
    aname: Seq<char>,
    x: int,
    y: int,
    mon: crate::state::MonitorInfo,
    clients: Seq<WindowData>,
    entries: Seq<(String, String)>,
) -> bool {
    let cname = crate::grid::spec_ws_name(aname, x, y);
    &&& cell.name@ == cname
    &&& cell.focused == (mon.active_workspace_name@ == cname)
    &&& cell.windows@ == clients.filter(on_ws_pred(cname)).map_values(win_status_fn())
    &&& vstd::relations::sorted_by(cell.named_focus@, str_le_fn())
    &&& cell.named_focus@.to_multiset() == entries.filter(bound_to_pred(cname)).map_values(
        fst_fn(),
    ).to_multiset()
}

/// One snapshot activity is exact: its name, whether the monitor's
/// workspace belongs to it, and a full `h` by `w` grid of exact
/// cells.
pub open spec fn act_status_ok(
    a: ActivityStatus,
    aname: Seq<char>,
    mon: crate::state::MonitorInfo,
    w: int,
    h: int,
    clients: Seq<WindowData>,
    entries: Seq<(String, String)>,
) -> bool {
    &&& a.name@ == aname
    &&& a.focused == (crate::grid::spec_activity_of(mon.active_workspace_name@) == Some(aname))
    &&& a.workspaces@.len() == h
    &&& forall|yi: int| 0 <= yi < h ==> (#[trigger] a.workspaces@[yi])@.len() == w
    &&& forall|yi: int, xi: int|
        0 <= yi < h && 0 <= xi < w ==> ws_status_ok(
            #[trigger] a.workspaces@[yi]@[xi],
            aname,
            xi + 1,
            yi + 1,
            mon,
            clients,
            entries,
        )
}

/// One snapshot monitor is exact: its attributes and one exact
/// activity per tracked activity, in order.
pub open spec fn mon_status_ok(
    st: MonitorStatus,
    km: crate::state::KMonitor,
    w: int,
    h: int,
    clients: Seq<WindowData>,
    entries: Seq<(String, String)>,
) -> bool {
    &&& st.name@ == km.monitor.name@
    &&& st.id == km.monitor.id
    &&& st.focused == km.monitor.focused
    &&& st.activities@.len() == km.activities@.len()
    &&& forall|ai: int|
        0 <= ai < km.activities@.len() ==> act_status_ok(
            #[trigger] st.activities@[ai],
            km.activities@[ai].name@,
            km.monitor,
            w,
            h,
            clients,
            entries,
        )
}

impl State {
    /// The windows on one workspace cell, in client order.
    fn cell_windows(clients: &Vec<WindowData>, cname: &str) -> (r: Vec<WindowStatus>)
        ensures
            r@ == clients@.filter(on_ws_pred(cname@)).map_values(win_status_fn()),
    {
        let mut out: Vec<WindowStatus> = Vec::new();
        let n = clients.len();
        let mut i: usize = 0;
        while i < n
            invariant
                0 <= i <= n == clients@.len(),
                out@ == clients@.take(i as int).filter(on_ws_pred(cname@)).map_values(
                    win_status_fn(),
                ),
            decreases n - i,
        {
            proof {
                assert(clients@.take(i as int + 1) =~= clients@.take(i as int).push(
                    clients@[i as int],
                ));
                crate::state::lemma_filter_push(
                    clients@.take(i as int),
                    clients@[i as int],
                    on_ws_pred(cname@),
                );
            }
            let c = &clients[i];
            if crate::state::str_eq(c.workspace_name.as_str(), cname) {
                let ws = WindowStatus {
                    title: c.title.clone(),
                    class: c.class.clone(),
                    initial_title: c.initial_title.clone(),
                    icon: None,
                    address: c.address.clone(),
                    focused: c.focus_history_id == 0,
                    focus_history_id: c.focus_history_id,
                };
                proof {
                    assert((on_ws_pred(cname@))(clients@[i as int]));
                    assert((win_status_fn())(clients@[i as int]) == ws);
                    crate::state::lemma_map_values_push(
                        clients@.take(i as int).filter(on_ws_pred(cname@)),
                        clients@[i as int],
                        win_status_fn(),
                    );
                }
                out.push(ws);
            } else {
                proof {
                    assert(!(on_ws_pred(cname@))(clients@[i as int]));
                }
            }
            i += 1;
        }
        proof {
            assert(clients@.take(n as int) =~= clients@);
        }
        out
    }

    /// The bookmark names bound to one cell, sorted.
    fn cell_named_focus(&self, cname: &str) -> (r: Vec<String>)
        requires
            self.harpoon_map.wf(),
        ensures
            vstd::relations::sorted_by(r@, str_le_fn()),
            r@.to_multiset() == self.harpoon_map.entries@.filter(bound_to_pred(cname@)).map_values(
                fst_fn(),
            ).to_multiset(),
    {
        let pairs = self.harpoon_map.pairs();
        let mut out: Vec<String> = Vec::new();
        let n = pairs.len();
        let mut i: usize = 0;
        while i < n
            invariant
                0 <= i <= n == pairs@.len(),
                pairs@ == self.harpoon_map.entries@,
                out@ == pairs@.take(i as int).filter(bound_to_pred(cname@)).map_values(fst_fn()),
            decreases n - i,
        {
            proof {
                assert(pairs@.take(i as int + 1) =~= pairs@.take(i as int).push(
                    pairs@[i as int],
                ));
                crate::state::lemma_filter_push(
                    pairs@.take(i as int),
                    pairs@[i as int],
                    bound_to_pred(cname@),
                );
            }
            if crate::state::str_eq(pairs[i].1.as_str(), cname) {
                let s = pairs[i].0.clone();
                proof {
                    assert((bound_to_pred(cname@))(pairs@[i as int]));
                    assert((fst_fn())(pairs@[i as int]) == s);
                    crate::state::lemma_map_values_push(
                        pairs@.take(i as int).filter(bound_to_pred(cname@)),
                        pairs@[i as int],
                        fst_fn(),
                    );
                }
                out.push(s);
            } else {
                proof {
                    assert(!(bound_to_pred(cname@))(pairs@[i as int]));
                }
            }
            i += 1;
        }
        proof {
            assert(pairs@.take(n as int) =~= pairs@);
        }
        sort_names(out)
    }

    /// A full state snapshot for subscribers: every monitor, every
    /// activity, the whole grid, with the given clients placed on
    /// their workspaces.
    pub fn gather_info(&self, clients: &Vec<WindowData>) -> (r: Vec<MonitorStatus>)
        requires
            self.wf(),
        ensures
            r@.len() == self.monitors@.len(),
            forall|mi: int|
                0 <= mi < self.monitors@.len() ==> mon_status_ok(
                    #[trigger] r@[mi],
                    self.monitors@[mi],
                    self.config.workspaces.0 as int,
                    self.config.workspaces.1 as int,
                    clients@,
                    self.harpoon_map.entries@,
                ),
    {
        let w = self.config.workspaces.0;
        let h = self.config.workspaces.1;
        let mut out: Vec<MonitorStatus> = Vec::new();
        let nm = self.monitors.len();
        let mut mi: usize = 0;
        while mi < nm
            invariant
                self.wf(),
                w == self.config.workspaces.0,
                h == self.config.workspaces.1,
                0 <= mi <= nm == self.monitors@.len(),
                out@.len() == mi,
                forall|m2: int|
                    0 <= m2 < mi ==> mon_status_ok(
                        #[trigger] out@[m2],
                        self.monitors@[m2],
                        w as int,
                        h as int,
                        clients@,
                        self.harpoon_map.entries@,
                    ),
            decreases nm - mi,
        {
            let km = &self.monitors[mi];
            let mut activities: Vec<ActivityStatus> = Vec::new();
            let na = km.activities.len();
            let mut ai: usize = 0;
            while ai < na
                invariant
                    self.wf(),
                    w == self.config.workspaces.0,
                    h == self.config.workspaces.1,
                    0 <= mi < self.monitors@.len(),
                    km == &self.monitors@[mi as int],
                    0 <= ai <= na == km.activities@.len(),
                    activities@.len() == ai,
                    forall|a2: int|
                        0 <= a2 < ai ==> act_status_ok(
                            #[trigger] activities@[a2],
                            km.activities@[a2].name@,
                            km.monitor,
                            w as int,
                            h as int,
                            clients@,
                            self.harpoon_map.entries@,
                        ),
                decreases na - ai,
            {
                let aname = km.activities[ai].name.clone();
                let mut rows: Vec<Vec<WorkspaceStatus>> = Vec::new();
                let mut y: i64 = 1;
                while y <= h as i64
                    invariant
                        self.wf(),
                        w == self.config.workspaces.0,
                        h == self.config.workspaces.1,
                        0 <= mi < self.monitors@.len(),
                        km == &self.monitors@[mi as int],
                        0 <= ai < km.activities@.len(),
                        aname@ == km.activities@[ai as int].name@,
                        1 <= y <= h as i64 + 1,
                        rows@.len() == y - 1,
                        forall|y2: int| 0 <= y2 < y - 1 ==> (#[trigger] rows@[y2])@.len() == w,
                        forall|y2: int, x2: int|
                            0 <= y2 < y - 1 && 0 <= x2 < w ==> ws_status_ok(
                                #[trigger] rows@[y2]@[x2],
                                aname@,
                                x2 + 1,
                                y2 + 1,
                                km.monitor,
                                clients@,
                                self.harpoon_map.entries@,
                            ),
                    decreases h as i64 + 1 - y,
                {
                    let mut row: Vec<WorkspaceStatus> = Vec::new();
                    let mut x: i64 = 1;
                    while x <= w as i64
                        invariant
                            self.wf(),
                            w == self.config.workspaces.0,
                            h == self.config.workspaces.1,
                            0 <= mi < self.monitors@.len(),
                            km == &self.monitors@[mi as int],
                            0 <= ai < km.activities@.len(),
                            aname@ == km.activities@[ai as int].name@,
                            1 <= y <= h as i64,
                            1 <= x <= w as i64 + 1,
                            row@.len() == x - 1,
                            forall|x2: int|
                                0 <= x2 < x - 1 ==> ws_status_ok(
                                    #[trigger] row@[x2],
                                    aname@,
                                    x2 + 1,
                                    y as int,
                                    km.monitor,
                                    clients@,
                                    self.harpoon_map.entries@,
                                ),
                        decreases w as i64 + 1 - x,
                    {
                        let ws = crate::grid::KWorkspace { x: x as i32, y: y as i32 };
                        let cname = ws.name(aname.as_str());
                        let focused = crate::state::str_eq(
                            km.monitor.active_workspace_name.as_str(),
                            cname.as_str(),
                        );
                        let windows = Self::cell_windows(clients, cname.as_str());
                        let named_focus = self.cell_named_focus(cname.as_str());
                        row.push(
                            WorkspaceStatus { name: cname, focused, named_focus, windows },
                        );
                        x += 1;
                    }
                    rows.push(row);
                    y += 1;
                }
                let focused = match crate::grid::KActivity::from_ws_name(
                    km.monitor.active_workspace_name.as_str(),
                ) {
                    Some(ka) => crate::state::str_eq(ka.name.as_str(), aname.as_str()),
                    None => false,
                };
                activities.push(ActivityStatus { name: aname, focused, workspaces: rows });
                ai += 1;
            }
            out.push(
                MonitorStatus {
                    name: km.monitor.name.clone(),
                    id: km.monitor.id,
                    focused: km.monitor.focused,
                    activities,
                },
            );
            mi += 1;
        }
        out
    }
}

} // verus!

verus! {

/// The icon-selection fold over candidate sizes, mirroring one pass
/// over the lookup results: the running best is the first candidate
/// at least the wanted size and strictly smaller than the best so
/// far; a candidate failing that test becomes the running fallback
/// when strictly larger than the fallback so far.
pub open spec fn spec_icon_fold(sizes: Seq<u16>, want: int, k: int) -> (Option<int>, Option<int>)
    decreases k,
{
    if k <= 0 {
        (None, None)
    } else {
        let (ic, al) = spec_icon_fold(sizes, want, k - 1);
        let m = sizes[k - 1] as int;
        let icv: int = match ic {
            Some(i) => sizes[i] as int,
            None => 65535,
        };
        if m >= want && m < icv {
            (Some(k - 1), al)
        } else {
            let alv: int = match al {
                Some(i) => sizes[i] as int,
                None => 0,
            };
            if m > alv {
                (ic, Some(k - 1))
            } else {
                (ic, al)
            }
        }
    }
}

/// Pick an icon among lookup candidates by their minimum sizes: the
/// best candidate of at least the wanted size, else the largest
/// fallback, else nothing.
pub fn select_icon(sizes: &Vec<u16>, want: u16) -> (r: Option<usize>)
    ensures
        ({
            let (ic, al) = spec_icon_fold(sizes@, want as int, sizes@.len() as int);
            match ic {
                Some(i) => r == Some(i as usize),
                None => match al {
                    Some(i) => r == Some(i as usize),
                    None => r is None,
                },
            }
        }),
{
    let n = sizes.len();
    let mut ic: Option<usize> = None;
    let mut al: Option<usize> = None;
    let mut k: usize = 0;
    while k < n
        invariant
            0 <= k <= n == sizes@.len(),
            ({
                let (si, sa) = spec_icon_fold(sizes@, want as int, k as int);
                &&& (match si {
                    Some(i) => ic == Some(i as usize) && 0 <= i < k,
                    None => ic is None,
                })
                &&& (match sa {
                    Some(i) => al == Some(i as usize) && 0 <= i < k,
                    None => al is None,
                })
            }),
        decreases n - k,
    {
        let m = sizes[k];
        let icv: u32 = match ic {
            Some(i) => sizes[i] as u32,
            None => 65535,
        };
        if m >= want && (m as u32) < icv {
            ic = Some(k);
        } else {
            let alv: u32 = match al {
                Some(i) => sizes[i] as u32,
                None => 0,
            };
            if (m as u32) > alv {
                al = Some(k);
            }
        }
        k += 1;
    }
    match ic {
        Some(i) => Some(i),
        None => match al {
            Some(i) => Some(i),
            None => None,
        },
    }
}

/// The cache key of one icon lookup: the theme searched, the wanted
/// size, and the window class.
#[derive(Debug, Clone, PartialEq, Eq)]
pub struct IconKey {
    pub theme: Option<String>,
    pub size: u16,
    pub class: String,
}

/// The key matches a lookup request.
pub open spec fn icon_key_matches(
    k: IconKey,
    theme: Option<String>,
    size: u16,
    class: Seq<char>,
) -> bool {
    &&& (match (k.theme, theme) {
        (Some(a), Some(b)) => a@ == b@,
        (None, None) => true,
        _ => false,
    })
    &&& k.size == size
    &&& k.class@ == class
}

/// The bookkeeping behind the info commands: the configuration and
/// the memoised icon lookups.
#[derive(Debug)]
pub struct InfoCommandContext {
    pub config: Config,
    /// one entry per resolved lookup; `None` records a failed lookup
    pub icons: Vec<(IconKey, Option<String>)>,
}

impl InfoCommandContext {
    /// The effective theme and wanted size of a lookup: the request's
    /// values, falling back to the configuration, then to zero.
    pub fn resolve_icon_request(&self, theme: &Option<String>, size: &Option<u16>) -> (r: (
        Option<String>,
        u16,
    ))
        ensures
            ({
                match theme {
                    Some(t) => r.0 matches Some(s) && s@ == t@,
                    None => match self.config.icon_theme {
                        Some(ct) => r.0 matches Some(s) && s@ == ct@,
                        None => r.0 is None,
                    },
                }
            }),
            r.1 == (match size {
                Some(s) => *s,
                None => match self.config.window_icon_try_min_size {
                    Some(cs) => cs,
                    None => 0u16,
                },
            }),
    {
        let t = match theme {
            Some(t) => Some(t.clone()),
            None => match &self.config.icon_theme {
                Some(ct) => Some(ct.clone()),
                None => None,
            },
        };
        let s = match size {
            Some(s) => *s,
            None => match self.config.window_icon_try_min_size {
                Some(cs) => cs,
                None => 0,
            },
        };
        (t, s)
    }

    /// The memoised result of a lookup, if one is recorded: the
    /// value stored with the first matching key.
    pub fn icon_lookup(&self, theme: &Option<String>, size: u16, class: &str) -> (r: Option<
        Option<String>,
    >)
        ensures
            ({
                let want = match theme {
                    Some(t) => Some(*t),
                    None => None,
                };
                match r {
                    Some(v) => exists|i: int|
                        {
                            &&& 0 <= i < self.icons@.len()
                            &&& icon_key_matches((#[trigger] self.icons@[i]).0, want, size, class@)
                            &&& (forall|j: int|
                                0 <= j < i ==> !icon_key_matches(
                                    (#[trigger] self.icons@[j]).0,
                                    want,
                                    size,
                                    class@,
                                ))
                            &&& match self.icons@[i].1 {
                                Some(p) => v matches Some(sv) && sv@ == p@,
                                None => v is None,
                            }
                        },
                    None => forall|i: int|
                        0 <= i < self.icons@.len() ==> !icon_key_matches(
                            (#[trigger] self.icons@[i]).0,
                            want,
                            size,
                            class@,
                        ),
                }
            }),
    {
        let n = self.icons.len();
        let mut i: usize = 0;
        while i < n
            invariant
                0 <= i <= n == self.icons@.len(),
                forall|j: int|
                    0 <= j < i ==> !icon_key_matches(
                        (#[trigger] self.icons@[j]).0,
                        match theme {
                            Some(t) => Some(*t),
                            None => None,
                        },
                        size,
                        class@,
                    ),
            decreases n - i,
        {
            let k = &self.icons[i].0;
            let theme_match = match (&k.theme, theme) {
                (Some(a), Some(b)) => crate::state::str_eq(a.as_str(), b.as_str()),
                (None, None) => true,
                _ => false,
            };
            if theme_match && k.size == size && crate::state::str_eq(k.class.as_str(), class) {
                let v = match &self.icons[i].1 {
                    Some(p) => Some(p.clone()),
                    None => None,
                };
                return Some(v);
            }
            i += 1;
        }
        None
    }

    /// Record the result of a lookup.
    pub fn icon_store(&mut self, key: IconKey, value: Option<String>)
        ensures
            final(self).config == old(self).config,
            final(self).icons@ == old(self).icons@.push((key, value)),
    {
        self.icons.push((key, value));
    }
}

impl crate::command::InfoCommand {
    /// Whether a push concerns this request: submap requests take
    /// submap changes, monitor requests take monitor snapshots.
    pub fn relevant(&self, e: &KInfoEvent) -> (r: bool)
        ensures
            r == ((*self is Submap && *e is Submap) || (*self is MonitorsAllInfo
                && *e is Monitors)),
    {
        match (self, e) {
            (crate::command::InfoCommand::Submap, KInfoEvent::Submap(_)) => true,
            (crate::command::InfoCommand::MonitorsAllInfo { .. }, KInfoEvent::Monitors(_)) => true,
            _ => false,
        }
    }
}

/// What one internal event asks of the reactor besides refreshing the
/// monitors: operations to perform and pushes to broadcast.
#[derive(Debug)]
pub struct UpdatePlan {
    pub actions: Vec<Action>,
    pub broadcasts: Vec<KInfoEvent>,
}

impl State {
    /// The first client on a workspace with the lowest focus history
    /// rank: the window focus returns to.
    fn min_focus_client(clients: &Vec<WindowData>, wid: i64) -> (r: Option<usize>)
        ensures
            match r {
                Some(i) => i < clients@.len() && clients@[i as int].workspace_id == wid && (forall|
                    j: int,
                |
                    0 <= j < clients@.len() && (#[trigger] clients@[j]).workspace_id == wid
                        ==> clients@[i as int].focus_history_id <= clients@[j].focus_history_id)
                    && (forall|j: int|
                    0 <= j < i ==> !((#[trigger] clients@[j]).workspace_id == wid
                        && clients@[j].focus_history_id == clients@[i as int].focus_history_id)),
                None => forall|j: int|
                    0 <= j < clients@.len() ==> (#[trigger] clients@[j]).workspace_id != wid,
            },
    {
        let n = clients.len();
        let mut best: Option<usize> = None;
        let mut i: usize = 0;
        while i < n
            invariant
                0 <= i <= n == clients@.len(),
                match best {
                    Some(b) => b < i && clients@[b as int].workspace_id == wid && (forall|j: int|
                        0 <= j < i && (#[trigger] clients@[j]).workspace_id == wid
                            ==> clients@[b as int].focus_history_id <= clients@[j].focus_history_id)
                        && (forall|j: int|
                        0 <= j < b ==> !((#[trigger] clients@[j]).workspace_id == wid
                            && clients@[j].focus_history_id == clients@[b as int].focus_history_id)),
                    None => forall|j: int|
                        0 <= j < i ==> (#[trigger] clients@[j]).workspace_id != wid,
                },
            decreases n - i,
        {
            if clients[i].workspace_id == wid {
                match best {
                    Some(b) => {
                        if clients[i].focus_history_id < clients[b].focus_history_id {
                            best = Some(i);
                        }
                    },
                    None => {
                        best = Some(i);
                    },
                }
            }
            i += 1;
        }
        best
    }

    /// Plan the reactor's response to one internal event: a submap
    /// change is pushed as such; every other event pushes a fresh
    /// monitor snapshot, and a monitor-focus change additionally
    /// refocuses the last active window there when so configured.
    /// The session state itself does not change.
    pub fn update_broadcasts(&mut self, event: crate::events::KEvent, q: &QueryData) -> (r: Result<
        UpdatePlan,
        KError,
    >)
        requires
            old(self).wf(),
            (event is MonitorChange && old(self).config.daemon.focus_last_window_on_monitor_change)
                ==> old(self).spec_has_focused(),
        ensures
            final(self).wf(),
            *final(self) == *old(self),
            ({
                let ff = crate::state::spec_first_focused(old(self).monitors@)->0;
                let fm = old(self).monitors@[ff].monitor;
                let wid = if fm.special_workspace_id != 0 {
                    fm.special_workspace_id
                } else {
                    fm.active_workspace_id
                };
                match event {
                    crate::events::KEvent::Submap { name } => r matches Ok(up)
                        && up.actions@.len() == 0 && up.broadcasts@.len() == 1 && (
                    up.broadcasts@[0] matches KInfoEvent::Submap(s) && s.submap@ == name@),
                    crate::events::KEvent::MonitorChange { .. } => match r {
                        Ok(up) => {
                            &&& q.clients is Some
                            &&& up.broadcasts@.len() == 1
                            &&& (up.broadcasts@[0] matches KInfoEvent::Monitors(g) && g@.len()
                                == old(self).monitors@.len() && (forall|mi: int|
                                0 <= mi < old(self).monitors@.len() ==> mon_status_ok(
                                    #[trigger] g@[mi],
                                    old(self).monitors@[mi],
                                    old(self).config.workspaces.0 as int,
                                    old(self).config.workspaces.1 as int,
                                    (q.clients->0)@,
                                    old(self).harpoon_map.entries@,
                                )))
                            &&& if old(self).config.daemon.focus_last_window_on_monitor_change {
                                (exists|i: int|
                                    0 <= i < (q.clients->0)@.len() && (#[trigger] (
                                    q.clients->0)@[i]).workspace_id == wid) ==> (q.cursor is Some
                                    && up.actions@.len() == 2 && (
                                up.actions@[0] matches Action::FocusWindowByAddress { address }
                                    && exists|i: int|
                                    {
                                        &&& 0 <= i < (q.clients->0)@.len()
                                        &&& ((#[trigger] (q.clients->0)@[i]).workspace_id == wid)
                                        &&& (q.clients->0)@[i].address@ == address@
                                        &&& forall|j: int|
                                            0 <= j < (q.clients->0)@.len() && (#[trigger] (
                                            q.clients->0)@[j]).workspace_id == wid ==> (
                                            q.clients->0)@[i].focus_history_id <= (
                                            q.clients->0)@[j].focus_history_id
                                    }) && (up.actions@[1] matches Action::MoveCursor { x, y } && x
                                    == (q.cursor->0).x && y == (q.cursor->0).y))
                            } else {
                                up.actions@.len() == 0
                            }
                        },
                        Err(e) => e is QueryFailed && (q.clients is None || (
                        old(self).config.daemon.focus_last_window_on_monitor_change && q.cursor is None
                            && exists|i: int|
                            0 <= i < (q.clients->0)@.len() && (#[trigger] (
                            q.clients->0)@[i]).workspace_id == wid)),
                    },
                    _ => match r {
                        Ok(up) => {
                            &&& q.clients is Some
                            &&& up.actions@.len() == 0
                            &&& up.broadcasts@.len() == 1
                            &&& (up.broadcasts@[0] matches KInfoEvent::Monitors(g) && g@.len()
                                == old(self).monitors@.len() && (forall|mi: int|
                                0 <= mi < old(self).monitors@.len() ==> mon_status_ok(
                                    #[trigger] g@[mi],
                                    old(self).monitors@[mi],
                                    old(self).config.workspaces.0 as int,
                                    old(self).config.workspaces.1 as int,
                                    (q.clients->0)@,
                                    old(self).harpoon_map.entries@,
                                )))
                        },
                        Err(e) => e is QueryFailed && q.clients is None,
                    },
                }
            }),
    {
        match &event {
            crate::events::KEvent::Submap { name } => {
                let mut broadcasts: Vec<KInfoEvent> = Vec::new();
                broadcasts.push(KInfoEvent::Submap(SubmapStatus { submap: name.clone() }));
                Ok(UpdatePlan { actions: Vec::new(), broadcasts })
            },
            crate::events::KEvent::MonitorChange { .. } => {
                let clients = match &q.clients {
                    Some(c) => c,
                    None => {
                        return Err(KError::QueryFailed);
                    },
                };
                let g = self.gather_info(clients);
                let mut broadcasts: Vec<KInfoEvent> = Vec::new();
                broadcasts.push(KInfoEvent::Monitors(g));
                let mut actions: Vec<Action> = Vec::new();
                if self.config.daemon.focus_last_window_on_monitor_change {
                    let ff = match self.focused_monitor_idx() {
                        Some(i) => i,
                        None => {
                            proof {
                                assert(false);
                            }
                            return Err(KError::NoMonitorFocused);
                        },
                    };
                    proof {
                        crate::state::lemma_first_idx_where_at(
                            self.monitors@,
                            crate::state::focused_pred(),
                            ff as int,
                        );
                    }
                    let fm = &self.monitors[ff].monitor;
                    let wid = if fm.special_workspace_id != 0 {
                        fm.special_workspace_id
                    } else {
                        fm.active_workspace_id
                    };
                    match Self::min_focus_client(clients, wid) {
                        Some(ci) => {
                            let cur: crate::state::CursorPos = match &q.cursor {
                                None => {
                                    return Err(KError::QueryFailed);
                                },
                                Some(c) => *c,
                            };
                            actions.push(
                                Action::FocusWindowByAddress {
                                    address: clients[ci].address.clone(),
                                },
                            );
                            actions.push(Action::MoveCursor { x: cur.x, y: cur.y });
                        },
                        None => {},
                    }
                }
                Ok(UpdatePlan { actions, broadcasts })
            },
            _ => {
                let clients = match &q.clients {
                    Some(c) => c,
                    None => {
                        return Err(KError::QueryFailed);
                    },
                };
                let g = self.gather_info(clients);
                let mut broadcasts: Vec<KInfoEvent> = Vec::new();
                broadcasts.push(KInfoEvent::Monitors(g));
                Ok(UpdatePlan { actions: Vec::new(), broadcasts })
            },
        }
    }
}

} // verus!
