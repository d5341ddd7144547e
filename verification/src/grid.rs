//! The coordinate model: grid positions inside an activity, the
//! workspace-name grammar `<activity>:(<x> <y>)`, and grid movement
//! with wraparound or clamping. Formatting and parsing are exact
//! inverses for every name the daemon itself produces; a name outside
//! the grammar parses to `None` rather than erroring, which is how the
//! daemon detects workspaces it does not manage.
use vstd::prelude::*;

use crate::digits::fmt_i32;
use crate::digits::fmt_int;
use crate::digits::lemma_fmt_int_chars;
use crate::digits::lemma_parse_fmt_int;
use crate::digits::parse_i32;
use crate::digits::parse_i32_spec;

verus! {

/// A grid position inside an activity: 1-based coordinates, bounded by
/// the configured grid dimensions.
#[derive(Clone, Copy, Debug, PartialEq, Eq, Structural)]
pub struct KWorkspace {
    pub x: i32,
    pub y: i32,
}

/// An activity as tracked on one monitor: its name and the grid
/// position last visited there, used to restore the position when the
/// monitor returns to this activity.
#[derive(Clone, Debug)]
pub struct KActivity {
    pub name: String,
    pub last_workspace: Option<KWorkspace>,
}

/// Index of the first occurrence of a character, if any.
pub open spec fn find_char(s: Seq<char>, c: char) -> Option<int>
    decreases s.len(),
{
    if s.len() == 0 {
        None
    } else if s[0] == c {
        Some(0int)
    } else {
        match find_char(s.drop_first(), c) {
            Some(i) => Some(i + 1),
            None => None,
        }
    }
}

/// Whatever `find_char` returns is the first occurrence; `None` means
/// no occurrence.
pub proof fn lemma_find_char_props(s: Seq<char>, c: char)
    ensures
        match find_char(s, c) {
            Some(i) => 0 <= i < s.len() && s[i] == c && (forall|j: int| 0 <= j < i ==> s[j] != c),
            None => forall|j: int| 0 <= j < s.len() ==> s[j] != c,
        },
    decreases s.len(),
{
    if s.len() > 0 && s[0] != c {
        lemma_find_char_props(s.drop_first(), c);
        match find_char(s.drop_first(), c) {
            Some(i) => {
                assert forall|j: int| 0 <= j < i + 1 implies s[j] != c by {
                    if j > 0 {
                        assert(s.drop_first()[j - 1] == s[j]);
                    }
                }
            },
            None => {
                assert forall|j: int| 0 <= j < s.len() implies s[j] != c by {
                    if j > 0 {
                        assert(s.drop_first()[j - 1] == s[j]);
                    }
                }
            },
        }
    }
}

/// A character present at `i` and absent before it is found at `i`.
pub proof fn lemma_find_char_at(s: Seq<char>, c: char, i: int)
    requires
        0 <= i < s.len(),
        s[i] == c,
        forall|j: int| 0 <= j < i ==> s[j] != c,
    ensures
        find_char(s, c) == Some(i),
    decreases s.len(),
{
    if i > 0 {
        assert(s[0] != c);
        assert(s.drop_first()[i - 1] == s[i]);
        assert forall|j: int| 0 <= j < i - 1 implies s.drop_first()[j] != c by {
            assert(s.drop_first()[j] == s[j + 1]);
        }
        lemma_find_char_at(s.drop_first(), c, i - 1);
    }
}

/// A character occurring nowhere is not found.
pub proof fn lemma_find_char_none(s: Seq<char>, c: char)
    requires
        forall|j: int| 0 <= j < s.len() ==> s[j] != c,
    ensures
        find_char(s, c) is None,
{
    lemma_find_char_props(s, c);
    match find_char(s, c) {
        Some(i) => {
            assert(s[i] == c);
        },
        None => {},
    }
}

/// First occurrence of a character in a string slice.
pub fn find_char_in(s: &str, c: char) -> (r: Option<usize>)
    ensures
        match r {
            Some(i) => find_char(s@, c) == Some(i as int),
            None => find_char(s@, c) is None,
        },
{
    let n = s.unicode_len();
    let mut i: usize = 0;
    while i < n
        invariant
            0 <= i <= n == s@.len(),
            forall|j: int| 0 <= j < i ==> s@[j] != c,
        decreases n - i,
    {
        if s.get_char(i) == c {
            proof {
                lemma_find_char_at(s@, c, i as int);
            }
            return Some(i);
        }
        i += 1;
    }
    proof {
        lemma_find_char_none(s@, c);
    }
    None
}

/// The compositor-visible name of a grid position inside an activity:
/// `<activity>:(<x> <y>)`.
pub open spec fn spec_ws_name(activity: Seq<char>, x: int, y: int) -> Seq<char> {
    activity.add(seq![':', '(']).add(fmt_int(x)).add(seq![' ']).add(fmt_int(y)).add(seq![')'])
}

/// The activity part of a workspace name: everything before the first
/// `':'`, or nothing if there is none.
pub open spec fn spec_activity_of(s: Seq<char>) -> Option<Seq<char>> {
    match find_char(s, ':') {
        Some(i) => Some(s.subrange(0, i)),
        None => None,
    }
}

/// The grid position denoted by the part of a name after the activity:
/// `(<x> <y>)` with both coordinates decimal `i32` values.
pub open spec fn spec_ws_part(p: Seq<char>) -> Option<KWorkspace> {
    if p.len() < 2 || p[0] != '(' || p.last() != ')' {
        None
    } else {
        let inner = p.subrange(1, p.len() - 1);
        match find_char(inner, ' ') {
            None => None,
            Some(k) => {
                let xs = inner.subrange(0, k);
                let ys = inner.subrange(k + 1, inner.len() as int);
                match (parse_i32_spec(xs), parse_i32_spec(ys)) {
                    (Some(x), Some(y)) => Some(KWorkspace { x, y }),
                    _ => None,
                }
            },
        }
    }
}

/// The grid position denoted by a full workspace name: the part
/// between the first `':'` and the next `':'` (or the end) must be a
/// well-formed position. An overview suffix after a second `':'` is
/// ignored.
pub open spec fn spec_ws_of(s: Seq<char>) -> Option<KWorkspace> {
    match find_char(s, ':') {
        None => None,
        Some(i) => {
            let rest = s.subrange(i + 1, s.len() as int);
            let part = match find_char(rest, ':') {
                Some(j) => rest.subrange(0, j),
                None => rest,
            };
            spec_ws_part(part)
        },
    }
}

impl KActivity {
    /// The activity named in a workspace name, with no remembered
    /// position; `None` when the name holds no `':'`.
    pub fn from_ws_name(name: &str) -> (r: Option<KActivity>)
        ensures
            r is Some <==> spec_activity_of(name@) is Some,
            r is Some ==> r->0.name@ == spec_activity_of(name@)->0 && r->0.last_workspace is None,
    {
        match find_char_in(name, ':') {
            None => None,
            Some(i) => {
                proof {
                    lemma_find_char_props(name@, ':');
                }
                let a = name.substring_char(0, i);
                Some(KActivity { name: String::from_str(a), last_workspace: None })
            },
        }
    }
}

impl KWorkspace {
    /// The grid position written in the `(<x> <y>)` part of a name.
    pub fn from_ws_part_of_name(name: &str) -> (r: Option<KWorkspace>)
        ensures
            r == spec_ws_part(name@),
    {
        let n = name.unicode_len();
        if n < 2 {
            return None;
        }
        if name.get_char(0) != '(' {
            return None;
        }
        if name.get_char(n - 1) != ')' {
            return None;
        }
        let inner = name.substring_char(1, n - 1);
        let inner_len = n - 2;
        proof {
            assert(inner@ =~= name@.subrange(1, name@.len() - 1));
        }
        match find_char_in(inner, ' ') {
            None => None,
            Some(k) => {
                proof {
                    lemma_find_char_props(inner@, ' ');
                }
                let xs = inner.substring_char(0, k);
                let ys = inner.substring_char(k + 1, inner_len);
                match (parse_i32(xs), parse_i32(ys)) {
                    (Some(x), Some(y)) => Some(KWorkspace { x, y }),
                    _ => None,
                }
            },
        }
    }

    /// The grid position denoted by a full workspace name.
    pub fn from_ws_name(name: &str) -> (r: Option<KWorkspace>)
        ensures
            r == spec_ws_of(name@),
    {
        match find_char_in(name, ':') {
            None => None,
            Some(i) => {
                proof {
                    lemma_find_char_props(name@, ':');
                }
                let n = name.unicode_len();
                let rest = name.substring_char(i + 1, n);
                match find_char_in(rest, ':') {
                    Some(j) => {
                        proof {
                            lemma_find_char_props(rest@, ':');
                        }
                        let part = rest.substring_char(0, j);
                        Self::from_ws_part_of_name(part)
                    },
                    None => Self::from_ws_part_of_name(rest),
                }
            },
        }
    }

    /// The compositor-visible name of this position in an activity.
    pub fn name(&self, activity: &str) -> (r: String)
        ensures
            r@ == spec_ws_name(activity@, self.x as int, self.y as int),
    {
        proof {
            reveal_strlit(":(");
            reveal_strlit(" ");
            reveal_strlit(")");
        }
        let mut r = String::from_str(activity);
        r.append(":(");
        r.append(fmt_i32(self.x).as_str());
        r.append(" ");
        r.append(fmt_i32(self.y).as_str());
        r.append(")");
        proof {
            assert(r@ =~= spec_ws_name(activity@, self.x as int, self.y as int));
        }
        r
    }
}

/// Formatting then parsing is the identity: the activity and the
/// position of every name the daemon produces are recovered exactly,
/// for every activity name free of `':'` and every pair of `i32`
/// coordinates.
pub proof fn lemma_ws_name_round_trip(activity: Seq<char>, x: int, y: int)
    requires
        forall|i: int| 0 <= i < activity.len() ==> activity[i] != ':',
        i32::MIN <= x <= i32::MAX,
        i32::MIN <= y <= i32::MAX,
    ensures
        spec_activity_of(spec_ws_name(activity, x, y)) == Some(activity),
        spec_ws_of(spec_ws_name(activity, x, y)) == Some(KWorkspace { x: x as i32, y: y as i32 }),
{
    let n = spec_ws_name(activity, x, y);
    let alen = activity.len() as int;
    let fx = fmt_int(x);
    let fy = fmt_int(y);
    lemma_fmt_int_chars(x, ':');
    lemma_fmt_int_chars(y, ':');
    lemma_fmt_int_chars(x, ' ');
    lemma_fmt_int_chars(y, '(');
    lemma_fmt_int_chars(y, ')');
    lemma_parse_fmt_int(x);
    lemma_parse_fmt_int(y);

    // the first ':' is the one after the activity
    assert(n[alen] == ':');
    assert forall|j: int| 0 <= j < alen implies n[j] != ':' by {
        assert(n[j] == activity[j]);
    }
    lemma_find_char_at(n, ':', alen);
    assert(n.subrange(0, alen) =~= activity);

    // the rest is exactly "(<x> <y>)", with no further ':'
    let rest = n.subrange(alen + 1, n.len() as int);
    assert(rest =~= seq!['('].add(fx).add(seq![' ']).add(fy).add(seq![')']));
    assert forall|j: int| 0 <= j < rest.len() implies rest[j] != ':' by {
        if 1 <= j < 1 + fx.len() {
            assert(rest[j] == fx[j - 1]);
        } else if 2 + fx.len() <= j < 2 + fx.len() + fy.len() {
            assert(rest[j] == fy[j - 2 - fx.len()]);
        }
    }
    lemma_find_char_none(rest, ':');

    // the inner part splits at the one space between the coordinates
    assert(rest[0] == '(');
    assert(rest.last() == ')');
    let inner = rest.subrange(1, rest.len() - 1);
    assert(inner =~= fx.add(seq![' ']).add(fy));
    let k = fx.len() as int;
    assert(inner[k] == ' ');
    assert forall|j: int| 0 <= j < k implies inner[j] != ' ' by {
        assert(inner[j] == fx[j]);
    }
    lemma_find_char_at(inner, ' ', k);
    assert(inner.subrange(0, k) =~= fx);
    assert(inner.subrange(k + 1, inner.len() as int) =~= fy);
    assert(spec_ws_part(rest) == Some(KWorkspace { x: x as i32, y: y as i32 }));
}

/// One axis moved with wraparound: 1-based modular arithmetic, with
/// the intermediate sum floored at zero as the daemon computes it.
pub open spec fn spec_wrap_axis(p: int, d: int, dim: int) -> int
    recommends
        dim >= 1,
{
    let t = p - 1 + d + dim;
    let t2 = if t < 0 {
        0
    } else {
        t
    };
    (t2 % dim) + 1
}

/// One axis moved with clamping to `[1, dim]`.
pub open spec fn spec_clamp_axis(p: int, d: int, dim: int) -> int {
    let t = if p + d < dim {
        p + d
    } else {
        dim
    };
    if t < 1 {
        1
    } else {
        t
    }
}

/// A position moved by a delta on both axes, wrapping or clamping.
pub open spec fn spec_translate(ws: KWorkspace, wrap: bool, dx: int, dy: int, w: int, h: int) -> KWorkspace
    recommends
        w >= 1 && h >= 1,
{
    if wrap {
        KWorkspace {
            x: spec_wrap_axis(ws.x as int, dx, w) as i32,
            y: spec_wrap_axis(ws.y as int, dy, h) as i32,
        }
    } else {
        KWorkspace {
            x: spec_clamp_axis(ws.x as int, dx, w) as i32,
            y: spec_clamp_axis(ws.y as int, dy, h) as i32,
        }
    }
}

/// One axis moved as `spec_wrap_axis`/`spec_clamp_axis` say.
fn translate_axis(p: i32, d: i32, dim: i32, wrap: bool) -> (r: i32)
    requires
        dim >= 1,
    ensures
        wrap ==> r == spec_wrap_axis(p as int, d as int, dim as int),
        !wrap ==> r == spec_clamp_axis(p as int, d as int, dim as int),
        1 <= r <= dim,
{
    if wrap {
        let t: i64 = p as i64 - 1 + d as i64 + dim as i64;
        let t2: i64 = if t < 0 {
            0
        } else {
            t
        };
        let m: i64 = t2 % dim as i64;
        proof {
            vstd::arithmetic::div_mod::lemma_mod_pos_bound(t2 as int, dim as int);
        }
        (m + 1) as i32
    } else {
        let t: i64 = p as i64 + d as i64;
        let t2: i64 = if t < dim as i64 {
            t
        } else {
            dim as i64
        };
        let t3: i64 = if t2 < 1 {
            1
        } else {
            t2
        };
        t3 as i32
    }
}

/// A position moved by a grid delta, wrapping modulo the grid
/// dimensions or clamping to them. The result is always in bounds.
pub fn translate(ws: KWorkspace, wrap: bool, dx: i32, dy: i32, w: i32, h: i32) -> (r: KWorkspace)
    requires
        w >= 1,
        h >= 1,
    ensures
        r == spec_translate(ws, wrap, dx as int, dy as int, w as int, h as int),
        1 <= r.x <= w,
        1 <= r.y <= h,
{
    KWorkspace {
        x: translate_axis(ws.x, dx, w, wrap),
        y: translate_axis(ws.y, dy, h, wrap),
    }
}

/// A wrapped move lands in bounds and obeys 1-based modular
/// arithmetic whenever the floored intermediate sum is not hit, i.e.
/// whenever the delta is at least `-dim`.
pub proof fn lemma_wrap_axis_mod(p: int, d: int, dim: int)
    requires
        dim >= 1,
        1 <= p <= dim,
        d >= -dim,
    ensures
        spec_wrap_axis(p, d, dim) - 1 == (p - 1 + d) % dim,
        1 <= spec_wrap_axis(p, d, dim) <= dim,
{
    let t = p - 1 + d + dim;
    assert(t >= 0);
    vstd::arithmetic::div_mod::lemma_mod_add_multiples_vanish(p - 1 + d, dim);
    vstd::arithmetic::div_mod::lemma_mod_pos_bound(t, dim);
}

/// Iterated wrapped movement by one delta.
pub open spec fn spec_wrap_iter(p: int, d: int, dim: int, k: nat) -> int
    decreases k,
{
    if k == 0 {
        p
    } else {
        spec_wrap_axis(spec_wrap_iter(p, d, dim, (k - 1) as nat), d, dim)
    }
}

proof fn lemma_wrap_iter_mod(p: int, d: int, dim: int, k: nat)
    requires
        dim >= 1,
        1 <= p <= dim,
        -dim <= d,
    ensures
        spec_wrap_iter(p, d, dim, k) - 1 == (p - 1 + k * d) % dim,
        1 <= spec_wrap_iter(p, d, dim, k) <= dim,
    decreases k,
{
    if k == 0 {
        vstd::arithmetic::div_mod::lemma_small_mod((p - 1) as nat, dim as nat);
        assert(k * d == 0);
    } else {
        lemma_wrap_iter_mod(p, d, dim, (k - 1) as nat);
        let q = spec_wrap_iter(p, d, dim, (k - 1) as nat);
        lemma_wrap_axis_mod(q, d, dim);
        // (q - 1 + d) % dim == ((p - 1 + (k-1)*d) % dim + d) % dim == (p - 1 + k*d) % dim
        vstd::arithmetic::div_mod::lemma_add_mod_noop(p - 1 + (k - 1) * d, d, dim);
        vstd::arithmetic::div_mod::lemma_mod_twice(p - 1 + (k - 1) * d, dim);
        vstd::arithmetic::div_mod::lemma_mod_twice(d, dim);
        vstd::arithmetic::div_mod::lemma_add_mod_noop((p - 1 + (k - 1) * d) % dim, d, dim);
        assert(p - 1 + (k - 1) * d + d == p - 1 + k * d) by (nonlinear_arith);
    }
}

/// Applying one and the same wrapped move `dim` times on an axis of
/// `dim` cells returns to the starting cell, for every in-bounds start
/// and every delta of at least `-dim`.
pub proof fn lemma_wrap_axis_cycle(p: int, d: int, dim: int)
    requires
        dim >= 1,
        1 <= p <= dim,
        -dim <= d,
    ensures
        spec_wrap_iter(p, d, dim, dim as nat) == p,
{
    lemma_wrap_iter_mod(p, d, dim, dim as nat);
    vstd::arithmetic::div_mod::lemma_mod_multiples_vanish(d, p - 1, dim);
    assert((dim as nat) as int == dim);
    assert(dim * d == d * dim) by (nonlinear_arith);
    assert(p - 1 + (dim as nat) * d == d * dim + (p - 1));
    vstd::arithmetic::div_mod::lemma_small_mod((p - 1) as nat, dim as nat);
}

/// A wrapped move followed by the opposite move returns to the start,
/// for every in-bounds position and every delta within `dim` of zero.
pub proof fn lemma_wrap_axis_inverse(p: int, d: int, dim: int)
    requires
        dim >= 1,
        1 <= p <= dim,
        -dim <= d <= dim,
    ensures
        spec_wrap_axis(spec_wrap_axis(p, d, dim), -d, dim) == p,
{
    lemma_wrap_axis_mod(p, d, dim);
    let q = spec_wrap_axis(p, d, dim);
    lemma_wrap_axis_mod(q, -d, dim);
    vstd::arithmetic::div_mod::lemma_add_mod_noop(p - 1 + d, -d, dim);
    vstd::arithmetic::div_mod::lemma_mod_twice(p - 1 + d, dim);
    vstd::arithmetic::div_mod::lemma_mod_twice(-d, dim);
    vstd::arithmetic::div_mod::lemma_add_mod_noop((p - 1 + d) % dim, -d, dim);
    vstd::arithmetic::div_mod::lemma_small_mod((p - 1) as nat, dim as nat);
}

/// A clamped move followed by the opposite move returns to the start
/// whenever the first move stays in bounds without clamping. (When it
/// clamps, information is lost: from position `dim`, `+1` then `-1`
/// lands on `dim - 1`.)
pub proof fn lemma_clamp_axis_inverse(p: int, d: int, dim: int)
    requires
        dim >= 1,
        1 <= p <= dim,
        1 <= p + d <= dim,
    ensures
        spec_clamp_axis(spec_clamp_axis(p, d, dim), -d, dim) == p,
{
}

} // verus!

verus! {

/// Iterated wrapped movement of a full position by one delta pair.
pub open spec fn spec_translate_iter(ws: KWorkspace, dx: int, dy: int, w: int, h: int, k: nat) -> KWorkspace
    decreases k,
{
    if k == 0 {
        ws
    } else {
        spec_translate(spec_translate_iter(ws, dx, dy, w, h, (k - 1) as nat), true, dx, dy, w, h)
    }
}

/// Iterating a wrapped move steps each axis independently.
proof fn lemma_translate_iter_axes(ws: KWorkspace, dx: int, dy: int, w: int, h: int, k: nat)
    requires
        1 <= w <= i32::MAX,
        1 <= h <= i32::MAX,
        1 <= ws.x as int <= w,
        1 <= ws.y as int <= h,
        -w <= dx,
        -h <= dy,
    ensures
        spec_translate_iter(ws, dx, dy, w, h, k).x as int == spec_wrap_iter(ws.x as int, dx, w, k),
        spec_translate_iter(ws, dx, dy, w, h, k).y as int == spec_wrap_iter(ws.y as int, dy, h, k),
    decreases k,
{
    if k > 0 {
        lemma_translate_iter_axes(ws, dx, dy, w, h, (k - 1) as nat);
        lemma_wrap_iter_mod(ws.x as int, dx, w, (k - 1) as nat);
        lemma_wrap_iter_mod(ws.y as int, dy, h, (k - 1) as nat);
        let p = spec_translate_iter(ws, dx, dy, w, h, (k - 1) as nat);
        assert(p.x as int == spec_wrap_iter(ws.x as int, dx, w, (k - 1) as nat));
        assert(p.y as int == spec_wrap_iter(ws.y as int, dy, h, (k - 1) as nat));
        lemma_wrap_axis_mod(p.x as int, dx, w);
        lemma_wrap_axis_mod(p.y as int, dy, h);
        let q = spec_translate(p, true, dx, dy, w, h);
        assert(q.x as int == spec_wrap_axis(p.x as int, dx, w));
        assert(q.y as int == spec_wrap_axis(p.y as int, dy, h));
    }
}

/// On a `w` by `h` grid, applying one and the same wrapping move
/// `w * h` times returns to the starting position, for every
/// in-bounds start and every delta pair within the grid's reach.
pub proof fn lemma_translate_full_cycle(ws: KWorkspace, dx: int, dy: int, w: int, h: int)
    requires
        1 <= w <= i32::MAX,
        1 <= h <= i32::MAX,
        1 <= ws.x as int <= w,
        1 <= ws.y as int <= h,
        -w <= dx,
        -h <= dy,
    ensures
        spec_translate_iter(ws, dx, dy, w, h, (w * h) as nat) == ws,
{
    let n = (w * h) as nat;
    lemma_translate_iter_axes(ws, dx, dy, w, h, n);
    assert(w * h >= 1) by (nonlinear_arith)
        requires
            w >= 1 && h >= 1,
    ;
    // each axis cycles with its own period, which divides w * h
    lemma_wrap_iter_mod(ws.x as int, dx, w, n);
    lemma_wrap_iter_mod(ws.y as int, dy, h, n);
    assert((ws.x as int - 1 + (n as int) * dx) % w == (ws.x as int - 1) % w) by {
        assert((n as int) * dx == (h * dx) * w) by (nonlinear_arith)
            requires
                n as int == w * h,
        ;
        vstd::arithmetic::div_mod::lemma_mod_multiples_vanish(h * dx, ws.x as int - 1, w);
    }
    assert((ws.y as int - 1 + (n as int) * dy) % h == (ws.y as int - 1) % h) by {
        assert((n as int) * dy == (w * dy) * h) by (nonlinear_arith)
            requires
                n as int == w * h,
        ;
        vstd::arithmetic::div_mod::lemma_mod_multiples_vanish(w * dy, ws.y as int - 1, h);
    }
    vstd::arithmetic::div_mod::lemma_small_mod((ws.x - 1) as nat, w as nat);
    vstd::arithmetic::div_mod::lemma_small_mod((ws.y - 1) as nat, h as nat);
    let fin = spec_translate_iter(ws, dx, dy, w, h, n);
    assert(fin.x == ws.x && fin.y == ws.y);
}

/// A wrapping move followed by the opposite move returns to the
/// start; a clamping move does too whenever the first move stays in
/// bounds without clamping.
pub proof fn lemma_translate_inverse(ws: KWorkspace, wrap: bool, dx: int, dy: int, w: int, h: int)
    requires
        1 <= w <= i32::MAX,
        1 <= h <= i32::MAX,
        1 <= ws.x as int <= w,
        1 <= ws.y as int <= h,
        wrap ==> -w <= dx <= w && -h <= dy <= h,
        !wrap ==> 1 <= ws.x as int + dx <= w && 1 <= ws.y as int + dy <= h,
    ensures
        spec_translate(spec_translate(ws, wrap, dx, dy, w, h), wrap, -dx, -dy, w, h) == ws,
{
    let mid = spec_translate(ws, wrap, dx, dy, w, h);
    if wrap {
        lemma_wrap_axis_inverse(ws.x as int, dx, w);
        lemma_wrap_axis_inverse(ws.y as int, dy, h);
        lemma_wrap_axis_mod(ws.x as int, dx, w);
        lemma_wrap_axis_mod(ws.y as int, dy, h);
        assert(mid.x as int == spec_wrap_axis(ws.x as int, dx, w));
        assert(mid.y as int == spec_wrap_axis(ws.y as int, dy, h));
    } else {
        lemma_clamp_axis_inverse(ws.x as int, dx, w);
        lemma_clamp_axis_inverse(ws.y as int, dy, h);
        assert(mid.x as int == spec_clamp_axis(ws.x as int, dx, w));
        assert(mid.y as int == spec_clamp_axis(ws.y as int, dy, h));
    }
    let fin = spec_translate(mid, wrap, -dx, -dy, w, h);
    assert(fin.x == ws.x && fin.y == ws.y);
}

} // verus!
