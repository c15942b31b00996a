//! A fresh capture is settled where it was taken.
use crate::capture::Capture;
use crate::capture_laws;
use crate::lists;
use crate::model;
use crate::names;
use crate::plan_laws;
use crate::planner;
use crate::planner::Scene;
use crate::resolve;
use vstd::prelude::*;

verus! {

impl Capture {
    /// Window `i` is tiled on the workspace.
    pub open spec fn is_tile(self, i: int) -> bool {
        0 <= i < self.state.windows.len() && self.state.windows[i].workspace_id == Some(
            self.workspace.id,
        ) && !self.state.windows[i].is_floating
    }

    /// Windows `i` and `j` are tiled in the same column of the workspace.
    pub open spec fn are_stacked(self, i: int, j: int) -> bool {
        self.is_tile(i) && self.is_tile(j) && self.state.windows[i].column
            == self.state.windows[j].column
    }

    /// Each window has an identifier of its own, and at most one the focus.
    pub open spec fn has_distinct_windows(self) -> bool {
        forall|i: int, j: int|
            0 <= i < j < self.state.windows.len() ==> (#[trigger] self.state.windows[i]).id != (
            #[trigger] self.state.windows[j]).id && !(self.state.windows[i].is_focused
                && self.state.windows[j].is_focused)
    }

    /// The tiles of the workspace are where the compositor puts them: each is in a
    /// column, and the tiles of a column are numbered from 1 on, each number once.
    /// None is the manager's own.
    pub open spec fn has_orderly_tiles(self) -> bool {
        &&& forall|i: int| #[trigger]
            self.is_tile(i) ==> self.state.windows[i].column is Some
                && self.state.windows[i].tile_index is Some && self.state.windows[i].tile_index->0
                >= 1 && !resolve::is_own_window(self.state.windows[i])
        &&& forall|i: int, j: int| #[trigger]
            self.are_stacked(i, j) && i != j ==> self.state.windows[i].tile_index
                != self.state.windows[j].tile_index
        &&& forall|i: int, t: usize|
            #![trigger self.is_tile(i), self.has_tile(i, t)]
            self.is_tile(i) && 1 <= t <= self.state.windows[i].tile_index->0 ==> self.has_tile(i, t)
    }

    /// The column of window `i` has a tile with the number `t`.
    pub open spec fn has_tile(self, i: int, t: usize) -> bool {
        exists|j: int| #[trigger]
            self.are_stacked(i, j) && self.state.windows[j].tile_index == Some(t)
    }

    /// Where a window is to be focused, it has the focus.
    pub open spec fn focuses_as_observed(self) -> bool {
        self.focus is Some ==> self.state.focused_window_id() == self.focus
    }
}

/// The scene of a capture on the state it was taken from: every logical window is
/// bound to the window it was made from, and has the extents of its tile.
pub open spec fn is_own_scene(c: Capture, s: Scene) -> bool {
    &&& s.recipe == c.recipe()
    &&& s.observed == c.state
    &&& s.workspace_id == c.workspace.id
    &&& forall|k: int|
        0 <= k < c.places().len() ==> names::lookup(s.resolved, #[trigger] c.name(k)) == Some(
            c.window(k).id,
        )
    &&& forall|k: int|
        0 <= k < c.places().len() ==> s.fits[k][#[trigger] c.places()[k]].width
            && s.fits[k][c.places()[k]].height
}

/// Logical window `k` is bound to the window that it was made from.
proof fn captured_is_bound(c: Capture, s: Scene, k: int)
    requires
        is_own_scene(c, s),
        c.has_distinct_windows(),
        0 <= k < c.places().len(),
    ensures
        s.place(k) == Some(c.places()[k]),
        s.bound(k) == Some(c.window(k)),
        s.recipe.windows[k] == c.spec_of(k),
        0 <= c.places()[k] < c.state.windows.len(),
        c.window(k).workspace_id == Some(c.workspace.id),
{
    let i = c.places()[k];
    capture_laws::every_window_is_captured_once(c, i);
    assert(c.places().contains(i));
    assert(c.name(k) == s.recipe.windows[k].name);
    let id = c.window(k).id;
    let p = model::has_id(id);
    assert forall|j: int| 0 <= j < i implies !p(#[trigger] c.state.windows[j]) by {
        assert(c.state.windows[j].id != c.state.windows[i].id);
    }
    lists::first_is(c.state.windows, p, i);
}

/// Tile `i` is the window of some logical window.
proof fn tile_is_captured(c: Capture, i: int) -> (k: int)
    requires
        c.has_orderly_tiles(),
        c.is_tile(i),
    ensures
        0 <= k < c.places().len(),
        c.places()[k] == i,
{
    capture_laws::every_window_is_captured_once(c, i);
    choose|k: int| 0 <= k < c.places().len() && c.places()[k] == i
}

/// The logical windows of column `d` are the tiles of that column.
proof fn stack_is_tiled(c: Capture, s: Scene, d: usize, a: int)
    requires
        is_own_scene(c, s),
        c.has_distinct_windows(),
        c.has_orderly_tiles(),
        0 <= a < s.stack(d).len(),
    ensures
        0 <= s.stack(d)[a] < c.places().len(),
        c.is_tile(c.places()[s.stack(d)[a]]),
        c.window(s.stack(d)[a]).column == Some(d),
{
    let m = s.stack(d);
    lists::members_are(s.keys(), d);
    assert(m.contains(m[a]));
    let k = m[a];
    captured_is_bound(c, s, k);
    assert(s.keys()[k] == Some(d));
    assert(c.is_tile(c.places()[k]));
}

/// The logical windows of a column stand in the order of their tiles.
proof fn stack_ascends(c: Capture, s: Scene, d: usize, a: int, b: int)
    requires
        is_own_scene(c, s),
        c.has_distinct_windows(),
        c.has_orderly_tiles(),
        0 <= a < b < s.stack(d).len(),
    ensures
        c.window(s.stack(d)[a]).tile_index->0 < c.window(s.stack(d)[b]).tile_index->0,
{
    let m = s.stack(d);
    stack_is_tiled(c, s, d, a);
    stack_is_tiled(c, s, d, b);
    lists::members_are(s.keys(), d);
    capture_laws::captures_are_in_order(c, m[a], m[b]);
    let i = c.places()[m[a]];
    let j = c.places()[m[b]];
    capture_laws::every_window_is_captured_once(c, i);
    assert(i != j);
    assert(c.are_stacked(i, j));
}

/// The `a`th logical window of a column has the `a`th tile.
proof fn stack_is_numbered(c: Capture, s: Scene, d: usize, a: int)
    requires
        is_own_scene(c, s),
        c.has_distinct_windows(),
        c.has_orderly_tiles(),
        0 <= a < s.stack(d).len(),
    ensures
        c.window(s.stack(d)[a]).tile_index is Some,
        c.window(s.stack(d)[a]).tile_index->0 == a + 1,
    decreases a,
{
    let m = s.stack(d);
    stack_is_tiled(c, s, d, a);
    let i = c.places()[m[a]];
    let t = c.window(m[a]).tile_index->0;
    if a > 0 {
        stack_is_numbered(c, s, d, a - 1);
        stack_ascends(c, s, d, a - 1, a);
    }
    if t > a + 1 {
        let u = (a + 1) as usize;
        assert(c.has_tile(i, u));
        let j = choose|j: int| #[trigger]
            c.are_stacked(i, j) && c.state.windows[j].tile_index == Some(u);
        let k = tile_is_captured(c, j);
        captured_is_bound(c, s, k);
        lists::members_are(s.keys(), d);
        assert(s.keys()[k] == Some(d));
        assert(m.contains(k));
        let b = choose|b: int| 0 <= b < m.len() && m[b] == k;
        if b < a {
            stack_is_numbered(c, s, d, b);
        } else if b > a {
            stack_ascends(c, s, d, a, b);
        }
    }
}

/// The windows observed in a column are those that its logical windows are bound
/// to.
proof fn groups_are_right(c: Capture, s: Scene, d: usize)
    requires
        is_own_scene(c, s),
        c.has_distinct_windows(),
        c.has_orderly_tiles(),
        lists::is_key(s.tiles(), d),
    ensures
        !s.is_wrong_group(d),
{
    let ids = s.current_group(d);
    assert forall|id: u64| #[trigger] ids.contains(id) implies planner::is_managed(s.resolved, id)
        && s.desired_group(d).contains(id) by {
        let j = choose|j: int|
            0 <= j < s.tiles().len() && #[trigger] s.tiles()[j] == Some(d)
                && s.observed.windows[j].id == id;
        assert(c.is_tile(j));
        let k = tile_is_captured(c, j);
        captured_is_bound(c, s, k);
        names::lookup_finds(s.resolved, c.name(k));
        assert(s.keys()[k] == Some(d));
    }
    assert forall|id: u64| #[trigger] s.desired_group(d).contains(id) implies ids.contains(id) by {
        let k = choose|k: int|
            0 <= k < s.keys().len() && #[trigger] s.keys()[k] == Some(d) && names::lookup(
                s.resolved,
                s.recipe.windows[k].name,
            ) == Some(id);
        captured_is_bound(c, s, k);
        let j = c.places()[k];
        assert(c.is_tile(j));
        assert(s.tiles()[j] == Some(d));
    }
    assert(s.desired_group(d) =~= ids);
    let j = choose|j: int| 0 <= j < s.tiles().len() && s.tiles()[j] == Some(d);
    assert(c.is_tile(j));
    let k = tile_is_captured(c, j);
    captured_is_bound(c, s, k);
    assert(s.keys()[k] == Some(d));
    assert(lists::is_key(s.keys(), d));
}

/// The first logical window of a column declares its width.
proof fn columns_have_their_width(c: Capture, s: Scene, d: usize)
    requires
        is_own_scene(c, s),
        c.has_distinct_windows(),
        c.has_orderly_tiles(),
        lists::is_key(s.keys(), d),
    ensures
        s.column_has_width(d),
{
    let m = s.stack(d);
    lists::members_are(s.keys(), d);
    if lists::first_where(m, s.declares_width()) is Some {
        lists::first_holds(m, s.declares_width());
        let a = lists::first_where(m, s.declares_width())->0;
        stack_is_tiled(c, s, d, a);
        stack_is_tiled(c, s, d, 0);
        captured_is_bound(c, s, m[a]);
        captured_is_bound(c, s, m[0]);
        assert(c.leads_column(m[a]));
        if a > 0 {
            assert(m[0] < m[a]);
            assert(c.column(m[0]) != c.column(m[a]));
        }
    }
}

/// The window that a captured recipe names for the focus has it.
proof fn focus_is_there(c: Capture, s: Scene, n: nat)
    requires
        is_own_scene(c, s),
        c.has_distinct_windows(),
        c.focuses_as_observed(),
        n <= c.places().len(),
    ensures
        c.focus_name(n) is Some ==> names::lookup(s.resolved, c.focus_name(n)->0) is Some
            && s.observed.focused_window_id() == names::lookup(s.resolved, c.focus_name(n)->0),
    decreases n,
{
    if n > 0 {
        let k = n - 1;
        if c.wants_focus(k) {
            captured_is_bound(c, s, k);
            let i = c.places()[k];
            if c.focus is None {
                let p = model::focused();
                assert forall|j: int| 0 <= j < i implies !p(#[trigger] c.state.windows[j]) by {
                    assert(c.state.windows[j].id != c.state.windows[i].id);
                }
                lists::first_is(c.state.windows, p, i);
            }
        } else {
            focus_is_there(c, s, (n - 1) as nat);
        }
    }
}

/// A capture that is applied to the state it was taken from changes nothing: its
/// columns, sizes, floating windows and focus are those that are observed.
pub proof fn a_capture_is_settled_where_it_was_taken(c: Capture, s: Scene)
    requires
        is_own_scene(c, s),
        c.has_distinct_windows(),
        c.has_orderly_tiles(),
        c.focuses_as_observed(),
    ensures
        s.is_settled(),
        s.plan(false).len() == 0,
{
    let n = c.places().len();
    assert forall|k: int| 0 <= k < n implies (#[trigger] s.bound(k)) == Some(c.window(k))
        && s.bound(k)->0.workspace_id == Some(s.workspace_id) && s.bound(k)->0.is_floating
        == s.recipe.windows[k].layout.floating by {
        captured_is_bound(c, s, k);
    }
    assert forall|d: usize| #[trigger] lists::is_key(s.tiles(), d) implies !s.is_wrong_group(d) by {
        groups_are_right(c, s, d);
    }
    assert forall|d: usize, a: int|
        #![trigger s.stack(d)[a]]
        0 <= a < s.stack(d).len() implies {
        let w = s.bound(s.stack(d)[a])->0;
        w.column == Some(d) && w.tile_index is Some && w.tile_index->0 == a + 1
    } by {
        stack_is_tiled(c, s, d, a);
        stack_is_numbered(c, s, d, a);
    }
    assert forall|d: usize| #[trigger] lists::is_key(s.keys(), d) implies s.column_has_width(d) by {
        columns_have_their_width(c, s, d);
    }
    assert forall|k: int|
        0 <= k < n && s.recipe.windows[k].layout.window_height is Some implies s.fits[k][(
    #[trigger] s.place(k))->0].height by {
        captured_is_bound(c, s, k);
    }
    focus_is_there(c, s, n);
    plan_laws::settled_layout_needs_nothing(s);
}

} // verus!
