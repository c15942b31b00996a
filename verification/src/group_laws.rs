//! When windows are taken out of a column, and in what order a layout is put right.
use crate::action_laws;
use crate::lists;
use crate::names;
use crate::plan_laws;
use crate::planner;
use crate::planner::{ActionView, Scene};
use crate::resolve_laws;
use vstd::prelude::*;

verus! {

/// A window of this identifier is tiled in column `c` of the workspace.
pub open spec fn is_seen_in(s: Scene, c: usize, id: u64) -> bool {
    exists|j: int|
        0 <= j < s.observed.windows.len() && (#[trigger] s.observed.windows[j]).id == id
            && s.observed.windows[j].workspace_id == Some(s.workspace_id)
            && !s.observed.windows[j].is_floating && s.observed.windows[j].column == Some(c)
}

/// A logical window that is declared for column `d` is bound to this identifier.
pub open spec fn is_wanted_in(s: Scene, d: usize, id: u64) -> bool {
    exists|k: int|
        0 <= k < s.recipe.windows.len() && !(#[trigger] s.recipe.windows[k]).layout.floating
            && s.recipe.windows[k].layout.column == d && names::lookup(
            s.resolved,
            s.recipe.windows[k].name,
        ) == Some(id)
}

/// What is seen in column `c` is just what is wanted in column `d`.
pub open spec fn is_just_wanted(s: Scene, c: usize, d: usize) -> bool {
    forall|id: u64| #[trigger] is_seen_in(s, c, id) <==> is_wanted_in(s, d, id)
}

/// Some name is bound to this identifier.
pub open spec fn is_bound_to(s: Scene, id: u64) -> bool {
    exists|e: int| 0 <= e < s.resolved.len() && (#[trigger] s.resolved[e]).1 == id
}

proof fn groups_are_seen(s: Scene, c: usize, id: u64)
    ensures
        s.current_group(c).contains(id) <==> is_seen_in(s, c, id),
        s.desired_group(c).contains(id) <==> is_wanted_in(s, c, id),
{
    if is_seen_in(s, c, id) {
        let j = choose|j: int|
            0 <= j < s.observed.windows.len() && (#[trigger] s.observed.windows[j]).id == id
                && s.observed.windows[j].workspace_id == Some(s.workspace_id)
                && !s.observed.windows[j].is_floating && s.observed.windows[j].column == Some(c);
        assert(s.tiles()[j] == Some(c));
    }
    if s.current_group(c).contains(id) {
        let j = choose|j: int|
            0 <= j < s.tiles().len() && #[trigger] s.tiles()[j] == Some(c)
                && s.observed.windows[j].id == id;
        assert(s.observed.windows[j].id == id);
    }
    if is_wanted_in(s, c, id) {
        let k = choose|k: int|
            0 <= k < s.recipe.windows.len() && !(#[trigger] s.recipe.windows[k]).layout.floating
                && s.recipe.windows[k].layout.column == c && names::lookup(
                s.resolved,
                s.recipe.windows[k].name,
            ) == Some(id);
        assert(s.keys()[k] == Some(c));
    }
    if s.desired_group(c).contains(id) {
        let k = choose|k: int|
            0 <= k < s.keys().len() && #[trigger] s.keys()[k] == Some(c) && names::lookup(
                s.resolved,
                s.recipe.windows[k].name,
            ) == Some(id);
        assert(!s.recipe.windows[k].layout.floating);
    }
}

/// Column `c` holds a window that is not bound.
pub open spec fn has_stranger(s: Scene, c: usize) -> bool {
    exists|other: u64| #[trigger] is_seen_in(s, c, other) && !is_bound_to(s, other)
}

/// The window is bound and stands in column `c`, which holds a stranger or is not what
/// the recipe wants together. No bound window there has a higher identifier.
pub open spec fn is_taken_out(s: Scene, c: usize, id: u64) -> bool {
    &&& is_seen_in(s, c, id)
    &&& is_bound_to(s, id)
    &&& has_stranger(s, c) || forall|d: usize| !#[trigger] is_just_wanted(s, c, d)
    &&& forall|other: u64| #[trigger]
        is_seen_in(s, c, other) && is_bound_to(s, other) ==> other <= id
}

/// A window is taken out of a column only where it stands with others in a column that
/// is not just what the recipe wants together, and of the bound windows there it is the
/// one with the highest identifier.
pub proof fn only_wrong_columns_are_taken_apart(s: Scene, with_displays: bool, i: int)
    requires
        0 <= i < s.plan(with_displays).len(),
        s.plan(with_displays)[i] is ExpelRight,
    ensures
        exists|c: usize| #[trigger]
            is_taken_out(s, c, s.plan(with_displays)[i]->ExpelRight_window_id),
{
    let n = s.recipe.windows.len();
    let p = s.plan(with_displays);
    let a = p[i];
    assert(s.moves().len() == 0) by {
        if s.moves().len() > 0 {
            lists::gather_contains(n, s.workspace_move(), a);
            assert(s.moves().contains(a));
        }
    }
    assert(s.floats().len() == 0) by {
        if s.floats().len() > 0 {
            lists::gather_contains(n, s.floating_change(), a);
            assert(s.floats().contains(a));
        }
    }
    if s.expel() is None {
        not_expelled_later(s, with_displays, i);
    }
    let tiles = lists::sorted_keys(s.tiles());
    lists::keys_can_be_listed(s.tiles());
    lists::first_given_from(tiles.len(), s.expulsion());
    let k = choose|k: int| 0 <= k < tiles.len() && #[trigger] s.expulsion()(k) == s.expel();
    let c = tiles[k];
    plan_laws::expelled_windows_are_there(s, c);
    let id = s.last_managed(c);
    groups_are_seen(s, c, id);
    assert(is_seen_in(s, c, id));
    assert forall|other: u64| #[trigger] is_seen_in(s, c, other) && is_bound_to(s, other) implies other
        <= id by {
        groups_are_seen(s, c, other);
        assert(s.current_group(c).contains(other));
    }
    if !has_stranger(s, c) {
        assert forall|d: usize| !#[trigger] is_just_wanted(s, c, d) by {
            if is_just_wanted(s, c, d) {
                let ids = s.current_group(c);
                assert(ids =~= s.desired_group(d)) by {
                    assert forall|x: u64| ids.contains(x) <==> s.desired_group(d).contains(x) by {
                        groups_are_seen(s, c, x);
                        groups_are_seen(s, d, x);
                        assert(is_seen_in(s, c, x) <==> is_wanted_in(s, d, x));
                    }
                }
                assert(is_wanted_in(s, d, id));
                let w = choose|w: int|
                    0 <= w < s.recipe.windows.len() && !(
                    #[trigger] s.recipe.windows[w]).layout.floating && s.recipe.windows[w].layout.column
                        == d && names::lookup(s.resolved, s.recipe.windows[w].name) == Some(id);
                assert(s.keys()[w] == Some(d));
                assert(lists::is_key(s.keys(), d));
                assert(s.desired_group(d) == ids);
                let other = choose|other: u64|
                    #[trigger] ids.contains(other) && !planner::is_managed(s.resolved, other);
                assert(ids.contains(other) && !planner::is_managed(s.resolved, other));
                groups_are_seen(s, c, other);
                assert(is_seen_in(s, c, other) && !is_bound_to(s, other));
            }
        }
    }
    assert(is_bound_to(s, id));
    assert(s.expulsion()(k)->0->ExpelRight_window_id == id);
    assert(p =~= seq![s.expel()->0]);
    assert(a->ExpelRight_window_id == id);
    assert(is_taken_out(s, c, id));
}

proof fn not_expelled_later(s: Scene, with_displays: bool, i: int)
    requires
        s.moves().len() == 0,
        s.floats().len() == 0,
        s.expel() is None,
        0 <= i < s.plan(with_displays).len(),
    ensures
        !(s.plan(with_displays)[i] is ExpelRight),
{
    let a = s.plan(with_displays)[i];
    let cols = s.columns().len();
    if s.column_action() is Some {
        lists::first_given_from(cols, s.column_step());
        let x = choose|x: int|
            0 <= x < cols && #[trigger] s.column_step()(x) == lists::first_given(
                cols,
                s.column_step(),
            );
        let c = s.columns()[x];
        let m = s.stack(c);
        if s.bound(m[0]) is Some && s.bound(m[0])->0.column == Some(c) {
            if s.is_stacked(c) {
                lists::first_given_from(m.len(), s.tile_step(c));
            } else {
                lists::first_given_from(m.len(), s.join_step(c));
            }
        }
    } else if s.width() is Some {
        lists::first_given_from(cols, s.width_change());
    } else if s.height() is Some {
        lists::first_given_from(s.recipe.windows.len(), s.height_change());
    } else if with_displays && i < s.displays().len() {
        lists::gather_contains(cols, s.display_change(), a);
        assert(s.displays().contains(a));
    }
}

/// Every bound window is on the workspace, and floats or is tiled as declared.
pub open spec fn is_gathered(s: Scene) -> bool {
    forall|k: int, j: int| #[trigger]
        action_laws::is_about(s, k, j) ==> s.observed.windows[j].workspace_id == Some(
            s.workspace_id,
        ) && s.observed.windows[j].is_floating == s.recipe.windows[k].layout.floating
}

proof fn gathered_needs_no_move(s: Scene)
    requires
        is_gathered(s),
    ensures
        s.moves().len() == 0,
        s.floats().len() == 0,
{
    let n = s.recipe.windows.len();
    assert forall|x: int| 0 <= x < n implies (#[trigger] s.workspace_move()(x)) is None by {
        if s.bound(x) is Some {
            action_laws::bound_is_about(s, x);
        }
    }
    assert forall|x: int| 0 <= x < n implies (#[trigger] s.floating_change()(x)) is None by {
        if s.bound(x) is Some {
            action_laws::bound_is_about(s, x);
        }
    }
    lists::gather_is_empty(n, s.workspace_move());
    lists::gather_is_empty(n, s.floating_change());
}

proof fn wrong_columns_come_first(s: Scene, with_displays: bool, c: usize)
    requires
        is_gathered(s),
        s.is_wrong_group(c),
    ensures
        s.plan(with_displays).len() == 1,
        s.plan(with_displays)[0] is ExpelRight,
{
    gathered_needs_no_move(s);
    let tiles = lists::sorted_keys(s.tiles());
    lists::keys_can_be_listed(s.tiles());
    let m = lists::members(s.tiles(), c);
    lists::members_are(s.tiles(), c);
    assert(m.contains(m[0]));
    assert(s.tiles()[m[0]] == Some(c));
    assert(lists::is_key(s.tiles(), c));
    assert(tiles.contains(c));
    let k = choose|k: int| 0 <= k < tiles.len() && tiles[k] == c;
    assert(s.expulsion()(k) is Some);
    lists::first_given_none(tiles.len(), s.expulsion());
    lists::first_given_from(tiles.len(), s.expulsion());
}

/// A bound window that stands in a column with one that is not bound is the first thing
/// that is put right, once all are on the workspace and float as declared: a window is
/// taken out of a column.
pub proof fn strangers_are_parted_from(s: Scene, with_displays: bool, x: int, y: int)
    requires
        is_gathered(s),
        x != y,
        action_laws::stand_together(s, x, y),
        is_bound_to(s, s.observed.windows[x].id),
        !is_bound_to(s, s.observed.windows[y].id),
    ensures
        s.plan(with_displays).len() == 1,
        s.plan(with_displays)[0] is ExpelRight,
{
    let c = s.observed.windows[x].column->0;
    let a = s.observed.windows[x].id;
    let b = s.observed.windows[y].id;
    two_are_seen(s, x, y);
    assert(s.current_group(c).contains(a));
    assert(s.current_group(c).contains(b));
    assert(planner::is_managed(s.resolved, a));
    assert(!planner::is_managed(s.resolved, b));
    wrong_columns_come_first(s, with_displays, c);
}

proof fn two_are_seen(s: Scene, x: int, y: int)
    requires
        x != y,
        action_laws::stand_together(s, x, y),
    ensures
        ({
            let c = s.observed.windows[x].column->0;
            &&& lists::members(s.tiles(), c).len() >= 2
            &&& s.current_group(c).contains(s.observed.windows[x].id)
            &&& s.current_group(c).contains(s.observed.windows[y].id)
        }),
{
    let c = s.observed.windows[x].column->0;
    assert(s.tiles()[x] == Some(c) && s.tiles()[y] == Some(c));
    let m = lists::members(s.tiles(), c);
    lists::members_are(s.tiles(), c);
    assert(m.contains(x) && m.contains(y));
    let p = choose|p: int| 0 <= p < m.len() && m[p] == x;
    let q = choose|q: int| 0 <= q < m.len() && m[q] == y;
    assert(p != q);
}

/// No two names are bound to one window.
pub open spec fn binds_once(s: Scene) -> bool {
    forall|a: int, b: int|
        0 <= a < b < s.resolved.len() ==> (#[trigger] s.resolved[a]).1 != (
        #[trigger] s.resolved[b]).1
}

/// Two bound windows that stand in one column, but are declared for different ones, are
/// the first thing that is put right, once all are on the workspace and float as
/// declared.
pub proof fn windows_of_different_columns_are_parted(
    s: Scene,
    with_displays: bool,
    k: int,
    l: int,
    x: int,
    y: int,
)
    requires
        is_gathered(s),
        names::names_ascend(s.resolved),
        binds_once(s),
        resolve_laws::has_distinct_names(s.recipe.windows),
        x != y,
        action_laws::stand_together(s, x, y),
        action_laws::is_about(s, k, x),
        action_laws::is_about(s, l, y),
        s.recipe.windows[k].layout.column != s.recipe.windows[l].layout.column,
    ensures
        s.plan(with_displays).len() == 1,
        s.plan(with_displays)[0] is ExpelRight,
{
    let c = s.observed.windows[x].column->0;
    let a = s.observed.windows[x].id;
    let b = s.observed.windows[y].id;
    two_are_seen(s, x, y);
    let ids = s.current_group(c);
    let e = choose|e: int|
        0 <= e < s.resolved.len() && s.resolved[e] == (s.recipe.windows[k].name, a);
    let f = choose|f: int|
        0 <= f < s.resolved.len() && s.resolved[f] == (s.recipe.windows[l].name, b);
    assert(s.resolved[e].1 == a && s.resolved[f].1 == b);
    assert(planner::is_managed(s.resolved, a));
    assert(planner::is_managed(s.resolved, b));
    assert forall|d: usize| lists::is_key(s.keys(), d) implies #[trigger] s.desired_group(d)
        != ids by {
        if s.desired_group(d) == ids {
            wanted_where_declared(s, d, k, a);
            wanted_where_declared(s, d, l, b);
        }
    }
    assert(ids.contains(a));
    assert(s.is_wrong_group(c));
    wrong_columns_come_first(s, with_displays, c);
}

proof fn wanted_where_declared(s: Scene, d: usize, k: int, id: u64)
    requires
        names::names_ascend(s.resolved),
        binds_once(s),
        resolve_laws::has_distinct_names(s.recipe.windows),
        0 <= k < s.recipe.windows.len(),
        s.resolved.contains((s.recipe.windows[k].name, id)),
        s.desired_group(d).contains(id),
    ensures
        s.recipe.windows[k].layout.column == d,
{
    let i = choose|i: int|
        0 <= i < s.keys().len() && #[trigger] s.keys()[i] == Some(d) && names::lookup(
            s.resolved,
            s.recipe.windows[i].name,
        ) == Some(id);
    names::lookup_finds(s.resolved, s.recipe.windows[i].name);
    let g = choose|g: int|
        0 <= g < s.resolved.len() && (#[trigger] s.resolved[g]).0 == s.recipe.windows[i].name
            && s.resolved[g].1 == id;
    let e = choose|e: int|
        0 <= e < s.resolved.len() && s.resolved[e] == (s.recipe.windows[k].name, id);
    assert(s.resolved[e].1 == id && s.resolved[g].1 == id);
    assert(e == g);
    assert(s.recipe.windows[i].name == s.recipe.windows[k].name);
    assert(i == k);
}

/// Sizes, displays and the focus are left until every bound window is on the workspace,
/// and floats or is tiled as declared.
pub proof fn sizes_come_behind_places(s: Scene, with_displays: bool, i: int, k: int, j: int)
    requires
        names::names_ascend(s.resolved),
        action_laws::has_distinct_ids(s.observed.windows),
        0 <= i < s.plan(with_displays).len(),
        !(s.plan(with_displays)[i] is MoveToWorkspace),
        action_laws::is_about(s, k, j),
    ensures
        s.observed.windows[j].workspace_id == Some(s.workspace_id),
        !(s.plan(with_displays)[i] is SetFloating) ==> s.observed.windows[j].is_floating
            == s.recipe.windows[k].layout.floating,
{
    let n = s.recipe.windows.len();
    let a = s.plan(with_displays)[i];
    action_laws::about_is_bound(s, k, j);
    assert(s.moves().len() == 0) by {
        if s.moves().len() > 0 {
            lists::gather_contains(n, s.workspace_move(), a);
            assert(s.moves().contains(a));
        }
    }
    lists::gather_is_empty(n, s.workspace_move());
    assert(s.workspace_move()(k) is None);
    if !(a is SetFloating) {
        assert(s.floats().len() == 0) by {
            if s.floats().len() > 0 {
                lists::gather_contains(n, s.floating_change(), a);
                assert(s.floats().contains(a));
            }
        }
        lists::gather_is_empty(n, s.floating_change());
        assert(s.floating_change()(k) is None);
    }
}

/// The logical window has the height that it declares, if it declares one.
pub open spec fn has_its_height(s: Scene, k: int, j: int) -> bool {
    s.recipe.windows[k].layout.window_height is Some ==> s.fits[k][j].height
}

/// The focus comes at the very end: where it is planned, every bound window has the
/// height that it declares, and every column whose first window is bound its width.
pub proof fn the_focus_comes_at_the_end(s: Scene, with_displays: bool, i: int, k: int, j: int)
    requires
        names::names_ascend(s.resolved),
        action_laws::has_distinct_ids(s.observed.windows),
        0 <= i < s.plan(with_displays).len(),
        s.plan(with_displays)[i] is Focus || s.plan(with_displays)[i] is SetColumnDisplay,
        action_laws::is_about(s, k, j),
    ensures
        has_its_height(s, k, j),
        s.expel() is None,
        s.column_action() is None,
        s.width() is None,
{
    let a = s.plan(with_displays)[i];
    let n = s.recipe.windows.len();
    let cols = s.columns().len();
    action_laws::about_is_bound(s, k, j);
    if s.moves().len() > 0 {
        lists::gather_contains(n, s.workspace_move(), a);
        assert(s.moves().contains(a));
    } else if s.floats().len() > 0 {
        lists::gather_contains(n, s.floating_change(), a);
        assert(s.floats().contains(a));
    } else if s.expel() is Some {
        let tiles = lists::sorted_keys(s.tiles());
        lists::first_given_from(tiles.len(), s.expulsion());
    } else if s.column_action() is Some {
        lists::first_given_from(cols, s.column_step());
        let x = choose|x: int|
            0 <= x < cols && #[trigger] s.column_step()(x) == lists::first_given(
                cols,
                s.column_step(),
            );
        let c = s.columns()[x];
        let m = s.stack(c);
        if s.bound(m[0]) is Some && s.bound(m[0])->0.column == Some(c) {
            if s.is_stacked(c) {
                lists::first_given_from(m.len(), s.tile_step(c));
            } else {
                lists::first_given_from(m.len(), s.join_step(c));
            }
        }
    } else if s.width() is Some {
        lists::first_given_from(cols, s.width_change());
    } else if s.height() is Some {
        lists::first_given_from(n, s.height_change());
    } else {
        lists::first_given_none(n, s.height_change());
        assert(s.height_change()(k) is None);
    }
}

/// Only displays cannot be seen once they are set.
pub proof fn only_displays_cannot_be_seen(a: ActionView)
    ensures
        planner::is_observable(a) <==> match a {
            ActionView::SetColumnDisplay { .. } => false,
            _ => true,
        },
{
}

} // verus!
