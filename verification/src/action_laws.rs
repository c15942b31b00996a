//! Why an action is planned: what it asks for is declared, and it is not so yet.
use crate::lists;
use crate::model;
use crate::model::{RuntimeView, WindowView};
use crate::names;
use crate::planner::{ActionView, Scene};
use vstd::prelude::*;

verus! {

/// Logical windows `a` and `b` are declared for the same column.
pub open spec fn share_a_column(windows: Seq<WindowView>, a: int, b: int) -> bool {
    !windows[a].layout.floating && !windows[b].layout.floating && windows[a].layout.column
        == windows[b].layout.column
}

/// How many logical windows stand above window `k` in its column.
pub open spec fn above(windows: Seq<WindowView>, k: int, upto: nat) -> nat
    decreases upto,
{
    if upto == 0 {
        0
    } else if share_a_column(windows, upto - 1, k) {
        above(windows, k, (upto - 1) as nat) + 1
    } else {
        above(windows, k, (upto - 1) as nat)
    }
}

/// No logical window stands above window `k` in its column.
pub open spec fn is_topmost(windows: Seq<WindowView>, k: int) -> bool {
    forall|a: int| 0 <= a < k ==> !#[trigger] share_a_column(windows, a, k)
}

/// Logical window `k` is bound to the observed window `j`.
pub open spec fn is_about(s: Scene, k: int, j: int) -> bool {
    &&& 0 <= k < s.recipe.windows.len()
    &&& 0 <= j < s.observed.windows.len()
    &&& s.resolved.contains((s.recipe.windows[k].name, s.observed.windows[j].id))
}

/// Observed windows `i` and `j` are tiled in the same column of the workspace.
pub open spec fn stand_together(s: Scene, i: int, j: int) -> bool {
    let a = s.observed.windows[i];
    let b = s.observed.windows[j];
    &&& 0 <= i < s.observed.windows.len()
    &&& 0 <= j < s.observed.windows.len()
    &&& a.workspace_id == Some(s.workspace_id) && b.workspace_id == Some(s.workspace_id)
    &&& !a.is_floating && !b.is_floating
    &&& a.column is Some && a.column == b.column
}

/// What an action on logical window `k` and observed window `j` asks for is declared,
/// and it is not so yet.
pub open spec fn is_called_for(s: Scene, a: ActionView, k: int, j: int) -> bool {
    let w = s.recipe.windows[k];
    let o = s.observed.windows[j];
    let top = is_topmost(s.recipe.windows, k);
    match a {
        ActionView::MoveToWorkspace { name, window_id, from, to } => {
            name == w.name && window_id == o.id && to == s.workspace_id && from == o.workspace_id
                && from != Some(to)
        },
        ActionView::SetFloating { name, window_id, floating } => {
            name == w.name && window_id == o.id && floating == w.layout.floating && o.is_floating
                != floating
        },
        ActionView::MoveColumnToIndex { name, window_id, from, to } => {
            &&& name == w.name && window_id == o.id && !w.layout.floating
            &&& from == o.column && from != Some(to)
            &&& top ==> to == w.layout.column
            &&& !top ==> to == (w.layout.column + 1) as usize && from != Some(w.layout.column)
        },
        ActionView::ConsumeLeft { name, window_id, target_column } => {
            &&& name == w.name && window_id == o.id && !w.layout.floating && !top
            &&& target_column == w.layout.column
            &&& o.column == Some((target_column + 1) as usize)
        },
        ActionView::MoveWindowUp { name, window_id, from, to } => {
            &&& name == w.name && window_id == o.id && !w.layout.floating
            &&& o.column == Some(w.layout.column)
            &&& o.tile_index == Some(from) && from > to
            &&& to == (above(s.recipe.windows, k, k as nat) + 1) as usize
        },
        ActionView::MoveWindowDown { name, window_id, from, to } => {
            &&& name == w.name && window_id == o.id && !w.layout.floating
            &&& o.column == Some(w.layout.column)
            &&& o.tile_index == Some(from) && from < to
            &&& to == (above(s.recipe.windows, k, k as nat) + 1) as usize
        },
        ActionView::SetColumnWidth { name, window_id, column, size } => {
            &&& name == w.name && window_id == o.id && !w.layout.floating && top
            &&& column == w.layout.column
            &&& exists|d: int|
                0 <= d < s.recipe.windows.len() && #[trigger] share_a_column(s.recipe.windows, d, k)
                    && s.recipe.windows[d].layout.column_width == Some(size) && !s.fits[d][j].width
        },
        ActionView::SetWindowHeight { name, window_id, size } => {
            name == w.name && window_id == o.id && w.layout.window_height == Some(size)
                && !s.fits[k][j].height
        },
        _ => false,
    }
}

/// What the display of a column asks for is declared for that column.
pub open spec fn is_declared_display(s: Scene, a: ActionView, k: int) -> bool {
    let w = s.recipe.windows[k];
    match a {
        ActionView::SetColumnDisplay { name, window_id, column, display } => {
            &&& 0 <= k < s.recipe.windows.len() && is_topmost(s.recipe.windows, k)
            &&& name == w.name && s.resolved.contains((name, window_id))
            &&& !w.layout.floating && column == w.layout.column
            &&& exists|d: int|
                0 <= d < s.recipe.windows.len() && #[trigger] share_a_column(s.recipe.windows, d, k)
                    && s.recipe.windows[d].layout.display == Some(display)
        },
        _ => false,
    }
}

/// Observed window `j` is the one that has the focus.
pub open spec fn is_focused_first(windows: Seq<RuntimeView>, j: int) -> bool {
    0 <= j < windows.len() && windows[j].is_focused && forall|i: int|
        0 <= i < j ==> !(#[trigger] windows[i]).is_focused
}

/// A window is taken out of a column only where it stands there with others.
pub open spec fn is_expelled_rightly(s: Scene, a: ActionView, i: int, j: int) -> bool {
    match a {
        ActionView::ExpelRight { name, window_id } => {
            &&& s.resolved.contains((name, window_id))
            &&& i != j && stand_together(s, i, j) && s.observed.windows[i].id == window_id
        },
        _ => false,
    }
}

/// The focus is given to the window that the recipe names, and that has it not yet.
pub open spec fn is_wanted_focus(s: Scene, a: ActionView) -> bool {
    match a {
        ActionView::Focus { name, window_id } => {
            &&& s.recipe.focus == Some(name)
            &&& s.resolved.contains((name, window_id))
            &&& forall|j: int| #[trigger]
                is_focused_first(s.observed.windows, j) ==> s.observed.windows[j].id != window_id
        },
        _ => false,
    }
}

pub proof fn bound_is_about(s: Scene, k: int)
    requires
        0 <= k < s.recipe.windows.len(),
        s.bound(k) is Some,
    ensures
        s.place(k) is Some,
        is_about(s, k, s.place(k)->0),
        s.bound(k) == Some(s.observed.windows[s.place(k)->0]),
{
    let name = s.recipe.windows[k].name;
    names::lookup_finds(s.resolved, name);
    let id = names::lookup(s.resolved, name)->0;
    lists::first_holds(s.observed.windows, model::has_id(id));
    let e = choose|e: int|
        0 <= e < s.resolved.len() && (#[trigger] s.resolved[e]).0 == name && names::lookup(
            s.resolved,
            name,
        ) == Some(s.resolved[e].1);
    assert(s.resolved[e] == (name, id));
}

/// The places of a column up to `upto` are those above `k`.
proof fn stack_counts_above(s: Scene, c: usize, k: int, upto: nat)
    requires
        upto <= s.recipe.windows.len(),
        0 <= k < s.recipe.windows.len(),
        !s.recipe.windows[k].layout.floating,
        s.recipe.windows[k].layout.column == c,
    ensures
        lists::gather(upto, lists::in_group(s.keys(), c)).len() == above(
            s.recipe.windows,
            k,
            upto,
        ),
    decreases upto,
{
    if upto > 0 {
        stack_counts_above(s, c, k, (upto - 1) as nat);
        let f = lists::in_group(s.keys(), c);
        assert(f(upto - 1) is Some <==> s.keys()[upto - 1] == Some(c));
        assert(s.keys()[upto - 1] == Some(c) <==> share_a_column(s.recipe.windows, upto - 1, k));
    }
}

/// The `x`th logical window of a column stands below `x` others.
proof fn stack_is_ranked(s: Scene, c: usize, x: int)
    requires
        0 <= x < s.stack(c).len(),
    ensures
        ({
            let k = s.stack(c)[x];
            &&& 0 <= k < s.recipe.windows.len()
            &&& !s.recipe.windows[k].layout.floating
            &&& s.recipe.windows[k].layout.column == c
            &&& above(s.recipe.windows, k, k as nat) == x
            &&& is_topmost(s.recipe.windows, k) <==> x == 0
        }),
{
    let m = s.stack(c);
    let k = m[x];
    let f = lists::in_group(s.keys(), c);
    lists::members_are(s.keys(), c);
    assert(m.contains(k));
    assert(s.keys()[k] == Some(c));
    stack_counts_above(s, c, k, k as nat);
    lists::gather_extends(k as nat, s.keys().len(), f);
    let part = lists::gather(k as nat, f);
    assert(part =~= m.subrange(0, part.len() as int));
    if part.len() > x {
        assert(part[x] == k);
        assert(part.contains(k));
        lists::gather_contains(k as nat, f, k);
        let i = choose|i: int| 0 <= i < k && #[trigger] f(i) == Some(k);
        assert(false);
    }
    if part.len() < x {
        let y = m[part.len() as int];
        assert(y < k);
        assert(m.contains(y));
        assert(f(y) == Some(y));
        lists::gather_contains(k as nat, f, y);
        assert(part.contains(y));
        let z = choose|z: int| 0 <= z < part.len() && part[z] == y;
        assert(m[z] == y);
        assert(m[z] < m[part.len() as int]);
    }
    if x == 0 {
        assert forall|a: int| 0 <= a < k implies !#[trigger] share_a_column(s.recipe.windows, a, k) by {
            if share_a_column(s.recipe.windows, a, k) {
                assert(s.keys()[a] == Some(c));
                assert(m.contains(a));
                let b = choose|b: int| 0 <= b < m.len() && m[b] == a;
                if b > 0 {
                    assert(m[0] < m[b]);
                }
            }
        }
    } else {
        let a = m[0];
        assert(m.contains(a));
        assert(a < k);
        assert(s.keys()[a] == Some(c));
        assert(share_a_column(s.recipe.windows, a, k));
    }
}

/// An action of a column is called for.
proof fn column_steps_are_called_for(s: Scene, x: int)
    requires
        s.recipe.windows.len() <= usize::MAX,
        0 <= x < s.columns().len(),
        s.column_step()(x) is Some,
        s.column_step()(x)->0 is Some,
    ensures
        exists|k: int, j: int| #[trigger]
            is_about(s, k, j) && is_called_for(s, s.column_step()(x)->0->0, k, j),
{
    let c = s.columns()[x];
    let m = s.stack(c);
    let a = s.column_step()(x)->0->0;
    lists::keys_can_be_listed(s.keys());
    assert(s.columns().contains(c));
    lists::members_are(s.keys(), c);
    let i0 = choose|i: int| 0 <= i < s.keys().len() && s.keys()[i] == Some(c);
    assert(m.contains(i0));
    stack_is_ranked(s, c, 0);
    bound_is_about(s, m[0]);
    if s.bound(m[0])->0.column != Some(c) {
        assert(is_called_for(s, a, m[0], s.place(m[0])->0));
    } else if s.is_stacked(c) {
        lists::first_given_from(m.len(), s.tile_step(c));
        let y = choose|y: int|
            0 <= y < m.len() && #[trigger] s.tile_step(c)(y) == lists::first_given(
                m.len(),
                s.tile_step(c),
            );
        stack_is_ranked(s, c, y);
        bound_is_about(s, m[y]);
        assert(m.contains(m[y]));
        assert(s.column_of(m[y]) == Some(c));
        assert(y < m.len() <= s.keys().len()) by {
            lists::gather_is_bounded(s.keys().len(), lists::in_group(s.keys(), c));
        }
        assert(is_called_for(s, a, m[y], s.place(m[y])->0));
    } else {
        lists::first_given_from(m.len(), s.join_step(c));
        let y = choose|y: int|
            0 <= y < m.len() && #[trigger] s.join_step(c)(y) == lists::first_given(
                m.len(),
                s.join_step(c),
            );
        stack_is_ranked(s, c, y);
        bound_is_about(s, m[y]);
        assert(is_called_for(s, a, m[y], s.place(m[y])->0));
    }
}

/// A logical window of a column that declares something is of that column.
proof fn declaring_window_is_of_the_column(s: Scene, c: usize, p: spec_fn(int) -> bool) -> (d: int)
    requires
        lists::find(s.stack(c), p) is Some,
    ensures
        d == lists::find(s.stack(c), p)->0,
        0 <= d < s.recipe.windows.len(),
        p(d),
        s.stack(c).len() > 0,
        share_a_column(s.recipe.windows, d, s.stack(c)[0]),
{
    let m = s.stack(c);
    lists::first_holds(m, p);
    let x = lists::first_where(m, p)->0;
    stack_is_ranked(s, c, x);
    stack_is_ranked(s, c, 0);
    m[x]
}

/// Every action of a plan asks for what the recipe declares, and for what is not so
/// yet: it moves a window to the workspace from another, floats or tiles one that is
/// not as declared, puts it nearer to its column or its place there, gives it a size
/// that it has not, or sets a declared display or the focus.
pub proof fn actions_are_called_for(s: Scene, with_displays: bool, i: int)
    requires
        s.recipe.windows.len() <= usize::MAX,
        0 <= i < s.plan(with_displays).len(),
    ensures
        ({
            let a = s.plan(with_displays)[i];
            ||| exists|k: int, j: int| #[trigger] is_about(s, k, j) && is_called_for(s, a, k, j)
            ||| exists|x: int, y: int|
                #![trigger stand_together(s, x, y)]
                is_expelled_rightly(s, a, x, y)
            ||| with_displays && exists|k: int| #[trigger] is_declared_display(s, a, k)
            ||| is_wanted_focus(s, a)
        }),
{
    let a = s.plan(with_displays)[i];
    let n = s.recipe.windows.len();
    let columns = s.columns();
    lists::keys_can_be_listed(s.keys());
    lists::keys_can_be_listed(s.tiles());
    if s.moves().len() > 0 {
        assert(s.moves().contains(a));
        lists::gather_contains(n, s.workspace_move(), a);
        let k = choose|k: int| 0 <= k < n && #[trigger] s.workspace_move()(k) == Some(a);
        bound_is_about(s, k);
        assert(is_called_for(s, a, k, s.place(k)->0));
    } else if s.floats().len() > 0 {
        assert(s.floats().contains(a));
        lists::gather_contains(n, s.floating_change(), a);
        let k = choose|k: int| 0 <= k < n && #[trigger] s.floating_change()(k) == Some(a);
        bound_is_about(s, k);
        assert(is_called_for(s, a, k, s.place(k)->0));
    } else if s.expel() is Some {
        expulsions_are_right(s);
    } else if s.column_action() is Some {
        lists::first_given_from(columns.len(), s.column_step());
        let x = choose|x: int|
            0 <= x < columns.len() && #[trigger] s.column_step()(x) == lists::first_given(
                columns.len(),
                s.column_step(),
            );
        column_steps_are_called_for(s, x);
    } else if s.width() is Some {
        lists::first_given_from(columns.len(), s.width_change());
        let x = choose|x: int| 0 <= x < columns.len() && #[trigger] s.width_change()(x) == s.width();
        let c = columns[x];
        let d = declaring_window_is_of_the_column(s, c, s.declares_width());
        let k = s.stack(c)[0];
        stack_is_ranked(s, c, 0);
        bound_is_about(s, k);
        assert(is_called_for(s, a, k, s.place(k)->0));
    } else if s.height() is Some {
        lists::first_given_from(n, s.height_change());
        let k = choose|k: int| 0 <= k < n && #[trigger] s.height_change()(k) == s.height();
        bound_is_about(s, k);
        assert(is_called_for(s, a, k, s.place(k)->0));
    } else if with_displays && i < s.displays().len() {
        assert(s.displays().contains(a));
        lists::gather_contains(columns.len(), s.display_change(), a);
        let x = choose|x: int| 0 <= x < columns.len() && #[trigger] s.display_change()(x) == Some(a);
        let c = columns[x];
        let d = declaring_window_is_of_the_column(s, c, s.declares_display());
        let k = s.stack(c)[0];
        stack_is_ranked(s, c, 0);
        bindings_are_there(s, s.recipe.windows[k].name);
        assert(is_declared_display(s, a, k));
    } else {
        assert(a == s.focus_change()[0]);
        bindings_are_there(s, s.recipe.focus->0);
        assert forall|j: int| #[trigger] is_focused_first(s.observed.windows, j) implies s.observed.windows[j].id
            != a->Focus_window_id by {
            lists::first_is(s.observed.windows, model::focused(), j);
        }
    }
}

proof fn bindings_are_there(s: Scene, name: Seq<char>)
    requires
        names::lookup(s.resolved, name) is Some,
    ensures
        s.resolved.contains((name, names::lookup(s.resolved, name)->0)),
{
    names::lookup_finds(s.resolved, name);
    let e = choose|e: int|
        0 <= e < s.resolved.len() && (#[trigger] s.resolved[e]).0 == name && names::lookup(
            s.resolved,
            name,
        ) == Some(s.resolved[e].1);
    assert(s.resolved[e] == (name, names::lookup(s.resolved, name)->0));
}

proof fn expulsions_are_right(s: Scene)
    requires
        s.expel() is Some,
    ensures
        exists|x: int, y: int|
            #![trigger stand_together(s, x, y)]
            is_expelled_rightly(s, s.expel()->0, x, y),
{
    let tiles = lists::sorted_keys(s.tiles());
    lists::keys_can_be_listed(s.tiles());
    lists::first_given_from(tiles.len(), s.expulsion());
    let k = choose|k: int| 0 <= k < tiles.len() && #[trigger] s.expulsion()(k) == s.expel();
    let c = tiles[k];
    crate::plan_laws::expelled_windows_are_there(s, c);
    let id = s.last_managed(c);
    let p = crate::planner::has_value(id);
    let e = choose|e: int| 0 <= e < s.resolved.len() && (#[trigger] s.resolved[e]).1 == id;
    if lists::first_where(s.resolved, p) is None {
        lists::first_is_none(s.resolved, p);
        assert(!p(s.resolved[e]));
    }
    lists::first_holds(s.resolved, p);
    let f = lists::first_where(s.resolved, p)->0;
    assert(s.resolved[f] == (crate::planner::name_of(s.resolved, id), id));
    let x = choose|x: int|
        0 <= x < s.tiles().len() && #[trigger] s.tiles()[x] == Some(c) && s.observed.windows[x].id
            == id;
    let m = lists::members(s.tiles(), c);
    lists::members_are(s.tiles(), c);
    let y = if m[0] == x {
        m[1]
    } else {
        m[0]
    };
    assert(m[0] < m[1]);
    assert(m.contains(m[0]) && m.contains(m[1]));
    assert(s.tiles()[y] == Some(c));
    assert(stand_together(s, x, y));
    assert(is_expelled_rightly(s, s.expel()->0, x, y));
}

/// Each observed window has an identifier of its own.
pub open spec fn has_distinct_ids(windows: Seq<RuntimeView>) -> bool {
    forall|i: int, j: int|
        0 <= i < j < windows.len() ==> (#[trigger] windows[i]).id != (#[trigger] windows[j]).id
}

/// The binding of a logical window is the one that is looked at.
pub proof fn about_is_bound(s: Scene, k: int, j: int)
    requires
        names::names_ascend(s.resolved),
        has_distinct_ids(s.observed.windows),
        is_about(s, k, j),
    ensures
        s.place(k) == Some(j),
        s.bound(k) == Some(s.observed.windows[j]),
{
    let name = s.recipe.windows[k].name;
    let id = s.observed.windows[j].id;
    let e = choose|e: int| 0 <= e < s.resolved.len() && s.resolved[e] == (name, id);
    names::lookup_is(s.resolved, e);
    let p = model::has_id(id);
    assert forall|i: int| 0 <= i < j implies !p(#[trigger] s.observed.windows[i]) by {}
    lists::first_is(s.observed.windows, p, j);
}

/// Every bound window that is not on the workspace is moved there first.
pub proof fn strays_are_brought_back(s: Scene, with_displays: bool, k: int, j: int)
    requires
        names::names_ascend(s.resolved),
        has_distinct_ids(s.observed.windows),
        is_about(s, k, j),
        s.observed.windows[j].workspace_id != Some(s.workspace_id),
    ensures
        s.plan(with_displays).contains(
            ActionView::MoveToWorkspace {
                name: s.recipe.windows[k].name,
                window_id: s.observed.windows[j].id,
                from: s.observed.windows[j].workspace_id,
                to: s.workspace_id,
            },
        ),
{
    about_is_bound(s, k, j);
    let a = s.workspace_move()(k)->0;
    assert(s.workspace_move()(k) == Some(a));
    lists::gather_contains(s.recipe.windows.len(), s.workspace_move(), a);
    assert(s.moves().contains(a));
}

/// Where all bound windows are on the workspace, every one that floats and is not
/// to, or is to float and does not, is changed to what the recipe declares.
pub proof fn floating_is_put_right(s: Scene, with_displays: bool, k: int, j: int)
    requires
        names::names_ascend(s.resolved),
        has_distinct_ids(s.observed.windows),
        is_about(s, k, j),
        s.observed.windows[j].is_floating != s.recipe.windows[k].layout.floating,
        forall|k2: int, j2: int| #[trigger]
            is_about(s, k2, j2) ==> s.observed.windows[j2].workspace_id == Some(s.workspace_id),
    ensures
        s.plan(with_displays).contains(
            ActionView::SetFloating {
                name: s.recipe.windows[k].name,
                window_id: s.observed.windows[j].id,
                floating: s.recipe.windows[k].layout.floating,
            },
        ),
{
    about_is_bound(s, k, j);
    let n = s.recipe.windows.len();
    assert forall|x: int| 0 <= x < n implies (#[trigger] s.workspace_move()(x)) is None by {
        if s.bound(x) is Some {
            bound_is_about(s, x);
        }
    }
    lists::gather_is_empty(n, s.workspace_move());
    let a = s.floating_change()(k)->0;
    assert(s.floating_change()(k) == Some(a));
    lists::gather_contains(n, s.floating_change(), a);
    assert(s.floats().contains(a));
}

/// Logical window `k` is bound to an observed window, which knows its place in its
/// column where it is to be tiled.
pub open spec fn is_open(s: Scene, k: int) -> bool {
    exists|j: int| #[trigger]
        is_about(s, k, j) && (s.recipe.windows[k].layout.floating
            || s.observed.windows[j].tile_index is Some)
}

/// Where nothing is planned, every logical window is as the recipe declares it: on
/// the workspace, floating or tiled, in its column, behind as many windows as stand
/// above it, with the height that it declares, and with the focus if it is to have
/// it. The first window of a column has the width that is first declared for it.
pub proof fn nothing_planned_means_as_declared(s: Scene, k: int, j: int)
    requires
        names::names_ascend(s.resolved),
        has_distinct_ids(s.observed.windows),
        s.plan(false).len() == 0,
        is_about(s, k, j),
        forall|x: int| 0 <= x < s.recipe.windows.len() ==> #[trigger] is_open(s, x),
    ensures
        ({
            let w = s.recipe.windows[k].layout;
            let o = s.observed.windows[j];
            &&& o.workspace_id == Some(s.workspace_id)
            &&& o.is_floating == w.floating
            &&& !w.floating ==> o.column == Some(w.column) && o.tile_index is Some
                && o.tile_index->0 == above(s.recipe.windows, k, k as nat) + 1
            &&& w.window_height is Some ==> s.fits[k][j].height
            &&& !w.floating && is_topmost(s.recipe.windows, k) ==> forall|d: int|
                #[trigger] is_width_giver(s.recipe.windows, d, k) ==> s.fits[d][j].width
            &&& s.recipe.focus == Some(s.recipe.windows[k].name) ==> exists|f: int| #[trigger]
                is_focused_first(s.observed.windows, f) && s.observed.windows[f].id == o.id
        }),
{
    let n = s.recipe.windows.len();
    assert forall|x: int| 0 <= x < n implies (#[trigger] s.bound(x)) is Some && (
    s.recipe.windows[x].layout.floating || s.bound(x)->0.tile_index is Some) by {
        assert(is_open(s, x));
        let y = choose|y: int| #[trigger]
            is_about(s, x, y) && (s.recipe.windows[x].layout.floating
                || s.observed.windows[y].tile_index is Some);
        about_is_bound(s, x, y);
    }
    crate::plan_laws::empty_plan_means_settled(s);
    about_is_bound(s, k, j);
    assert(s.bound(k) is Some);
    let w = s.recipe.windows[k].layout;
    if !w.floating {
        let c = w.column;
        let m = s.stack(c);
        lists::members_are(s.keys(), c);
        assert(s.keys()[k] == Some(c));
        assert(lists::is_key(s.keys(), c));
        assert(m.contains(k));
        let x = choose|x: int| 0 <= x < m.len() && m[x] == k;
        stack_is_ranked(s, c, x);
        assert(s.bound(s.stack(c)[x]) == Some(s.observed.windows[j]));
        if is_topmost(s.recipe.windows, k) {
            assert(s.column_has_width(c));
            assert forall|d: int| #[trigger] is_width_giver(s.recipe.windows, d, k) implies s.fits[d][j].width by {
                assert(s.keys()[d] == Some(c));
                assert(m.contains(d));
                let y = choose|y: int| 0 <= y < m.len() && m[y] == d;
                assert forall|z: int| 0 <= z < y implies !s.declares_width()(#[trigger] m[z]) by {
                    assert(m.contains(m[z]));
                    assert(m[z] < m[y]);
                    assert(share_a_column(s.recipe.windows, m[z], k));
                }
                lists::first_is(m, s.declares_width(), y);
            }
        }
    }
    if s.recipe.focus == Some(s.recipe.windows[k].name) {
        assert(s.has_focus());
        lists::first_holds(s.observed.windows, model::focused());
        let f = lists::first_where(s.observed.windows, model::focused())->0;
        assert(is_focused_first(s.observed.windows, f));
    }
}

/// Logical window `d` is the first of the column of window `k` that declares a width.
pub open spec fn is_width_giver(windows: Seq<WindowView>, d: int, k: int) -> bool {
    &&& 0 <= d < windows.len() && share_a_column(windows, d, k)
    &&& windows[d].layout.column_width is Some
    &&& forall|e: int|
        0 <= e < d && #[trigger] share_a_column(windows, e, k)
            ==> windows[e].layout.column_width is None
}

} // verus!
