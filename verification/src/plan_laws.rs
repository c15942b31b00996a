//! What holds of every reconcile plan.
use crate::lists;
use crate::model;
use crate::names;
use crate::planner;
use crate::planner::{ActionView, Scene};
use vstd::prelude::*;

verus! {

/// The window that an action is about.
pub open spec fn target(a: ActionView) -> u64 {
    match a {
        ActionView::MoveToWorkspace { window_id, .. } => window_id,
        ActionView::SetFloating { window_id, .. } => window_id,
        ActionView::ExpelRight { window_id, .. } => window_id,
        ActionView::MoveColumnToIndex { window_id, .. } => window_id,
        ActionView::ConsumeLeft { window_id, .. } => window_id,
        ActionView::MoveWindowUp { window_id, .. } => window_id,
        ActionView::MoveWindowDown { window_id, .. } => window_id,
        ActionView::SetColumnWidth { window_id, .. } => window_id,
        ActionView::SetWindowHeight { window_id, .. } => window_id,
        ActionView::SetColumnDisplay { window_id, .. } => window_id,
        ActionView::Focus { window_id, .. } => window_id,
    }
}

impl Scene {
    /// Every logical window is bound to a window that is there.
    pub open spec fn is_complete(self) -> bool {
        forall|i: int| 0 <= i < self.recipe.windows.len() ==> (#[trigger] self.bound(i)) is Some
    }

    /// The observed windows are just where the recipe wants them, except for the
    /// display of columns, which cannot be observed.
    pub open spec fn is_settled(self) -> bool {
        &&& self.is_complete()
        &&& forall|i: int|
            0 <= i < self.recipe.windows.len() ==> (#[trigger] self.bound(i))->0.workspace_id
                == Some(self.workspace_id) && self.bound(i)->0.is_floating
                == self.recipe.windows[i].layout.floating
        &&& forall|c: usize| #[trigger] lists::is_key(self.tiles(), c) ==> !self.is_wrong_group(c)
        &&& forall|c: usize, k: int|
            #![trigger self.stack(c)[k]]
            0 <= k < self.stack(c).len() ==> {
                let w = self.bound(self.stack(c)[k])->0;
                w.column == Some(c) && w.tile_index is Some && w.tile_index->0 == k + 1
            }
        &&& forall|c: usize|
            #[trigger] lists::is_key(self.keys(), c) ==> self.column_has_width(c)
        &&& forall|i: int|
            0 <= i < self.recipe.windows.len() && self.recipe.windows[i].layout.window_height is Some
                ==> self.fits[i][(#[trigger] self.place(i))->0].height
        &&& self.has_focus()
    }

    /// Where a logical window of column `c` declares a width, the first of them
    /// decides, and the column's first window has that width.
    pub open spec fn column_has_width(self, c: usize) -> bool {
        match lists::find(self.stack(c), self.declares_width()) {
            Some(i) => self.fits[i][self.place(self.stack(c)[0])->0].width,
            None => true,
        }
    }

    /// The window that the recipe wants to have the focus has it.
    pub open spec fn has_focus(self) -> bool {
        match self.recipe.focus {
            Some(name) => match names::lookup(self.resolved, name) {
                Some(id) => self.observed.focused_window_id() == Some(id),
                None => true,
            },
            None => true,
        }
    }
}

/// A layout that is as declared needs nothing, however often it is looked at;
/// only the displays of columns, which cannot be observed, are set again where
/// that is asked for.
pub proof fn settled_layout_needs_nothing(s: Scene)
    requires
        s.is_settled(),
    ensures
        s.plan(false).len() == 0,
        s.plan(true) == s.displays(),
{
    let n = s.recipe.windows.len();
    assert forall|i: int| 0 <= i < n implies (#[trigger] s.workspace_move()(i)) is None by {
        assert(s.bound(i) is Some);
    }
    lists::gather_is_empty(n, s.workspace_move());
    assert forall|i: int| 0 <= i < n implies (#[trigger] s.floating_change()(i)) is None by {
        assert(s.bound(i) is Some);
    }
    lists::gather_is_empty(n, s.floating_change());
    let tiles = lists::sorted_keys(s.tiles());
    keys_are_listed(s.tiles());
    assert forall|k: int| 0 <= k < tiles.len() implies (#[trigger] s.expulsion()(k)) is None by {
        assert(tiles.contains(tiles[k]));
        assert(lists::is_key(s.tiles(), tiles[k]));
    }
    lists::first_given_none(tiles.len(), s.expulsion());
    let columns = s.columns();
    keys_are_listed(s.keys());
    assert forall|x: int| 0 <= x < columns.len() implies (#[trigger] s.column_step()(x)) is None by {
        let c = columns[x];
        assert(columns.contains(c));
        column_is_in_order(s, c);
    }
    lists::first_given_none(columns.len(), s.column_step());
    assert forall|x: int| 0 <= x < columns.len() implies (#[trigger] s.width_change()(x)) is None by {
        let c = columns[x];
        assert(columns.contains(c));
        assert(lists::is_key(s.keys(), c));
        assert(s.column_has_width(c));
    }
    lists::first_given_none(columns.len(), s.width_change());
    assert forall|i: int| 0 <= i < n implies (#[trigger] s.height_change()(i)) is None by {
        if s.place(i) is Some {
        }
    }
    lists::first_given_none(n, s.height_change());
    assert(s.focus_change() =~= Seq::empty());
    assert(s.displays() + s.focus_change() =~= s.displays());
}

/// The groups of `keys` can be listed.
proof fn keys_are_listed(keys: Seq<Option<usize>>)
    ensures
        lists::lists_keys(lists::sorted_keys(keys), keys),
{
    lists::keys_can_be_listed(keys);
}

proof fn column_is_in_order(s: Scene, c: usize)
    requires
        s.is_settled(),
        lists::is_key(s.keys(), c),
    ensures
        s.stack(c).len() > 0,
        s.bound(s.stack(c)[0]) is Some,
        s.bound(s.stack(c)[0])->0.column == Some(c),
        s.is_stacked(c),
        lists::first_given(s.stack(c).len(), s.tile_step(c)) is None,
{
    let m = s.stack(c);
    lists::members_are(s.keys(), c);
    let i0 = choose|i: int| 0 <= i < s.keys().len() && s.keys()[i] == Some(c);
    assert(m.contains(i0));
    assert forall|k: int| 0 <= k < m.len() implies 0 <= (#[trigger] m[k]) < s.recipe.windows.len() by {
        assert(m.contains(m[k]));
    }
    assert(s.bound(m[0]) is Some);
    assert forall|i: int| #[trigger] m.contains(i) implies s.column_of(i) == Some(c) by {
        let k = choose|k: int| 0 <= k < m.len() && m[k] == i;
        assert(s.bound(s.stack(c)[k]) is Some);
    }
    assert forall|k: int| 0 <= k < m.len() implies (#[trigger] s.tile_step(c)(k)) is None by {
        assert(s.bound(s.stack(c)[k]) is Some);
    }
    lists::first_given_none(m.len(), s.tile_step(c));
}

/// Where every logical window is there, and every tiled one knows its place in its
/// column, an empty plan means that the layout is as declared.
pub proof fn empty_plan_means_settled(s: Scene)
    requires
        s.is_complete(),
        forall|i: int|
            0 <= i < s.recipe.windows.len() && !s.recipe.windows[i].layout.floating ==> (
            #[trigger] s.bound(i))->0.tile_index is Some,
        s.plan(false).len() == 0,
    ensures
        s.is_settled(),
{
    let n = s.recipe.windows.len();
    lists::gather_is_empty(n, s.workspace_move());
    lists::gather_is_empty(n, s.floating_change());
    assert forall|i: int| 0 <= i < n implies (#[trigger] s.bound(i))->0.workspace_id == Some(
        s.workspace_id,
    ) && s.bound(i)->0.is_floating == s.recipe.windows[i].layout.floating by {
        assert(s.workspace_move()(i) is None);
        assert(s.floating_change()(i) is None);
    }
    let tiles = lists::sorted_keys(s.tiles());
    keys_are_listed(s.tiles());
    lists::first_given_none(tiles.len(), s.expulsion());
    assert forall|c: usize| #[trigger] lists::is_key(s.tiles(), c) implies !s.is_wrong_group(c) by {
        assert(tiles.contains(c));
        let k = choose|k: int| 0 <= k < tiles.len() && tiles[k] == c;
        assert(s.expulsion()(k) is None);
    }
    let columns = s.columns();
    keys_are_listed(s.keys());
    assert forall|x: int| 0 <= x < columns.len() implies (#[trigger] s.column_step()(x)) != Some(
        None::<ActionView>,
    ) by {
        assert(columns.contains(columns[x]));
        judged_columns_act(s, columns[x]);
    }
    if lists::first_given(columns.len(), s.column_step()) is Some {
        lists::first_given_from(columns.len(), s.column_step());
    }
    lists::first_given_none(columns.len(), s.column_step());
    lists::first_given_none(columns.len(), s.width_change());
    assert forall|c: usize, k: int|
        #![trigger s.stack(c)[k]]
        0 <= k < s.stack(c).len() implies {
        let w = s.bound(s.stack(c)[k])->0;
        w.column == Some(c) && w.tile_index is Some && w.tile_index->0 == k + 1
    } by {
        lists::members_are(s.keys(), c);
        assert(s.stack(c).contains(s.stack(c)[k]));
        assert(lists::is_key(s.keys(), c));
        assert(columns.contains(c));
        let x = choose|x: int| 0 <= x < columns.len() && columns[x] == c;
        assert(s.column_step()(x) is None);
        quiet_column_is_in_order(s, c, k);
    }
    assert forall|c: usize| #[trigger] lists::is_key(s.keys(), c) implies s.column_has_width(c) by {
        assert(columns.contains(c));
        let x = choose|x: int| 0 <= x < columns.len() && columns[x] == c;
        assert(s.width_change()(x) is None);
        lists::members_are(s.keys(), c);
        let i0 = choose|i: int| 0 <= i < s.keys().len() && s.keys()[i] == Some(c);
        assert(s.stack(c).contains(i0));
        assert(s.stack(c).contains(s.stack(c)[0]));
        assert(s.bound(s.stack(c)[0]) is Some);
    }
    lists::first_given_none(n, s.height_change());
    assert forall|i: int|
        0 <= i < n && s.recipe.windows[i].layout.window_height is Some implies s.fits[i][(
    #[trigger] s.place(i))->0].height by {
        assert(s.height_change()(i) is None);
        assert(s.bound(i) is Some);
    }
}

/// A column whose windows are all there, with their places known, is never left
/// unjudged.
proof fn judged_columns_act(s: Scene, c: usize)
    requires
        s.is_complete(),
        forall|i: int|
            0 <= i < s.recipe.windows.len() && !s.recipe.windows[i].layout.floating ==> (
            #[trigger] s.bound(i))->0.tile_index is Some,
        lists::is_key(s.keys(), c),
    ensures
        s.stack(c).len() > 0,
        s.bound(s.stack(c)[0]) is Some,
        lists::first_given(s.stack(c).len(), s.tile_step(c)) != Some(None::<ActionView>),
        lists::first_given(s.stack(c).len(), s.join_step(c)) != Some(None::<ActionView>),
{
    let m = s.stack(c);
    lists::members_are(s.keys(), c);
    let i0 = choose|i: int| 0 <= i < s.keys().len() && s.keys()[i] == Some(c);
    assert(m.contains(i0));
    assert forall|k: int| 0 <= k < m.len() implies (#[trigger] s.bound(m[k])) is Some
        && s.bound(m[k])->0.tile_index is Some by {
        assert(m.contains(m[k]));
    }
    assert(s.bound(m[0]) is Some);
    if lists::first_given(m.len(), s.tile_step(c)) is Some {
        lists::first_given_from(m.len(), s.tile_step(c));
        let k = choose|k: int|
            0 <= k < m.len() && #[trigger] s.tile_step(c)(k) == lists::first_given(
                m.len(),
                s.tile_step(c),
            );
        assert(s.bound(m[k]) is Some);
    }
    if lists::first_given(m.len(), s.join_step(c)) is Some {
        lists::first_given_from(m.len(), s.join_step(c));
        let k = choose|k: int|
            0 <= k < m.len() && #[trigger] s.join_step(c)(k) == lists::first_given(
                m.len(),
                s.join_step(c),
            );
        assert(s.bound(m[k]) is Some);
    }
}

proof fn quiet_column_is_in_order(s: Scene, c: usize, k: int)
    requires
        s.is_complete(),
        forall|i: int|
            0 <= i < s.recipe.windows.len() && !s.recipe.windows[i].layout.floating ==> (
            #[trigger] s.bound(i))->0.tile_index is Some,
        lists::is_key(s.keys(), c),
        0 <= k < s.stack(c).len(),
        exists|x: int|
            0 <= x < s.columns().len() && s.columns()[x] == c && (#[trigger] s.column_step()(x)) is None,
    ensures
        s.bound(s.stack(c)[k])->0.column == Some(c),
        s.bound(s.stack(c)[k])->0.tile_index is Some,
        s.bound(s.stack(c)[k])->0.tile_index->0 == k + 1,
{
    let m = s.stack(c);
    lists::members_are(s.keys(), c);
    judged_columns_act(s, c);
    assert forall|x: int| 0 <= x < m.len() implies (#[trigger] s.bound(m[x])) is Some by {
        assert(m.contains(m[x]));
    }
    if s.is_stacked(c) {
        lists::first_given_none(m.len(), s.tile_step(c));
        assert(s.tile_step(c)(k) is None);
        assert(m.contains(m[k]));
        assert(s.column_of(m[k]) == Some(c));
        assert(s.bound(m[k]) is Some);
    } else {
        let i = choose|i: int| #[trigger] m.contains(i) && s.column_of(i) != Some(c);
        let x = choose|x: int| 0 <= x < m.len() && m[x] == i;
        lists::first_given_none(m.len(), s.join_step(c));
        assert(s.join_step(c)(x) is None);
        assert(s.bound(m[x]) is Some);
        assert(false);
    }
}

/// A plan only ever touches windows that a logical window is bound to.
pub proof fn plans_touch_managed_windows_only(s: Scene, with_displays: bool, i: int)
    requires
        0 <= i < s.plan(with_displays).len(),
    ensures
        planner::is_managed(s.resolved, target(s.plan(with_displays)[i])),
{
    let a = s.plan(with_displays)[i];
    let n = s.recipe.windows.len();
    let columns = s.columns();
    keys_are_listed(s.keys());
    keys_are_listed(s.tiles());
    assert forall|k: int| #[trigger] s.bound(k) is Some implies planner::is_managed(
        s.resolved,
        s.bound(k)->0.id,
    ) by {
        bound_is_managed(s, k);
    }
    if s.moves().len() > 0 {
        assert(s.moves().contains(a));
        lists::gather_contains(n, s.workspace_move(), a);
    } else if s.floats().len() > 0 {
        assert(s.floats().contains(a));
        lists::gather_contains(n, s.floating_change(), a);
    } else if s.expel() is Some {
        let tiles = lists::sorted_keys(s.tiles());
        lists::first_given_from(tiles.len(), s.expulsion());
        let k = choose|k: int| 0 <= k < tiles.len() && #[trigger] s.expulsion()(k) == s.expel();
        wrong_group_has_last(s, tiles[k]);
    } else if s.column_action() is Some {
        lists::first_given_from(columns.len(), s.column_step());
        let x = choose|x: int|
            0 <= x < columns.len() && #[trigger] s.column_step()(x) == lists::first_given(
                columns.len(),
                s.column_step(),
            );
        column_step_is_managed(s, x);
    } else if s.width() is Some {
        lists::first_given_from(columns.len(), s.width_change());
        let x = choose|x: int| 0 <= x < columns.len() && #[trigger] s.width_change()(x) == s.width();
        assert(s.bound(s.stack(columns[x])[0]) is Some);
    } else if s.height() is Some {
        lists::first_given_from(n, s.height_change());
        let x = choose|x: int| 0 <= x < n && #[trigger] s.height_change()(x) == s.height();
        assert(s.bound(x) is Some);
    } else {
        let shown = if with_displays {
            s.displays()
        } else {
            Seq::empty()
        };
        if i < shown.len() {
            assert(shown.contains(a));
            lists::gather_contains(columns.len(), s.display_change(), a);
            let x = choose|x: int|
                0 <= x < columns.len() && #[trigger] s.display_change()(x) == Some(a);
            names::lookup_finds(s.resolved, s.recipe.windows[s.stack(columns[x])[0]].name);
        } else {
            assert(a == s.focus_change()[0]);
            names::lookup_finds(s.resolved, s.recipe.focus->0);
        }
    }
}

proof fn bound_is_managed(s: Scene, i: int)
    requires
        s.bound(i) is Some,
    ensures
        planner::is_managed(s.resolved, s.bound(i)->0.id),
{
    let name = s.recipe.windows[i].name;
    names::lookup_finds(s.resolved, name);
    let id = names::lookup(s.resolved, name)->0;
    lists::first_holds(s.observed.windows, model::has_id(id));
}

proof fn column_step_is_managed(s: Scene, x: int)
    requires
        s.column_step()(x) is Some,
        s.column_step()(x)->0 is Some,
    ensures
        planner::is_managed(s.resolved, target(s.column_step()(x)->0->0)),
{
    let c = s.columns()[x];
    let m = s.stack(c);
    bound_is_managed(s, m[0]);
    if s.bound(m[0])->0.column == Some(c) {
        if s.is_stacked(c) {
            lists::first_given_from(m.len(), s.tile_step(c));
            let k = choose|k: int|
                0 <= k < m.len() && #[trigger] s.tile_step(c)(k) == lists::first_given(
                    m.len(),
                    s.tile_step(c),
                );
            bound_is_managed(s, m[k]);
        } else {
            lists::first_given_from(m.len(), s.join_step(c));
            let k = choose|k: int|
                0 <= k < m.len() && #[trigger] s.join_step(c)(k) == lists::first_given(
                    m.len(),
                    s.join_step(c),
                );
            bound_is_managed(s, m[k]);
        }
    }
}

proof fn wrong_group_has_last(s: Scene, c: usize)
    requires
        s.is_wrong_group(c),
    ensures
        s.is_last_managed(c, s.last_managed(c)),
{
    let ids = s.current_group(c);
    let id = choose|id: u64| #[trigger] ids.contains(id) && planner::is_managed(s.resolved, id);
    greatest_exists(s, c, id);
}

/// The window that is taken out of a wrong group is bound, and stands there.
pub proof fn expelled_windows_are_there(s: Scene, c: usize)
    requires
        s.is_wrong_group(c),
    ensures
        s.is_last_managed(c, s.last_managed(c)),
        lists::members(s.tiles(), c).len() >= 2,
{
    wrong_group_has_last(s, c);
}

proof fn greatest_exists(s: Scene, c: usize, id: u64)
    requires
        s.current_group(c).contains(id),
        planner::is_managed(s.resolved, id),
    ensures
        exists|best: u64| s.is_last_managed(c, best),
    decreases u64::MAX - id,
{
    if forall|other: u64| #[trigger]
        s.current_group(c).contains(other) && planner::is_managed(s.resolved, other) ==> other
            <= id {
        assert(s.is_last_managed(c, id));
    } else {
        let other = choose|other: u64| #[trigger]
            s.current_group(c).contains(other) && planner::is_managed(s.resolved, other) && other
                > id;
        greatest_exists(s, c, other);
    }
}

/// A plan keeps to one stage: only moves to the workspace, or only changes
/// between tiled and floating, or one action that puts a group, a column or a
/// size right, or the displays and then the focus. Displays are set only where
/// that is asked for.
pub proof fn plans_keep_to_one_stage(s: Scene, with_displays: bool)
    ensures
        ({
            let p = s.plan(with_displays);
            ||| forall|i: int| 0 <= i < p.len() ==> (#[trigger] p[i]) is MoveToWorkspace
            ||| forall|i: int| 0 <= i < p.len() ==> (#[trigger] p[i]) is SetFloating
            ||| p.len() == 1 && !(p[0] is SetColumnDisplay) && !(p[0] is Focus)
            ||| forall|i: int|
                0 <= i < p.len() ==> (#[trigger] p[i]) is SetColumnDisplay && with_displays || (i
                    == p.len() - 1 && p[i] is Focus)
        }),
{
    let p = s.plan(with_displays);
    let n = s.recipe.windows.len();
    let columns = s.columns();
    if s.moves().len() > 0 {
        assert forall|i: int| 0 <= i < p.len() implies (#[trigger] p[i]) is MoveToWorkspace by {
            assert(s.moves().contains(p[i]));
            lists::gather_contains(n, s.workspace_move(), p[i]);
        }
    } else if s.floats().len() > 0 {
        assert forall|i: int| 0 <= i < p.len() implies (#[trigger] p[i]) is SetFloating by {
            assert(s.floats().contains(p[i]));
            lists::gather_contains(n, s.floating_change(), p[i]);
        }
    } else if s.expel() is Some {
        let tiles = lists::sorted_keys(s.tiles());
        lists::first_given_from(tiles.len(), s.expulsion());
    } else if s.column_action() is Some {
        lists::first_given_from(columns.len(), s.column_step());
        let x = choose|x: int|
            0 <= x < columns.len() && #[trigger] s.column_step()(x) == lists::first_given(
                columns.len(),
                s.column_step(),
            );
        let c = columns[x];
        let m = s.stack(c);
        if s.bound(m[0])->0.column == Some(c) {
            if s.is_stacked(c) {
                lists::first_given_from(m.len(), s.tile_step(c));
            } else {
                lists::first_given_from(m.len(), s.join_step(c));
            }
        }
    } else if s.width() is Some {
        lists::first_given_from(columns.len(), s.width_change());
    } else if s.height() is Some {
        lists::first_given_from(n, s.height_change());
    } else {
        assert forall|i: int| 0 <= i < p.len() implies (#[trigger] p[i]) is SetColumnDisplay
            && with_displays || (i == p.len() - 1 && p[i] is Focus) by {
            if with_displays && i < s.displays().len() {
                assert(s.displays().contains(p[i]));
                lists::gather_contains(columns.len(), s.display_change(), p[i]);
            }
        }
    }
}

/// Each declared column whose first window is bound gets its display just once, and
/// the columns come in ascending order.
pub proof fn each_display_is_set_once(s: Scene, c: usize)
    ensures
        forall|i: int, j: int|
            0 <= i < j < s.displays().len() ==> (#[trigger] s.displays()[i])->SetColumnDisplay_column
                < (#[trigger] s.displays()[j])->SetColumnDisplay_column,
        forall|i: int|
            0 <= i < s.displays().len() ==> (#[trigger] s.displays()[i]) is SetColumnDisplay,
        (exists|i: int|
            0 <= i < s.displays().len() && (#[trigger] s.displays()[i])->SetColumnDisplay_column == c)
            <==> lists::is_key(s.keys(), c) && lists::find(s.stack(c), s.declares_display()) is Some
            && names::lookup(s.resolved, s.recipe.windows[s.stack(c)[0]].name) is Some,
{
    let columns = s.columns();
    let f = s.display_change();
    let out = s.displays();
    let from = lists::gather(columns.len(), lists::given_at(f));
    keys_are_listed(s.keys());
    lists::gathered_from(columns.len(), f);
    assert forall|i: int| 0 <= i < out.len() implies (#[trigger] out[i]) is SetColumnDisplay
        && out[i]->SetColumnDisplay_column == columns[from[i]] && 0 <= from[i] < columns.len() by {
        assert(f(from[i]) == Some(out[i]));
    }
    assert forall|i: int, j: int| 0 <= i < j < out.len() implies (
    #[trigger] out[i])->SetColumnDisplay_column < (#[trigger] out[j])->SetColumnDisplay_column by {
        assert(from[i] < from[j]);
        assert(columns[from[i]] < columns[from[j]]);
    }
    if exists|i: int|
        0 <= i < out.len() && (#[trigger] out[i])->SetColumnDisplay_column == c {
        let i = choose|i: int|
            0 <= i < out.len() && (#[trigger] out[i])->SetColumnDisplay_column == c;
        assert(f(from[i]) == Some(out[i]));
        assert(columns.contains(c)) by {
            assert(columns[from[i]] == c);
        }
    }
    if lists::is_key(s.keys(), c) && lists::find(s.stack(c), s.declares_display()) is Some
        && names::lookup(s.resolved, s.recipe.windows[s.stack(c)[0]].name) is Some {
        assert(columns.contains(c));
        let k = choose|k: int| 0 <= k < columns.len() && columns[k] == c;
        assert(f(k) is Some);
        let g = lists::given_at(f);
        assert(g(k) == Some(k));
        lists::gather_contains(columns.len(), g, k);
        assert(from.contains(k));
        let i = choose|i: int| 0 <= i < from.len() && from[i] == k;
        assert(out[i]->SetColumnDisplay_column == c);
    }
}

} // verus!
