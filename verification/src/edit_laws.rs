//! What holds of every edited recipe.
use crate::config;
use crate::config_laws;
use crate::editing;
use crate::lists;
use crate::model::{RecipeView, WindowView};
use crate::planner;
use vstd::prelude::*;

verus! {

/// The number that a column gets is its rank among the tiled columns.
proof fn renumbered_is_rank(keys: Seq<Option<usize>>, c: usize)
    requires
        keys.len() <= usize::MAX,
        lists::is_key(keys, c),
    ensures
        1 <= editing::renumbered(keys, c) <= lists::sorted_keys(keys).len(),
        lists::sorted_keys(keys)[editing::renumbered(keys, c) - 1] == c,
{
    let s = lists::sorted_keys(keys);
    lists::keys_can_be_listed(keys);
    config_laws::distinct_keys_are_few(s, keys);
    assert(s.contains(c));
}

proof fn rank_names_column(keys: Seq<Option<usize>>, i: int)
    requires
        keys.len() <= usize::MAX,
        0 <= i < lists::sorted_keys(keys).len(),
    ensures
        lists::is_key(keys, lists::sorted_keys(keys)[i]),
        editing::renumbered(keys, lists::sorted_keys(keys)[i]) == i + 1,
{
    let s = lists::sorted_keys(keys);
    lists::keys_can_be_listed(keys);
    assert(s.contains(s[i]));
    renumbered_is_rank(keys, s[i]);
    let j = editing::renumbered(keys, s[i]) - 1;
    if j < i {
        assert(s[j] < s[i]);
    } else if i < j {
        assert(s[i] < s[j]);
    }
}

/// Renumbering keeps the order of the tiled columns: what stood left of a column
/// still does, and what stood together stays together.
pub proof fn renumbering_keeps_the_order(windows: Seq<WindowView>, i: int, j: int)
    requires
        windows.len() <= usize::MAX,
        0 <= i < windows.len(),
        0 <= j < windows.len(),
        !windows[i].layout.floating,
        !windows[j].layout.floating,
    ensures
        windows[i].layout.column < windows[j].layout.column
            <==> editing::normalized(windows)[i].layout.column
            < editing::normalized(windows)[j].layout.column,
        windows[i].layout.column == windows[j].layout.column
            <==> editing::normalized(windows)[i].layout.column
            == editing::normalized(windows)[j].layout.column,
{
    let keys = planner::column_keys(windows);
    let s = lists::sorted_keys(keys);
    lists::keys_can_be_listed(keys);
    let c = windows[i].layout.column;
    let d = windows[j].layout.column;
    assert(keys[i] == Some(c) && keys[j] == Some(d));
    assert(lists::is_key(keys, c) && lists::is_key(keys, d));
    renumbered_is_rank(keys, c);
    renumbered_is_rank(keys, d);
    let a = editing::renumbered(keys, c) - 1;
    let b = editing::renumbered(keys, d) - 1;
    if a < b {
        assert(s[a] < s[b]);
    } else if b < a {
        assert(s[b] < s[a]);
    }
}

/// Renumbering changes nothing but the numbers of columns.
pub proof fn renumbering_changes_columns_only(windows: Seq<WindowView>, i: int)
    requires
        0 <= i < windows.len(),
    ensures
        editing::normalized(windows).len() == windows.len(),
        editing::with_column(editing::normalized(windows)[i], windows[i].layout.column)
            == windows[i],
{
    assert(editing::with_column(editing::normalized(windows)[i], windows[i].layout.column)
        =~= windows[i]);
}

/// The tiled columns of a recipe are numbered from 1 without gaps.
pub open spec fn is_contiguous(windows: Seq<WindowView>) -> bool {
    config::counts_up(lists::sorted_keys(planner::column_keys(windows)))
}

/// After renumbering, the tiled columns are numbered from 1 without gaps.
pub proof fn renumbering_leaves_no_gaps(windows: Seq<WindowView>)
    requires
        windows.len() <= usize::MAX,
    ensures
        is_contiguous(editing::normalized(windows)),
{
    let keys = planner::column_keys(windows);
    let s = lists::sorted_keys(keys);
    let after = planner::column_keys(editing::normalized(windows));
    lists::keys_can_be_listed(keys);
    assert forall|d: usize| #[trigger] lists::is_key(after, d) <==> 1 <= d <= s.len() by {
        if lists::is_key(after, d) {
            let i = choose|i: int| 0 <= i < after.len() && after[i] == Some(d);
            let c = windows[i].layout.column;
            assert(keys[i] == Some(c));
            assert(lists::is_key(keys, c));
            renumbered_is_rank(keys, c);
        }
        if 1 <= d <= s.len() {
            rank_names_column(keys, d - 1);
            let c = s[d - 1];
            let i = choose|i: int| 0 <= i < keys.len() && keys[i] == Some(c);
            assert(windows[i].layout.column == c);
            assert(after[i] == Some(d));
        }
    }
    assert(config_laws::groups_are_up_to(after, s.len()));
    config_laws::contiguous_keys(after);
}

/// Renumbering twice is renumbering once.
pub proof fn renumbering_is_idempotent(windows: Seq<WindowView>)
    requires
        windows.len() <= usize::MAX,
    ensures
        editing::normalized(editing::normalized(windows)) == editing::normalized(windows),
{
    let once = editing::normalized(windows);
    let keys = planner::column_keys(once);
    let s = lists::sorted_keys(keys);
    renumbering_leaves_no_gaps(windows);
    lists::keys_can_be_listed(keys);
    config_laws::contiguous_keys(keys);
    config_laws::distinct_keys_are_few(s, keys);
    assert forall|i: int| 0 <= i < once.len() implies editing::renumbered(
        keys,
        (#[trigger] once[i]).layout.column,
    ) == once[i].layout.column by {
        let c = once[i].layout.column;
        if lists::is_key(keys, c) {
            renumbered_is_rank(keys, c);
        }
    }
    assert(editing::normalized(once) =~= once) by {
        assert forall|i: int| 0 <= i < once.len() implies editing::normalized(once)[i] == once[i] by {
            assert(editing::normalized(once)[i] =~= once[i]);
        }
    }
}

/// Every change of the layout leaves the tiled columns numbered from 1 without
/// gaps: dropping a window on another, giving it a column of its own, letting it
/// float or tiling it again, and taking it out.
pub proof fn edits_leave_no_gaps(
    r: RecipeView,
    name: Seq<char>,
    target: Seq<char>,
    after: bool,
    floating: bool,
    column: usize,
    i: int,
)
    requires
        0 <= i < r.windows.len() <= usize::MAX,
    ensures
        match editing::dropped(r.windows, name, target, after) {
            Some(windows) => is_contiguous(windows),
            None => true,
        },
        is_contiguous(
            editing::normalized(r.windows.update(i, editing::alone(r.windows[i], column))),
        ),
        is_contiguous(
            editing::normalized(r.windows.update(i, editing::floated(r.windows[i], floating))),
        ),
        is_contiguous(editing::without_window(r, i).windows),
{
    renumbering_leaves_no_gaps(r.windows.update(i, editing::alone(r.windows[i], column)));
    renumbering_leaves_no_gaps(r.windows.update(i, editing::floated(r.windows[i], floating)));
    renumbering_leaves_no_gaps(r.windows.remove(i));
    if editing::dropped(r.windows, name, target, after) is Some {
        let k = editing::place_named(r.windows, name)->0;
        lists::first_holds(r.windows, editing::has_name(name));
        let rest = r.windows.remove(k);
        let j = editing::place_named(rest, target)->0;
        lists::first_holds(rest, editing::has_name(target));
        let at = if after {
            j + 1
        } else {
            j
        };
        renumbering_leaves_no_gaps(rest.insert(at, editing::joining(r.windows[k], rest[j])));
    }
}

/// Where no two windows share a name, taking a window out leaves none of its
/// name, and the focus of the recipe, if it was on one of its windows, is on one
/// of them still or gone.
pub proof fn removal_takes_the_focus_along(r: RecipeView, i: int)
    requires
        0 <= i < r.windows.len(),
        forall|a: int, b: int|
            0 <= a < b < r.windows.len() ==> (#[trigger] r.windows[a]).name != (
            #[trigger] r.windows[b]).name,
        r.focus is Some ==> config::names_window(r.windows, r.focus->0),
    ensures
        !config::names_window(editing::without_window(r, i).windows, r.windows[i].name),
        editing::without_window(r, i).focus is Some ==> config::names_window(
            editing::without_window(r, i).windows,
            r.focus->0,
        ),
{
    let rest = r.windows.remove(i);
    let out = editing::normalized(rest);
    assert forall|k: int| 0 <= k < out.len() implies (#[trigger] out[k]).name
        != r.windows[i].name by {
        assert(out[k].name == rest[k].name);
        if k < i {
            assert(rest[k] == r.windows[k]);
        } else {
            assert(rest[k] == r.windows[k + 1]);
        }
    }
    if r.focus is Some && r.focus->0 != r.windows[i].name {
        let k = choose|k: int| 0 <= k < r.windows.len() && (#[trigger] r.windows[k]).name == r.focus->0;
        let at = if k < i {
            k
        } else {
            k - 1
        };
        assert(rest[at] == r.windows[k]);
        assert(out[at].name == r.focus->0);
    }
}

} // verus!
