//! What is promised of changes to the layout of a recipe.
use crate::editing;
use crate::lists;
use crate::model::{ColumnDisplay, PlacementView, RecipeView, WindowView};
use crate::resolve_laws;
use crate::saving;
use vstd::prelude::*;

verus! {

/// Two logical windows differ at most in the number of their column.
pub open spec fn differ_in_column(a: WindowView, b: WindowView) -> bool {
    a == editing::with_column(b, a.layout.column)
}

/// They differ at most in where they belong.
pub open spec fn differ_in_layout(a: WindowView, b: WindowView) -> bool {
    a.name == b.name && a.command == b.command && a.match_spec == b.match_spec && a.reuse == b.reuse
}

/// Only columns differ where the number of the column is the only thing that is set.
pub proof fn columns_are_only_numbers(a: WindowView, b: WindowView)
    ensures
        differ_in_column(a, b) <==> differ_in_layout(a, b) && a.layout.floating
            == b.layout.floating && a.layout.column_width == b.layout.column_width
            && a.layout.window_height == b.layout.window_height && a.layout.display
            == b.layout.display && a.layout.output == b.layout.output,
{
    if differ_in_layout(a, b) && a.layout.floating == b.layout.floating && a.layout.column_width
        == b.layout.column_width && a.layout.window_height == b.layout.window_height
        && a.layout.display == b.layout.display && a.layout.output == b.layout.output {
        let c = editing::with_column(b, a.layout.column);
        assert(a.layout == c.layout);
        assert(a == c);
    }
}

proof fn renumbered_alike(windows: Seq<WindowView>, i: int)
    requires
        0 <= i < windows.len(),
    ensures
        editing::normalized(windows).len() == windows.len(),
        differ_in_column(editing::normalized(windows)[i], windows[i]),
{
}

/// `target` is at place `q` of the result and `dragged` at place `p`, right before it
/// or right behind it.
pub open spec fn lies_beside(
    out: Seq<WindowView>,
    dragged: Seq<char>,
    target: Seq<char>,
    after: bool,
    p: int,
    q: int,
) -> bool {
    &&& 0 <= p < out.len() && 0 <= q < out.len()
    &&& out[p].name == dragged && out[q].name == target
    &&& p == if after {
        q + 1
    } else {
        q - 1
    }
}

/// A window that is dropped on another one lies beside it, in its column: tiled, with
/// the display of that column and its own height, and without a width of its own.
/// All other windows stay in their order and are otherwise as they were.
pub proof fn dropped_windows_join_the_column(
    windows: Seq<WindowView>,
    i: int,
    t: int,
    after: bool,
)
    requires
        resolve_laws::has_distinct_names(windows),
        0 <= i < windows.len() <= usize::MAX,
        0 <= t < windows.len(),
        i != t,
    ensures
        ({
            let dragged = windows[i].name;
            let target = windows[t].name;
            match editing::dropped(windows, dragged, target, after) {
                Some(out) => out.len() == windows.len() && exists|p: int, q: int|
                    #![trigger lies_beside(out, dragged, target, after, p, q)]
                    {
                        &&& lies_beside(out, dragged, target, after, p, q)
                        &&& differ_in_layout(out[p], windows[i])
                        &&& !windows[t].layout.floating ==> out[p].layout.column
                            == out[q].layout.column
                        &&& !out[p].layout.floating
                        &&& out[p].layout.display == windows[t].layout.display
                        &&& out[p].layout.column_width is None
                        &&& out[p].layout.window_height == windows[i].layout.window_height
                        &&& out[p].layout.output == windows[i].layout.output
                        &&& forall|k: int|
                            0 <= k < windows.len() - 1 ==> differ_in_column(
                                out.remove(p)[k],
                                #[trigger] windows.remove(i)[k],
                            )
                    },
                None => false,
            }
        }),
{
    let dragged = windows[i].name;
    let target = windows[t].name;
    let rest = windows.remove(i);
    let j = if t < i {
        t
    } else {
        t - 1
    };
    assert(rest[j] == windows[t]);
    assert forall|k: int| 0 <= k < rest.len() implies #[trigger] rest[k] == if k < i {
        windows[k]
    } else {
        windows[k + 1]
    } by {}
    lists::first_is(windows, editing::has_name(dragged), i);
    assert(lists::is_first(rest, editing::has_name(target), j));
    lists::first_is(rest, editing::has_name(target), j);
    assert(windows[i].name != windows[t].name);
    let p = if after {
        j + 1
    } else {
        j
    };
    let q = if after {
        j
    } else {
        j + 1
    };
    let joined = rest.insert(p, editing::joining(windows[i], rest[j]));
    let out = editing::normalized(joined);
    assert(joined[p] == editing::joining(windows[i], rest[j]));
    assert(joined[q] == rest[j]);
    renumbered_alike(joined, p);
    renumbered_alike(joined, q);
    assert(editing::dropped(windows, dragged, target, after) == Some(out));
    assert(lies_beside(out, dragged, target, after, p, q));
    assert forall|k: int| 0 <= k < windows.len() - 1 implies differ_in_column(
        out.remove(p)[k],
        #[trigger] windows.remove(i)[k],
    ) by {
        let at = if k < p {
            k
        } else {
            k + 1
        };
        renumbered_alike(joined, at);
        assert(joined[at] == rest[k]);
        assert(out.remove(p)[k] == out[at]);
    }
}

/// There is nothing to drop where a window is dropped on itself, or where either is
/// not there.
pub proof fn some_drops_change_nothing(
    windows: Seq<WindowView>,
    dragged: Seq<char>,
    target: Seq<char>,
    after: bool,
)
    requires
        dragged == target || (forall|i: int|
            0 <= i < windows.len() ==> (#[trigger] windows[i]).name != dragged) || (forall|i: int|
            0 <= i < windows.len() ==> (#[trigger] windows[i]).name != target),
    ensures
        editing::dropped(windows, dragged, target, after) is None,
{
    lists::first_is_none(windows, editing::has_name(dragged));
    match editing::place_named(windows, dragged) {
        Some(i) => {
            lists::first_holds(windows, editing::has_name(dragged));
            let rest = windows.remove(i);
            lists::first_is_none(rest, editing::has_name(target));
            if editing::place_named(rest, target) is Some {
                lists::first_holds(rest, editing::has_name(target));
                let j = editing::place_named(rest, target)->0;
                assert(rest[j] == windows[if j < i {
                    j
                } else {
                    j + 1
                }]);
            }
        },
        None => {},
    }
}

/// The column behind all others is a free one: every other tiled window stands left of
/// it, and one of them right beside it, unless it is the first.
pub proof fn new_columns_are_the_last(windows: Seq<WindowView>, name: Seq<char>)
    ensures
        ({
            let c = editing::next_column(windows, name);
            &&& c >= 1
            &&& forall|i: int|
                0 <= i < windows.len() && !(#[trigger] windows[i]).layout.floating
                    && windows[i].name != name ==> windows[i].layout.column < c
            &&& c > 1 ==> exists|i: int|
                0 <= i < windows.len() && !(#[trigger] windows[i]).layout.floating
                    && windows[i].name != name && windows[i].layout.column == c - 1
        }),
{
    last_column_exists(windows, name, windows.len());
    let c = choose|c: int| c >= 0 && editing::is_last_column(windows, name, c);
    assert(windows.take(windows.len() as int) =~= windows);
    assert(c >= 0 && editing::is_last_column(windows, name, c));
}

proof fn last_column_exists(windows: Seq<WindowView>, name: Seq<char>, n: nat)
    requires
        n <= windows.len(),
    ensures
        exists|c: int| c >= 0 && #[trigger] editing::is_last_column(windows.take(n as int), name, c),
    decreases n,
{
    let s = windows.take(n as int);
    if n == 0 {
        assert(editing::is_last_column(s, name, 0));
    } else {
        last_column_exists(windows, name, (n - 1) as nat);
        let t = windows.take(n - 1);
        let c = choose|c: int| c >= 0 && #[trigger] editing::is_last_column(t, name, c);
        let w = windows[n - 1];
        assert(forall|i: int| 0 <= i < n - 1 ==> #[trigger] s[i] == t[i]);
        assert(forall|i: int| 0 <= i < n - 1 ==> s[i] == #[trigger] t[i]);
        assert(s[n - 1] == w);
        if !w.layout.floating && w.name != name && w.layout.column > c {
            assert(editing::is_last_column(s, name, w.layout.column as int));
        } else {
            assert(editing::is_last_column(s, name, c));
        }
    }
}

/// A window in a column of its own is tiled, takes no size and no display along, and
/// is otherwise as it was.
pub proof fn windows_alone_start_anew(w: WindowView, column: usize)
    ensures
        ({
            let out = editing::alone(w, column);
            &&& differ_in_layout(out, w)
            &&& out.layout.column == column
            &&& !out.layout.floating
            &&& out.layout.column_width is None && out.layout.window_height is None
            &&& out.layout.display is None
            &&& out.layout.output == w.layout.output
        }),
{
}

/// A window floats or is tiled as it is told. One that floats keeps no size and no
/// display, and one that is tiled keeps what it had.
pub proof fn windows_float_as_told(w: WindowView, floating: bool)
    ensures
        ({
            let out = editing::floated(w, floating);
            &&& differ_in_layout(out, w)
            &&& out.layout.floating == floating
            &&& out.layout.column == w.layout.column
            &&& out.layout.output == w.layout.output
            &&& floating ==> out.layout.column_width is None && out.layout.window_height is None
                && out.layout.display is None
            &&& !floating ==> out.layout.column_width == w.layout.column_width
                && out.layout.window_height == w.layout.window_height && out.layout.display
                == w.layout.display
        }),
{
}

/// Where a window is taken out, the others stay in their order and differ at most in
/// their columns. The focus stays, unless it was on that window. What comes into its
/// place is the window behind it, or the last one.
pub proof fn windows_are_taken_out(r: RecipeView, i: int)
    requires
        0 <= i < r.windows.len(),
    ensures
        ({
            let out = editing::without_window(r, i);
            let n = r.windows.len() - 1;
            &&& out.name == r.name && out.workspace == r.workspace && out.output == r.output
            &&& out.output_fallback == r.output_fallback && out.spawn_timeout_ms
                == r.spawn_timeout_ms
            &&& r.focus == Some(r.windows[i].name) ==> out.focus is None
            &&& r.focus != Some(r.windows[i].name) ==> out.focus == r.focus
            &&& out.windows.len() == n
            &&& forall|k: int|
                0 <= k < i ==> differ_in_column(out.windows[k], #[trigger] r.windows[k])
            &&& forall|k: int|
                i < k <= n ==> differ_in_column(out.windows[k - 1], #[trigger] r.windows[k])
            &&& i < n ==> editing::neighbour(out.windows, i) == Some(r.windows[i + 1].name)
            &&& i == n && n > 0 ==> editing::neighbour(out.windows, i) == Some(r.windows[n - 1].name)
            &&& n == 0 ==> editing::neighbour(out.windows, i) is None
        }),
{
    let rest = r.windows.remove(i);
    assert forall|k: int| 0 <= k < rest.len() implies differ_in_column(
        editing::normalized(rest)[k],
        #[trigger] rest[k],
    ) by {
        renumbered_alike(rest, k);
    }
    assert forall|k: int| 0 <= k < i implies differ_in_column(
        editing::without_window(r, i).windows[k],
        #[trigger] r.windows[k],
    ) by {
        assert(rest[k] == r.windows[k]);
    }
    assert forall|k: int| i < k <= r.windows.len() - 1 implies differ_in_column(
        editing::without_window(r, i).windows[k - 1],
        #[trigger] r.windows[k],
    ) by {
        assert(rest[k - 1] == r.windows[k]);
    }
    if i < r.windows.len() - 1 {
        assert(rest[i] == r.windows[i + 1]);
    } else if r.windows.len() > 1 {
        assert(rest[i - 1] == r.windows[i - 1]);
    }
}

/// The display of a column is set for its tiled windows, and for no other window.
pub proof fn displays_are_set_for_their_column(
    windows: Seq<WindowView>,
    column: usize,
    display: Option<ColumnDisplay>,
    i: int,
)
    requires
        0 <= i < windows.len(),
    ensures
        ({
            let out = editing::displayed(windows, column, display);
            let w = windows[i];
            &&& out.len() == windows.len()
            &&& w.layout.floating || w.layout.column != column ==> out[i] == w
            &&& !w.layout.floating && w.layout.column == column ==> out[i].layout.display == display
                && differ_in_layout(out[i], w) && out[i].layout == (PlacementView {
                display: out[i].layout.display,
                ..w.layout
            })
        }),
{
}

/// The windows of a selection are those that are kept, in their order, and differ at
/// most in their columns. The focus stays where its window does.
pub proof fn selections_hold_what_is_kept(r: RecipeView, included: Seq<bool>, i: int)
    requires
        included.len() == r.windows.len(),
        0 <= i < r.windows.len(),
    ensures
        ({
            let out = saving::selected(r, included);
            &&& out.name == r.name && out.workspace == r.workspace && out.output == r.output
            &&& out.output_fallback == r.output_fallback && out.spawn_timeout_ms
                == r.spawn_timeout_ms
            &&& included[i] ==> exists|k: int|
                0 <= k < out.windows.len() && differ_in_column(
                    #[trigger] out.windows[k],
                    r.windows[i],
                )
            &&& forall|k: int|
                0 <= k < out.windows.len() ==> is_kept(r, included, #[trigger] out.windows[k])
            &&& out.focus is Some ==> out.focus == r.focus
            &&& included[i] && r.focus == Some(r.windows[i].name) ==> out.focus == r.focus
        }),
{
    let kept = saving::kept(r.windows, included);
    let f = saving::kept_at(r.windows, included);
    let out = saving::selected(r, included);
    let n = r.windows.len();
    lists::gather_contains(n, f, r.windows[i]);
    assert forall|k: int| 0 <= k < kept.len() implies differ_in_column(
        out.windows[k],
        #[trigger] kept[k],
    ) by {}
    if included[i] {
        assert(f(i) == Some(r.windows[i]));
        let k = choose|k: int| 0 <= k < kept.len() && kept[k] == r.windows[i];
        assert(differ_in_column(out.windows[k], kept[k]));
    }
    assert forall|k: int| 0 <= k < out.windows.len() implies is_kept(
        r,
        included,
        #[trigger] out.windows[k],
    ) by {
        lists::gather_contains(n, f, kept[k]);
        assert(kept.contains(kept[k]));
        let j = choose|j: int| 0 <= j < n && #[trigger] f(j) == Some(kept[k]);
        assert(included[j] && differ_in_column(out.windows[k], r.windows[j]));
    }
}

/// The logical window is a kept one of the recipe, but for its column.
pub open spec fn is_kept(r: RecipeView, included: Seq<bool>, w: WindowView) -> bool {
    exists|j: int| 0 <= j < r.windows.len() && #[trigger] included[j] && differ_in_column(
        w,
        r.windows[j],
    )
}

/// A selection keeps the order of its windows.
pub proof fn selections_keep_the_order(r: RecipeView, included: Seq<bool>, a: int, b: int) -> (at: (
    int,
    int,
))
    requires
        included.len() == r.windows.len(),
        0 <= a < b < saving::selected(r, included).windows.len(),
    ensures
        0 <= at.0 < at.1 < r.windows.len(),
        included[at.0] && included[at.1],
        differ_in_column(saving::selected(r, included).windows[a], r.windows[at.0]),
        differ_in_column(saving::selected(r, included).windows[b], r.windows[at.1]),
{
    let f = saving::kept_at(r.windows, included);
    let n = r.windows.len();
    lists::gathered_from(n, f);
    let from = lists::gather(n, lists::given_at(f));
    assert(f(from[a]) is Some && f(from[b]) is Some);
    (from[a], from[b])
}

/// The columns of a selection are numbered in the order in which they come: a column
/// that first comes before another has the lower number.
pub proof fn selections_number_columns_as_they_come(windows: Seq<WindowView>, i: int, j: int)
    requires
        windows.len() <= usize::MAX,
        0 <= i < j < windows.len(),
        !windows[i].layout.floating,
        !windows[j].layout.floating,
        forall|k: int|
            0 <= k < j && !(#[trigger] windows[k]).layout.floating ==> windows[k].layout.column
                != windows[j].layout.column,
    ensures
        saving::compacted(windows)[i].layout.column < saving::compacted(windows)[j].layout.column,
{
    let keys = crate::planner::column_keys(windows);
    let n = keys.len();
    let seen = saving::first_seen(keys, n);
    let before = saving::first_seen(keys, j as nat);
    let a = windows[i].layout.column;
    let b = windows[j].layout.column;
    saving::first_seen_is(keys, n);
    saving::first_seen_is(keys, j as nat);
    saving::seen_extends(keys, j as nat, n);
    assert(keys[i] == Some(a) && keys[j] == Some(b));
    assert(keys.take(j)[i] == Some(a));
    assert(keys.take(j).contains(Some(a)));
    assert(before.contains(a));
    assert(!keys.take(j).contains(Some(b))) by {
        if keys.take(j).contains(Some(b)) {
            let k = choose|k: int| 0 <= k < j && keys.take(j)[k] == Some(b);
            assert(keys[k] == Some(b));
            assert(!windows[k].layout.floating && windows[k].layout.column == b);
        }
    }
    assert(!before.contains(b));
    assert(keys.take(n as int) =~= keys);
    assert(keys.contains(Some(b)));
    assert(seen.contains(b));
    let x = before.index_of(a);
    assert(before[x] == a);
    assert(seen[x] == a);
    let p = seen.index_of(a);
    let q = seen.index_of(b);
    assert(0 <= p < seen.len() && seen[p] == a) by {
        assert(seen.contains(a));
    }
    assert(0 <= q < seen.len() && seen[q] == b);
    assert(p == x);
    if q < before.len() {
        assert(before[q] == seen[q]);
        assert(before.contains(b));
    }
}

} // verus!
