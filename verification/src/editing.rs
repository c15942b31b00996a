//! Changes to a recipe that is being edited.
use crate::lists;
use crate::lists::group_keys;
use crate::model;
use crate::model::{ColumnDisplay, PlacementView, Recipe, RecipeView, WindowSpec, WindowView};
use crate::planner;
use crate::planner::keys_of;
use crate::text;
use crate::text::{opt_is, str_eq};
use vstd::prelude::*;

verus! {

pub open spec fn has_name(name: Seq<char>) -> spec_fn(WindowView) -> bool {
    |w: WindowView| w.name == name
}

/// The place of the first window of this name.
pub open spec fn place_named(windows: Seq<WindowView>, name: Seq<char>) -> Option<int> {
    lists::first_where(windows, has_name(name))
}

pub open spec fn with_layout(w: WindowView, layout: PlacementView) -> WindowView {
    WindowView { layout, ..w }
}

pub open spec fn with_column(w: WindowView, column: usize) -> WindowView {
    with_layout(w, PlacementView { column, ..w.layout })
}

pub open spec fn with_windows(r: RecipeView, windows: Seq<WindowView>) -> RecipeView {
    RecipeView { windows, ..r }
}

// Numbering the columns

/// The number that column `c` gets when the tiled columns are numbered from 1:
/// its rank among them. A column without a tiled window keeps its number.
pub open spec fn renumbered(keys: Seq<Option<usize>>, c: usize) -> usize {
    if lists::is_key(keys, c) {
        (lists::sorted_keys(keys).index_of(c) + 1) as usize
    } else {
        c
    }
}

/// The windows with their tiled columns numbered from 1 without gaps.
pub open spec fn normalized(windows: Seq<WindowView>) -> Seq<WindowView> {
    let keys = planner::column_keys(windows);
    windows.map_values(|w: WindowView| with_column(w, renumbered(keys, w.layout.column)))
}

fn rank_of(columns: &Vec<usize>, c: usize) -> (out: Option<usize>)
    requires
        lists::ascending(columns@),
    ensures
        match out {
            Some(i) => i < columns@.len() && columns@[i as int] == c,
            None => !columns@.contains(c),
        },
{
    for i in 0..columns.len()
        invariant
            forall|k: int| 0 <= k < i ==> columns@[k] != c,
    {
        if columns[i] == c {
            return Some(i);
        }
    }
    None
}

proof fn index_in_ascending(s: Seq<usize>, i: int)
    requires
        lists::ascending(s),
        0 <= i < s.len(),
    ensures
        s.index_of(s[i]) == i,
{
    let j = s.index_of(s[i]);
    assert(s.contains(s[i]));
    assert(0 <= j < s.len() && s[j] == s[i]);
    if j < i {
        assert(s[j] < s[i]);
    } else if i < j {
        assert(s[i] < s[j]);
    }
}

/// Numbers the tiled columns of `windows` from 1 without gaps.
fn normalize(windows: &mut Vec<WindowSpec>)
    ensures
        model::window_views(final(windows)@) == normalized(model::window_views(old(windows)@)),
{
    let ghost before = model::window_views(windows@);
    let keys: Vec<Option<usize>> = keys_of(windows);
    let columns: Vec<usize> = group_keys(&keys);
    let ghost after = normalized(before);
    let n: usize = windows.len();
    proof {
        crate::config_laws::distinct_keys_are_few(columns@, keys@);
    }
    for i in 0..n
        invariant
            n == windows@.len(),
            n == before.len(),
            n == keys@.len(),
            keys@ == planner::column_keys(before),
            lists::lists_keys(columns@, keys@),
            columns@ == lists::sorted_keys(keys@),
            columns@.len() <= n,
            after == normalized(before),
            forall|k: int| 0 <= k < i ==> (#[trigger] windows@[k])@ == after[k],
            forall|k: int| i <= k < n ==> (#[trigger] windows@[k])@ == before[k],
    {
        let c: usize = windows[i].layout.column;
        assert(windows@[i as int]@ == before[i as int]);
        let ghost w0 = windows@;
        match rank_of(&columns, c) {
            Some(r) => {
                proof {
                    index_in_ascending(columns@, r as int);
                    assert(columns@.contains(c));
                }
                windows[i].layout.column = r + 1;
            },
            None => {
                assert(!lists::is_key(keys@, c));
            },
        }
        assert(windows@[i as int]@ =~= after[i as int]);
        assert forall|k: int| 0 <= k < n && k != i implies (#[trigger] windows@[k])@ == w0[k]@ by {}
    }
    assert(model::window_views(windows@) =~= after);
}

/// Numbers the tiled columns from 1 without gaps.
pub fn normalize_columns(recipe: &mut Recipe)
    ensures
        final(recipe)@ == with_windows(old(recipe)@, normalized(old(recipe)@.windows)),
{
    normalize(&mut recipe.windows);
}

// Moving windows

/// The place of the first window of this name.
pub fn find_named(windows: &Vec<WindowSpec>, name: &str) -> (out: Option<usize>)
    ensures
        match out {
            Some(i) => i < windows@.len() && place_named(model::window_views(windows@), name@)
                == Some(i as int),
            None => place_named(model::window_views(windows@), name@) is None,
        },
{
    let ghost views = model::window_views(windows@);
    for i in 0..windows.len()
        invariant
            views == model::window_views(windows@),
            forall|k: int| 0 <= k < i ==> !has_name(name@)(#[trigger] views[k]),
    {
        assert(views[i as int] == windows@[i as int]@);
        if str_eq(windows[i].name.as_str(), name) {
            proof {
                lists::first_is(views, has_name(name@), i as int);
            }
            return Some(i);
        }
    }
    proof {
        lists::first_is_none(views, has_name(name@));
    }
    None
}

/// The window at place `source`, as it joins the column of `target`.
pub open spec fn joining(w: WindowView, target: WindowView) -> WindowView {
    with_layout(
        w,
        PlacementView {
            column: target.layout.column,
            column_width: None,
            display: target.layout.display,
            floating: false,
            ..w.layout
        },
    )
}

/// The windows after `dragged` was dropped on `target`, before it or behind it;
/// nothing where there is nothing to drag or to drop it on.
pub open spec fn dropped(
    windows: Seq<WindowView>,
    dragged: Seq<char>,
    target: Seq<char>,
    after: bool,
) -> Option<Seq<WindowView>> {
    match place_named(windows, dragged) {
        Some(i) => {
            let rest = windows.remove(i);
            match place_named(rest, target) {
                Some(j) => if dragged == target {
                    None
                } else {
                    Some(
                        normalized(
                            rest.insert(
                                if after {
                                    j + 1
                                } else {
                                    j
                                },
                                joining(windows[i], rest[j]),
                            ),
                        ),
                    )
                },
                None => None,
            }
        },
        None => None,
    }
}

/// Drops the window `dragged` on the window `target`: it joins that column,
/// before or behind it. Says whether there was anything to do.
pub fn move_window_to_window(recipe: &mut Recipe, dragged: &str, target: &str, after: bool) -> (out:
    bool)
    ensures
        match dropped(old(recipe)@.windows, dragged@, target@, after) {
            Some(windows) => out && final(recipe)@ == with_windows(old(recipe)@, windows),
            None => !out && final(recipe)@ == old(recipe)@,
        },
{
    let ghost all = recipe@.windows;
    if str_eq(dragged, target) {
        return false;
    }
    let source: usize = match find_named(&recipe.windows, dragged) {
        Some(i) => i,
        None => {
            return false;
        },
    };
    assert(all[source as int] == recipe.windows@[source as int]@);
    let mut moved: WindowSpec = recipe.windows.remove(source);
    let ghost rest = model::window_views(recipe.windows@);
    assert(rest =~= all.remove(source as int));
    match find_named(&recipe.windows, target) {
        None => {
            recipe.windows.insert(source, moved);
            assert(recipe@.windows =~= all);
            false
        },
        Some(j) => {
            let n: usize = recipe.windows.len();
            assert(j < n);
            assert(rest[j as int] == recipe.windows@[j as int]@);
            moved.layout.column = recipe.windows[j].layout.column;
            moved.layout.column_width = None;
            moved.layout.display = recipe.windows[j].layout.display;
            moved.layout.floating = false;
            assert(moved@ =~= joining(all[source as int], rest[j as int]));
            let at: usize = if after {
                j + 1
            } else {
                j
            };
            let ghost here = recipe.windows@;
            let ghost m = moved@;
            recipe.windows.insert(at, moved);
            assert(recipe@.windows =~= rest.insert(at as int, m));
            normalize_columns(recipe);
            true
        },
    }
}

/// `c` is the highest column of a tiled window of another name, or 0 where there
/// is none.
pub open spec fn is_last_column(windows: Seq<WindowView>, name: Seq<char>, c: int) -> bool {
    &&& forall|i: int|
        0 <= i < windows.len() && !(#[trigger] windows[i]).layout.floating && windows[i].name != name
            ==> windows[i].layout.column <= c
    &&& c == 0 || exists|i: int|
        0 <= i < windows.len() && !(#[trigger] windows[i]).layout.floating && windows[i].name != name
            && windows[i].layout.column == c
}

/// The number behind the highest column of the other tiled windows.
pub open spec fn next_column(windows: Seq<WindowView>, name: Seq<char>) -> int {
    1 + choose|c: int| c >= 0 && is_last_column(windows, name, c)
}

pub open spec fn alone(w: WindowView, column: usize) -> WindowView {
    with_layout(
        w,
        PlacementView {
            column,
            column_width: None,
            window_height: None,
            display: None,
            floating: false,
            ..w.layout
        },
    )
}

/// No tiled window of another name stands in the last column that can be counted.
pub open spec fn has_room(windows: Seq<WindowView>, name: Seq<char>) -> bool {
    forall|i: int|
        0 <= i < windows.len() && !(#[trigger] windows[i]).layout.floating && windows[i].name != name
            ==> windows[i].layout.column < usize::MAX
}

/// The number behind the highest column of the tiled windows of other names.
pub fn column_behind(windows: &Vec<WindowSpec>, name: &str) -> (out: usize)
    requires
        has_room(model::window_views(windows@), name@),
    ensures
        out == next_column(model::window_views(windows@), name@),
{
    let ghost all = model::window_views(windows@);
    let mut last: usize = 0;
    for i in 0..windows.len()
        invariant
            all == model::window_views(windows@),
            last < usize::MAX,
            has_room(all, name@),
            forall|k: int|
                0 <= k < i && !(#[trigger] all[k]).layout.floating && all[k].name != name@
                    ==> all[k].layout.column <= last,
            last == 0 || exists|k: int|
                0 <= k < i && !(#[trigger] all[k]).layout.floating && all[k].name != name@
                    && all[k].layout.column == last,
    {
        let w: &WindowSpec = &windows[i];
        assert(all[i as int] == w@);
        if !w.layout.floating && !str_eq(w.name.as_str(), name) && w.layout.column > last {
            last = w.layout.column;
        }
    }
    assert(is_last_column(all, name@, last as int));
    proof {
        let c = choose|c: int| c >= 0 && is_last_column(all, name@, c);
        last_column_is_unique(all, name@, c, last as int);
    }
    last + 1
}

/// Moves the window `name` to a column of its own, right of all others. Says
/// whether there is such a window.
pub fn move_window_to_new_column(recipe: &mut Recipe, name: &str) -> (out: bool)
    requires
        has_room(old(recipe)@.windows, name@),
    ensures
        match place_named(old(recipe)@.windows, name@) {
            Some(i) => out && final(recipe)@ == with_windows(
                old(recipe)@,
                normalized(
                    old(recipe)@.windows.update(
                        i,
                        alone(
                            old(recipe)@.windows[i],
                            next_column(old(recipe)@.windows, name@) as usize,
                        ),
                    ),
                ),
            ),
            None => !out && final(recipe)@ == old(recipe)@,
        },
{
    let ghost all = recipe@.windows;
    let next: usize = column_behind(&recipe.windows, name);
    match find_named(&recipe.windows, name) {
        None => false,
        Some(i) => {
            assert(all[i as int] == recipe.windows@[i as int]@);
            let ghost before = recipe.windows@;
            recipe.windows[i].layout.floating = false;
            recipe.windows[i].layout.column = next;
            recipe.windows[i].layout.column_width = None;
            recipe.windows[i].layout.window_height = None;
            recipe.windows[i].layout.display = None;
            assert(recipe.windows@[i as int]@ =~= alone(all[i as int], next));
            assert(recipe@.windows =~= all.update(i as int, alone(all[i as int], next)));
            normalize_columns(recipe);
            true
        },
    }
}

proof fn last_column_is_unique(windows: Seq<WindowView>, name: Seq<char>, c: int, d: int)
    requires
        c >= 0,
        d >= 0,
        is_last_column(windows, name, c),
        is_last_column(windows, name, d),
    ensures
        c == d,
{
}

/// The window as it floats, or as it is tiled again.
pub open spec fn floated(w: WindowView, floating: bool) -> WindowView {
    with_layout(
        w,
        if floating {
            PlacementView {
                floating,
                column_width: None,
                window_height: None,
                display: None,
                ..w.layout
            }
        } else {
            PlacementView { floating, ..w.layout }
        },
    )
}

/// Lets the window `name` float, or tiles it again. Says whether there is such a
/// window.
pub fn set_window_floating(recipe: &mut Recipe, name: &str, floating: bool) -> (out: bool)
    ensures
        match place_named(old(recipe)@.windows, name@) {
            Some(i) => out && final(recipe)@ == with_windows(
                old(recipe)@,
                normalized(
                    old(recipe)@.windows.update(i, floated(old(recipe)@.windows[i], floating)),
                ),
            ),
            None => !out && final(recipe)@ == old(recipe)@,
        },
{
    let ghost all = recipe@.windows;
    match find_named(&recipe.windows, name) {
        None => false,
        Some(i) => {
            assert(all[i as int] == recipe.windows@[i as int]@);
            recipe.windows[i].layout.floating = floating;
            if floating {
                recipe.windows[i].layout.column_width = None;
                recipe.windows[i].layout.window_height = None;
                recipe.windows[i].layout.display = None;
            }
            assert(recipe.windows@[i as int]@ =~= floated(all[i as int], floating));
            assert(recipe@.windows =~= all.update(i as int, floated(all[i as int], floating)));
            normalize_columns(recipe);
            true
        },
    }
}

/// The recipe without the window at place `i`; the focus goes with the window
/// that has it.
pub open spec fn without_window(r: RecipeView, i: int) -> RecipeView {
    RecipeView {
        focus: if r.focus == Some(r.windows[i].name) {
            None
        } else {
            r.focus
        },
        windows: normalized(r.windows.remove(i)),
        ..r
    }
}

/// The name of the window at place `i`, or of the last one where there are fewer.
pub open spec fn neighbour(windows: Seq<WindowView>, i: int) -> Option<Seq<char>> {
    if i < windows.len() {
        Some(windows[i].name)
    } else if windows.len() > 0 {
        Some(windows.last().name)
    } else {
        None
    }
}

/// Takes the window `name` out of the recipe, and gives the name of the window
/// that comes into its place.
pub fn remove_window(recipe: &mut Recipe, name: &str) -> (out: Option<String>)
    ensures
        match place_named(old(recipe)@.windows, name@) {
            Some(i) => final(recipe)@ == without_window(old(recipe)@, i) && text::opt_text(out)
                == neighbour(final(recipe)@.windows, i),
            None => out is None && final(recipe)@ == old(recipe)@,
        },
{
    let ghost all = recipe@.windows;
    match find_named(&recipe.windows, name) {
        None => None,
        Some(i) => {
            proof {
                lists::first_holds(all, has_name(name@));
            }
            let _gone = recipe.windows.remove(i);
            assert(recipe@.windows =~= all.remove(i as int));
            if opt_is(&recipe.focus, name) {
                recipe.focus = None;
            }
            normalize_columns(recipe);
            let n: usize = recipe.windows.len();
            let ghost now = recipe@.windows;
            if i < n {
                assert(now[i as int] == recipe.windows@[i as int]@);
                Some(recipe.windows[i].name.clone())
            } else if n > 0 {
                assert(now[n - 1] == recipe.windows@[n - 1]@);
                Some(recipe.windows[n - 1].name.clone())
            } else {
                None
            }
        },
    }
}

/// The windows with the display of one column set.
pub open spec fn displayed(
    windows: Seq<WindowView>,
    column: usize,
    display: Option<ColumnDisplay>,
) -> Seq<WindowView> {
    windows.map_values(
        |w: WindowView|
            if w.layout.column == column && !w.layout.floating {
                with_layout(w, PlacementView { display, ..w.layout })
            } else {
                w
            },
    )
}

/// Sets the display of all tiled windows of a column.
pub fn set_column_display(recipe: &mut Recipe, column: usize, display: Option<ColumnDisplay>)
    ensures
        final(recipe)@ == with_windows(
            old(recipe)@,
            displayed(old(recipe)@.windows, column, display),
        ),
{
    let ghost all = recipe@.windows;
    let ghost want = displayed(all, column, display);
    let n: usize = recipe.windows.len();
    for i in 0..n
        invariant
            n == recipe.windows@.len(),
            n == all.len(),
            want == displayed(all, column, display),
            recipe@ == with_windows(old(recipe)@, model::window_views(recipe.windows@)),
            forall|k: int| 0 <= k < i ==> (#[trigger] recipe.windows@[k])@ == want[k],
            forall|k: int| i <= k < n ==> (#[trigger] recipe.windows@[k])@ == all[k],
    {
        let ghost w0 = recipe.windows@;
        assert(w0[i as int]@ == all[i as int]);
        if recipe.windows[i].layout.column == column && !recipe.windows[i].layout.floating {
            recipe.windows[i].layout.display = display;
        }
        assert(recipe.windows@[i as int]@ =~= want[i as int]);
        assert forall|k: int| 0 <= k < n && k != i implies (#[trigger] recipe.windows@[k])@
            == w0[k]@ by {}
    }
    assert(recipe@.windows =~= want);
}

} // verus!
