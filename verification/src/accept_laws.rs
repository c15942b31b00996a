//! Which recipes are accepted, said in full, and where the fault of another lies.
use crate::config;
use crate::config_laws;
use crate::lists;
use crate::model::{RecipeView, ReusePolicy, WindowView};
use crate::outside;
use crate::planner;
use crate::text;
use vstd::prelude::*;

verus! {

pub open spec fn compiles(pattern: Option<Seq<char>>) -> bool {
    pattern is Some ==> outside::regex_error(pattern->0) is None
}

/// A logical window is tiled in this column.
pub open spec fn has_tile_in(windows: Seq<WindowView>, column: usize) -> bool {
    exists|i: int|
        0 <= i < windows.len() && !(#[trigger] windows[i]).layout.floating
            && windows[i].layout.column == column
}

/// A logical window by itself says what can be.
pub open spec fn says_what_can_be(r: RecipeView, w: WindowView) -> bool {
    &&& !text::is_blank(w.name)
    &&& w.layout.column != 0
    &&& !(w.reuse == ReusePolicy::Never && w.command.len() == 0)
    &&& w.match_spec.window_id is Some || w.match_spec.app_id is Some || w.match_spec.title is Some
        || w.match_spec.process is Some || w.match_spec.pid is Some
    &&& compiles(w.match_spec.app_id) && compiles(w.match_spec.title) && compiles(
        w.match_spec.process,
    )
    &&& !(w.layout.floating && (w.layout.display is Some || w.layout.column_width is Some))
    &&& !(r.output is Some && w.layout.output is Some && r.output != w.layout.output)
}

/// Two logical windows can be had together: they have different names, want no
/// different outputs, and say nothing different of a column that they share.
pub open spec fn can_be_had_together(a: WindowView, b: WindowView) -> bool {
    &&& a.name != b.name
    &&& a.layout.output is Some && b.layout.output is Some ==> a.layout.output == b.layout.output
    &&& !a.layout.floating && !b.layout.floating && a.layout.column == b.layout.column ==> (
    a.layout.column_width is Some && b.layout.column_width is Some ==> a.layout.column_width
        == b.layout.column_width) && (a.layout.display is Some && b.layout.display is Some
        ==> a.layout.display == b.layout.display)
}

/// Left of every column of a tiled window there is another, down to the first.
pub open spec fn has_no_gap(windows: Seq<WindowView>) -> bool {
    forall|i: int, c: usize|
        #![trigger windows[i].layout, has_tile_in(windows, c)]
        0 <= i < windows.len() && !windows[i].layout.floating && 1 <= c
            <= windows[i].layout.column ==> has_tile_in(windows, c)
}

/// The recipe says what can be.
pub open spec fn is_acceptable(r: RecipeView) -> bool {
    &&& !text::is_blank(r.workspace)
    &&& r.windows.len() > 0
    &&& forall|i: int| 0 <= i < r.windows.len() ==> says_what_can_be(r, #[trigger] r.windows[i])
    &&& forall|i: int, j: int|
        0 <= j < i < r.windows.len() ==> can_be_had_together(
            #[trigger] r.windows[i],
            #[trigger] r.windows[j],
        )
    &&& has_no_gap(r.windows)
    &&& r.focus is Some ==> exists|i: int|
        0 <= i < r.windows.len() && (#[trigger] r.windows[i]).name == r.focus->0
}

proof fn tiles_are_keys(windows: Seq<WindowView>, c: usize)
    ensures
        lists::is_key(planner::column_keys(windows), c) <==> has_tile_in(windows, c),
{
    let keys = planner::column_keys(windows);
    if has_tile_in(windows, c) {
        let i = choose|i: int|
            0 <= i < windows.len() && !(#[trigger] windows[i]).layout.floating
                && windows[i].layout.column == c;
        assert(keys[i] == Some(c));
    }
    if lists::is_key(keys, c) {
        let i = choose|i: int| 0 <= i < keys.len() && keys[i] == Some(c);
        assert(!windows[i].layout.floating && windows[i].layout.column == c);
    }
}

proof fn no_gap_counts_up(windows: Seq<WindowView>, k: int)
    requires
        has_no_gap(windows),
        forall|i: int| 0 <= i < windows.len() ==> (#[trigger] windows[i]).layout.column != 0,
        0 <= k < lists::sorted_keys(planner::column_keys(windows)).len(),
    ensures
        lists::sorted_keys(planner::column_keys(windows))[k] == k + 1,
    decreases k,
{
    let keys = planner::column_keys(windows);
    let s = lists::sorted_keys(keys);
    lists::keys_can_be_listed(keys);
    assert(s.contains(s[k]));
    tiles_are_keys(windows, s[k]);
    let i = choose|i: int|
        0 <= i < windows.len() && !(#[trigger] windows[i]).layout.floating
            && windows[i].layout.column == s[k];
    assert(windows[i].layout.column == s[k]);
    if k > 0 {
        no_gap_counts_up(windows, k - 1);
        assert(s[k - 1] < s[k]);
    }
    if s[k] > k + 1 {
        let c = (k + 1) as usize;
        assert(has_tile_in(windows, c)) by {
            let l = windows[i].layout;
            assert(1 <= c <= l.column);
        }
        tiles_are_keys(windows, c);
        assert(s.contains(c));
        let x = choose|x: int| 0 <= x < s.len() && s[x] == c;
        if x < k {
            if x < k - 1 {
                assert(s[x] < s[k - 1]);
            }
        } else if x > k {
            assert(s[k] < s[x]);
        }
    }
}

proof fn gaps_are_counted(windows: Seq<WindowView>)
    requires
        forall|i: int| 0 <= i < windows.len() ==> (#[trigger] windows[i]).layout.column != 0,
    ensures
        (exists|n: nat| config_laws::groups_are_up_to(planner::column_keys(windows), n))
            <==> has_no_gap(windows),
{
    let keys = planner::column_keys(windows);
    config_laws::contiguous_keys(keys);
    if exists|n: nat| config_laws::groups_are_up_to(keys, n) {
        let n = choose|n: nat| config_laws::groups_are_up_to(keys, n);
        assert forall|i: int, c: usize|
            #![trigger windows[i].layout, has_tile_in(windows, c)]
            0 <= i < windows.len() && !windows[i].layout.floating && 1 <= c
                <= windows[i].layout.column implies has_tile_in(windows, c) by {
            let d = windows[i].layout.column;
            assert(!windows[i].layout.floating && windows[i].layout.column == d);
            assert(has_tile_in(windows, d));
            tiles_are_keys(windows, d);
            tiles_are_keys(windows, c);
            assert(lists::is_key(keys, d));
            assert(lists::is_key(keys, c));
        }
    }
    if has_no_gap(windows) {
        assert forall|k: int| 0 <= k < lists::sorted_keys(keys).len() implies (
        #[trigger] lists::sorted_keys(keys)[k]) == k + 1 by {
            no_gap_counts_up(windows, k);
        }
        assert(config::counts_up(lists::sorted_keys(keys)));
    }
}

/// A recipe is accepted just where it says what can be.
pub proof fn just_what_can_be_is_accepted(name: Seq<char>, r: RecipeView)
    ensures
        config::recipe_fault(name, r) is None <==> is_acceptable(r),
{
    config_laws::accepted_means_sound(name, r);
    if forall|i: int| 0 <= i < r.windows.len() ==> (#[trigger] r.windows[i]).layout.column != 0 {
        gaps_are_counted(r.windows);
    }
    if config_laws::is_sound(r) {
        assert forall|i: int| 0 <= i < r.windows.len() implies says_what_can_be(
            r,
            #[trigger] r.windows[i],
        ) by {
            assert(config_laws::is_sound_window(r, r.windows[i]));
        }
        assert forall|i: int, j: int| 0 <= j < i < r.windows.len() implies can_be_had_together(
            #[trigger] r.windows[i],
            #[trigger] r.windows[j],
        ) by {
            assert(config_laws::are_compatible(r.windows, i, j));
        }
        assert forall|i: int| 0 <= i < r.windows.len() implies (
        #[trigger] r.windows[i]).layout.column != 0 by {
            assert(says_what_can_be(r, r.windows[i]));
        }
        gaps_are_counted(r.windows);
    }
    if is_acceptable(r) {
        assert forall|i: int| 0 <= i < r.windows.len() implies config_laws::is_sound_window(
            r,
            #[trigger] r.windows[i],
        ) by {
            assert(says_what_can_be(r, r.windows[i]));
        }
        assert forall|i: int, j: int| 0 <= j < i < r.windows.len() implies
            #[trigger] config_laws::are_compatible(r.windows, i, j) by {
            assert(can_be_had_together(r.windows[i], r.windows[j]));
        }
        assert forall|i: int| 0 <= i < r.windows.len() implies (
        #[trigger] r.windows[i]).layout.column != 0 by {
            assert(says_what_can_be(r, r.windows[i]));
        }
        gaps_are_counted(r.windows);
    }
}

/// Logical window `i` has the name of one before it.
pub open spec fn is_named_again(windows: Seq<WindowView>, i: int) -> bool {
    exists|j: int| 0 <= j < i && (#[trigger] windows[j]).name == windows[i].name
}

/// The field of a logical window that says what cannot be, where one does: the name
/// first, then the column, the command, the matcher, the layout and the output.
pub open spec fn faulty_field(r: RecipeView, i: int) -> Option<Seq<char>> {
    let w = r.windows[i];
    let m = w.match_spec;
    if text::is_blank(w.name) || is_named_again(r.windows, i) {
        Some(".name"@)
    } else if w.layout.column == 0 {
        Some(".layout.column"@)
    } else if w.reuse == ReusePolicy::Never && w.command.len() == 0 {
        Some(".command"@)
    } else if m.window_id is None && m.pid is None && m.app_id is None && m.title is None
        && m.process is None {
        Some(".match"@)
    } else if !compiles(m.app_id) {
        Some(".match."@ + "app_id"@)
    } else if !compiles(m.title) {
        Some(".match."@ + "title"@)
    } else if !compiles(m.process) {
        Some(".match."@ + "process"@)
    } else if w.layout.floating && (w.layout.display is Some || w.layout.column_width is Some) {
        Some(".layout"@)
    } else if r.output is Some && w.layout.output is Some && r.output != w.layout.output {
        Some(".layout.output"@)
    } else {
        None
    }
}

/// The fault of a logical window is named where it lies.
pub proof fn window_faults_lie_in_their_field(base: Seq<char>, r: RecipeView, i: int)
    requires
        0 <= i < r.windows.len(),
    ensures
        config::window_fault(base, r)(i) is None <==> faulty_field(r, i) is None,
        config::window_fault(base, r)(i) is Some ==> config::window_fault(base, r)(i)->0.path
            == base + ".windows["@ + text::decimal(i as nat) + "]"@ + faulty_field(r, i)->0,
{
    let at = base + ".windows["@ + text::decimal(i as nat) + "]"@;
    let m = r.windows[i].match_spec;
    assert(config::window_path(base, i) == at);
    assert(at + ".match."@ + "app_id"@ =~= at + (".match."@ + "app_id"@));
    assert(at + ".match."@ + "title"@ =~= at + (".match."@ + "title"@));
    assert(at + ".match."@ + "process"@ =~= at + (".match."@ + "process"@));
    assert(config::repeats_name(r.windows, i) == is_named_again(r.windows, i));
}

/// A library is accepted where it holds a recipe and each that it holds is accepted;
/// else the first that is not is named.
pub proof fn libraries_are_accepted_by_recipe(c: Seq<(Seq<char>, RecipeView)>, i: int)
    ensures
        config::config_fault(c) is None <==> c.len() > 0 && forall|k: int|
            0 <= k < c.len() ==> is_acceptable((#[trigger] c[k]).1),
        0 <= i < c.len() && !is_acceptable(c[i].1) && (forall|k: int|
            0 <= k < i ==> is_acceptable((#[trigger] c[k]).1)) ==> config::config_fault(c)
            == config::recipe_fault(c[i].0, c[i].1),
{
    let f = config::entry_fault(c);
    let n = c.len();
    assert forall|k: int| 0 <= k < n implies ((#[trigger] f(k)) is None <==> is_acceptable(c[k].1)) by {
        just_what_can_be_is_accepted(c[k].0, c[k].1);
    }
    lists::first_given_none(n, f);
    if n > 0 && (forall|k: int| 0 <= k < n ==> is_acceptable((#[trigger] c[k]).1)) {
        assert forall|k: int| 0 <= k < n implies (#[trigger] f(k)) is None by {
            assert(is_acceptable(c[k].1));
        }
    }
    if n > 0 && config::config_fault(c) is None {
        assert forall|k: int| 0 <= k < n implies is_acceptable((#[trigger] c[k]).1) by {
            assert(f(k) is None);
        }
    }
    if 0 <= i < n && !is_acceptable(c[i].1) && (forall|k: int|
        0 <= k < i ==> is_acceptable((#[trigger] c[k]).1)) {
        assert(f(i) is Some);
        assert forall|k: int| 0 <= k < i implies (#[trigger] f(k)) is None by {
            assert(is_acceptable(c[k].1));
        }
        lists::first_given_is(n, f, i);
    }
}

/// A fault of the whole recipe is named where it lies.
pub proof fn recipe_faults_lie_in_their_field(name: Seq<char>, r: RecipeView)
    ensures
        ({
            let base = "workbench."@ + name;
            let fault = config::recipe_fault(name, r);
            &&& text::is_blank(r.workspace) ==> fault is Some && fault->0.path == base
                + ".workspace"@
            &&& !text::is_blank(r.workspace) && r.windows.len() == 0 ==> fault is Some
                && fault->0.path == base + ".windows"@
            &&& r.focus is Some && is_acceptable(RecipeView { focus: None, ..r }) && !is_acceptable(r)
                ==> fault is Some && fault->0.path == base + ".focus"@ && fault->0.message
                == "unknown logical window "@ + outside::debug_text(r.focus->0)
        }),
{
    let base = "workbench."@ + name;
    if r.focus is Some && is_acceptable(RecipeView { focus: None, ..r }) && !is_acceptable(r) {
        let q = RecipeView { focus: None, ..r };
        let n = r.windows.len();
        just_what_can_be_is_accepted(name, q);
        just_what_can_be_is_accepted(name, r);
        let f = config::window_fault(base, r);
        let g = config::conflict_fault(base, r);
        lists::first_given_none(n, config::window_fault(base, q));
        lists::first_given_none(n, config::conflict_fault(base, q));
        lists::first_given_none(n, f);
        lists::first_given_none(n, g);
        assert forall|i: int| 0 <= i < n implies (#[trigger] f(i)) is None by {
            assert(config::window_fault(base, q)(i) is None);
        }
        assert forall|i: int| 0 <= i < n implies (#[trigger] g(i)) is None by {
            assert(config::conflict_fault(base, q)(i) is None);
        }
    }
}

} // verus!
