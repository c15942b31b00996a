//! What holds of every recipe that is accepted.
use crate::config;
use crate::lists;
use crate::model::{RecipeView, ReusePolicy, WindowView};
use crate::outside;
use crate::planner;
use crate::text;
use vstd::prelude::*;

verus! {

pub open spec fn compiles(pattern: Option<Seq<char>>) -> bool {
    pattern is Some ==> outside::regex_error(pattern->0) is None
}

/// A logical window that can be placed and recognised.
pub open spec fn is_sound_window(r: RecipeView, w: WindowView) -> bool {
    &&& !text::is_blank(w.name)
    &&& w.layout.column >= 1
    &&& w.reuse == ReusePolicy::Never ==> w.command.len() > 0
    &&& config::has_matcher(w.match_spec)
    &&& compiles(w.match_spec.app_id)
    &&& compiles(w.match_spec.title)
    &&& compiles(w.match_spec.process)
    &&& w.layout.floating ==> w.layout.display is None && w.layout.column_width is None
    &&& r.output is Some && w.layout.output is Some ==> r.output == w.layout.output
}

/// Two windows that do not contradict each other.
pub open spec fn are_compatible(windows: Seq<WindowView>, i: int, j: int) -> bool {
    let a = windows[i].layout;
    let b = windows[j].layout;
    &&& windows[i].name != windows[j].name
    &&& a.output is Some && b.output is Some ==> a.output == b.output
    &&& config::share_column(windows, i, j) && a.column_width is Some && b.column_width is Some
        ==> a.column_width == b.column_width
    &&& config::share_column(windows, i, j) && a.display is Some && b.display is Some ==> a.display
        == b.display
}

/// The groups of `keys` are the numbers from 1 to `n`.
pub open spec fn groups_are_up_to(keys: Seq<Option<usize>>, n: nat) -> bool {
    forall|c: usize| #[trigger] lists::is_key(keys, c) <==> 1 <= c <= n
}

/// A recipe that says something that can be: each window is sound, no two
/// contradict each other, the tiled columns are numbered from 1 without gaps,
/// and the focus is on one of the windows.
pub open spec fn is_sound(r: RecipeView) -> bool {
    &&& !text::is_blank(r.workspace)
    &&& r.windows.len() > 0
    &&& forall|i: int| 0 <= i < r.windows.len() ==> is_sound_window(r, #[trigger] r.windows[i])
    &&& forall|i: int, j: int|
        0 <= j < i < r.windows.len() ==> #[trigger] are_compatible(r.windows, i, j)
    &&& exists|n: nat| groups_are_up_to(planner::column_keys(r.windows), n)
    &&& r.focus is Some ==> config::names_window(r.windows, r.focus->0)
}

/// Just the sound recipes are accepted.
pub proof fn accepted_means_sound(name: Seq<char>, r: RecipeView)
    ensures
        config::recipe_fault(name, r) is None <==> is_sound(r),
{
    let base = "workbench."@ + name;
    let n = r.windows.len();
    let f = config::window_fault(base, r);
    let g = config::conflict_fault(base, r);
    let keys = planner::column_keys(r.windows);
    lists::first_given_none(n, f);
    lists::first_given_none(n, g);
    contiguous_keys(keys);
    if config::recipe_fault(name, r) is None {
        assert forall|i: int| 0 <= i < n implies is_sound_window(r, #[trigger] r.windows[i]) by {
            assert(f(i) is None);
        }
        assert forall|i: int, j: int| 0 <= j < i < n implies #[trigger] are_compatible(
            r.windows,
            i,
            j,
        ) by {
            assert(f(i) is None);
            assert(g(i) is None);
            assert(!config::repeats_name(r.windows, i));
            assert(r.windows[j].name != r.windows[i].name);
            assert(!config::outputs_differ(r.windows));
            let a = r.windows[i].layout;
            let b = r.windows[j].layout;
            if a.output is Some && b.output is Some {
                assert(r.windows[i].layout.output == r.windows[j].layout.output);
            }
            if config::share_column(r.windows, i, j) {
                assert(!config::width_conflicts(r.windows, i));
                assert(!config::display_conflicts(r.windows, i));
            }
        }
    }
    if is_sound(r) {
        assert forall|i: int| 0 <= i < n implies (#[trigger] f(i)) is None by {
            assert(is_sound_window(r, r.windows[i]));
            if config::repeats_name(r.windows, i) {
                let j = choose|j: int| 0 <= j < i && (#[trigger] r.windows[j]).name == r.windows[i].name;
                assert(are_compatible(r.windows, i, j));
            }
        }
        assert forall|i: int| 0 <= i < n implies (#[trigger] g(i)) is None by {
            if config::width_conflicts(r.windows, i) {
                let j = choose|j: int|
                    0 <= j < i && #[trigger] config::share_column(r.windows, i, j)
                        && r.windows[j].layout.column_width is Some
                        && r.windows[j].layout.column_width != r.windows[i].layout.column_width;
                assert(are_compatible(r.windows, i, j));
            }
            if config::display_conflicts(r.windows, i) {
                let j = choose|j: int|
                    0 <= j < i && #[trigger] config::share_column(r.windows, i, j)
                        && r.windows[j].layout.display is Some && r.windows[j].layout.display
                        != r.windows[i].layout.display;
                assert(are_compatible(r.windows, i, j));
            }
        }
        assert(!config::outputs_differ(r.windows)) by {
            if config::outputs_differ(r.windows) {
                let (i, j) = choose|i: int, j: int|
                    0 <= i < n && 0 <= j < n && (#[trigger] r.windows[i]).layout.output is Some && (
                    #[trigger] r.windows[j]).layout.output is Some && r.windows[i].layout.output
                        != r.windows[j].layout.output;
                if i < j {
                    assert(are_compatible(r.windows, j, i));
                } else {
                    assert(are_compatible(r.windows, i, j));
                }
            }
        }
    }
}

/// The listed groups count up from 1 just where the groups are the numbers from
/// 1 to some number.
pub proof fn contiguous_keys(keys: Seq<Option<usize>>)
    ensures
        config::counts_up(lists::sorted_keys(keys)) <==> exists|n: nat| groups_are_up_to(keys, n),
        config::counts_up(lists::sorted_keys(keys)) ==> groups_are_up_to(
            keys,
            lists::sorted_keys(keys).len(),
        ),
{
    let s = lists::sorted_keys(keys);
    lists::keys_can_be_listed(keys);
    if config::counts_up(s) {
        assert forall|c: usize| #[trigger] lists::is_key(keys, c) <==> 1 <= c <= s.len() by {
            if s.contains(c) {
                let k = choose|k: int| 0 <= k < s.len() && s[k] == c;
            }
            if 1 <= c <= s.len() {
                assert(s[c - 1] == c);
                assert(s.contains(c));
            }
        }
        assert(groups_are_up_to(keys, s.len()));
    }
    if exists|n: nat| groups_are_up_to(keys, n) {
        let n = choose|n: nat| groups_are_up_to(keys, n);
        assert forall|k: int| 0 <= k < s.len() implies #[trigger] s[k] == k + 1 by {
            counting(s, keys, n, k);
        }
    }
}

proof fn counting(s: Seq<usize>, keys: Seq<Option<usize>>, n: nat, k: int)
    requires
        lists::lists_keys(s, keys),
        groups_are_up_to(keys, n),
        0 <= k < s.len(),
    ensures
        s[k] == k + 1,
    decreases k,
{
    assert(s.contains(s[k]));
    assert(lists::is_key(keys, s[k]));
    if k > 0 {
        counting(s, keys, n, k - 1);
        assert(s[k - 1] < s[k]);
    }
    if s[k] > k + 1 {
        let c = (k + 1) as usize;
        assert(lists::is_key(keys, c));
        assert(s.contains(c));
        let j = choose|j: int| 0 <= j < s.len() && s[j] == c;
        if j < k {
            assert(s[j] <= s[k - 1]) by {
                if j < k - 1 {
                    assert(s[j] < s[k - 1]);
                }
            }
        } else if j > k {
            assert(s[k] < s[j]);
        }
    }
}

/// A column of an accepted recipe is never numbered higher than the recipe has
/// windows, so its layout can always be planned.
pub proof fn accepted_recipes_can_be_planned(name: Seq<char>, r: RecipeView)
    requires
        config::recipe_fault(name, r) is None,
        r.windows.len() < usize::MAX,
    ensures
        forall|c: usize| #[trigger]
            lists::is_key(planner::column_keys(r.windows), c) ==> 1 <= c <= r.windows.len(),
        lists::members(planner::column_keys(r.windows), usize::MAX).len() == 0,
{
    let keys = planner::column_keys(r.windows);
    let s = lists::sorted_keys(keys);
    lists::keys_can_be_listed(keys);
    contiguous_keys(keys);
    distinct_keys_are_few(s, keys);
    lists::members_are(keys, usize::MAX);
    let m = lists::members(keys, usize::MAX);
    if m.len() > 0 {
        assert(m.contains(m[0]));
        assert(lists::is_key(keys, usize::MAX));
    }
}

/// There are no more groups than places.
pub proof fn distinct_keys_are_few(s: Seq<usize>, keys: Seq<Option<usize>>)
    requires
        lists::lists_keys(s, keys),
    ensures
        s.len() <= keys.len(),
{
    let places = Seq::new(s.len(), |k: int| keys.index_of(Some(s[k])));
    assert forall|k: int| 0 <= k < s.len() implies 0 <= #[trigger] places[k] < keys.len() && keys[places[k]]
        == Some(s[k]) by {
        assert(s.contains(s[k]));
        assert(lists::is_key(keys, s[k]));
    }
    assert(places.no_duplicates()) by {
        assert forall|i: int, j: int| 0 <= i < places.len() && 0 <= j < places.len() && i != j implies places[i]
            != places[j] by {
            if i < j {
                assert(s[i] < s[j]);
            } else {
                assert(s[j] < s[i]);
            }
        }
    }
    let all = vstd::set_lib::set_int_range(0, keys.len() as int);
    vstd::set_lib::lemma_int_range(0, keys.len() as int);
    places.unique_seq_to_set();
    assert(places.to_set().subset_of(all));
    vstd::set_lib::lemma_len_subset(places.to_set(), all);
}

} // verus!
