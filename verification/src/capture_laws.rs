//! What holds of every capture, and of what is saved of it.
use crate::capture;
use crate::capture::Capture;
use crate::config_laws;
use crate::edit_laws;
use crate::lists;
use crate::match_laws;
use crate::matcher;
use crate::matcher::DecisionView;
use crate::model::{Recipe, RecipeView, RuntimeView, WindowView};
use crate::names;
use crate::naming;
use crate::planner;
use crate::resolve;
use crate::saving;
use crate::text;
use vstd::prelude::*;

verus! {

/// Every window of the workspace but the manager's own is captured, and captured
/// once.
pub proof fn every_window_is_captured_once(c: Capture, i: int)
    ensures
        c.places().contains(i) <==> 0 <= i < c.state.windows.len()
            && c.state.windows[i].workspace_id == Some(c.workspace.id) && !resolve::is_own_window(
            c.state.windows[i],
        ),
        c.places().no_duplicates(),
{
    let shown = c.shown();
    let n = shown.len();
    let o = lists::order(n, c.before());
    let places = c.places();
    lists::order_keeps(n, c.before());
    lists::order_is_a_permutation(n, c.before());
    lists::gather_contains(c.state.windows.len(), c.shown_at(), i);
    shown_ascend(c, c.state.windows.len());
    if places.contains(i) {
        let k = choose|k: int| 0 <= k < places.len() && places[k] == i;
        assert(o.contains(o[k]));
        assert(shown[o[k]] == i);
        assert(shown.contains(i));
    }
    if shown.contains(i) {
        let a = choose|a: int| 0 <= a < shown.len() && shown[a] == i;
        assert(o.contains(a));
        let k = choose|k: int| 0 <= k < o.len() && o[k] == a;
        assert(places[k] == i);
    }
    if 0 <= i < c.state.windows.len() && c.state.windows[i].workspace_id == Some(c.workspace.id)
        && !resolve::is_own_window(c.state.windows[i]) {
        assert(c.shown_at()(i) == Some(i));
    }
    assert forall|a: int, b: int| 0 <= a < places.len() && 0 <= b < places.len() && a != b implies places[a]
        != places[b] by {
        assert(o.contains(o[a]) && o.contains(o[b]));
        assert(o[a] != o[b]);
        if o[a] < o[b] {
            assert(shown[o[a]] < shown[o[b]]);
        } else {
            assert(shown[o[b]] < shown[o[a]]);
        }
    }
}

proof fn shown_ascend(c: Capture, n: nat)
    ensures
        ({
            let g = lists::gather(n, c.shown_at());
            &&& forall|a: int| 0 <= a < g.len() ==> (#[trigger] g[a]) < n
            &&& forall|a: int, b: int| 0 <= a < b < g.len() ==> g[a] < g[b]
        }),
    decreases n,
{
    if n > 0 {
        shown_ascend(c, (n - 1) as nat);
        let f = c.shown_at();
        let before = lists::gather((n - 1) as nat, f);
        assert(f(n - 1) is Some ==> f(n - 1) == Some(n - 1));
        assert(lists::gather(n, f) == if f(n - 1) is Some { before.push(n - 1) } else { before });
    }
}

/// The windows of a capture stand from left to right and from top to bottom.
pub proof fn captures_are_in_order(c: Capture, a: int, b: int)
    requires
        0 <= a < b < c.places().len(),
    ensures
        capture::stands_before(c.window(a), c.window(b)),
{
    let le = c.before();
    assert forall|x: int, y: int| #[trigger] le(x, y) || le(y, x) by {}
    lists::order_sorts(c.shown().len(), le);
    let o = lists::order(c.shown().len(), le);
    assert(le(o[a], o[b]));
}

/// No two logical windows of a capture have the same name, and none has an empty
/// one.
pub proof fn captured_names_differ(c: Capture, i: int, j: int)
    requires
        0 <= i < j,
    ensures
        c.name(i) != c.name(j),
        c.name(i).len() > 0,
{
    names_hold(c, j as nat, i);
    name_is_first_free(c, i);
    name_is_first_free(c, j);
    let names = c.names(j as nat);
    assert(names.contains(c.name(i))) by {
        assert(names[i] == c.name(i));
    }
    let base = capture::plain_name(c.window(i), i);
    let k = choose|k: int| k >= 0 && c.name(i) == #[trigger] naming::attempt(base, k);
    reveal_strlit("window-");
    reveal_strlit("-");
    assert(base.len() > 0);
}

proof fn name_is_first_free(c: Capture, k: int)
    ensures
        naming::is_first_free(
            capture::plain_name(c.window(k), k),
            c.names(k as nat),
            c.name(k),
        ),
{
    naming::first_free_exists(capture::plain_name(c.window(k), k), c.names(k as nat));
}

proof fn names_hold(c: Capture, n: nat, i: int)
    requires
        0 <= i < n,
    ensures
        c.names(n).len() == n,
        c.names(n)[i] == c.name(i),
    decreases n,
{
    if i < n - 1 {
        names_hold(c, (n - 1) as nat, i);
    } else if n > 1 {
        names_hold(c, (n - 1) as nat, 0);
    } else {
        assert(c.names(0).len() == 0);
    }
}

/// The texts that the patterns of a captured window stand for.
pub open spec fn captured_title(windows: Seq<RuntimeView>, w: RuntimeView) -> Option<Seq<char>> {
    if capture::captured_match(windows, w).title is Some {
        Some(text::trimmed(w.title->0))
    } else {
        None
    }
}

pub open spec fn captured_cwd(windows: Seq<RuntimeView>, w: RuntimeView) -> Option<Seq<char>> {
    if capture::captured_match(windows, w).cwd is Some {
        w.cwd
    } else {
        None
    }
}

/// A captured matcher stands for the application of its window and, where it needs
/// them, the working directory and the title, and for no other text.
pub proof fn captured_matchers_are_literal(windows: Seq<RuntimeView>, w: RuntimeView)
    ensures
        matcher::is_literal(
            capture::captured_match(windows, w),
            w.app_id,
            captured_title(windows, w),
            captured_cwd(windows, w),
        ),
{
}

/// A captured matcher accepts the window that it was made from, unless its title
/// has white space around it; and whatever else it accepts has the same
/// application and, where they take part, the same title and working directory.
pub proof fn captured_matchers_find_their_window(
    windows: Seq<RuntimeView>,
    w: RuntimeView,
    other: RuntimeView,
)
    requires
        w.title is Some ==> text::trimmed(w.title->0) == w.title->0,
    ensures
        ({
            let m = capture::captured_match(windows, w);
            let title = captured_title(windows, w);
            let cwd = captured_cwd(windows, w);
            &&& matcher::accepts_literally(m, w.app_id, title, cwd, w)
            &&& matcher::accepts_literally(m, w.app_id, title, cwd, other) ==> (w.app_id is Some
                ==> other.app_id == w.app_id) && (m.title is Some ==> other.title == w.title) && (
            m.cwd is Some ==> other.cwd == w.cwd)
        }),
{
}

/// A captured window that shares what its matcher stands for with no other is found
/// again, and no other window is taken for it.
pub proof fn a_unique_captured_window_is_found_again(windows: Seq<RuntimeView>, i: int)
    requires
        0 <= i < windows.len(),
        windows[i].title is Some ==> text::trimmed(windows[i].title->0) == windows[i].title->0,
        forall|j: int|
            0 <= j < windows.len() && j != i ==> !matcher::accepts_literally(
                capture::captured_match(windows, windows[i]),
                windows[i].app_id,
                captured_title(windows, windows[i]),
                captured_cwd(windows, windows[i]),
                #[trigger] windows[j],
            ),
    ensures
        ({
            let m = capture::captured_match(windows, windows[i]);
            let found = matcher::literally_eligible(
                m,
                windows[i].app_id,
                captured_title(windows, windows[i]),
                captured_cwd(windows, windows[i]),
                windows,
                Set::empty(),
                None,
            );
            matcher::decide(matcher::ranked(found), false) == DecisionView::One(
                matcher::candidate_of(m, false, windows[i]),
            )
        }),
{
    let w = windows[i];
    let m = capture::captured_match(windows, w);
    let title = captured_title(windows, w);
    let cwd = captured_cwd(windows, w);
    let f = matcher::literal_candidate_at(m, w.app_id, title, cwd, windows, Set::empty(), None);
    captured_matchers_find_their_window(windows, w, w);
    let c = matcher::candidate_of(m, false, w);
    assert(f(i) == Some(c));
    assert forall|j: int| 0 <= j < windows.len() && j != i implies (#[trigger] f(j)) is None by {
        assert(!matcher::accepts_literally(m, w.app_id, title, cwd, windows[j]));
    }
    only_one_given(windows.len(), f, i);
    let found = lists::gather(windows.len(), f);
    assert(found =~= seq![c]);
    match_laws::ranking_keeps_and_orders(found);
    assert(found.drop_last() =~= Seq::empty());
    assert(matcher::ranked(found.drop_last()) =~= Seq::empty());
    assert(matcher::ranked(found) =~= seq![c]);
}

/// A window that has its application for itself, or shares it but with no window
/// that works in the same directory, is captured so that no other window can be
/// taken for it, whatever workspace that is on.
pub proof fn captured_windows_are_not_confused(windows: Seq<RuntimeView>, i: int, j: int)
    requires
        0 <= i < windows.len(),
        0 <= j < windows.len(),
        i != j,
        windows[i].app_id is Some,
        !text::is_blank(windows[i].app_id->0),
        !resolve::is_own_window(windows[i]),
        !capture::shares_app(windows, windows[i]) || capture::cwd_pattern(windows, windows[i]) is Some,
    ensures
        !matcher::accepts_literally(
            capture::captured_match(windows, windows[i]),
            windows[i].app_id,
            captured_title(windows, windows[i]),
            captured_cwd(windows, windows[i]),
            windows[j],
        ),
{
    let w = windows[i];
    let app = w.app_id->0;
    if windows[j].app_id == w.app_id {
        let f = capture::of_app(windows, app);
        assert(f(i) == Some(i) && f(j) == Some(j));
        two_are_given(windows.len(), f, i, j);
        assert(capture::shares_app(windows, w));
        if windows[j].cwd == w.cwd {
            let g = capture::of_app_in(windows, app, w.cwd->0);
            let found = lists::gather(windows.len(), g);
            assert(found.contains(found[0]));
            lists::gather_contains(windows.len(), g, found[0]);
            let k = choose|k: int| 0 <= k < windows.len() && #[trigger] g(k) == Some(found[0]);
            assert(!text::is_blank(w.cwd->0));
            assert(g(i) == Some(i) && g(j) == Some(j));
            two_are_given(windows.len(), g, i, j);
        }
    }
}

pub proof fn two_are_given(n: nat, f: spec_fn(int) -> Option<int>, i: int, j: int)
    requires
        0 <= i < n,
        0 <= j < n,
        i != j,
        f(i) == Some(i),
        f(j) == Some(j),
    ensures
        lists::gather(n, f).len() > 1,
{
    let found = lists::gather(n, f);
    lists::gather_contains(n, f, i);
    lists::gather_contains(n, f, j);
    assert(found.contains(i) && found.contains(j));
    let a = choose|a: int| 0 <= a < found.len() && found[a] == i;
    let b = choose|b: int| 0 <= b < found.len() && found[b] == j;
    assert(a != b);
}

pub proof fn only_one_given<A>(n: nat, f: spec_fn(int) -> Option<A>, i: int)
    requires
        0 <= i < n,
        f(i) is Some,
        forall|j: int| 0 <= j < n && j != i ==> (#[trigger] f(j)) is None,
    ensures
        lists::gather(n, f) == seq![f(i)->0],
    decreases n,
{
    if i == n - 1 {
        lists::gather_is_empty((n - 1) as nat, f);
        assert(lists::gather(n, f) =~= seq![f(i)->0]);
    } else {
        only_one_given((n - 1) as nat, f, i);
        assert(f(n - 1) is None);
    }
}

/// What is left of a captured recipe has its tiled columns numbered from 1 without
/// gaps, in the order in which they come.
pub proof fn selections_leave_no_gaps(windows: Seq<WindowView>)
    requires
        windows.len() <= usize::MAX,
    ensures
        edit_laws::is_contiguous(saving::compacted(windows)),
{
    let keys = planner::column_keys(windows);
    let seen = saving::first_seen(keys, keys.len());
    let out = saving::compacted(windows);
    let after = planner::column_keys(out);
    saving::first_seen_is(keys, keys.len());
    assert(keys.take(keys.len() as int) =~= keys);
    assert forall|d: usize| #[trigger] lists::is_key(after, d) <==> 1 <= d <= seen.len() by {
        if lists::is_key(after, d) {
            let i = choose|i: int| 0 <= i < after.len() && after[i] == Some(d);
            let c = windows[i].layout.column;
            assert(keys[i] == Some(c));
            assert(keys.contains(Some(c)));
            assert(seen.contains(c));
        }
        if 1 <= d <= seen.len() {
            let c = seen[d - 1];
            assert(seen.contains(c));
            let i = choose|i: int| 0 <= i < keys.len() && keys[i] == Some(c);
            assert(windows[i].layout.column == c);
            let j = seen.index_of(c);
            assert(seen[j] == c);
            assert(after[i] == Some(d));
        }
    }
    assert(config_laws::groups_are_up_to(after, seen.len()));
    config_laws::contiguous_keys(after);
}

/// Where two kept windows are tiled, they share a column afterwards just where they
/// did before.
pub proof fn selections_keep_columns_together(windows: Seq<WindowView>, i: int, j: int)
    requires
        windows.len() <= usize::MAX,
        0 <= i < windows.len(),
        0 <= j < windows.len(),
        !windows[i].layout.floating,
        !windows[j].layout.floating,
    ensures
        windows[i].layout.column == windows[j].layout.column
            <==> saving::compacted(windows)[i].layout.column
            == saving::compacted(windows)[j].layout.column,
{
    let keys = planner::column_keys(windows);
    let seen = saving::first_seen(keys, keys.len());
    saving::first_seen_is(keys, keys.len());
    assert(keys.take(keys.len() as int) =~= keys);
    let c = windows[i].layout.column;
    let d = windows[j].layout.column;
    assert(keys[i] == Some(c) && keys[j] == Some(d));
    assert(keys.contains(Some(c)) && keys.contains(Some(d)));
    assert(seen.contains(c) && seen.contains(d));
    let a = seen.index_of(c);
    let b = seen.index_of(d);
    assert(seen[a] == c && seen[b] == d);
}

// Saving

/// The configuration after a captured recipe was put into it under `key`.
pub open spec fn saved(
    m: Seq<(Seq<char>, Recipe)>,
    key: Seq<char>,
    r: Recipe,
) -> Seq<(Seq<char>, Recipe)> {
    let keys = saving::same_keys(m, r@);
    names::inserted(saving::removed_from(m, keys, 1, keys.len() as int), key, r)
}

/// The key under which a recipe is saved: that of the first recipe about the same
/// thing, or a free one.
pub open spec fn is_saved_key(m: Seq<(Seq<char>, Recipe)>, r: RecipeView, key: Seq<char>) -> bool {
    let keys = saving::same_keys(m, r);
    if keys.len() > 0 {
        key == keys[0]
    } else {
        naming::is_first_free(saving::key_base(r), saving::keys_of(m), key)
    }
}

proof fn removed_from_is_local(
    m: Seq<(Seq<char>, Recipe)>,
    keys: Seq<Seq<char>>,
    to: int,
    other: Seq<char>,
)
    requires
        names::names_ascend(m),
        1 <= to <= keys.len(),
    ensures
        names::names_ascend(saving::removed_from(m, keys, 1, to)),
        (exists|k: int| 1 <= k < to && #[trigger] keys[k] == other) ==> names::lookup(
            saving::removed_from(m, keys, 1, to),
            other,
        ) is None,
        (forall|k: int| 1 <= k < to ==> #[trigger] keys[k] != other) ==> names::lookup(
            saving::removed_from(m, keys, 1, to),
            other,
        ) == names::lookup(m, other),
    decreases to,
{
    if to > 1 {
        removed_from_is_local(m, keys, to - 1, other);
        let before = saving::removed_from(m, keys, 1, to - 1);
        names::removal_is_local(before, keys[to - 1], other);
        if exists|k: int| 1 <= k < to && #[trigger] keys[k] == other {
            let k = choose|k: int| 1 <= k < to && #[trigger] keys[k] == other;
            if k == to - 1 {
                assert(keys[to - 1] == other);
            } else {
                assert(keys[k] == other);
                if keys[to - 1] != other {
                }
            }
        }
    }
}

/// Saving a recipe touches only recipes about the same thing: it is found under
/// its key, the others of them are gone, and every other recipe is as it was.
pub proof fn saving_replaces_the_same_card(
    m: Seq<(Seq<char>, Recipe)>,
    r: Recipe,
    key: Seq<char>,
    other: Seq<char>,
)
    requires
        names::names_ascend(m),
        is_saved_key(m, r@, key),
    ensures
        names::names_ascend(saved(m, key, r)),
        names::lookup(saved(m, key, r), key) == Some(r),
        other != key && saving::same_keys(m, r@).contains(other) ==> names::lookup(
            saved(m, key, r),
            other,
        ) is None,
        other != key && !saving::same_keys(m, r@).contains(other) ==> names::lookup(
            saved(m, key, r),
            other,
        ) == names::lookup(m, other),
{
    let keys = saving::same_keys(m, r@);
    let cut = saving::removed_from(m, keys, 1, keys.len() as int);
    if keys.len() > 0 {
        removed_from_is_local(m, keys, keys.len() as int, other);
        if other != key && keys.contains(other) {
            let k = choose|k: int| 0 <= k < keys.len() && keys[k] == other;
            assert(k >= 1 && keys[k] == other);
        }
        if !keys.contains(other) {
            assert forall|k: int| 1 <= k < keys.len() implies #[trigger] keys[k] != other by {
                if keys[k] == other {
                    assert(keys.contains(other));
                }
            }
        }
    }
    names::insertion_keeps_order(cut, key, r);
    names::insertion_is_local(cut, key, r, other);
}

/// However often a recipe is saved, it stays one card under one key.
pub proof fn saving_again_keeps_one_card(m: Seq<(Seq<char>, Recipe)>, r: Recipe, key: Seq<char>)
    requires
        names::names_ascend(m),
        is_saved_key(m, r@, key),
    ensures
        saving::same_keys(saved(m, key, r), r@) == seq![key],
        is_saved_key(saved(m, key, r), r@, key),
{
    let after = saved(m, key, r);
    let f = saving::same_key_at(after, r@);
    saving_replaces_the_same_card(m, r, key, key);
    names::lookup_finds(after, key);
    let at = choose|i: int|
        0 <= i < after.len() && (#[trigger] after[i]).0 == key && names::lookup(after, key) == Some(
            after[i].1,
        );
    assert(f(at) == Some(key));
    assert forall|j: int| 0 <= j < after.len() && j != at implies (#[trigger] f(j)) is None by {
        let other = after[j].0;
        names::lookup_is(after, j);
        names::lookup_is(after, at);
        assert(other != key);
        saving_replaces_the_same_card(m, r, key, other);
        if saving::is_same_card(after[j].1@, r@) {
            names::lookup_finds(m, other);
            if !saving::same_keys(m, r@).contains(other) {
                let i = choose|i: int|
                    0 <= i < m.len() && (#[trigger] m[i]).0 == other && names::lookup(m, other)
                        == Some(m[i].1);
                let g = saving::same_key_at(m, r@);
                assert(g(i) == Some(other));
                lists::gather_contains(m.len(), g, other);
            }
        }
    }
    only_one_given(after.len(), f, at);
}

} // verus!
