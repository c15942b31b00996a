//! Keeping a part of what was captured, and putting it into the configuration.
use crate::capture::CaptureError;
use crate::editing;
use crate::lists;
use crate::model;
use crate::model::{Config, Recipe, RecipeView, WindowSpec, WindowView};
use crate::names;
use crate::naming;
use crate::naming::{free_name, unique_slug};
use crate::planner;
use crate::text;
use crate::text::str_eq;
use vstd::prelude::*;

verus! {

// Keeping a part

pub open spec fn kept_at(windows: Seq<WindowView>, included: Seq<bool>) -> spec_fn(int) -> Option<
    WindowView,
> {
    |i: int|
        if included[i] {
            Some(windows[i])
        } else {
            None
        }
}

/// The windows that are kept.
pub open spec fn kept(windows: Seq<WindowView>, included: Seq<bool>) -> Seq<WindowView> {
    lists::gather(windows.len(), kept_at(windows, included))
}

/// The groups among the first `n` places, in the order in which they first occur.
pub open spec fn first_seen(keys: Seq<Option<usize>>, n: nat) -> Seq<usize>
    decreases n,
{
    if n == 0 {
        Seq::empty()
    } else {
        let before = first_seen(keys, (n - 1) as nat);
        match keys[n - 1] {
            Some(c) => if before.contains(c) {
                before
            } else {
                before.push(c)
            },
            None => before,
        }
    }
}

/// The windows with their tiled columns numbered from 1 in the order in which
/// they first occur.
pub open spec fn compacted(windows: Seq<WindowView>) -> Seq<WindowView> {
    let keys = planner::column_keys(windows);
    let seen = first_seen(keys, keys.len());
    windows.map_values(
        |w: WindowView|
            if w.layout.floating {
                w
            } else {
                editing::with_column(w, (seen.index_of(w.layout.column) + 1) as usize)
            },
    )
}

/// A recipe with only the windows that are kept; the focus goes with its window.
pub open spec fn selected(r: RecipeView, included: Seq<bool>) -> RecipeView {
    let windows = kept(r.windows, included);
    RecipeView {
        focus: if r.focus is Some && !crate::config::names_window(windows, r.focus->0) {
            None
        } else {
            r.focus
        },
        windows: compacted(windows),
        ..r
    }
}

/// The place of `c` in a list without repetitions.
fn place_in(seen: &Vec<usize>, c: usize) -> (out: Option<usize>)
    requires
        seen@.no_duplicates(),
    ensures
        match out {
            Some(i) => i < seen@.len() && i == seen@.index_of(c) && seen@.contains(c),
            None => !seen@.contains(c),
        },
{
    for i in 0..seen.len()
        invariant
            seen@.no_duplicates(),
            forall|k: int| 0 <= k < i ==> seen@[k] != c,
    {
        if seen[i] == c {
            assert(seen@[i as int] == c);
            assert(seen@.contains(c));
            return Some(i);
        }
    }
    None
}

pub proof fn first_seen_is(keys: Seq<Option<usize>>, n: nat)
    requires
        n <= keys.len(),
    ensures
        first_seen(keys, n).no_duplicates(),
        first_seen(keys, n).len() <= n,
        forall|c: usize|
            #![trigger first_seen(keys, n).contains(c)]
            #![trigger keys.take(n as int).contains(Some(c))]
            first_seen(keys, n).contains(c) <==> keys.take(n as int).contains(Some(c)),
    decreases n,
{
    let t = keys.take(n as int);
    if n > 0 {
        first_seen_is(keys, (n - 1) as nat);
        let before = first_seen(keys, (n - 1) as nat);
        let s = keys.take(n - 1);
        let now = first_seen(keys, n);
        assert(t =~= s.push(keys[n - 1]));
        assert forall|c: usize| #[trigger] now.contains(c) <==> t.contains(Some(c)) by {
            if now.contains(c) {
                let a = choose|a: int| 0 <= a < now.len() && now[a] == c;
                if a < before.len() {
                    assert(before[a] == c);
                    assert(before.contains(c));
                    let b = choose|b: int| 0 <= b < s.len() && s[b] == Some(c);
                    assert(t[b] == Some(c));
                } else {
                    assert(t[n - 1] == Some(c));
                }
            }
            if t.contains(Some(c)) {
                let b = choose|b: int| 0 <= b < t.len() && t[b] == Some(c);
                if b < n - 1 {
                    assert(s[b] == Some(c));
                    assert(s.contains(Some(c)));
                    let a = choose|a: int| 0 <= a < before.len() && before[a] == c;
                    assert(now[a] == c);
                } else if !before.contains(c) {
                    assert(now[before.len() as int] == c);
                } else {
                    let a = choose|a: int| 0 <= a < before.len() && before[a] == c;
                    assert(now[a] == c);
                }
            }
        }
    }
}

/// Numbers the tiled columns from 1 in the order in which they first occur.
fn compact(windows: &mut Vec<WindowSpec>)
    ensures
        model::window_views(final(windows)@) == compacted(model::window_views(old(windows)@)),
{
    let ghost before = model::window_views(windows@);
    let ghost keys = planner::column_keys(before);
    let ghost all = first_seen(keys, keys.len());
    let ghost after = compacted(before);
    let n: usize = windows.len();
    let mut seen: Vec<usize> = Vec::new();
    for i in 0..n
        invariant
            n == windows@.len(),
            n == before.len(),
            keys == planner::column_keys(before),
            all == first_seen(keys, keys.len()),
            after == compacted(before),
            seen@ == first_seen(keys, i as nat),
            seen@.len() <= i,
            seen@.no_duplicates(),
            forall|k: int| 0 <= k < i ==> (#[trigger] windows@[k])@ == after[k],
            forall|k: int| i <= k < n ==> (#[trigger] windows@[k])@ == before[k],
    {
        assert(windows@[i as int]@ == before[i as int]);
        let ghost w0 = windows@;
        proof {
            first_seen_is(keys, i as nat);
            first_seen_is(keys, (i + 1) as nat);
            first_seen_is(keys, keys.len());
            seen_extends(keys, (i + 1) as nat, keys.len());
        }
        if !windows[i].layout.floating {
            let c: usize = windows[i].layout.column;
            assert(keys[i as int] == Some(c));
            let at: usize = match place_in(&seen, c) {
                Some(k) => k,
                None => {
                    let k: usize = seen.len();
                    seen.push(c);
                    k
                },
            };
            assert(seen@ == first_seen(keys, (i + 1) as nat));
            assert(seen@[at as int] == c);
            assert(all.index_of(c) == at) by {
                assert(all[at as int] == c) by {
                    assert(seen@ =~= all.subrange(0, seen@.len() as int));
                    assert(all.subrange(0, seen@.len() as int)[at as int] == all[at as int]);
                }
                assert(all.contains(c));
                let j = all.index_of(c);
                assert(all[j] == c);
            }
            windows[i].layout.column = at + 1;
        }
        assert(windows@[i as int]@ =~= after[i as int]);
        assert forall|k: int| 0 <= k < n && k != i implies (#[trigger] windows@[k])@ == w0[k]@ by {}
    }
    assert(model::window_views(windows@) =~= after);
}

pub proof fn seen_extends(keys: Seq<Option<usize>>, m: nat, n: nat)
    requires
        m <= n,
    ensures
        first_seen(keys, m).is_prefix_of(first_seen(keys, n)),
    decreases n - m,
{
    let a = first_seen(keys, m);
    if m < n {
        seen_extends(keys, m, (n - 1) as nat);
        let b = first_seen(keys, (n - 1) as nat);
        let c = first_seen(keys, n);
        assert(a =~= c.subrange(0, a.len() as int)) by {
            assert(a =~= b.subrange(0, a.len() as int));
        }
    } else {
        assert(a =~= a.subrange(0, a.len() as int));
    }
}

fn names_kept(windows: &Vec<WindowSpec>, name: &str) -> (out: bool)
    ensures
        out == crate::config::names_window(model::window_views(windows@), name@),
{
    let ghost views = model::window_views(windows@);
    for i in 0..windows.len()
        invariant
            views == model::window_views(windows@),
            forall|k: int| 0 <= k < i ==> (#[trigger] views[k]).name != name@,
    {
        assert(views[i as int] == windows@[i as int]@);
        if str_eq(windows[i].name.as_str(), name) {
            return true;
        }
    }
    false
}

/// Keeps the windows of a captured recipe that `included` says, and numbers their
/// columns again. Where it says of none, no window is left and nothing else is
/// changed.
pub fn apply_capture_selection(recipe: &mut Recipe, included: &[bool]) -> (out: Result<
    (),
    CaptureError,
>)
    ensures
        match out {
            Ok(()) => included@.len() == old(recipe)@.windows.len() && kept(
                old(recipe)@.windows,
                included@,
            ).len() > 0 && final(recipe)@ == selected(old(recipe)@, included@),
            Err(CaptureError::SelectionMismatch) => included@.len() != old(recipe)@.windows.len()
                && final(recipe)@ == old(recipe)@,
            Err(CaptureError::NothingSelected) => included@.len() == old(recipe)@.windows.len()
                && kept(old(recipe)@.windows, included@).len() == 0 && final(recipe)@
                == editing::with_windows(old(recipe)@, Seq::empty()),
            Err(_) => false,
        },
{
    if recipe.windows.len() != included.len() {
        return Err(CaptureError::SelectionMismatch);
    }
    let ghost all = recipe@.windows;
    let ghost f = kept_at(all, included@);
    let mut left: Vec<WindowSpec> = Vec::new();
    assert(model::window_views(left@) =~= lists::gather(0, f));
    for i in 0..included.len()
        invariant
            all == recipe@.windows,
            recipe == old(recipe),
            recipe.windows@.len() == included@.len(),
            f == kept_at(all, included@),
            model::window_views(left@) == lists::gather(i as nat, f),
    {
        let ghost before = left@;
        let ghost given = f(i as int);
        assert(all[i as int] == recipe.windows@[i as int]@);
        if included[i] {
            left.push(recipe.windows[i].clone());
            assert(model::window_views(left@) =~= model::window_views(before).push(given->0));
        }
    }
    let ghost windows = model::window_views(left@);
    recipe.windows = left;
    if recipe.windows.len() == 0 {
        assert(recipe@ =~= editing::with_windows(old(recipe)@, Seq::empty()));
        return Err(CaptureError::NothingSelected);
    }
    let lost: bool = match &recipe.focus {
        Some(focus) => !names_kept(&recipe.windows, focus.as_str()),
        None => false,
    };
    if lost {
        recipe.focus = None;
    }
    compact(&mut recipe.windows);
    assert(recipe@ =~= selected(old(recipe)@, included@));
    Ok(())
}

// Putting a recipe into the configuration

/// The name of a recipe for people: its own, or that of its workspace.
pub open spec fn display_name(r: RecipeView) -> Seq<char> {
    match r.name {
        Some(name) => name,
        None => r.workspace,
    }
}

/// Two recipes are about the same thing: they have the same name and workspace.
pub open spec fn is_same_card(a: RecipeView, b: RecipeView) -> bool {
    display_name(a) == display_name(b) && a.workspace == b.workspace
}

/// The name of a recipe for people.
pub fn recipe_display_name(recipe: &Recipe) -> (out: &str)
    ensures
        out@ == display_name(recipe@),
{
    match &recipe.name {
        Some(name) => name.as_str(),
        None => recipe.workspace.as_str(),
    }
}

fn same_card(a: &Recipe, b: &Recipe) -> (out: bool)
    ensures
        out == is_same_card(a@, b@),
{
    str_eq(recipe_display_name(a), recipe_display_name(b)) && a.workspace == b.workspace
}

pub open spec fn same_key_at(m: Seq<(Seq<char>, Recipe)>, r: RecipeView) -> spec_fn(int) -> Option<
    Seq<char>,
> {
    |i: int|
        if is_same_card(m[i].1@, r) {
            Some(m[i].0)
        } else {
            None
        }
}

/// The keys of the recipes that are about the same thing as `r`, ascending.
pub open spec fn same_keys(m: Seq<(Seq<char>, Recipe)>, r: RecipeView) -> Seq<Seq<char>> {
    lists::gather(m.len(), same_key_at(m, r))
}

/// The keys of all recipes.
pub open spec fn keys_of(m: Seq<(Seq<char>, Recipe)>) -> Seq<Seq<char>> {
    m.map_values(|e: (Seq<char>, Recipe)| e.0)
}

/// `m` without the entries for the keys from place `from` on.
pub open spec fn removed_from(
    m: Seq<(Seq<char>, Recipe)>,
    keys: Seq<Seq<char>>,
    from: int,
    to: int,
) -> Seq<(Seq<char>, Recipe)>
    decreases to - from,
{
    if to <= from {
        m
    } else {
        names::removed(removed_from(m, keys, from, to - 1), keys[to - 1])
    }
}

/// The text from which the key of a new recipe is made.
pub open spec fn key_base(r: RecipeView) -> Seq<char> {
    let base = naming::slug(display_name(r));
    if base.len() == 0 {
        "workbench"@
    } else {
        base
    }
}

/// Puts a captured recipe into the configuration. Where recipes are about the same
/// thing already, it takes the place of the first of them and the others go; else
/// it gets a key of its own. Gives the key, and how many recipes it replaced.
pub fn upsert_captured_recipe(config: &mut Config, recipe: Recipe) -> (out: (String, usize))
    ensures
        ({
            let m = old(config).workbench@;
            let keys = same_keys(m, recipe@);
            &&& out.1 == keys.len()
            &&& keys.len() > 0 ==> out.0@ == keys[0] && final(config).workbench@
                == names::inserted(removed_from(m, keys, 1, keys.len() as int), keys[0], recipe)
            &&& keys.len() == 0 ==> naming::is_first_free(key_base(recipe@), keys_of(m), out.0@)
                && final(config).workbench@ == names::inserted(m, out.0@, recipe)
        }),
{
    let ghost m = config.workbench@;
    let ghost f = same_key_at(m, recipe@);
    let ghost want = same_keys(m, recipe@);
    let mut same: Vec<String> = Vec::new();
    let mut taken: Vec<String> = Vec::new();
    assert(text::texts(same@) =~= lists::gather(0, f));
    let n: usize = config.workbench.len();
    for i in 0..n
        invariant
            n == config.workbench@.len(),
            m == config.workbench@,
            f == same_key_at(m, recipe@),
            text::texts(same@) == lists::gather(i as nat, f),
            taken@.len() == i,
            forall|k: int| 0 <= k < i ==> (#[trigger] taken@[k])@ == m[k].0,
    {
        let ghost before = same@;
        let ghost given = f(i as int);
        if same_card(config.workbench.value_at(i), &recipe) {
            same.push(config.workbench.name_at(i).clone());
            assert(text::texts(same@) =~= text::texts(before).push(given->0));
        }
        taken.push(config.workbench.name_at(i).clone());
    }
    assert(text::texts(taken@) =~= keys_of(m));
    let count: usize = same.len();
    if count > 0 {
        let key: String = same[0].clone();
        for i in 1..count
            invariant
                count == same@.len(),
                count > 0,
                text::texts(same@) == want,
                config.workbench@ == removed_from(m, want, 1, i as int),
        {
            assert(want[i as int] == same@[i as int]@);
            config.workbench.remove(same[i].as_str());
        }
        assert(want[0] == same@[0]@);
        config.workbench.insert(key.clone(), recipe);
        return (key, count);
    }
    let slug: String = unique_slug(recipe_display_name(&recipe));
    let base: String = if slug.as_str().is_empty() {
        "workbench".to_owned()
    } else {
        slug
    };
    let key: String = free_name(base.as_str(), &taken);
    config.workbench.insert(key.clone(), recipe);
    (key, 0)
}

} // verus!
