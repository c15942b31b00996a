//! What is saved of a capture is what a library may hold.
use crate::capture;
use crate::capture::Capture;
use crate::capture_form;
use crate::capture_laws;
use crate::config;
use crate::config_laws;
use crate::lists;
use crate::model::{Recipe, RecipeView};
use crate::names;
use crate::naming;
use crate::planner;
use crate::saving;
use crate::text;
use vstd::prelude::*;

verus! {

/// The `k`th window of a capture can be recognised again: it has an application or
/// a title, and the patterns for them compile. A floating window that says its
/// column says one from 1 on.
pub open spec fn can_be_kept(c: Capture, k: int) -> bool {
    let m = capture::captured_match(c.state.windows, c.window(k));
    &&& config::has_matcher(m)
    &&& config_laws::compiles(m.app_id)
    &&& config_laws::compiles(m.title)
    &&& c.window(k).is_floating ==> c.window(k).column != Some(0usize)
}

/// The recipe that is saved of a capture: as it was reviewed, with the windows that
/// are kept.
pub open spec fn kept_recipe(
    c: Capture,
    workspace: Seq<char>,
    lines: Seq<Seq<char>>,
    name: Seq<char>,
    included: Seq<bool>,
) -> RecipeView {
    saving::selected(capture_form::reviewed(c.recipe(), workspace, lines, name), included)
}

/// The name of a captured window is not blank.
proof fn captured_names_are_visible(c: Capture, k: int)
    requires
        k >= 0,
    ensures
        !text::is_blank(c.name(k)),
{
    let w = c.window(k);
    let base = capture::plain_name(w, k);
    let name = c.name(k);
    naming::first_free_exists(base, c.names(k as nat));
    assert(naming::is_first_free(base, c.names(k as nat), name));
    let a = choose|a: int| a >= 0 && name == #[trigger] naming::attempt(base, a);
    reveal_strlit("window-");
    let slug = naming::slug(capture::name_source(w));
    naming::slugs_are_clean(capture::name_source(w));
    assert(base.len() > 0);
    assert(!text::is_white(base[0])) by {
        if slug.len() > 0 {
            assert(naming::is_slug_char(slug[0]));
        } else {
            assert(base[0] == 'w');
        }
    }
    assert(name[0] == base[0]);
}

/// A reviewed selection of a capture is accepted just where each kept window can be
/// recognised again.
pub proof fn kept_recipes_are_accepted(
    key: Seq<char>,
    c: Capture,
    workspace: Seq<char>,
    lines: Seq<Seq<char>>,
    name: Seq<char>,
    included: Seq<bool>,
)
    requires
        c.places().len() <= usize::MAX,
        included.len() == c.places().len(),
        !text::is_blank(workspace),
        exists|k: int| 0 <= k < included.len() && #[trigger] included[k],
    ensures
        config::recipe_fault(key, kept_recipe(c, workspace, lines, name, included)) is None
            <==> forall|k: int|
            0 <= k < included.len() && #[trigger] included[k] ==> can_be_kept(c, k),
{
    let all = capture_form::reviewed(c.recipe(), workspace, lines, name);
    let r = kept_recipe(c, workspace, lines, name, included);
    let n = all.windows.len();
    let f = saving::kept_at(all.windows, included);
    let windows = saving::kept(all.windows, included);
    let from = lists::gather(n, lists::given_at(f));
    lists::gathered_from(n, f);
    lists::gather_is_bounded(n, f);
    config_laws::accepted_means_sound(key, r);
    capture_laws::selections_leave_no_gaps(windows);
    config_laws::contiguous_keys(planner::column_keys(r.windows));
    text::blank_iff_trims_away(workspace);
    text::blank_iff_trims_away(text::trimmed(workspace));
    text::trimming_is_idempotent(workspace);
    let keys = planner::column_keys(windows);
    let seen = saving::first_seen(keys, keys.len());
    saving::first_seen_is(keys, keys.len());
    assert(keys.take(keys.len() as int) =~= keys);
    assert(r.windows.len() == windows.len());
    assert forall|k: int| 0 <= k < windows.len() implies {
        let at = from[k];
        &&& 0 <= at < n
        &&& included[at]
        &&& #[trigger] windows[k] == all.windows[at]
        &&& windows[k].layout == c.layout(at)
        &&& windows[k].name == c.name(at)
    } by {
        assert(f(from[k]) == Some(windows[k]));
    }
    assert(windows.len() > 0) by {
        let k = choose|k: int| 0 <= k < included.len() && #[trigger] included[k];
        assert(f(k) is Some);
        if windows.len() == 0 {
            lists::gather_is_empty(n, f);
        }
    }
    assert forall|k: int| 0 <= k < windows.len() implies config_laws::is_sound_window(
        r,
        #[trigger] r.windows[k],
    ) == can_be_kept(c, from[k]) by {
        let at = from[k];
        let w = windows[k];
        captured_names_are_visible(c, at);
        if !w.layout.floating {
            assert(keys[k] == Some(w.layout.column));
            assert(keys.contains(Some(w.layout.column)));
            assert(seen.contains(w.layout.column));
            assert(seen[seen.index_of(w.layout.column)] == w.layout.column);
        }
    }
    assert forall|i: int, j: int| 0 <= j < i < r.windows.len() implies #[trigger] config_laws::are_compatible(
        r.windows,
        i,
        j,
    ) by {
        let a = from[j];
        let b = from[i];
        assert(a < b);
        assert(windows[i].name == c.name(b) && windows[j].name == c.name(a));
        capture_laws::captured_names_differ(c, a, b);
        if config::share_column(r.windows, i, j) {
            capture_laws::selections_keep_columns_together(windows, i, j);
            assert(c.column(a) == c.column(b));
            assert(!c.window(a).is_floating);
            assert(!c.leads_column(b));
        }
    }
    assert(r.focus is Some ==> config::names_window(r.windows, r.focus->0)) by {
        if r.focus is Some {
            let i = choose|i: int|
                0 <= i < windows.len() && (#[trigger] windows[i]).name == r.focus->0;
            assert(r.windows[i].name == r.focus->0);
        }
    }
    if config::recipe_fault(key, r) is None {
        assert forall|k: int| 0 <= k < included.len() && #[trigger] included[k] implies can_be_kept(
            c,
            k,
        ) by {
            let g = lists::given_at(f);
            assert(g(k) == Some(k));
            lists::gather_contains(n, g, k);
            assert(from.contains(k));
            let i = choose|i: int| 0 <= i < from.len() && from[i] == k;
            assert(config_laws::is_sound_window(r, r.windows[i]));
        }
    }
}

/// A library that is accepted, or empty, is accepted with a saved recipe that is
/// accepted by itself.
pub proof fn saved_libraries_are_accepted(
    m: Seq<(Seq<char>, Recipe)>,
    r: Recipe,
    key: Seq<char>,
)
    requires
        names::names_ascend(m),
        capture_laws::is_saved_key(m, r@, key),
        config::recipe_fault(key, r@) is None,
        forall|i: int|
            0 <= i < m.len() ==> config::recipe_fault((#[trigger] m[i]).0, m[i].1@) is None,
    ensures
        config::config_fault(
            capture_laws::saved(m, key, r).map_values(|e: (Seq<char>, Recipe)| (e.0, e.1@)),
        ) is None,
{
    let after = capture_laws::saved(m, key, r);
    let views = after.map_values(|e: (Seq<char>, Recipe)| (e.0, e.1@));
    let f = config::entry_fault(views);
    capture_laws::saving_replaces_the_same_card(m, r, key, key);
    names::lookup_finds(after, key);
    assert forall|i: int| 0 <= i < views.len() implies (#[trigger] f(i)) is None by {
        let other = after[i].0;
        names::lookup_is(after, i);
        capture_laws::saving_replaces_the_same_card(m, r, key, other);
        if other != key {
            names::lookup_finds(m, other);
            let j = choose|j: int|
                0 <= j < m.len() && (#[trigger] m[j]).0 == other && names::lookup(m, other) == Some(
                    m[j].1,
                );
            assert(after[i].1 == m[j].1);
        }
    }
    lists::first_given_none(views.len(), f);
}

} // verus!
