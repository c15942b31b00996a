//! Searching and choosing in lists.
use crate::apps;
use crate::apps::InstalledApp;
use crate::i18n;
use crate::i18n::{tr, Language};
use crate::interface;
use crate::interface::{quick_launch_action, say, window_names};
use crate::lists;
use crate::model::{Recipe, RecipeView};
use crate::resolve::RecipeStatus;
use crate::saving;
use crate::saving::recipe_display_name;
use crate::text;
use crate::text::{ascii_lowercase, contains, str_eq, trim};
use vstd::prelude::*;

verus! {

// Searching

/// The text in which a recipe is searched for.
pub open spec fn recipe_haystack(key: Seq<char>, r: RecipeView) -> Seq<char> {
    text::lower_text(key + " "@ + saving::display_name(r) + " "@ + r.workspace)
}

/// The text in which the quick launcher searches for a recipe.
pub fn quick_haystack(key: &str, recipe: &Recipe) -> (out: String)
    ensures
        out@ == recipe_haystack(key@, recipe@),
{
    let mut all: String = key.to_owned();
    all.append(" ");
    all.append(recipe_display_name(recipe));
    all.append(" ");
    all.append(recipe.workspace.as_str());
    ascii_lowercase(all.as_str())
}

/// The text in which the first page searches for a recipe: the names of its
/// windows too.
pub fn home_haystack(key: &str, recipe: &Recipe) -> (out: String)
    ensures
        out@ == text::lower_text(
            key@ + " "@ + saving::display_name(recipe@) + " "@ + recipe@.workspace + " "@
                + text::joined(interface::friendly_names(recipe@.windows), " "@),
        ),
{
    let mut all: String = key.to_owned();
    all.append(" ");
    all.append(recipe_display_name(recipe));
    all.append(" ");
    all.append(recipe.workspace.as_str());
    all.append(" ");
    all.append(window_names(recipe, " ").as_str());
    ascii_lowercase(all.as_str())
}

/// The text in which an installed application is searched for.
pub fn app_haystack(app: &InstalledApp) -> (out: String)
    ensures
        out@ == text::lower_text(
            app@.name + " "@ + app@.desktop_id + " "@ + apps::or_empty(app@.startup_wm_class)
                + " "@ + apps::or_empty(app@.flatpak_id),
        ),
{
    let mut all: String = app.name.clone();
    all.append(" ");
    all.append(app.desktop_id.as_str());
    all.append(" ");
    if let Some(class) = &app.startup_wm_class {
        all.append(class.as_str());
    }
    let ghost so_far = all@;
    assert(so_far =~= app@.name + " "@ + app@.desktop_id + " "@ + apps::or_empty(
        app@.startup_wm_class,
    ));
    all.append(" ");
    if let Some(id) = &app.flatpak_id {
        all.append(id.as_str());
    }
    assert(all@ =~= so_far + " "@ + apps::or_empty(app@.flatpak_id));
    ascii_lowercase(all.as_str())
}

/// A query finds everything where it is blank, else what it is a part of,
/// whatever the case of its letters.
pub open spec fn is_found(haystack: Seq<char>, query: Seq<char>) -> bool {
    let q = text::lower_text(text::trimmed(query));
    q.len() == 0 || text::has_part(haystack, q)
}

/// Whether a query finds a lower case text.
pub fn matches_query(haystack: &str, query: &str) -> (out: bool)
    ensures
        out == is_found(haystack@, query@),
{
    let q: String = ascii_lowercase(trim(query));
    q.as_str().unicode_len() == 0 || contains(haystack, q.as_str())
}

// Choosing a row

/// Row `i` is the first that is shown.
pub open spec fn is_first_shown(visible: Seq<bool>, i: int) -> bool {
    0 <= i < visible.len() && visible[i] && forall|k: int| 0 <= k < i ==> !visible[k]
}

/// The row that is chosen: the wanted one where it is shown, else the first that
/// is.
pub open spec fn is_chosen(visible: Seq<bool>, wanted: Option<usize>, out: Option<usize>) -> bool {
    if wanted is Some && wanted->0 < visible.len() && visible[wanted->0 as int] {
        out == wanted
    } else {
        match out {
            Some(i) => is_first_shown(visible, i as int),
            None => forall|k: int| 0 <= k < visible.len() ==> !visible[k],
        }
    }
}

/// The row that is chosen. `visible` says which rows are shown.
pub fn set_quick_selection(visible: &Vec<bool>, wanted: Option<usize>) -> (out: Option<usize>)
    ensures
        is_chosen(visible@, wanted, out),
{
    if let Some(w) = wanted {
        if w < visible.len() && visible[w] {
            return Some(w);
        }
    }
    for i in 0..visible.len()
        invariant
            !(wanted is Some && wanted->0 < visible@.len() && visible@[wanted->0 as int]),
            forall|k: int| 0 <= k < i ==> !visible@[k],
    {
        if visible[i] {
            return Some(i);
        }
    }
    None
}

pub open spec fn shown_place(visible: Seq<bool>) -> spec_fn(int) -> Option<int> {
    |i: int|
        if visible[i] {
            Some(i)
        } else {
            None
        }
}

/// The rows that are shown.
pub open spec fn shown_places(visible: Seq<bool>) -> Seq<int> {
    lists::gather(visible.len(), shown_place(visible))
}

/// Where the chosen row stands among those that are shown; the first place where
/// it is not shown.
pub open spec fn place_among(shown: Seq<int>, selected: Option<usize>) -> int {
    if selected is Some && shown.contains(selected->0 as int) {
        shown.index_of(selected->0 as int)
    } else {
        0
    }
}

/// The row that is chosen after `delta` steps down, or up where it is negative;
/// behind the last shown row comes the first.
pub open spec fn moved(visible: Seq<bool>, selected: Option<usize>, delta: int) -> Option<int> {
    let shown = shown_places(visible);
    if shown.len() == 0 {
        None
    } else {
        Some(shown[(place_among(shown, selected) + delta) % (shown.len() as int)])
    }
}

proof fn shown_ascend(visible: Seq<bool>, n: nat)
    requires
        n <= visible.len(),
    ensures
        ({
            let g = lists::gather(n, shown_place(visible));
            &&& g.len() <= n
            &&& forall|a: int| 0 <= a < g.len() ==> 0 <= (#[trigger] g[a]) < n && visible[g[a]]
            &&& forall|a: int, b: int| 0 <= a < b < g.len() ==> g[a] < g[b]
        }),
    decreases n,
{
    if n > 0 {
        shown_ascend(visible, (n - 1) as nat);
        let f = shown_place(visible);
        assert(f(n - 1) == if visible[n - 1] { Some(n - 1) } else { None::<int> });
    }
}

/// The row that is chosen after `delta` steps down, or up where it is negative.
pub fn move_quick_selection(visible: &Vec<bool>, selected: Option<usize>, delta: i32) -> (out:
    Option<usize>)
    ensures
        match out {
            Some(i) => moved(visible@, selected, delta as int) == Some(i as int),
            None => moved(visible@, selected, delta as int) is None,
        },
{
    let ghost f = shown_place(visible@);
    let mut shown: Vec<usize> = Vec::new();
    let mut at: usize = 0;
    let mut found: bool = false;
    for i in 0..visible.len()
        invariant
            f == shown_place(visible@),
            lists::as_places(shown@) == lists::gather(i as nat, f),
            found ==> at < shown@.len() && selected is Some && shown@[at as int]
                == selected->0,
            !found ==> at == 0 && (selected is Some ==> !shown@.contains(selected->0)),
    {
        let ghost given = f(i as int);
        let ghost before = shown@;
        if visible[i] {
            if let Some(s) = selected {
                if s == i {
                    at = shown.len();
                    found = true;
                }
            }
            shown.push(i);
            assert(lists::as_places(shown@) =~= lists::as_places(before).push(i as int));
            proof {
                if !found && selected is Some {
                    assert forall|k: int| 0 <= k < shown@.len() implies shown@[k]
                        != selected->0 by {
                        if k < before.len() {
                            assert(before.contains(before[k]));
                        }
                    }
                }
            }
        }
    }
    let ghost places = shown_places(visible@);
    assert(lists::as_places(shown@) == places);
    assert(places.len() == shown@.len());
    if shown.len() == 0 {
        return None;
    }
    proof {
        shown_ascend(visible@, visible@.len());
        if found {
            assert(places[at as int] == selected->0 as int);
            assert(places.contains(selected->0 as int));
            let k = places.index_of(selected->0 as int);
            if k < at {
                assert(places[k] < places[at as int]);
            } else if at < k {
                assert(places[at as int] < places[k]);
            }
        } else if selected is Some && places.contains(selected->0 as int) {
            let k = choose|k: int| 0 <= k < places.len() && places[k] == selected->0 as int;
            assert(lists::as_places(shown@)[k] == shown@[k] as int);
            assert(shown@.contains(shown@[k]));
        }
        assert(at == place_among(places, selected));
    }
    let n: i128 = shown.len() as i128;
    let sum: i128 = at as i128 + delta as i128;
    let next: i128 = if sum >= 0 {
        sum % n
    } else {
        let back: i128 = (-sum) % n;
        if back == 0 {
            0
        } else {
            n - back
        }
    };
    proof {
        let total = at as int + delta as int;
        if total < 0 {
            let m = shown@.len() as int;
            let k = (-total) / m;
            assert(-total == m * k + (-total) % m) by (nonlinear_arith)
                requires
                    m > 0,
                    k == (-total) / m,
            ;
            if (-total) % m == 0 {
                assert(total == (-k) * m + 0) by (nonlinear_arith)
                    requires
                        -total == m * k + (-total) % m,
                        (-total) % m == 0,
                ;
                vstd::arithmetic::div_mod::lemma_fundamental_div_mod_converse(total, m, -k, 0);
            } else {
                assert(total == (-k - 1) * m + (m - (-total) % m)) by (nonlinear_arith)
                    requires
                        -total == m * k + (-total) % m,
                ;
                vstd::arithmetic::div_mod::lemma_fundamental_div_mod_converse(
                    total,
                    m,
                    -k - 1,
                    m - (-total) % m,
                );
            }
        }
        assert(next == total % (shown@.len() as int));
        assert(lists::as_places(shown@)[next as int] == shown@[next as int] as int);
    }
    Some(shown[next as usize])
}

// The quick launcher

/// What the key Enter does to a recipe of this status.
pub fn enter_hint(language: Language, status: &RecipeStatus) -> (out: String)
    ensures
        out@ == "Enter · "@ + (match interface::launch_action(*status) {
            Some(action) => if action == "repair"@ {
                i18n::text_for(language, "repair"@)
            } else {
                i18n::text_for(language, "open"@)
            },
            None => interface::said(language, "Недоступно"@, "Unavailable"@),
        }),
{
    let mut out: String = "Enter · ".to_owned();
    match quick_launch_action(status) {
        Some(action) => {
            if str_eq(action, "repair") {
                out.append(tr(language, "repair"));
            } else {
                out.append(tr(language, "open"));
            }
        },
        None => {
            out.append(say(language, "Недоступно", "Unavailable"));
        },
    }
    out
}

/// What is done where a row of the quick launcher is taken: the command to run,
/// or what to say. With `repair` the layout is put right and nothing started.
pub fn take_row(language: Language, status: &RecipeStatus, repair: bool) -> (out: Result<
    &'static str,
    &'static str,
>)
    ensures
        match out {
            Ok(action) => interface::launch_action(*status) is Some && action@ == if repair {
                "repair"@
            } else {
                interface::launch_action(*status)->0
            },
            Err(message) => interface::launch_action(*status) is None && message@ == if repair {
                interface::said(
                    language,
                    "Repair недоступен для этого окружения."@,
                    "Repair is unavailable for this workbench."@,
                )
            } else {
                interface::said(
                    language,
                    "Это окружение сейчас нельзя запустить. Открой Workbench для подробностей."@,
                    "This workbench cannot be launched right now. Open Workbench for details."@,
                )
            },
        },
{
    match quick_launch_action(status) {
        Some(action) => if repair {
            Ok("repair")
        } else {
            Ok(action)
        },
        None => if repair {
            Err(
                say(
                    language,
                    "Repair недоступен для этого окружения.",
                    "Repair is unavailable for this workbench.",
                ),
            )
        } else {
            Err(
                say(
                    language,
                    "Это окружение сейчас нельзя запустить. Открой Workbench для подробностей.",
                    "This workbench cannot be launched right now. Open Workbench for details.",
                ),
            )
        },
    }
}

// Laws

/// Only a row that is shown is ever chosen by moving.
pub proof fn moving_chooses_shown_rows(visible: Seq<bool>, selected: Option<usize>, delta: int)
    ensures
        match moved(visible, selected, delta) {
            Some(i) => 0 <= i < visible.len() && visible[i],
            None => forall|k: int| 0 <= k < visible.len() ==> !visible[k],
        },
{
    let shown = shown_places(visible);
    shown_ascend(visible, visible.len());
    if shown.len() == 0 {
        lists::gather_is_empty(visible.len(), shown_place(visible));
        assert forall|k: int| 0 <= k < visible.len() implies !visible[k] by {
            assert(shown_place(visible)(k) is None);
        }
    } else {
        let m = shown.len() as int;
        let k = (place_among(shown, selected) + delta) % m;
        assert(0 <= k < m);
        assert(0 <= shown[k] < visible.len());
    }
}

/// A blank query finds everything.
pub proof fn blank_queries_find_all(haystack: Seq<char>, query: Seq<char>)
    requires
        text::is_blank(query),
    ensures
        is_found(haystack, query),
{
    text::blank_iff_trims_away(query);
}

} // verus!
