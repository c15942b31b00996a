//! Adding windows to a recipe that is being edited.
use crate::apps;
use crate::apps::{AppView, InstalledApp};
use crate::editing;
use crate::editing::{column_behind, normalize_columns};
use crate::lists;
use crate::model;
use crate::model::{
    MatchSpec, MatchView, PlacementSpec, Recipe, ReusePolicy, WindowSpec, WindowView,
};
use crate::naming;
use crate::naming::{free_name, unique_slug};
use crate::outside;
use crate::outside::escape_pattern;
use crate::text;
use crate::text::{ascii_lowercase, blank, contains, copy_list, join, list_contains, opt_eq, str_eq};
use vstd::prelude::*;

verus! {

/// Two logical windows are looked for by the same patterns.
pub open spec fn is_same_match(a: WindowView, b: WindowView) -> bool {
    a.match_spec.app_id == b.match_spec.app_id && a.match_spec.title == b.match_spec.title
        && a.match_spec.process == b.match_spec.process
}

/// Whether two logical windows are looked for by the same patterns.
pub fn same_window_match(left: &WindowSpec, right: &WindowSpec) -> (out: bool)
    ensures
        out == is_same_match(left@, right@),
{
    opt_eq(&left.match_spec.app_id, &right.match_spec.app_id) && opt_eq(
        &left.match_spec.title,
        &right.match_spec.title,
    ) && opt_eq(&left.match_spec.process, &right.match_spec.process)
}

/// A logical window is looked for by the same patterns as one that is there.
pub open spec fn is_known(existing: Seq<WindowView>, w: WindowView) -> bool {
    exists|i: int| 0 <= i < existing.len() && is_same_match(#[trigger] existing[i], w)
}

fn known(existing: &Vec<WindowSpec>, w: &WindowSpec) -> (out: bool)
    ensures
        out == is_known(model::window_views(existing@), w@),
{
    let ghost views = model::window_views(existing@);
    for i in 0..existing.len()
        invariant
            views == model::window_views(existing@),
            forall|k: int| 0 <= k < i ==> !is_same_match(#[trigger] views[k], w@),
    {
        assert(views[i as int] == existing@[i as int]@);
        if same_window_match(&existing[i], w) {
            assert(is_same_match(views[i as int], w@));
            return true;
        }
    }
    false
}

pub open spec fn new_place(existing: Seq<WindowView>, offered: Seq<WindowView>) -> spec_fn(
    int,
) -> Option<int> {
    |i: int|
        if is_known(existing, offered[i]) {
            None
        } else {
            Some(i)
        }
}

/// The places of the open windows that can be added: those that no logical window
/// is looking for yet.
pub fn new_candidates(existing: &Vec<WindowSpec>, offered: &Vec<WindowSpec>) -> (out: Vec<usize>)
    ensures
        lists::as_places(out@) == lists::gather(
            offered@.len(),
            new_place(model::window_views(existing@), model::window_views(offered@)),
        ),
{
    let ghost f = new_place(model::window_views(existing@), model::window_views(offered@));
    let mut out: Vec<usize> = Vec::new();
    assert(lists::as_places(out@) =~= lists::gather(0, f));
    for i in 0..offered.len()
        invariant
            f == new_place(model::window_views(existing@), model::window_views(offered@)),
            lists::as_places(out@) == lists::gather(i as nat, f),
    {
        assert(model::window_views(offered@)[i as int] == offered@[i as int]@);
        let ghost given = f(i as int);
        let ghost before = out@;
        if !known(existing, &offered[i]) {
            out.push(i);
            assert(lists::as_places(out@) =~= lists::as_places(before).push(i as int));
        }
    }
    out
}

// Installed applications

/// The identities that the windows of an application may have, each once.
pub open spec fn identities(app: AppView) -> Seq<Seq<char>> {
    let first: Seq<Seq<char>> = match app.startup_wm_class {
        Some(class) => seq![class],
        None => Seq::empty(),
    };
    let second = if first.contains(app.desktop_id) {
        first
    } else {
        first.push(app.desktop_id)
    };
    match app.flatpak_id {
        Some(id) => if second.contains(id) {
            second
        } else {
            second.push(id)
        },
        None => second,
    }
}

/// The pattern for any of these texts and nothing else.
pub open spec fn any_of(ids: Seq<Seq<char>>) -> Seq<char> {
    if ids.len() == 1 {
        outside::literal_pattern(ids[0])
    } else {
        "^(?:"@ + text::joined(
            ids.map_values(|s: Seq<char>| outside::escaped(s)),
            "|"@,
        ) + ")$"@
    }
}

/// The logical window that an installed application makes.
pub open spec fn window_of_app(app: AppView) -> WindowView {
    WindowView {
        name: naming::slug(app.name),
        command: app.command,
        match_spec: MatchView { app_id: Some(any_of(identities(app))), ..model::default_match() },
        reuse: ReusePolicy::Unique,
        layout: model::default_placement(),
    }
}

fn add_identity(ids: &mut Vec<String>, id: &String)
    ensures
        text::texts(final(ids)@) == if text::texts(old(ids)@).contains(id@) {
            text::texts(old(ids)@)
        } else {
            text::texts(old(ids)@).push(id@)
        },
{
    if !list_contains(ids, id.as_str()) {
        ids.push(id.clone());
        assert(text::texts(ids@) =~= text::texts(old(ids)@).push(id@));
    }
}

/// The logical window that an installed application makes.
pub fn installed_app_window_spec(app: &InstalledApp) -> (out: WindowSpec)
    ensures
        out@ == window_of_app(app@),
{
    let mut ids: Vec<String> = Vec::new();
    if let Some(class) = &app.startup_wm_class {
        ids.push(class.clone());
    }
    assert(text::texts(ids@) =~= match app@.startup_wm_class {
        Some(class) => seq![class],
        None => Seq::empty(),
    });
    add_identity(&mut ids, &app.desktop_id);
    if let Some(id) = &app.flatpak_id {
        add_identity(&mut ids, id);
    }
    let ghost all = identities(app@);
    assert(text::texts(ids@) == all);
    assert(all.len() == ids@.len());
    let mut escaped: Vec<String> = Vec::new();
    for i in 0..ids.len()
        invariant
            escaped@.len() == i,
            forall|k: int| 0 <= k < i ==> (#[trigger] escaped@[k])@ == outside::escaped(ids@[k]@),
    {
        escaped.push(escape_pattern(ids[i].as_str()));
    }
    assert(text::texts(escaped@) =~= all.map_values(|s: Seq<char>| outside::escaped(s)));
    let mut pattern: String = String::new();
    proof {
        reveal_strlit("^");
        reveal_strlit("$");
    }
    if ids.len() == 1 {
        pattern.append("^");
        pattern.append(escaped[0].as_str());
        pattern.append("$");
        assert(all[0] == ids@[0]@);
    } else {
        pattern.append("^(?:");
        pattern.append(join(&escaped, "|").as_str());
        pattern.append(")$");
    }
    assert(pattern@ =~= any_of(all));
    let mut signals: MatchSpec = MatchSpec::default();
    signals.app_id = Some(pattern);
    WindowSpec {
        name: unique_slug(app.name.as_str()),
        command: copy_list(&app.command),
        match_spec: signals,
        reuse: ReusePolicy::Unique,
        layout: PlacementSpec::default(),
    }
}

/// Some word of a command names the manager itself.
pub open spec fn runs_manager(command: Seq<Seq<char>>) -> bool {
    exists|i: int|
        0 <= i < command.len() && text::has_part(#[trigger] command[i], "niri-workbench"@)
}

/// An installed application can be added: it can be started, is not the manager
/// itself, and no logical window is looking for it yet.
pub open spec fn can_be_added(existing: Seq<WindowView>, app: AppView) -> bool {
    &&& app.command.len() > 0
    &&& text::lower_text(app.desktop_id) != text::lower_text("dev.t1ktak.NiriWorkbench"@)
    &&& !runs_manager(app.command)
    &&& !is_known(existing, window_of_app(app))
}

fn addable(existing: &Vec<WindowSpec>, app: &InstalledApp) -> (out: bool)
    ensures
        out == can_be_added(model::window_views(existing@), app@),
{
    let ghost words = app@.command;
    assert(words.len() == app.command@.len());
    if app.command.len() == 0 {
        return false;
    }
    let own: String = ascii_lowercase("dev.t1ktak.NiriWorkbench");
    if str_eq(ascii_lowercase(app.desktop_id.as_str()).as_str(), own.as_str()) {
        return false;
    }
    for i in 0..app.command.len()
        invariant
            words == app@.command,
            forall|k: int| 0 <= k < i ==> !text::has_part(#[trigger] words[k], "niri-workbench"@),
    {
        assert(words[i as int] == app.command@[i as int]@);
        if contains(app.command[i].as_str(), "niri-workbench") {
            assert(text::has_part(words[i as int], "niri-workbench"@));
            return false;
        }
    }
    !known(existing, &installed_app_window_spec(app))
}

pub open spec fn addable_place(existing: Seq<WindowView>, installed: Seq<AppView>) -> spec_fn(
    int,
) -> Option<int> {
    |i: int|
        if can_be_added(existing, installed[i]) {
            Some(i)
        } else {
            None
        }
}

/// The places of the installed applications that can be added.
pub fn installed_candidates(existing: &Vec<WindowSpec>, installed: &Vec<InstalledApp>) -> (out: Vec<
    usize,
>)
    ensures
        lists::as_places(out@) == lists::gather(
            installed@.len(),
            addable_place(model::window_views(existing@), apps::app_views(installed@)),
        ),
{
    let ghost f = addable_place(model::window_views(existing@), apps::app_views(installed@));
    let mut out: Vec<usize> = Vec::new();
    assert(lists::as_places(out@) =~= lists::gather(0, f));
    for i in 0..installed.len()
        invariant
            f == addable_place(model::window_views(existing@), apps::app_views(installed@)),
            lists::as_places(out@) == lists::gather(i as nat, f),
    {
        assert(apps::app_views(installed@)[i as int] == installed@[i as int]@);
        let ghost given = f(i as int);
        let ghost before = out@;
        if addable(existing, &installed[i]) {
            out.push(i);
            assert(lists::as_places(out@) =~= lists::as_places(before).push(i as int));
        }
    }
    out
}

/// Where an installed application comes from, for people.
pub fn app_source(app: &InstalledApp) -> (out: String)
    ensures
        out@ == match app@.flatpak_id {
            Some(id) => "Flatpak · "@ + id,
            None => app@.desktop_id,
        },
{
    match &app.flatpak_id {
        Some(id) => {
            let mut out: String = "Flatpak · ".to_owned();
            out.append(id.as_str());
            out
        },
        None => app.desktop_id.clone(),
    }
}

// Adding

/// The names of logical windows.
pub open spec fn names_in(windows: Seq<WindowView>) -> Seq<Seq<char>> {
    windows.map_values(|w: WindowView| w.name)
}

pub open spec fn base_name(w: WindowView) -> Seq<char> {
    if text::is_blank(w.name) {
        "window"@
    } else {
        w.name
    }
}

/// A logical window as it is added: under a name of its own and, where it is
/// tiled, in a column of its own behind all others.
pub open spec fn as_added(windows: Seq<WindowView>, w: WindowView, name: Seq<char>) -> WindowView {
    let named = WindowView { name, ..w };
    if w.layout.floating {
        named
    } else {
        editing::alone(named, editing::next_column(windows, name) as usize)
    }
}

/// The tiled windows leave room for one more column.
pub open spec fn all_have_room(windows: Seq<WindowView>) -> bool {
    forall|i: int|
        0 <= i < windows.len() && !(#[trigger] windows[i]).layout.floating
            ==> windows[i].layout.column < usize::MAX
}

/// Adds a logical window to a recipe, and gives the name that it got.
pub fn append_editor_window(recipe: &mut Recipe, candidate: WindowSpec) -> (out: String)
    requires
        all_have_room(old(recipe)@.windows),
    ensures
        naming::is_first_free(base_name(candidate@), names_in(old(recipe)@.windows), out@),
        final(recipe)@ == editing::with_windows(
            old(recipe)@,
            editing::normalized(
                old(recipe)@.windows.push(as_added(old(recipe)@.windows, candidate@, out@)),
            ),
        ),
{
    let ghost all = recipe@.windows;
    let ghost w = candidate@;
    let mut taken: Vec<String> = Vec::new();
    for i in 0..recipe.windows.len()
        invariant
            recipe == old(recipe),
            all == recipe@.windows,
            taken@.len() == i,
            forall|k: int| 0 <= k < i ==> (#[trigger] taken@[k])@ == all[k].name,
    {
        assert(all[i as int] == recipe.windows@[i as int]@);
        taken.push(recipe.windows[i].name.clone());
    }
    assert(text::texts(taken@) =~= names_in(all));
    let base: String = if blank(candidate.name.as_str()) {
        "window".to_owned()
    } else {
        candidate.name.clone()
    };
    let name: String = free_name(base.as_str(), &taken);
    let mut added: WindowSpec = candidate;
    added.name = name.clone();
    if !added.layout.floating {
        let next: usize = column_behind(&recipe.windows, name.as_str());
        added.layout.column = next;
        added.layout.column_width = None;
        added.layout.window_height = None;
        added.layout.display = None;
    }
    assert(added@ =~= as_added(all, w, name@));
    let ghost before = recipe.windows@;
    recipe.windows.push(added);
    assert(recipe@.windows =~= all.push(as_added(all, w, name@)));
    normalize_columns(recipe);
    name
}

// Laws

/// A window that is added gets a name that no other window of the recipe has.
pub proof fn added_names_are_new(windows: Seq<WindowView>, w: WindowView, name: Seq<char>)
    requires
        naming::is_first_free(base_name(w), names_in(windows), name),
    ensures
        forall|i: int| 0 <= i < windows.len() ==> (#[trigger] windows[i]).name != name,
{
    assert forall|i: int| 0 <= i < windows.len() implies (#[trigger] windows[i]).name != name by {
        assert(names_in(windows)[i] == windows[i].name);
        assert(names_in(windows).contains(windows[i].name));
    }
}

/// What was added once is not offered again.
pub proof fn added_apps_are_known(windows: Seq<WindowView>, app: AppView, name: Seq<char>)
    ensures
        is_known(
            editing::normalized(windows.push(as_added(windows, window_of_app(app), name))),
            window_of_app(app),
        ),
        !can_be_added(
            editing::normalized(windows.push(as_added(windows, window_of_app(app), name))),
            app,
        ),
{
    let after = editing::normalized(windows.push(as_added(windows, window_of_app(app), name)));
    let last = after[windows.len() as int];
    assert(is_same_match(last, window_of_app(app)));
}

} // verus!
