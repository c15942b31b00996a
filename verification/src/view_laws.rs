//! What is promised of what the program shows and offers.
use crate::app_laws;
use crate::apps;
use crate::apps::AppView;
use crate::canvas;
use crate::canvas::Division;
use crate::capture_form;
use crate::editing;
use crate::editor;
use crate::editor::SaveView;
use crate::i18n;
use crate::i18n::Language;
use crate::icons;
use crate::interface;
use crate::lists;
use crate::model::{
    OutputView, PlacementView, Recipe, RecipeView, ReusePolicy, Size, WindowView, WorkspaceView,
};
use crate::names;
use crate::naming;
use crate::outside;
use crate::pages;
use crate::pages::{Page, StartView};
use crate::picker;
use crate::planner;
use crate::quick;
use crate::resolve::RecipeStatus;
use crate::saving;
use crate::sizes;
use crate::sizes::Percentage;
use crate::text;
use vstd::prelude::*;

verus! {

// The launcher

/// A recipe is launched by opening it where that can be done: as it is, or with what
/// is missing. Where only its layout differs it is repaired, and else it cannot be.
pub proof fn recipes_are_launched_by_their_status(status: RecipeStatus)
    ensures
        interface::launch_action(status) == Some("open"@) <==> status is Ready || status is Missing,
        interface::launch_action(status) == Some("repair"@) <==> status is LayoutChanged,
        interface::launch_action(status) is None <==> status is Ambiguous || status is Offline,
        interface::class_of(status) == "status-ready"@ <==> status is Ready,
        interface::class_of(status) == "status-warning"@ <==> status is Missing
            || status is LayoutChanged,
        interface::class_of(status) == "status-error"@ <==> status is Ambiguous || status is Offline,
{
    reveal_strlit("open");
    reveal_strlit("repair");
    reveal_strlit("status-ready");
    reveal_strlit("status-warning");
    reveal_strlit("status-error");
    assert("open"@.len() != "repair"@.len());
    assert("status-ready"@.len() != "status-warning"@.len());
    assert("status-error"@.len() != "status-warning"@.len());
    assert("status-ready"@[7] == 'r' && "status-error"@[7] == 'e');
}

/// Text in the language of the user.
pub proof fn texts_are_in_the_language(russian: Seq<char>, english: Seq<char>)
    ensures
        interface::said(Language::Ru, russian, english) == russian,
        interface::said(Language::En, russian, english) == english,
{
}

/// The launcher says how many windows are taken as they are, and how many are started:
/// all that are missing, and none where none is.
pub proof fn summaries_count_the_windows(r: RecipeView, n: usize, status: RecipeStatus)
    requires
        n <= r.windows.len(),
        status is Ready || status is LayoutChanged,
    ensures
        interface::summary_of(Language::En, r, RecipeStatus::Missing(n)) == "Will reuse "@
            + text::decimal((r.windows.len() - n) as nat) + " app"@ + (if r.windows.len() - n == 1 {
            ""@
        } else {
            "s"@
        }) + ", launch "@ + text::decimal(n as nat) + ", workspace: "@ + r.workspace + "."@,
        interface::summary_of(Language::Ru, r, RecipeStatus::Missing(n)) == "Переиспользует "@
            + text::decimal((r.windows.len() - n) as nat) + ", запустит "@ + text::decimal(n as nat)
            + ", workspace: "@ + r.workspace + "."@,
        forall|language: Language| #[trigger]
            interface::summary_of(language, r, status) == interface::summary_of(
                language,
                r,
                RecipeStatus::Missing(0),
            ),
{
}

/// A query finds a recipe by its key, its name and its workspace, whatever the case of
/// the letters and the white space around it.
pub proof fn recipes_are_found_by_what_they_are_called(
    key: Seq<char>,
    r: RecipeView,
    query: Seq<char>,
)
    ensures
        text::has_part(text::lower_text(key), text::lower_text(text::trimmed(query)))
            ==> quick::is_found(quick::recipe_haystack(key, r), query),
        text::has_part(text::lower_text(r.workspace), text::lower_text(text::trimmed(query)))
            ==> quick::is_found(quick::recipe_haystack(key, r), query),
        r.name is Some && text::has_part(
            text::lower_text(r.name->0),
            text::lower_text(text::trimmed(query)),
        ) ==> quick::is_found(quick::recipe_haystack(key, r), query),
        text::is_blank(query) ==> quick::is_found(quick::recipe_haystack(key, r), query),
        quick::is_found(quick::recipe_haystack(key, r), query) ==> text::is_blank(query)
            || text::has_part(
            quick::recipe_haystack(key, r),
            text::lower_text(text::trimmed(query)),
        ),
{
    let q = text::lower_text(text::trimmed(query));
    let name = saving::display_name(r);
    let h = quick::recipe_haystack(key, r);
    text::blank_iff_trims_away(query);
    assert(text::lower_text(key) =~= h.take(key.len() as int));
    let from = key.len() + " "@.len();
    assert(text::lower_text(name) =~= h.subrange(from as int, (from + name.len()) as int));
    let last = h.len() - r.workspace.len();
    assert(text::lower_text(r.workspace) =~= h.subrange(last, h.len() as int));
    if text::has_part(text::lower_text(key), q) {
        part_of_part(h, 0, key.len() as int, q);
        assert(h.subrange(0, key.len() as int) =~= h.take(key.len() as int));
    }
    if text::has_part(text::lower_text(name), q) {
        part_of_part(h, from as int, (from + name.len()) as int, q);
    }
    if text::has_part(text::lower_text(r.workspace), q) {
        part_of_part(h, last, h.len() as int, q);
    }
}

proof fn part_of_part(s: Seq<char>, from: int, to: int, part: Seq<char>)
    requires
        0 <= from <= to <= s.len(),
    ensures
        text::has_part(s.subrange(from, to), part) ==> text::has_part(s, part),
{
    let t = s.subrange(from, to);
    if text::has_part(t, part) {
        let i = choose|i: int| text::occurs_at(t, part, i);
        assert(s.subrange(from + i, from + i + part.len()) =~= t.subrange(i, i + part.len()));
        assert(text::occurs_at(s, part, from + i));
    }
}

/// One step down leads to the next row that is shown, and from the last one to the
/// first.
pub proof fn one_step_leads_to_the_next_row(visible: Seq<bool>, i: int, j: int)
    requires
        0 <= i < j < visible.len() <= usize::MAX,
        visible[i],
        visible[j],
        forall|k: int| i < k < j ==> !visible[k],
    ensures
        quick::moved(visible, Some(i as usize), 1) == Some(j),
        quick::moved(visible, Some(j as usize), -1) == Some(i),
{
    let f = quick::shown_place(visible);
    let n = visible.len();
    let g = quick::shown_places(visible);
    lists::gathered_from(n, f);
    let from = lists::gather(n, lists::given_at(f));
    assert(from =~= g) by {
        lists::gather_agrees(n, f, lists::given_at(f));
    }
    lists::gather_contains(n, f, i);
    lists::gather_contains(n, f, j);
    assert(f(i) == Some(i) && f(j) == Some(j));
    let a = choose|a: int| 0 <= a < g.len() && g[a] == i;
    let b = choose|b: int| 0 <= b < g.len() && g[b] == j;
    assert(a < b) by {
        if b < a {
            assert(from[b] < from[a]);
        }
    }
    assert(b == a + 1) by {
        if a + 1 < b {
            let m = g[a + 1];
            assert(from[a] < from[a + 1] && from[a + 1] < from[b]);
            assert(f(from[a + 1]) == Some(g[a + 1]));
        }
    }
    assert(g.index_of(i) == a) by {
        let x = g.index_of(i);
        assert(g.contains(i));
        assert(g[x] == i);
        if x < a {
            assert(from[x] < from[a]);
        } else if a < x {
            assert(from[a] < from[x]);
        }
    }
    assert(g.index_of(j) == b) by {
        let x = g.index_of(j);
        assert(g.contains(j));
        assert(g[x] == j);
        if x < b {
            assert(from[x] < from[b]);
        } else if b < x {
            assert(from[b] < from[x]);
        }
    }
    assert((a + 1) % (g.len() as int) == a + 1) by (nonlinear_arith)
        requires
            0 <= a + 1 < g.len(),
    ;
    assert((b - 1) % (g.len() as int) == b - 1) by (nonlinear_arith)
        requires
            0 <= b - 1 < g.len(),
    ;
    assert((i as usize) as int == i && (j as usize) as int == j);
}

// Names for people

/// A logical window of a known application goes by its usual name, and any other by
/// its own.
pub proof fn windows_go_by_friendly_names(w: WindowView, app: Seq<char>)
    requires
        w.match_spec.app_id == Some(app),
    ensures
        ({
            let name = text::lower_text(app);
            let out = interface::friendly_name(w);
            let code = text::has_part(name, "code"@);
            let kitty = text::has_part(name, "kitty"@);
            let chrome = text::has_part(name, "chrome"@);
            let firefox = text::has_part(name, "firefox"@);
            let studio = text::has_part(name, "android"@) || text::has_part(name, "studio"@);
            &&& code ==> out == "VS Code"@
            &&& !code && kitty ==> out == "Kitty"@
            &&& !code && !kitty && chrome ==> out == "Chrome"@
            &&& !code && !kitty && !chrome && firefox ==> out == "Firefox"@
            &&& !code && !kitty && !chrome && !firefox && studio ==> out == "Android Studio"@
            &&& !code && !kitty && !chrome && !firefox && !studio ==> out == w.name
        }),
{
}

/// What is said of a captured window tells what opening it will do.
pub proof fn behaviours_are_told(w: WindowView, app: Seq<char>)
    requires
        w.match_spec.app_id == Some(app),
    ensures
        ({
            let name = text::lower_text(app);
            let out = interface::behavior_of(w, Language::En);
            let code = text::has_part(name, "code"@);
            let terminal = text::has_part(name, "kitty"@) || text::has_part(name, "terminal"@);
            let chrome = text::has_part(name, "chrome"@) || text::has_part(name, "chromium"@);
            let browser = text::has_part(name, "firefox"@) || text::has_part(name, "browser"@);
            let profile = begins_some_word(w.command, "--profile-directory="@);
            let page = begins_some_word(w.command, "http://"@) || begins_some_word(
                w.command,
                "https://"@,
            );
            &&& w.command.len() == 0 ==> out == "Reuse this window only"@
            &&& w.command.len() > 0 && code ==> out == "Reopen this project"@
            &&& w.command.len() > 0 && !code && terminal ==> out
                == "Open terminal in this directory"@
            &&& w.command.len() > 0 && !code && !terminal && chrome ==> out == if profile && page {
                "Same profile + active page"@
            } else if profile {
                "Open the same Chrome profile"@
            } else if page {
                "Reopen the active page"@
            } else {
                "Open Chrome"@
            }
            &&& w.command.len() > 0 && !code && !terminal && !chrome && browser ==> out
                == "Open browser"@
            &&& w.command.len() > 0 && !code && !terminal && !chrome && !browser ==> out
                == "Launch installed application"@
        }),
{
    words_begin(w.command, "--profile-directory="@);
    words_begin(w.command, "http://"@);
    words_begin(w.command, "https://"@);
}

/// A word of the command begins with this.
pub open spec fn begins_some_word(command: Seq<Seq<char>>, start: Seq<char>) -> bool {
    exists|i: int|
        0 <= i < command.len() && (#[trigger] command[i]).len() >= start.len() && command[i].take(
            start.len() as int,
        ) == start
}

proof fn words_begin(command: Seq<Seq<char>>, start: Seq<char>)
    ensures
        interface::has_word(command, start) <==> begins_some_word(command, start),
{
    if interface::has_word(command, start) {
        let i = choose|i: int| 0 <= i < command.len() && start.is_prefix_of(#[trigger] command[i]);
        assert(command[i].take(start.len() as int) =~= start);
    }
    if begins_some_word(command, start) {
        let i = choose|i: int|
            0 <= i < command.len() && (#[trigger] command[i]).len() >= start.len()
                && command[i].take(start.len() as int) == start;
        assert(start.is_prefix_of(command[i]));
    }
}

/// A workspace goes by its name, or else by its number; an output by its name and, where
/// they are known, its extents.
pub proof fn workspaces_and_outputs_are_named(w: WorkspaceView, o: OutputView)
    ensures
        w.name is Some ==> interface::workspace_title(w) == w.name->0,
        w.name is None ==> interface::workspace_title(w) == "#"@ + text::decimal(w.index as nat),
        o.width is None || o.height is None ==> interface::output_text(o) == o.name,
        o.width is Some && o.height is Some ==> interface::output_text(o) == o.name + " · "@
            + text::decimal(o.width->0 as nat) + "×"@ + text::decimal(o.height->0 as nat),
{
}

/// What is shown of a long message is its last line that says something.
pub proof fn the_last_line_is_shown(s: Seq<char>, i: int)
    requires
        0 <= i < text::lines(s).len(),
        !text::is_blank(text::lines(s)[i]),
        forall|j: int| i < j < text::lines(s).len() ==> text::is_blank(#[trigger] text::lines(s)[j]),
    ensures
        interface::last_said(s) == text::lines(s)[i],
{
    assert(interface::is_last_said(text::lines(s), i));
    let k = choose|k: int| interface::is_last_said(text::lines(s), k);
    assert(interface::is_last_said(text::lines(s), k));
    if k < i {
        assert(text::is_blank(text::lines(s)[i]));
    } else if i < k {
        assert(text::is_blank(text::lines(s)[k]));
    }
}

/// A text that is cut is a beginning of what it was, of 180 characters at most.
pub proof fn long_texts_are_cut(s: Seq<char>)
    ensures
        interface::cut(s).is_prefix_of(s),
        interface::cut(s).len() <= 180,
        s.len() <= 180 ==> interface::cut(s) == s,
        s.len() > 180 ==> interface::cut(s).len() == 180,
{
}

// Starting

/// An argument asks where to begin; the capture comes before the library, that before
/// the settings, and these before a recipe to edit.
pub proof fn arguments_ask_where_to_begin(args: Seq<Seq<char>>, i: int, key: Seq<char>)
    ensures
        args.contains("--capture"@) ==> pages::start_of(args) == Some(StartView::Capture),
        !args.contains("--capture"@) && args.contains("--library"@) ==> pages::start_of(args)
            == Some(StartView::Library),
        !args.contains("--capture"@) && !args.contains("--library"@) && args.contains("--settings"@)
            ==> pages::start_of(args) == Some(StartView::Settings),
        !args.contains("--capture"@) && !args.contains("--library"@) && !args.contains(
            "--settings"@,
        ) && 0 <= i < args.len() && args[i] == "--edit="@ + key && (forall|j: int|
            0 <= j < i ==> !"--edit="@.is_prefix_of(#[trigger] args[j])) ==> pages::start_of(args)
            == Some(StartView::Edit(key)),
        !args.contains("--capture"@) && !args.contains("--library"@) && !args.contains(
            "--settings"@,
        ) && (forall|j: int|
            0 <= j < args.len() ==> !"--edit="@.is_prefix_of(#[trigger] args[j]))
            ==> pages::start_of(args) is None,
{
    let p = |a: Seq<char>| pages::names_recipe(a);
    let at = "--edit="@;
    assert((at + key).take(at.len() as int) =~= at);
    assert((at + key).skip(at.len() as int) =~= key);
    if 0 <= i < args.len() && args[i] == at + key && (forall|j: int|
        0 <= j < i ==> !at.is_prefix_of(#[trigger] args[j])) {
        assert(at.is_prefix_of(args[i]));
        lists::first_is(args, p, i);
    }
    if forall|j: int| 0 <= j < args.len() ==> !at.is_prefix_of(#[trigger] args[j]) {
        lists::first_is_none(args, p);
    }
}

/// Another page is opened unless something may be lost on the one that is shown. To ask
/// for the page that is shown, and the recipe that is edited, changes nothing.
pub proof fn pages_are_opened_unless_something_is_lost(
    start: StartView,
    current: Option<Page>,
    edited: Option<Seq<char>>,
    language: Language,
)
    ensures
        ({
            let out = pages::start_route(start, current, edited, language);
            let may_be_lost = current == Some(Page::Editor) || current == Some(Page::Capture);
            let is_there = (start is Capture && current == Some(Page::Capture)) || (start is Edit
                && current == Some(Page::Editor) && edited == Some(start->Edit_0));
            &&& out is Stay <==> is_there
            &&& out is Refuse <==> !is_there && may_be_lost
            &&& out is Go <==> !is_there && !may_be_lost
        }),
{
}

// Choosing windows

/// An application is offered where it can be started, is not the manager itself, and no
/// logical window has the pattern for it.
pub proof fn applications_are_offered(existing: Seq<WindowView>, app: AppView)
    ensures
        picker::can_be_added(existing, app) ==> {
            &&& app.command.len() > 0
            &&& app.desktop_id != "dev.t1ktak.NiriWorkbench"@
            &&& forall|i: int|
                0 <= i < app.command.len() ==> !text::has_part(
                    #[trigger] app.command[i],
                    "niri-workbench"@,
                )
            &&& forall|i: int|
                0 <= i < existing.len() ==> !((#[trigger] existing[i]).match_spec.app_id
                    == picker::window_of_app(app).match_spec.app_id
                    && existing[i].match_spec.title is None
                    && existing[i].match_spec.process is None)
        },
        app.command.len() > 0 && text::lower_text(app.desktop_id) != text::lower_text(
            "dev.t1ktak.NiriWorkbench"@,
        ) && (forall|i: int|
            0 <= i < app.command.len() ==> !text::has_part(
                #[trigger] app.command[i],
                "niri-workbench"@,
            )) && existing.len() == 0 ==> picker::can_be_added(existing, app),
{
    if picker::can_be_added(existing, app) {
        assert forall|i: int| 0 <= i < existing.len() implies !((
        #[trigger] existing[i]).match_spec.app_id == picker::window_of_app(app).match_spec.app_id
            && existing[i].match_spec.title is None && existing[i].match_spec.process is None) by {
            assert(!picker::is_same_match(existing[i], picker::window_of_app(app)));
        }
    }
}

/// The logical window of an application starts it, and recognises it by each identity
/// that its windows may have.
pub proof fn applications_make_windows(app: AppView)
    ensures
        ({
            let w = picker::window_of_app(app);
            let ids = picker::identities(app);
            &&& w.command == app.command
            &&& w.name == naming::slug(app.name)
            &&& w.reuse == ReusePolicy::Unique
            &&& w.match_spec.app_id == Some(picker::any_of(ids))
            &&& w.match_spec.title is None && w.match_spec.process is None && w.match_spec.cwd is None
            &&& w.match_spec.window_id is None && w.match_spec.pid is None
            &&& w.layout == (PlacementView {
                column: 1,
                column_width: None,
                window_height: None,
                display: None,
                floating: false,
                output: None,
            })
            &&& ids.contains(app.desktop_id)
            &&& app.startup_wm_class is Some ==> ids.contains(app.startup_wm_class->0)
            &&& app.flatpak_id is Some ==> ids.contains(app.flatpak_id->0)
            &&& forall|i: int|
                0 <= i < ids.len() ==> #[trigger] ids[i] == app.desktop_id || Some(ids[i])
                    == app.startup_wm_class || Some(ids[i]) == app.flatpak_id
            &&& ids.no_duplicates()
            &&& ids.len() == 1 ==> picker::any_of(ids) == outside::literal_pattern(ids[0])
        }),
{
    let ids = picker::identities(app);
    let first: Seq<Seq<char>> = match app.startup_wm_class {
        Some(class) => seq![class],
        None => Seq::empty(),
    };
    let second = if first.contains(app.desktop_id) {
        first
    } else {
        first.push(app.desktop_id)
    };
    if app.startup_wm_class is Some {
        assert(first[0] == app.startup_wm_class->0);
        assert(second[0] == first[0]);
        assert(ids[0] == second[0]);
    }
    assert(second.contains(app.desktop_id)) by {
        if !first.contains(app.desktop_id) {
            assert(second[second.len() - 1] == app.desktop_id);
        }
    }
    let x = choose|x: int| 0 <= x < second.len() && second[x] == app.desktop_id;
    assert(ids[x] == app.desktop_id);
    if app.flatpak_id is Some && !second.contains(app.flatpak_id->0) {
        assert(ids[ids.len() - 1] == app.flatpak_id->0);
    }
}

/// A window that is added keeps what it is, under its new name. Where it is tiled it
/// stands alone, behind all others.
pub proof fn added_windows_stand_behind(windows: Seq<WindowView>, w: WindowView, name: Seq<char>)
    ensures
        ({
            let out = picker::as_added(windows, w, name);
            &&& out.name == name
            &&& out.command == w.command && out.match_spec == w.match_spec && out.reuse == w.reuse
            &&& out.layout.floating == w.layout.floating
            &&& w.layout.floating ==> out.layout == w.layout
            &&& !w.layout.floating ==> out.layout.column == editing::next_column(
                windows,
                name,
            ) as usize && out.layout.column_width is None && out.layout.window_height is None
                && out.layout.display is None && out.layout.output == w.layout.output
        }),
{
}

// Icons

/// A logical window has the icon of the installed application that its pattern stands
/// for, or else of the Flatpak that its command runs.
pub proof fn icons_are_those_of_the_application(
    w: WindowView,
    installed: Seq<AppView>,
    app: Seq<char>,
)
    requires
        app.len() > 0,
        w.match_spec.app_id == Some(outside::literal_pattern(app)),
    ensures
        apps::best_app(installed, app) is Some && apps::best_app(installed, app)->0.icon is Some
            ==> icons::icon_of(w, installed) == apps::best_app(installed, app)->0.icon->0,
        (apps::best_app(installed, app) is None || apps::best_app(installed, app)->0.icon is None)
            && w.command.len() > 2 && w.command[0] == "flatpak"@ && apps::best_app(
            installed,
            w.command[2],
        ) is Some && apps::best_app(installed, w.command[2])->0.icon is Some ==> icons::icon_of(
            w,
            installed,
        ) == apps::best_app(installed, w.command[2])->0.icon->0,
{
    icons::literal_patterns_name_their_app(app);
}

/// Where nothing is installed, a known word in the pattern or the command gives the icon.
pub proof fn known_words_give_an_icon(s: Seq<char>)
    ensures
        text::has_part(s, "code"@) || text::has_part(s, "vscode"@) ==> icons::fallback_icon(s)
            == "vscode"@,
        !text::has_part(s, "code"@) && !text::has_part(s, "vscode"@) && text::has_part(s, "kitty"@)
            ==> icons::fallback_icon(s) == "kitty"@,
        !text::has_part(s, "code"@) && !text::has_part(s, "vscode"@) && !text::has_part(s, "kitty"@)
            && (text::has_part(s, "chrome"@) || text::has_part(s, "com.google.chrome"@))
            ==> icons::fallback_icon(s) == "google-chrome"@,
        !text::has_part(s, "code"@) && !text::has_part(s, "vscode"@) && !text::has_part(s, "kitty"@)
            && !text::has_part(s, "chrome"@) && !text::has_part(s, "com.google.chrome"@)
            && text::has_part(s, "firefox"@) ==> icons::fallback_icon(s) == "firefox"@,
        icons::fallback_icon(s) == "application-x-executable"@ ==> !text::has_part(s, "code"@)
            && !text::has_part(s, "kitty"@) && !text::has_part(s, "chrome"@) && !text::has_part(
            s,
            "firefox"@,
        ) && !text::has_part(s, "android"@) && !text::has_part(s, "studio"@) && !text::has_part(
            s,
            "obsidian"@,
        ) && !text::has_part(s, "terminal"@) && !text::has_part(s, "browser"@),
{
    reveal_strlit("vscode");
    reveal_strlit("kitty");
    reveal_strlit("google-chrome");
    reveal_strlit("firefox");
    reveal_strlit("androidstudio");
    reveal_strlit("obsidian");
    reveal_strlit("utilities-terminal");
    reveal_strlit("web-browser");
    reveal_strlit("application-x-executable");
    let d = "application-x-executable"@;
    assert(d.len() == 24);
    assert("vscode"@.len() == 6 && "kitty"@.len() == 5 && "google-chrome"@.len() == 13
        && "firefox"@.len() == 7 && "androidstudio"@.len() == 13 && "obsidian"@.len() == 8
        && "utilities-terminal"@.len() == 18 && "web-browser"@.len() == 11);
}

// The canvas

/// Every tiled window stands in the row of its column, the columns from left to right
/// and the windows of each in their order.
pub proof fn tiles_stand_in_their_column(windows: Seq<WindowView>, a: int, i: int)
    requires
        0 <= a < canvas::columns_of(windows).len(),
        canvas::columns_of(windows)[a].contains(i),
    ensures
        0 <= i < windows.len(),
        !windows[i].layout.floating,
        forall|j: int|
            canvas::columns_of(windows)[a].contains(j) <==> 0 <= j < windows.len()
                && !windows[j].layout.floating && windows[j].layout.column
                == windows[i].layout.column,
        forall|b: int, j: int|
            0 <= b < canvas::columns_of(windows).len() && #[trigger] canvas::columns_of(
                windows,
            )[b].contains(j) ==> (a < b <==> windows[i].layout.column < windows[j].layout.column),
{
    let keys = planner::column_keys(windows);
    let s = lists::sorted_keys(keys);
    lists::keys_can_be_listed(keys);
    let rows = canvas::columns_of(windows);
    assert forall|b: int, j: int|
        0 <= b < rows.len() implies ((#[trigger] rows[b].contains(j)) <==> 0 <= j < windows.len()
        && !windows[j].layout.floating && windows[j].layout.column == s[b]) by {
        assert(rows[b] == lists::members(keys, s[b]));
        lists::members_are(keys, s[b]);
        assert(lists::members(keys, s[b]).contains(j) <==> 0 <= j < keys.len() && keys[j] == Some(
            s[b],
        ));
    }
    assert forall|b: int, j: int|
        0 <= b < rows.len() && #[trigger] rows[b].contains(j) implies (a < b
        <==> windows[i].layout.column < windows[j].layout.column) by {
        if a < b {
            assert(s[a] < s[b]);
        } else if b < a {
            assert(s[b] < s[a]);
        }
    }
}

/// A column has the share that its first window with one asks for; a share in pixels is
/// none.
pub proof fn columns_have_the_first_share(windows: Seq<WindowView>, column: Seq<int>, k: int)
    requires
        0 <= k < column.len(),
        forall|j: int|
            0 <= j < k ==> !(windows[#[trigger] column[j]].layout.column_width matches Some(
                Size::Percent(_),
            )),
    ensures
        windows[column[k]].layout.column_width matches Some(Size::Percent(bits)) ==> (0 < bits
            < 0x7ff0_0000_0000_0000 ==> lists::first_given(
            column.len(),
            canvas::width_share(windows, column),
        ) == Some(bits)),
{
    let f = canvas::width_share(windows, column);
    match windows[column[k]].layout.column_width {
        Some(Size::Percent(bits)) => {
            if 0 < bits < 0x7ff0_0000_0000_0000 {
                assert forall|j: int| 0 <= j < k implies (#[trigger] f(j)) is None by {
                    let c = column[j];
                }
                lists::first_given_is(column.len(), f, k);
            }
        },
        _ => {},
    }
}

/// A tile that wants what can be had gets it: no less than the least, and so that the
/// tiles behind it can have theirs.
pub proof fn tiles_get_what_they_want(d: Division, wanted: Seq<i32>, i: int)
    requires
        d.wf(),
        0 <= i < wanted.len() - 1,
    ensures
        ({
            let left = d.total(wanted.len() as int) - d.start(wanted, i);
            let most = left - (wanted.len() - 1 - i) * d.least;
            &&& d.least <= wanted[i] <= most ==> d.span(wanted, i) == wanted[i]
            &&& wanted[i] < d.least ==> d.span(wanted, i) == d.least
            &&& wanted[i] > most && wanted[i] >= d.least ==> d.span(wanted, i) == most
            &&& d.start(wanted, i + 1) == d.start(wanted, i) + d.span(wanted, i)
            &&& d.start(wanted, 0) == 0
            &&& d.total(wanted.len() as int) >= d.base && d.total(wanted.len() as int)
                >= wanted.len() * d.unit
            &&& d.total(wanted.len() as int) == d.base || d.total(wanted.len() as int)
                == wanted.len() * d.unit
        }),
{
}

// The editor

/// A size field is empty, a size, or refused; nothing else is made of it.
pub proof fn size_fields_are_read(line: Seq<char>, number: Option<Percentage>)
    ensures
        text::is_blank(line) ==> editor::size_field(line, number) == Ok::<
            Option<Size>,
            Seq<char>,
        >(None),
        !text::is_blank(line) && sizes::size_of(text::trimmed(line), number) is Ok
            ==> editor::size_field(line, number) == Ok::<Option<Size>, Seq<char>>(
            Some(sizes::size_of(text::trimmed(line), number)->Ok_0),
        ),
        !text::is_blank(line) && sizes::size_of(text::trimmed(line), number) is Err
            ==> editor::size_field(line, number) == Err::<Option<Size>, Seq<char>>(
            sizes::size_of(text::trimmed(line), number)->Err_0,
        ),
{
}

/// A field of the editor sets just what it is about.
pub proof fn fields_set_what_they_are_about(
    w: WindowView,
    command: Seq<Seq<char>>,
    size: Option<Size>,
    pattern: Option<Seq<char>>,
    column: usize,
)
    ensures
        editor::with_command(w, command).command == command,
        editor::with_command(w, command) == (WindowView {
            command: editor::with_command(w, command).command,
            ..w
        }),
        editor::with_width(w, size).layout.column_width == size,
        editor::with_width(w, size).layout.window_height == w.layout.window_height,
        editor::with_height(w, size).layout.window_height == size,
        editor::with_height(w, size).layout.column_width == w.layout.column_width,
        editor::with_app_pattern(w, pattern).match_spec.app_id == pattern,
        editor::with_app_pattern(w, pattern).match_spec.title == w.match_spec.title,
        editor::with_title_pattern(w, pattern).match_spec.title == pattern,
        editor::with_title_pattern(w, pattern).match_spec.app_id == w.match_spec.app_id,
        editor::with_column_number(w, column).layout.column == column,
        editor::reuse_choice(0) == ReusePolicy::Unique,
        forall|k: u32| k != 0 ==> #[trigger] editor::reuse_choice(k) == ReusePolicy::Never,
{
}

/// A pattern is taken without the white space around it, where it compiles; a blank
/// field asks for none.
pub proof fn pattern_fields_are_read(line: Seq<char>, fault: Option<Seq<char>>)
    ensures
        text::is_blank(line) ==> editor::pattern_field(line, fault) == Ok::<
            Option<Seq<char>>,
            Seq<char>,
        >(None),
        !text::is_blank(line) && fault is None ==> editor::pattern_field(line, fault) == Ok::<
            Option<Seq<char>>,
            Seq<char>,
        >(Some(text::trimmed(line))),
        !text::is_blank(line) && fault is Some ==> editor::pattern_field(line, fault) == Err::<
            Option<Seq<char>>,
            Seq<char>,
        >(fault->0),
{
}

/// A switch gives the focus to its window or takes it from it, and touches no other.
pub proof fn switches_set_the_focus(focus: Option<Seq<char>>, name: Seq<char>)
    ensures
        editor::focus_after(focus, name, true) == Some(name),
        editor::focus_after(focus, name, false) != Some(name),
        focus != Some(name) ==> editor::focus_after(focus, name, false) == focus,
        focus == Some(name) ==> editor::focus_after(focus, name, false) is None,
{
}

/// The fault of a field is remembered until the field is right, and no other field is
/// touched.
pub proof fn faults_are_remembered_by_field(
    faults: Seq<(Seq<char>, Seq<char>)>,
    key: Seq<char>,
    fault: Option<Seq<char>>,
    other: Seq<char>,
)
    requires
        names::names_ascend(faults),
    ensures
        names::lookup(editor::noted(faults, key, fault), key) == fault,
        other != key ==> names::lookup(editor::noted(faults, key, fault), other) == names::lookup(
            faults,
            other,
        ),
{
    match fault {
        Some(f) => {
            names::insertion_is_local(faults, key, f, other);
        },
        None => {
            names::removal_is_local(faults, key, other);
        },
    }
}

/// A recipe without a workspace name or without windows cannot be saved from the start,
/// and any other has no fault.
pub proof fn editing_begins_with_the_faults(r: RecipeView, language: Language)
    ensures
        ({
            let faults = editor::first_faults_of(r, language);
            &&& names::lookup(faults, "workspace"@) is Some <==> text::is_blank(r.workspace)
            &&& names::lookup(faults, "windows"@) is Some <==> r.windows.len() == 0
            &&& !text::is_blank(r.workspace) && r.windows.len() > 0 ==> faults.len() == 0
        }),
        editor::fault_of_workspace(r.workspace, language) is Some <==> text::is_blank(r.workspace),
{
    reveal_strlit("workspace");
    reveal_strlit("windows");
    let none = Seq::<(Seq<char>, Seq<char>)>::empty();
    let a = "workspace"@;
    let b = "windows"@;
    assert(a.len() != b.len());
    names::lookup_finds(none, a);
    names::lookup_finds(none, b);
    names::insertion_is_local(none, a, editor::empty_workspace(language), b);
    names::insertion_is_local(none, b, editor::no_windows(language), a);
    let one = names::inserted(none, a, editor::empty_workspace(language));
    names::insertion_keeps_order(none, a, editor::empty_workspace(language));
    names::insertion_is_local(one, b, editor::no_windows(language), a);
}

/// A draft is saved where no field has a fault and it differs from what is saved; only
/// the numbers of its columns are put in order.
pub proof fn drafts_are_saved_where_they_differ(
    saved: Seq<(Seq<char>, Recipe)>,
    key: Seq<char>,
    draft: RecipeView,
    faults: Seq<(Seq<char>, Seq<char>)>,
    language: Language,
    i: int,
)
    ensures
        ({
            let out = editor::save_step(saved, key, draft, faults, language);
            let differs = match names::lookup(saved, key) {
                Some(r) => r@ != draft,
                None => true,
            };
            &&& out is Refuse <==> faults.len() > 0
            &&& out is Nothing <==> faults.len() == 0 && !differs
            &&& out is Save <==> faults.len() == 0 && differs
            &&& out matches SaveView::Save(r) ==> {
                &&& r.name == draft.name && r.workspace == draft.workspace && r.output
                    == draft.output && r.focus == draft.focus
                &&& r.output_fallback == draft.output_fallback && r.spawn_timeout_ms
                    == draft.spawn_timeout_ms
                &&& r.windows.len() == draft.windows.len()
                &&& 0 <= i < draft.windows.len() ==> r.windows[i] == editing::with_column(
                    draft.windows[i],
                    r.windows[i].layout.column,
                )
            }
        }),
{
}

/// The outputs to choose from are those that are connected and the one that is asked
/// for.
pub proof fn asked_for_outputs_are_offered(
    current: Option<Seq<char>>,
    connected: Seq<Seq<char>>,
    name: Seq<char>,
)
    ensures
        editor::offered_outputs(current, connected).contains(name) <==> connected.contains(name) || (
        current == Some(name) && name.len() > 0),
{
    let out = editor::offered_outputs(current, connected);
    if current is Some && current->0.len() > 0 && !connected.contains(current->0) {
        assert(out[out.len() - 1] == current->0);
        assert(forall|i: int| 0 <= i < connected.len() ==> out[i] == connected[i]);
        if connected.contains(name) {
            let i = choose|i: int| 0 <= i < connected.len() && connected[i] == name;
            assert(out[i] == name);
        }
    }
}

// Saving

/// Two recipes are about the same thing where they are called the same and go to the
/// same workspace. A recipe without a name is called by its workspace.
pub proof fn cards_are_the_same_by_name_and_workspace(a: RecipeView, b: RecipeView)
    ensures
        saving::is_same_card(a, b) <==> a.workspace == b.workspace && (if a.name is Some {
            a.name->0
        } else {
            a.workspace
        }) == (if b.name is Some {
            b.name->0
        } else {
            b.workspace
        }),
{
}

/// Under a key stands a recipe about the same thing just where the key is one of those
/// that are replaced.
pub proof fn the_same_cards_are_replaced(
    m: Seq<(Seq<char>, Recipe)>,
    r: RecipeView,
    key: Seq<char>,
)
    ensures
        saving::same_keys(m, r).contains(key) <==> exists|i: int|
            0 <= i < m.len() && (#[trigger] m[i]).0 == key && m[i].1@.workspace == r.workspace && (if
                m[i].1@.name is Some {
                m[i].1@.name->0
            } else {
                m[i].1@.workspace
            }) == (if r.name is Some {
                r.name->0
            } else {
                r.workspace
            }),
{
    let f = saving::same_key_at(m, r);
    lists::gather_contains(m.len(), f, key);
    if saving::same_keys(m, r).contains(key) {
        let i = choose|i: int| 0 <= i < m.len() && #[trigger] f(i) == Some(key);
        cards_are_the_same_by_name_and_workspace(m[i].1@, r);
        assert(m[i].0 == key);
    }
    if exists|i: int|
        0 <= i < m.len() && (#[trigger] m[i]).0 == key && m[i].1@.workspace == r.workspace && (if
            m[i].1@.name is Some {
            m[i].1@.name->0
        } else {
            m[i].1@.workspace
        }) == (if r.name is Some {
            r.name->0
        } else {
            r.workspace
        }) {
        let i = choose|i: int|
            0 <= i < m.len() && (#[trigger] m[i]).0 == key && m[i].1@.workspace == r.workspace && (if
                m[i].1@.name is Some {
                m[i].1@.name->0
            } else {
                m[i].1@.workspace
            }) == (if r.name is Some {
                r.name->0
            } else {
                r.workspace
            });
        cards_are_the_same_by_name_and_workspace(m[i].1@, r);
        assert(f(i) == Some(key));
    }
}

/// A new recipe gets its key from what it is called; where no letter or digit is in
/// that, from the program.
pub proof fn keys_are_made_of_names(r: RecipeView)
    ensures
        ({
            let name = if r.name is Some {
                r.name->0
            } else {
                r.workspace
            };
            saving::key_base(r) == if apps::identity(name).len() == 0 {
                "workbench"@
            } else {
                naming::slug(name)
            }
        }),
{
    let name = saving::display_name(r);
    naming::slugs_follow_the_text(name);
    kept_are_identity(name);
}

proof fn kept_are_identity(s: Seq<char>)
    ensures
        naming::kept(s).len() == 0 <==> apps::identity(s).len() == 0,
    decreases s.len(),
{
    lists::gather_is_empty(s.len(), naming::kept_at(s));
    let f = naming::kept_at(s);
    if s.len() > 0 {
        let t = s.drop_last();
        kept_are_identity(t);
        lists::gather_is_empty(t.len(), naming::kept_at(t));
        app_laws::letters_are_taken(t, s.last());
        assert(s =~= t.push(s.last()));
        let g = naming::kept_at(t);
        assert forall|i: int| 0 <= i < t.len() implies #[trigger] f(i) == g(i) by {
            assert(s[i] == t[i]);
        }
        assert forall|i: int| 0 <= i < t.len() implies f(i) == #[trigger] g(i) by {
            assert(s[i] == t[i]);
        }
        assert(f(s.len() - 1) is Some <==> text::is_alnum(s.last()));
        if naming::kept(t).len() == 0 && !text::is_alnum(s.last()) {
            assert forall|i: int| 0 <= i < s.len() implies (#[trigger] f(i)) is None by {
                if i < t.len() {
                    assert(g(i) is None);
                }
            }
        }
        if naming::kept(s).len() == 0 {
            assert forall|i: int| 0 <= i < t.len() implies (#[trigger] g(i)) is None by {
                assert(f(i) is None);
            }
        }
    } else {
        app_laws::letters_are_taken(s, 'a');
        assert(s =~= Seq::empty());
    }
}

/// A reviewed capture has the name, the workspace and the commands that were entered,
/// and is otherwise what was captured.
pub proof fn reviews_set_what_was_entered(
    r: RecipeView,
    workspace: Seq<char>,
    lines: Seq<Seq<char>>,
    name: Seq<char>,
    i: int,
)
    requires
        0 <= i < r.windows.len(),
        lines.len() == r.windows.len(),
    ensures
        ({
            let out = capture_form::reviewed(r, workspace, lines, name);
            &&& out.workspace == text::trimmed(workspace)
            &&& text::is_blank(name) ==> out.name is None
            &&& !text::is_blank(name) ==> out.name == Some(text::trimmed(name))
            &&& out.output == r.output && out.focus == r.focus && out.output_fallback
                == r.output_fallback && out.spawn_timeout_ms == r.spawn_timeout_ms
            &&& out.windows.len() == r.windows.len()
            &&& out.windows[i] == (WindowView { command: out.windows[i].command, ..r.windows[i] })
            &&& text::is_blank(lines[i]) ==> out.windows[i].command.len() == 0
            &&& !text::is_blank(lines[i]) && outside::shell_words(lines[i]) is Some
                ==> out.windows[i].command == outside::shell_words(lines[i])->0
            &&& capture_form::has_bad_command(lines) <==> exists|k: int|
                0 <= k < lines.len() && !text::is_blank(#[trigger] lines[k])
                    && outside::shell_words(lines[k]) is None
        }),
{
    let f = capture_form::command_at(lines);
    if capture_form::has_bad_command(lines) {
        let k = choose|k: int| 0 <= k < lines.len() && (#[trigger] f(k)) is None;
        assert(!text::is_blank(lines[k]) && outside::shell_words(lines[k]) is None);
    }
    if exists|k: int|
        0 <= k < lines.len() && !text::is_blank(#[trigger] lines[k]) && outside::shell_words(
            lines[k],
        ) is None {
        let k = choose|k: int|
            0 <= k < lines.len() && !text::is_blank(#[trigger] lines[k]) && outside::shell_words(
                lines[k],
            ) is None;
        assert(f(k) is None);
    }
}

/// A status is said in words: how many windows are missing, or what it is.
pub proof fn statuses_are_said(language: Language, n: usize)
    ensures
        n != 1 ==> interface::label_of(language, RecipeStatus::Missing(n)) == text::decimal(
            n as nat,
        ) + " "@ + i18n::text_for(language, "missing_many"@),
        interface::label_of(language, RecipeStatus::Missing(1)) == i18n::text_for(
            language,
            "missing_one"@,
        ),
        interface::label_of(language, RecipeStatus::Ready) == i18n::text_for(language, "ready"@),
        interface::label_of(language, RecipeStatus::LayoutChanged) == i18n::text_for(
            language,
            "layout_changed"@,
        ),
        interface::label_of(language, RecipeStatus::Ambiguous) == i18n::text_for(
            language,
            "ambiguous"@,
        ),
        interface::label_of(language, RecipeStatus::Offline) == i18n::text_for(language, "offline"@),
{
}

/// A start page is the page of its kind; a recipe is edited in the editor.
pub proof fn start_pages_are_pages(start: StartView)
    ensures
        pages::page_of(start) == Page::Capture <==> start is Capture,
        pages::page_of(start) == Page::Library <==> start is Library,
        pages::page_of(start) == Page::Settings <==> start is Settings,
        pages::page_of(start) == Page::Editor <==> start is Edit,
{
}

/// What is offered of the captured windows are those that no logical window is looking
/// for by the same patterns.
pub proof fn only_new_windows_are_offered(
    existing: Seq<WindowView>,
    offered: Seq<WindowView>,
    i: int,
)
    requires
        0 <= i < offered.len(),
    ensures
        lists::gather(offered.len(), picker::new_place(existing, offered)).contains(i)
            <==> forall|j: int|
            0 <= j < existing.len() ==> !((#[trigger] existing[j]).match_spec.app_id
                == offered[i].match_spec.app_id && existing[j].match_spec.title
                == offered[i].match_spec.title && existing[j].match_spec.process
                == offered[i].match_spec.process),
{
    let f = picker::new_place(existing, offered);
    lists::gather_contains(offered.len(), f, i);
    if picker::is_known(existing, offered[i]) {
        let j = choose|j: int|
            0 <= j < existing.len() && picker::is_same_match(#[trigger] existing[j], offered[i]);
        assert(existing[j].match_spec.app_id == offered[i].match_spec.app_id);
    } else {
        assert(f(i) == Some(i));
        assert forall|j: int| 0 <= j < existing.len() implies !((
        #[trigger] existing[j]).match_spec.app_id == offered[i].match_spec.app_id
            && existing[j].match_spec.title == offered[i].match_spec.title
            && existing[j].match_spec.process == offered[i].match_spec.process) by {
            assert(!picker::is_same_match(existing[j], offered[i]));
        }
    }
}

/// A captured window shows its application and its directory, as far as they are known.
pub proof fn captured_windows_show_where_they_are(d: crate::capture::CapturedView)
    ensures
        d.cwd is None ==> capture_form::meta_of(d) == d.app_id,
        d.cwd is Some && d.app_id.len() == 0 ==> capture_form::meta_of(d) == d.cwd->0,
        d.cwd is Some && d.app_id.len() > 0 ==> capture_form::meta_of(d) == d.app_id + " · "@
            + d.cwd->0,
{
}

/// The pattern for a literal text shows that text, without its anchors.
pub proof fn anchors_are_not_shown(s: Seq<char>)
    requires
        s.len() > 0,
        s[0] != '^' && s[0] != '$',
        s.last() != '^' && s.last() != '$',
    ensures
        interface::unanchored(seq!['^'] + s + seq!['$']) == s,
        interface::unanchored(s) == s,
{
    let p = seq!['^'] + s + seq!['$'];
    reveal_with_fuel(interface::front_cut, 3);
    reveal_with_fuel(interface::back_cut, 3);
    let q = s + seq!['$'];
    assert(p.drop_first() =~= q);
    assert(p[0] == '^' && q[0] == s[0]);
    assert(interface::front_cut(p, '^') == q);
    assert(q.last() == '$');
    assert(interface::back_cut(q, '^') == q);
    assert(interface::front_cut(q, '$') == q);
    assert(q.drop_last() =~= s);
    assert(interface::back_cut(q, '$') == s);
}

} // verus!
