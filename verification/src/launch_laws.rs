//! What the command that starts a window again holds of the window.
use crate::apps;
use crate::apps::AppView;
use crate::launch;
use crate::launch::{ArgView, ProcessView, Programs};
use crate::lists;
use crate::model::RuntimeView;
use crate::outside;
use crate::paths;
use crate::text;
use vstd::prelude::*;

verus! {

/// The application of a window in lower case.
pub open spec fn app_name(w: RuntimeView) -> Seq<char> {
    match w.app_id {
        Some(id) => text::lower_text(id),
        None => Seq::empty(),
    }
}

/// The window is one of Kitty: its application says so, or its process runs `kitty`.
pub open spec fn runs_kitty(w: RuntimeView) -> bool {
    text::has_part(app_name(w), "kitty"@) || (w.process_exe is Some && paths::file_name(
        w.process_exe->0,
    ) is Some && text::lower_text(paths::file_name(w.process_exe->0)->0) == "kitty"@)
}

/// The window is one of Visual Studio Code, and not of Kitty.
pub open spec fn runs_code(w: RuntimeView) -> bool {
    !runs_kitty(w) && (app_name(w) == "code"@ || text::has_part(
        app_name(w),
        "visual-studio-code"@,
    ))
}

/// The window is one of Chrome or Chromium, and of neither of the others.
pub open spec fn runs_chrome(w: RuntimeView) -> bool {
    !runs_kitty(w) && !runs_code(w) && (text::has_part(app_name(w), "chrome"@) || text::has_part(
        app_name(w),
        "chromium"@,
    ))
}

/// The words `a` and `b` follow each other somewhere.
pub open spec fn has_pair(words: Seq<Seq<char>>, a: Seq<char>, b: Seq<char>) -> bool {
    exists|i: int| 0 <= i < words.len() - 1 && #[trigger] words[i] == a && words[i + 1] == b
}

/// The command begins with that of the installed application, or with `otherwise`
/// where none is known.
pub open spec fn begins_as_installed(
    out: Seq<Seq<char>>,
    app: Option<AppView>,
    otherwise: Seq<Seq<char>>,
) -> bool {
    match app {
        Some(a) => a.command.len() <= out.len() && out.take(a.command.len() as int) == a.command,
        None => otherwise.len() <= out.len() && out.take(otherwise.len() as int) == otherwise,
    }
}

/// A terminal comes back with its class, its title and its working directory.
pub open spec fn restores_terminal(
    w: RuntimeView,
    installed: Seq<AppView>,
    out: Seq<Seq<char>>,
) -> bool {
    &&& begins_as_installed(out, apps::best_app(installed, app_name(w)), seq!["kitty"@])
    &&& w.cwd is Some ==> has_pair(out, "--directory"@, w.cwd->0)
    &&& w.title is Some && w.title->0.len() > 0 ==> has_pair(out, "--title"@, w.title->0)
    &&& w.app_id is Some && w.app_id->0.len() > 0 && app_name(w) != "kitty"@ ==> has_pair(
        out,
        "--class"@,
        w.app_id->0,
    )
}

/// An editor comes back in a new window, with the directory `project`, if there is one
/// and it is not the home directory.
pub open spec fn restores_editor(
    w: RuntimeView,
    installed: Seq<AppView>,
    project: Option<Seq<char>>,
    home: Option<Seq<char>>,
    out: Seq<Seq<char>>,
) -> bool {
    &&& begins_as_installed(out, apps::best_app(installed, app_name(w)), seq!["code"@])
    &&& out.contains("--new-window"@)
    &&& project is Some && project != home ==> out.last() == project->0
    &&& project is None || project == home ==> out.last() == "--new-window"@
}

/// A browser that can be started is known.
pub open spec fn knows_browser(app: Option<AppView>, programs: Programs) -> bool {
    match app {
        Some(a) => a.command.len() > 0,
        None => programs.flatpak || programs.google_chrome_stable || programs.google_chrome
            || programs.chromium,
    }
}

/// A browser comes back in a new window, with its profile and its page.
pub open spec fn restores_browser(
    w: RuntimeView,
    p: ProcessView,
    installed: Seq<AppView>,
    programs: Programs,
    out: Seq<Seq<char>>,
) -> bool {
    let app = apps::best_app(installed, app_name(w));
    if knows_browser(app, programs) {
        &&& app is Some ==> begins_as_installed(out, app, Seq::empty())
        &&& app is None ==> (out[0] == if programs.flatpak {
            "flatpak"@
        } else if programs.google_chrome_stable {
            "google-chrome-stable"@
        } else if programs.google_chrome {
            "google-chrome"@
        } else {
            "chromium"@
        })
        &&& app is None && programs.flatpak ==> out[1] == "run"@ && out[2] == "com.google.Chrome"@
        &&& out.contains("--new-window"@)
        &&& p.profile is Some ==> out.contains("--profile-directory="@ + p.profile->0)
        &&& p.url is Some ==> out.last() == p.url->0
    } else {
        out.len() == 0
    }
}

/// Any other application is started as it is installed, or else by the file that it
/// runs, where that is there.
pub open spec fn restores_other(
    w: RuntimeView,
    p: ProcessView,
    installed: Seq<AppView>,
    programs: Programs,
    out: Seq<Seq<char>>,
) -> bool {
    let app = apps::best_app(installed, app_name(w));
    if app is Some {
        out == app->0.command
    } else if text::has_part(app_name(w), "firefox"@) && programs.firefox {
        out == seq!["firefox"@]
    } else if w.process_exe is Some && paths::is_absolute(w.process_exe->0) && p.exe_exists {
        out == seq![w.process_exe->0]
    } else {
        out.len() == 0
    }
}

/// A window comes back with what it had.
pub open spec fn restores(
    w: RuntimeView,
    p: ProcessView,
    installed: Seq<AppView>,
    programs: Programs,
    out: Seq<Seq<char>>,
) -> bool {
    &&& runs_kitty(w) ==> restores_terminal(w, installed, out)
    &&& runs_code(w) ==> exists|project: Option<Seq<char>>|
        is_project(w, p, project) && #[trigger] restores_editor(
            w,
            installed,
            project,
            text::opt_text(programs.home),
            out,
        )
    &&& runs_chrome(w) ==> restores_browser(w, p, installed, programs, out)
    &&& !runs_kitty(w) && !runs_code(w) && !runs_chrome(w) ==> restores_other(
        w,
        p,
        installed,
        programs,
        out,
    )
}

/// Word `i` of a command line is a directory that is opened: it stands behind the
/// program and is no option, unless the word before it asks for a window.
pub open spec fn is_opened(args: Seq<ArgView>, i: int) -> bool {
    &&& 1 <= i < args.len() && args[i].is_dir
    &&& args[i].text.len() > 0 && args[i].text[0] == '-' ==> i >= 2 && (args[i - 1].text
        == "--new-window"@ || args[i - 1].text == "--reuse-window"@ || args[i - 1].text == "-n"@
        || args[i - 1].text == "-r"@)
}

/// Word `i` is the first directory that is opened.
pub open spec fn is_first_opened(args: Seq<ArgView>, i: int) -> bool {
    is_opened(args, i) && forall|j: int| 0 <= j < i ==> !#[trigger] is_opened(args, j)
}

/// `project` is the directory that an editor shows: the first that its command line
/// opens, as the file system knows it, or else the one that it works in.
pub open spec fn is_project(w: RuntimeView, p: ProcessView, project: Option<Seq<char>>) -> bool {
    if w.pid is Some && exists|i: int| #[trigger] is_first_opened(p.args, i) {
        exists|i: int| #[trigger]
            is_first_opened(p.args, i) && project == Some(
                match p.args[i].canonical {
                    Some(path) => path,
                    None => p.args[i].text,
                },
            )
    } else {
        project == w.cwd
    }
}

proof fn opened_directories_are_projects(w: RuntimeView, p: ProcessView)
    ensures
        ({
            let project = if launch::opened_project(w, p) is Some {
                launch::opened_project(w, p)
            } else {
                w.cwd
            };
            is_project(w, p, project)
        }),
        w.pid is Some && (exists|i: int| #[trigger] is_first_opened(p.args, i)) <==> launch::opened_project(
            w,
            p,
        ) is Some,
{
    let f = launch::opened_at(p.args);
    let n = p.args.len();
    reveal_strlit("-");
    assert forall|i: int| 0 <= i < n implies ((#[trigger] f(i)) is Some <==> is_opened(p.args, i)) by {
        let t = p.args[i].text;
        assert("-"@.is_prefix_of(t) <==> t.len() > 0 && t[0] == '-') by {
            if t.len() > 0 && t[0] == '-' {
                assert(t.subrange(0, 1) =~= "-"@);
            }
            if "-"@.is_prefix_of(t) {
                assert(t.subrange(0, 1)[0] == "-"@[0]);
            }
        }
    }
    if exists|i: int| #[trigger] is_first_opened(p.args, i) {
        let i = choose|i: int| #[trigger] is_first_opened(p.args, i);
        assert forall|k: int| 0 <= k < i implies (#[trigger] f(k)) is None by {
            assert(!is_opened(p.args, k));
        }
        lists::first_given_is(n, f, i);
    } else {
        assert forall|k: int| 0 <= k < n implies (#[trigger] f(k)) is None by {
            if is_opened(p.args, k) {
                first_opened_exists(p.args, k);
            }
        }
        lists::first_given_none(n, f);
    }
}

proof fn first_opened_exists(args: Seq<ArgView>, k: int)
    requires
        is_opened(args, k),
    ensures
        exists|i: int| #[trigger] is_first_opened(args, i),
    decreases k,
{
    if exists|j: int| 0 <= j < k && #[trigger] is_opened(args, j) {
        let j = choose|j: int| 0 <= j < k && #[trigger] is_opened(args, j);
        first_opened_exists(args, j);
    } else {
        assert(is_first_opened(args, k));
    }
}

/// The command that is inferred for a window brings it back: a terminal with its
/// class, title and directory, an editor with its project, a browser with its profile
/// and page, and any other application as it is installed or by the file it runs.
pub proof fn windows_come_back_as_they_were(
    w: RuntimeView,
    p: ProcessView,
    installed: Seq<AppView>,
    programs: Programs,
)
    ensures
        restores(w, p, installed, programs, launch::start_command(w, p, installed, programs)),
{
    let out = launch::start_command(w, p, installed, programs);
    let name = app_name(w);
    let app = apps::best_app(installed, name);
    kinds_agree(w);
    assert(launch::lower_app(w) =~= name);
    if runs_kitty(w) {
        terminals_come_back(w, app);
        assert(restores_terminal(w, installed, out));
    } else if runs_code(w) {
        let project = if launch::opened_project(w, p) is Some {
            launch::opened_project(w, p)
        } else {
            w.cwd
        };
        opened_directories_are_projects(w, p);
        let base = launch::base_command(app, seq!["code"@]);
        let home = text::opt_text(programs.home);
        assert(out[base.len() as int] == "--new-window"@);
        assert(out.take(base.len() as int) =~= base);
        assert(restores_editor(w, installed, project, home, out));
    } else if runs_chrome(w) {
        browsers_come_back(p, app, programs);
    }
}

proof fn kinds_agree(w: RuntimeView)
    ensures
        launch::lower_app(w) == app_name(w),
        launch::is_kitty(w) == runs_kitty(w),
{
    assert(launch::lower_app(w) =~= app_name(w));
}

proof fn terminals_come_back(w: RuntimeView, app: Option<AppView>)
    ensures
        ({
            let out = launch::kitty_command(w, app);
            &&& begins_as_installed(out, app, seq!["kitty"@])
            &&& w.cwd is Some ==> has_pair(out, "--directory"@, w.cwd->0)
            &&& w.title is Some && w.title->0.len() > 0 ==> has_pair(out, "--title"@, w.title->0)
            &&& w.app_id is Some && w.app_id->0.len() > 0 && app_name(w) != "kitty"@ ==> has_pair(
                out,
                "--class"@,
                w.app_id->0,
            )
        }),
{
    kinds_agree(w);
    let out = launch::kitty_command(w, app);
    let base = launch::base_command(app, seq!["kitty"@]);
    let n = base.len() as int;
    assert(out.take(n) =~= base);
    let named = w.app_id is Some && w.app_id->0.len() > 0 && app_name(w) != "kitty"@;
    let titled = w.title is Some && w.title->0.len() > 0;
    let m = if named {
        n + 2
    } else {
        n
    };
    let k = if titled {
        m + 2
    } else {
        m
    };
    if named {
        assert(out[n] == "--class"@ && out[n + 1] == w.app_id->0);
    }
    if titled {
        assert(out[m] == "--title"@ && out[m + 1] == w.title->0);
    }
    if w.cwd is Some {
        assert(out[k] == "--directory"@ && out[k + 1] == w.cwd->0);
    }
}

proof fn browsers_come_back(
    p: ProcessView,
    app: Option<AppView>,
    programs: Programs,
)
    ensures
        ({
            let out = launch::chrome_command(p, app, programs);
            if knows_browser(app, programs) {
                &&& app is Some ==> begins_as_installed(out, app, Seq::empty())
                &&& app is None ==> (out[0] == if programs.flatpak {
                    "flatpak"@
                } else if programs.google_chrome_stable {
                    "google-chrome-stable"@
                } else if programs.google_chrome {
                    "google-chrome"@
                } else {
                    "chromium"@
                })
                &&& app is None && programs.flatpak ==> out[1] == "run"@ && out[2]
                    == "com.google.Chrome"@
                &&& out.contains("--new-window"@)
                &&& p.profile is Some ==> out.contains("--profile-directory="@ + p.profile->0)
                &&& p.url is Some ==> out.last() == p.url->0
            } else {
                out.len() == 0
            }
        }),
{
    let out = launch::chrome_command(p, app, programs);
    let base = launch::base_command(app, launch::found_browser(programs));
    if knows_browser(app, programs) {
        let n = base.len() as int;
        assert(base.len() > 0);
        assert(out.take(n) =~= base);
        assert(out[n] == "--new-window"@);
        assert(forall|i: int| 0 <= i < n ==> out[i] == base[i]);
        if p.profile is Some {
            assert(out[n + 1] == "--profile-directory="@ + p.profile->0);
        }
    }
}

/// The window, or the file that its process runs, has a name in which one of these
/// parts stands, without regard to case, or which is one of these words.
pub open spec fn goes_by(w: RuntimeView, parts: Seq<Seq<char>>, words: Seq<Seq<char>>) -> bool {
    name_goes_by(app_name(w), parts, words) || (w.process_exe is Some && paths::file_name(
        w.process_exe->0,
    ) is Some && name_goes_by(
        text::lower_text(paths::file_name(w.process_exe->0)->0),
        parts,
        words,
    ))
}

pub open spec fn name_goes_by(
    name: Seq<char>,
    parts: Seq<Seq<char>>,
    words: Seq<Seq<char>>,
) -> bool {
    ||| words.contains(name)
    ||| exists|i: int| 0 <= i < parts.len() && #[trigger] text::has_part(name, parts[i])
}

proof fn nothing_goes_by(parts: Seq<Seq<char>>, words: Seq<Seq<char>>)
    requires
        forall|i: int| 0 <= i < parts.len() ==> (#[trigger] parts[i]).len() > 0,
        forall|i: int| 0 <= i < words.len() ==> (#[trigger] words[i]).len() > 0,
    ensures
        !name_goes_by(Seq::empty(), parts, words),
{
    assert forall|i: int| 0 <= i < parts.len() implies !#[trigger] text::has_part(
        Seq::<char>::empty(),
        parts[i],
    ) by {
        assert(forall|k: int| !text::occurs_at(Seq::<char>::empty(), parts[i], k));
    }
}

proof fn terminals_go_by(name: Seq<char>)
    ensures
        launch::names_terminal(name) <==> name_goes_by(
            name,
            seq!["kitty"@, "alacritty"@, "wezterm"@, "konsole"@, "terminal"@],
            seq!["foot"@],
        ),
{
    let parts = seq!["kitty"@, "alacritty"@, "wezterm"@, "konsole"@, "terminal"@];
    let words = seq!["foot"@];
    assert(words.contains(name) <==> name == "foot"@) by {
        assert(words[0] == "foot"@);
    }
    assert(parts[0] == "kitty"@ && parts[1] == "alacritty"@ && parts[2] == "wezterm"@ && parts[3]
        == "konsole"@ && parts[4] == "terminal"@);
}

proof fn browsers_go_by(name: Seq<char>)
    ensures
        launch::names_browser(name) <==> name_goes_by(
            name,
            seq!["chrome"@, "chromium"@, "firefox"@, "brave"@, "vivaldi"@],
            Seq::empty(),
        ),
{
    let parts = seq!["chrome"@, "chromium"@, "firefox"@, "brave"@, "vivaldi"@];
    assert(parts[0] == "chrome"@ && parts[1] == "chromium"@ && parts[2] == "firefox"@ && parts[3]
        == "brave"@ && parts[4] == "vivaldi"@);
}

proof fn editors_go_by(name: Seq<char>)
    ensures
        launch::names_editor(name) <==> name_goes_by(
            name,
            seq![
                "codium"@,
                "visual-studio-code"@,
                "zed"@,
                "rustrover"@,
                "clion"@,
                "pycharm"@,
                "intellij"@,
                "idea"@,
            ],
            seq!["code"@],
        ),
{
    let parts = seq![
        "codium"@,
        "visual-studio-code"@,
        "zed"@,
        "rustrover"@,
        "clion"@,
        "pycharm"@,
        "intellij"@,
        "idea"@,
    ];
    let words = seq!["code"@];
    assert(words.contains(name) <==> name == "code"@) by {
        assert(words[0] == "code"@);
    }
    assert(parts[0] == "codium"@ && parts[1] == "visual-studio-code"@ && parts[2] == "zed"@
        && parts[3] == "rustrover"@ && parts[4] == "clion"@ && parts[5] == "pycharm"@ && parts[6]
        == "intellij"@ && parts[7] == "idea"@);
}

/// A window is known for a terminal, a browser or an editor by its application, or
/// else by the file that its process runs.
pub proof fn windows_go_by_their_names(w: RuntimeView)
    ensures
        launch::is_terminal(w) <==> goes_by(
            w,
            seq!["kitty"@, "alacritty"@, "wezterm"@, "konsole"@, "terminal"@],
            seq!["foot"@],
        ),
        launch::is_browser(w) <==> goes_by(
            w,
            seq!["chrome"@, "chromium"@, "firefox"@, "brave"@, "vivaldi"@],
            Seq::empty(),
        ),
        launch::is_project_editor(w) <==> goes_by(
            w,
            seq![
                "codium"@,
                "visual-studio-code"@,
                "zed"@,
                "rustrover"@,
                "clion"@,
                "pycharm"@,
                "intellij"@,
                "idea"@,
            ],
            seq!["code"@],
        ),
{
    kinds_agree(w);
    reveal_strlit("kitty");
    reveal_strlit("alacritty");
    reveal_strlit("wezterm");
    reveal_strlit("konsole");
    reveal_strlit("terminal");
    reveal_strlit("foot");
    reveal_strlit("chrome");
    reveal_strlit("chromium");
    reveal_strlit("firefox");
    reveal_strlit("brave");
    reveal_strlit("vivaldi");
    reveal_strlit("codium");
    reveal_strlit("visual-studio-code");
    reveal_strlit("zed");
    reveal_strlit("rustrover");
    reveal_strlit("clion");
    reveal_strlit("pycharm");
    reveal_strlit("intellij");
    reveal_strlit("idea");
    reveal_strlit("code");
    let file = launch::lower_binary(w);
    terminals_go_by(app_name(w));
    terminals_go_by(file);
    browsers_go_by(app_name(w));
    browsers_go_by(file);
    editors_go_by(app_name(w));
    editors_go_by(file);
    if launch::binary_of(w) is None {
        assert(file =~= Seq::empty());
        nothing_goes_by(
            seq!["kitty"@, "alacritty"@, "wezterm"@, "konsole"@, "terminal"@],
            seq!["foot"@],
        );
        nothing_goes_by(
            seq!["chrome"@, "chromium"@, "firefox"@, "brave"@, "vivaldi"@],
            Seq::empty(),
        );
        nothing_goes_by(
            seq![
                "codium"@,
                "visual-studio-code"@,
                "zed"@,
                "rustrover"@,
                "clion"@,
                "pycharm"@,
                "intellij"@,
                "idea"@,
            ],
            seq!["code"@],
        );
    }
}

/// Word `i` of a command line names the profile `profile`.
pub open spec fn names_profile(args: Seq<Seq<char>>, i: int, profile: Seq<char>) -> bool {
    0 <= i < args.len() && args[i] == "--profile-directory="@ + profile && !text::is_blank(profile)
}

/// A browser's profile is the one that its command line names first. Where it names
/// none, it is the one that was used last, unless that is blank.
pub proof fn profiles_are_as_named(args: Seq<Seq<char>>, last_used: Option<Seq<char>>)
    ensures
        ({
            let out = launch::profile_of(args, last_used);
            &&& forall|i: int, p: Seq<char>| #[trigger]
                names_profile(args, i, p) && (forall|j: int, q: Seq<char>|
                    j < i ==> !#[trigger] names_profile(args, j, q)) ==> out == Some(p)
            &&& (forall|i: int, p: Seq<char>| !#[trigger] names_profile(args, i, p)) ==> (if
                last_used is Some && !text::is_blank(last_used->0) {
                out == last_used
            } else {
                out is None
            })
        }),
{
    let f = launch::named_profile(args);
    let n = args.len();
    let key = "--profile-directory="@;
    assert forall|i: int| 0 <= i < n && (#[trigger] f(i)) is Some implies names_profile(
        args,
        i,
        f(i)->0,
    ) by {
        assert(args[i] =~= key + args[i].skip(key.len() as int));
    }
    assert forall|i: int, p: Seq<char>| #[trigger] names_profile(args, i, p) implies f(i) == Some(
        p,
    ) by {
        assert(args[i].skip(key.len() as int) =~= p);
        assert(args[i].take(key.len() as int) =~= key);
    }
    assert forall|i: int, p: Seq<char>| #[trigger]
        names_profile(args, i, p) && (forall|j: int, q: Seq<char>|
            j < i ==> !#[trigger] names_profile(args, j, q)) implies launch::profile_of(
        args,
        last_used,
    ) == Some(p) by {
        assert forall|k: int| 0 <= k < i implies (#[trigger] f(k)) is None by {
            if f(k) is Some {
                assert(names_profile(args, k, f(k)->0));
            }
        }
        lists::first_given_is(n, f, i);
    }
    if forall|i: int, p: Seq<char>| !#[trigger] names_profile(args, i, p) {
        assert forall|k: int| 0 <= k < n implies (#[trigger] f(k)) is None by {
            if f(k) is Some {
                assert(names_profile(args, k, f(k)->0));
            }
        }
        lists::first_given_none(n, f);
    }
}

/// The title of a browser window is that of its page with the name of the browser
/// behind it. A page's title keeps no white space around it.
pub proof fn page_titles_lose_the_browser(page: Seq<char>)
    ensures
        launch::page_title(page + " - Google Chrome"@) == text::trimmed(page),
        launch::page_title(page + " - Chromium"@) == text::trimmed(page),
        !" - Google Chrome"@.is_suffix_of(page) && !" - Chromium"@.is_suffix_of(page)
            ==> launch::page_title(page) == text::trimmed(page),
{
    reveal_strlit(" - Google Chrome");
    reveal_strlit(" - Chromium");
    let a = page + " - Google Chrome"@;
    let b = page + " - Chromium"@;
    assert(a.take(a.len() - " - Google Chrome"@.len()) =~= page);
    assert(b.take(b.len() - " - Chromium"@.len()) =~= page);
    assert(a.skip(a.len() - " - Google Chrome"@.len()) =~= " - Google Chrome"@);
    assert(b.skip(b.len() - " - Chromium"@.len()) =~= " - Chromium"@);
    if " - Google Chrome"@.is_suffix_of(b) {
        let n = b.len();
        assert(b.subrange(n - 16, n as int)[15] == 'e');
        assert(b[n - 1] == 'm');
    }
}

/// What SQL reads between quotes: two single quotes stand for one.
pub open spec fn sql_read(s: Seq<char>) -> Seq<char>
    decreases s.len(),
{
    if s.len() == 0 {
        Seq::empty()
    } else if s.last() == '\'' && s.len() > 1 && s[s.len() - 2] == '\'' {
        sql_read(s.drop_last().drop_last()).push('\'')
    } else {
        sql_read(s.drop_last()).push(s.last())
    }
}

/// A quoted title reads back as it was, and every quote in it is one of a pair.
pub proof fn quoted_titles_read_back(s: Seq<char>)
    ensures
        sql_read(launch::sql_quoted(s)) == s,
        s.len() > 0 && s.last() == '\'' ==> launch::sql_quoted(s) == launch::sql_quoted(
            s.drop_last(),
        ) + seq!['\'', '\''],
    decreases s.len(),
{
    if s.len() > 0 {
        quoted_titles_read_back(s.drop_last());
        let before = launch::sql_quoted(s.drop_last());
        let q = launch::sql_quoted(s);
        assert(s =~= s.drop_last().push(s.last()));
        if s.last() == '\'' {
            assert(q.drop_last().drop_last() =~= before);
            assert(q =~= before + seq!['\'', '\'']);
        } else {
            assert(q.drop_last() =~= before);
        }
    }
}

/// Only web pages are opened again.
pub proof fn pages_are_on_the_web(rest: Seq<char>, url: Seq<char>)
    ensures
        launch::is_page("http://"@ + rest),
        launch::is_page("https://"@ + rest),
        launch::is_page(url) ==> exists|tail: Seq<char>|
            url == "http://"@ + tail || url == #[trigger] ("https://"@ + tail),
{
    let a = "http://"@ + rest;
    let b = "https://"@ + rest;
    assert(a.take("http://"@.len() as int) =~= "http://"@);
    assert(b.take("https://"@.len() as int) =~= "https://"@);
    if launch::is_page(url) {
        if "http://"@.is_prefix_of(url) {
            let tail = url.skip("http://"@.len() as int);
            assert(url =~= "http://"@ + tail);
            let other = "https://"@ + tail;
            assert(url == "http://"@ + tail || url == other);
        } else {
            let tail = url.skip("https://"@.len() as int);
            assert(url =~= "https://"@ + tail);
        }
    }
}

/// The project of a working directory is the nearest directory on the way up that
/// is marked, as the file system knows it.
pub proof fn projects_are_the_nearest_marked(ancestors: Seq<launch::AncestorView>, i: int)
    requires
        0 <= i < ancestors.len(),
        ancestors[i].marked,
        forall|j: int| 0 <= j < i ==> !(#[trigger] ancestors[j]).marked,
    ensures
        ancestors[i].canonical is Some ==> launch::project_of(ancestors) == ancestors[i].canonical,
        ancestors[i].canonical is None ==> launch::project_of(ancestors) == Some(ancestors[i].path),
{
    lists::first_is(ancestors, launch::is_marked(), i);
}

/// Where nothing on the way up is marked, there is no project.
pub proof fn unmarked_directories_have_no_project(ancestors: Seq<launch::AncestorView>)
    requires
        forall|j: int| 0 <= j < ancestors.len() ==> !(#[trigger] ancestors[j]).marked,
    ensures
        launch::project_of(ancestors) is None,
{
    lists::first_is_none(ancestors, launch::is_marked());
}

/// A repository or a manifest of a common build tool marks a project, and nothing
/// else does.
pub proof fn projects_are_marked_by(name: Seq<char>)
    ensures
        launch::markers().contains(name) <==> name == ".git"@ || name == "Cargo.toml"@ || name
            == "package.json"@ || name == "pyproject.toml"@ || name == "go.mod"@,
{
    let m = launch::markers();
    assert(m[0] == ".git"@ && m[1] == "Cargo.toml"@ && m[2] == "package.json"@ && m[3]
        == "pyproject.toml"@ && m[4] == "go.mod"@);
}

/// A browser's data is first looked for where its command line says, if that is an
/// absolute path, and then in the usual places below the home directory.
pub proof fn data_is_looked_for_in_order(
    args: Seq<Seq<char>>,
    home: Option<Seq<char>>,
    flatpak: Option<Seq<char>>,
    path: Seq<char>,
)
    ensures
        lists::gather(args.len(), launch::named_root(args)).contains(
            (launch::DataRootView { path, usual: false }),
        ) <==> paths::is_absolute(path) && args.contains("--user-data-dir="@ + path),
        !lists::gather(args.len(), launch::named_root(args)).contains(
            (launch::DataRootView { path, usual: true }),
        ),
        home is None ==> launch::usual_roots(home, flatpak).len() == 0,
        home is Some && flatpak is None ==> launch::usual_roots(home, flatpak)
            == launch::usual_roots(home, Some(Seq::empty())).skip(1),
        home is Some ==> ({
            let roots = launch::usual_roots(home, flatpak);
            &&& roots.len() == if flatpak is Some {
                3int
            } else {
                2int
            }
            &&& forall|i: int| 0 <= i < roots.len() ==> (#[trigger] roots[i]).usual
            &&& roots[roots.len() - 2].path == paths::join_path(home->0, ".config/google-chrome"@)
            &&& roots[roots.len() - 1].path == paths::join_path(home->0, ".config/chromium"@)
            &&& flatpak is Some ==> roots[0].path == paths::join_path(
                paths::join_path(paths::join_path(home->0, ".var/app"@), flatpak->0),
                "config/google-chrome"@,
            )
        }),
{
    let f = launch::named_root(args);
    let key = "--user-data-dir="@;
    let root = launch::DataRootView { path, usual: false };
    lists::gather_contains(args.len(), f, root);
    lists::gather_contains(args.len(), f, (launch::DataRootView { path, usual: true }));
    assert((key + path).skip(key.len() as int) =~= path);
    assert((key + path).take(key.len() as int) =~= key);
    if paths::is_absolute(path) && args.contains(key + path) {
        let i = choose|i: int| 0 <= i < args.len() && args[i] == key + path;
        assert(f(i) == Some(root));
    }
    if exists|i: int| 0 <= i < args.len() && #[trigger] f(i) == Some(root) {
        let i = choose|i: int| 0 <= i < args.len() && #[trigger] f(i) == Some(root);
        assert(args[i] =~= key + path);
    }
    if home is Some && flatpak is None {
        assert(launch::usual_roots(home, flatpak) =~= launch::usual_roots(
            home,
            Some(Seq::empty()),
        ).skip(1));
    }
}

/// A window is about a project where the file that it runs lies in it, or where a
/// word of its command line is a path into it.
pub proof fn references_lie_in_the_project(
    w: RuntimeView,
    p: ProcessView,
    root: Seq<char>,
    i: int,
)
    ensures
        w.process_exe is Some && p.exe_canonical is Some && paths::is_within(
            p.exe_canonical->0,
            root,
        ) ==> launch::refers_to(w, p, root),
        w.process_exe is Some && p.exe_canonical is None && paths::is_within(
            w.process_exe->0,
            root,
        ) ==> launch::refers_to(w, p, root),
        w.pid is Some && 0 <= i < p.args.len() && paths::is_absolute(p.args[i].text)
            && p.args[i].canonical is Some && paths::is_within(p.args[i].canonical->0, root)
            ==> launch::refers_to(w, p, root),
        w.pid is Some && 0 <= i < p.args.len() && paths::is_absolute(p.args[i].text)
            && p.args[i].canonical is None && paths::is_within(p.args[i].text, root)
            ==> launch::refers_to(w, p, root),
        w.process_exe is None && w.pid is None ==> !launch::refers_to(w, p, root),
        w.process_exe is None && (forall|k: int|
            0 <= k < p.args.len() ==> !paths::is_absolute((#[trigger] p.args[k]).text))
            ==> !launch::refers_to(w, p, root),
        launch::works_in(w, p, root) <==> w.cwd is Some && (if p.cwd_canonical is Some {
            paths::is_within(p.cwd_canonical->0, root)
        } else {
            paths::is_within(w.cwd->0, root)
        }),
{
    reveal_strlit("-");
    if 0 <= i < p.args.len() && paths::is_absolute(p.args[i].text) {
        assert(!"-"@.is_prefix_of(p.args[i].text)) by {
            if "-"@.is_prefix_of(p.args[i].text) {
                assert(p.args[i].text.subrange(0, 1)[0] == "-"@[0]);
            }
        }
        let b = launch::argument_in(p.args, root, i);
    }
}

/// A command line of words, each with a zero byte behind it, is taken apart into
/// just those words.
pub proof fn command_lines_are_taken_apart(words: Seq<Seq<u8>>)
    requires
        forall|i: int|
            0 <= i < words.len() ==> (#[trigger] words[i]).len() > 0 && !words[i].contains(0u8),
    ensures
        launch::raw_words(ended_by_zeros(words)) == words.map_values(
            |w: Seq<u8>| outside::lossy_text(w),
        ),
{
    zeros_split(words);
    let parts = text::split(ended_by_zeros(words), 0u8);
    let f = launch::word_at(parts);
    let n = words.len();
    assert(f(n as int) is None);
    assert(lists::gather((n + 1) as nat, f) == lists::gather(n, f));
    given_throughout(words, f, n);
}

/// Each word with a zero byte behind it.
pub open spec fn ended_by_zeros(words: Seq<Seq<u8>>) -> Seq<u8>
    decreases words.len(),
{
    if words.len() == 0 {
        Seq::empty()
    } else {
        ended_by_zeros(words.drop_last()) + words.last() + seq![0u8]
    }
}

proof fn given_throughout(words: Seq<Seq<u8>>, f: spec_fn(int) -> Option<Seq<char>>, n: nat)
    requires
        n <= words.len(),
        forall|i: int| 0 <= i < n ==> #[trigger] f(i) == Some(outside::lossy_text(words[i])),
    ensures
        lists::gather(n, f) == words.take(n as int).map_values(
            |w: Seq<u8>| outside::lossy_text(w),
        ),
        n == words.len() ==> lists::gather(n, f) == words.map_values(
            |w: Seq<u8>| outside::lossy_text(w),
        ),
    decreases n,
{
    if n > 0 {
        given_throughout(words, f, (n - 1) as nat);
        assert(f(n - 1) == Some(outside::lossy_text(words[n - 1])));
    }
    assert(words.take(words.len() as int) =~= words);
    assert(lists::gather(n, f) =~= words.take(n as int).map_values(
        |w: Seq<u8>| outside::lossy_text(w),
    ));
}

proof fn split_appends(s: Seq<u8>, w: Seq<u8>)
    requires
        !w.contains(0u8),
    ensures
        text::split(s + w, 0u8) == text::split(s, 0u8).drop_last().push(
            text::split(s, 0u8).last() + w,
        ),
    decreases w.len(),
{
    text::split_is_never_empty(s, 0u8);
    if w.len() == 0 {
        assert(s + w =~= s);
        assert(text::split(s, 0u8).last() + w =~= text::split(s, 0u8).last());
        assert(text::split(s, 0u8).drop_last().push(text::split(s, 0u8).last()) =~= text::split(
            s,
            0u8,
        ));
    } else {
        let v = w.drop_last();
        assert(!v.contains(0u8)) by {
            if v.contains(0u8) {
                let i = choose|i: int| 0 <= i < v.len() && v[i] == 0u8;
                assert(w[i] == 0u8);
            }
        }
        split_appends(s, v);
        assert((s + w).drop_last() =~= s + v);
        assert(w[w.len() - 1] == w.last());
        assert((s + w).last() == w.last());
        let before = text::split(s + v, 0u8);
        assert(before.drop_last() =~= text::split(s, 0u8).drop_last());
        assert(before.last().push(w.last()) =~= text::split(s, 0u8).last() + w);
    }
}

proof fn zeros_split(words: Seq<Seq<u8>>)
    requires
        forall|i: int|
            0 <= i < words.len() ==> (#[trigger] words[i]).len() > 0 && !words[i].contains(0u8),
    ensures
        text::split(ended_by_zeros(words), 0u8) == words.push(Seq::empty()),
    decreases words.len(),
{
    if words.len() == 0 {
        assert(text::split(ended_by_zeros(words), 0u8) =~= words.push(Seq::empty()));
    } else {
        let front = words.drop_last();
        assert(forall|i: int| 0 <= i < front.len() ==> #[trigger] front[i] == words[i]);
        zeros_split(front);
        let s = ended_by_zeros(front);
        let w = words.last();
        assert(words[words.len() - 1] == w);
        split_appends(s, w);
        let t = s + w;
        assert(ended_by_zeros(words) =~= t.push(0u8));
        assert(t.push(0u8).drop_last() =~= t);
        assert(front.push(Seq::<u8>::empty()).drop_last() =~= front);
        assert(Seq::<u8>::empty() + w =~= w);
        assert(front.push(w) =~= words);
    }
}

/// A process that has written its whole command line into one text has it taken apart as
/// a shell would, where that can be done.
pub proof fn written_over_lines_are_taken_apart(
    words: Seq<Seq<char>>,
    split: Option<Seq<Seq<char>>>,
    i: int,
)
    ensures
        words.len() != 1 || split is None ==> launch::command_words(words, split) == words,
        words.len() == 1 && split is Some && 0 <= i < words[0].len() && text::is_white(words[0][i])
            ==> launch::command_words(words, split) == split->0,
        words.len() == 1 && (forall|k: int| 0 <= k < words[0].len() ==> !text::is_white(words[0][k]))
            ==> launch::command_words(words, split) == words,
{
}

} // verus!
