//! What the interface says and where it goes.
use crate::i18n;
use crate::i18n::{tr, Language};
use crate::lists;
use crate::model::{
    ObservedState, OutputView, Recipe, RecipeView, WindowSpec, WindowView, WorkspaceView,
};
use crate::resolve::RecipeStatus;
use crate::apps;
use crate::text;
use crate::text::{
    ascii_lowercase, blank, chars_of, contains, join, lines_of, push_number, starts_with, str_eq,
    trim,
};
use vstd::prelude::*;

verus! {

/// One of two texts, by language.
pub open spec fn said(language: Language, russian: Seq<char>, english: Seq<char>) -> Seq<char> {
    match language {
        Language::Ru => russian,
        Language::En => english,
    }
}

/// One of two texts, by language.
pub fn say(language: Language, russian: &'static str, english: &'static str) -> (out: &'static str)
    ensures
        out@ == said(language, russian@, english@),
{
    match language {
        Language::Ru => russian,
        Language::En => english,
    }
}

// The state of a recipe

/// Which recipes the first page shows.
#[derive(Debug, Clone, Copy, PartialEq, Eq, Structural)]
pub enum HomeFilter {
    All,
    Ready,
    NeedsAttention,
}

impl HomeFilter {
    /// Whether a recipe of this status is shown.
    pub fn matches(self, status: &RecipeStatus) -> (out: bool)
        ensures
            out == match self {
                HomeFilter::All => true,
                HomeFilter::Ready => *status is Ready,
                HomeFilter::NeedsAttention => !(*status is Ready),
            },
    {
        let ready: bool = match status {
            RecipeStatus::Ready => true,
            _ => false,
        };
        match self {
            HomeFilter::All => true,
            HomeFilter::Ready => ready,
            HomeFilter::NeedsAttention => !ready,
        }
    }
}

/// What a recipe of this status is launched by: opening it, repairing it, or not
/// at all.
pub open spec fn launch_action(status: RecipeStatus) -> Option<Seq<char>> {
    match status {
        RecipeStatus::Ready => Some("open"@),
        RecipeStatus::Missing(_) => Some("open"@),
        RecipeStatus::LayoutChanged => Some("repair"@),
        RecipeStatus::Ambiguous => None,
        RecipeStatus::Offline => None,
    }
}

/// The command that launches a recipe of this status, if one does.
pub fn quick_launch_action(status: &RecipeStatus) -> (out: Option<&'static str>)
    ensures
        match out {
            Some(action) => launch_action(*status) == Some(action@),
            None => launch_action(*status) is None,
        },
{
    match status {
        RecipeStatus::Ready | RecipeStatus::Missing(_) => Some("open"),
        RecipeStatus::LayoutChanged => Some("repair"),
        RecipeStatus::Ambiguous | RecipeStatus::Offline => None,
    }
}

/// What launching a recipe would do: how many windows are taken as they are, how
/// many are started, and where.
pub open spec fn launch_summary(
    language: Language,
    reuse: nat,
    launch: nat,
    workspace: Seq<char>,
) -> Seq<char> {
    match language {
        Language::Ru => "Переиспользует "@ + text::decimal(reuse) + ", запустит "@ + text::decimal(
            launch,
        ) + ", workspace: "@ + workspace + "."@,
        Language::En => "Will reuse "@ + text::decimal(reuse) + " app"@ + (if reuse == 1 {
            ""@
        } else {
            "s"@
        }) + ", launch "@ + text::decimal(launch) + ", workspace: "@ + workspace + "."@,
    }
}

/// What the quick launcher says of a recipe.
pub open spec fn summary_of(language: Language, r: RecipeView, status: RecipeStatus) -> Seq<char> {
    match status {
        RecipeStatus::Offline => said(
            language,
            "Niri IPC недоступен. Окружение нельзя открыть из launcher прямо сейчас."@,
            "Niri IPC is unavailable. This workbench cannot be opened right now."@,
        ),
        RecipeStatus::Ambiguous => said(
            language,
            "Найдено несколько подходящих окон. Открой Workbench и уточни matcher."@,
            "Multiple windows match this recipe. Open Workbench and refine its matcher."@,
        ),
        RecipeStatus::Missing(n) => launch_summary(
            language,
            if n <= r.windows.len() {
                (r.windows.len() - n) as nat
            } else {
                0
            },
            n as nat,
            r.workspace,
        ),
        _ => launch_summary(language, r.windows.len(), 0, r.workspace),
    }
}

/// What the quick launcher says of a recipe.
pub fn quick_summary(language: Language, recipe: &Recipe, status: &RecipeStatus) -> (out: String)
    ensures
        out@ == summary_of(language, recipe@, *status),
{
    let total: usize = recipe.windows.len();
    let (reuse, launch): (usize, usize) = match status {
        RecipeStatus::Offline => {
            return say(
                language,
                "Niri IPC недоступен. Окружение нельзя открыть из launcher прямо сейчас.",
                "Niri IPC is unavailable. This workbench cannot be opened right now.",
            ).to_owned();
        },
        RecipeStatus::Ambiguous => {
            return say(
                language,
                "Найдено несколько подходящих окон. Открой Workbench и уточни matcher.",
                "Multiple windows match this recipe. Open Workbench and refine its matcher.",
            ).to_owned();
        },
        RecipeStatus::Missing(n) => (
            if *n <= total {
                total - *n
            } else {
                0
            },
            *n,
        ),
        RecipeStatus::Ready | RecipeStatus::LayoutChanged => (total, 0),
    };
    let mut out: String = String::new();
    match language {
        Language::Ru => {
            out.append("Переиспользует ");
            push_number(&mut out, reuse as u64);
            out.append(", запустит ");
            push_number(&mut out, launch as u64);
        },
        Language::En => {
            out.append("Will reuse ");
            push_number(&mut out, reuse as u64);
            out.append(" app");
            if reuse == 1 {
                out.append("");
            } else {
                out.append("s");
            }
            out.append(", launch ");
            push_number(&mut out, launch as u64);
        },
    }
    out.append(", workspace: ");
    out.append(recipe.workspace.as_str());
    out.append(".");
    assert(out@ =~= launch_summary(language, reuse as nat, launch as nat, recipe@.workspace));
    out
}

/// The label of a status.
pub open spec fn label_of(language: Language, status: RecipeStatus) -> Seq<char> {
    match status {
        RecipeStatus::Ready => i18n::text_for(language, "ready"@),
        RecipeStatus::Missing(n) => if n == 1 {
            i18n::text_for(language, "missing_one"@)
        } else {
            text::decimal(n as nat) + " "@ + i18n::text_for(language, "missing_many"@)
        },
        RecipeStatus::LayoutChanged => i18n::text_for(language, "layout_changed"@),
        RecipeStatus::Ambiguous => i18n::text_for(language, "ambiguous"@),
        RecipeStatus::Offline => i18n::text_for(language, "offline"@),
    }
}

/// How a status is to be taken.
pub open spec fn class_of(status: RecipeStatus) -> Seq<char> {
    match status {
        RecipeStatus::Ready => "status-ready"@,
        RecipeStatus::Missing(_) => "status-warning"@,
        RecipeStatus::LayoutChanged => "status-warning"@,
        _ => "status-error"@,
    }
}

/// The label of a status and its style.
pub fn status_label(language: Language, status: &RecipeStatus) -> (out: (String, &'static str))
    ensures
        out.0@ == label_of(language, *status),
        out.1@ == class_of(*status),
{
    match status {
        RecipeStatus::Ready => (tr(language, "ready").to_owned(), "status-ready"),
        RecipeStatus::Missing(n) => {
            if *n == 1 {
                (tr(language, "missing_one").to_owned(), "status-warning")
            } else {
                let mut label: String = String::new();
                push_number(&mut label, *n as u64);
                label.append(" ");
                label.append(tr(language, "missing_many"));
                assert(label@ =~= label_of(language, *status));
                (label, "status-warning")
            }
        },
        RecipeStatus::LayoutChanged => (
            tr(language, "layout_changed").to_owned(),
            "status-warning",
        ),
        RecipeStatus::Ambiguous => (tr(language, "ambiguous").to_owned(), "status-error"),
        RecipeStatus::Offline => (tr(language, "offline").to_owned(), "status-error"),
    }
}

/// The style of the dot beside a status.
pub fn status_dot(status: &RecipeStatus) -> (out: &'static str)
    ensures
        out@ == match *status {
            RecipeStatus::Ready => "dot-ready"@,
            RecipeStatus::Missing(_) => "dot-warning"@,
            RecipeStatus::LayoutChanged => "dot-warning"@,
            _ => "dot-error"@,
        },
{
    match status {
        RecipeStatus::Ready => "dot-ready",
        RecipeStatus::Missing(_) | RecipeStatus::LayoutChanged => "dot-warning",
        RecipeStatus::Ambiguous | RecipeStatus::Offline => "dot-error",
    }
}

// Windows for people

pub open spec fn app_text(w: WindowView) -> Seq<char> {
    text::lower_text(apps::or_empty(w.match_spec.app_id))
}

/// The name of a logical window for people.
pub open spec fn friendly_name(w: WindowView) -> Seq<char> {
    let app = app_text(w);
    if text::has_part(app, "code"@) {
        "VS Code"@
    } else if text::has_part(app, "kitty"@) {
        "Kitty"@
    } else if text::has_part(app, "chrome"@) {
        "Chrome"@
    } else if text::has_part(app, "firefox"@) {
        "Firefox"@
    } else if text::has_part(app, "android"@) || text::has_part(app, "studio"@) {
        "Android Studio"@
    } else {
        w.name
    }
}

fn lower_app(spec: &WindowSpec) -> (out: String)
    ensures
        out@ == app_text(spec@),
{
    match &spec.match_spec.app_id {
        Some(app) => ascii_lowercase(app.as_str()),
        None => {
            assert(text::lower_text(Seq::empty()) =~= Seq::<char>::empty());
            String::new()
        },
    }
}

/// The name of a logical window for people.
pub fn friendly_window_name(spec: &WindowSpec) -> (out: String)
    ensures
        out@ == friendly_name(spec@),
{
    let app: String = lower_app(spec);
    let a: &str = app.as_str();
    if contains(a, "code") {
        "VS Code".to_owned()
    } else if contains(a, "kitty") {
        "Kitty".to_owned()
    } else if contains(a, "chrome") {
        "Chrome".to_owned()
    } else if contains(a, "firefox") {
        "Firefox".to_owned()
    } else if contains(a, "android") || contains(a, "studio") {
        "Android Studio".to_owned()
    } else {
        spec.name.clone()
    }
}

/// The names of the logical windows of a recipe for people.
pub open spec fn friendly_names(windows: Seq<WindowView>) -> Seq<Seq<char>> {
    windows.map_values(|w: WindowView| friendly_name(w))
}

/// The names of the logical windows of a recipe, with `sep` between them.
pub fn window_names(recipe: &Recipe, sep: &str) -> (out: String)
    ensures
        out@ == text::joined(friendly_names(recipe@.windows), sep@),
{
    let mut parts: Vec<String> = Vec::new();
    for i in 0..recipe.windows.len()
        invariant
            parts@.len() == i,
            forall|k: int| 0 <= k < i ==> (#[trigger] parts@[k])@ == friendly_name(recipe@.windows[k]),
    {
        assert(recipe@.windows[i as int] == recipe.windows@[i as int]@);
        parts.push(friendly_window_name(&recipe.windows[i]));
    }
    assert(text::texts(parts@) =~= friendly_names(recipe@.windows));
    join(&parts, sep)
}

/// Some word of a command begins with `prefix`.
pub open spec fn has_word(command: Seq<Seq<char>>, prefix: Seq<char>) -> bool {
    exists|i: int| 0 <= i < command.len() && prefix.is_prefix_of(#[trigger] command[i])
}

fn any_word(command: &Vec<String>, prefix: &str) -> (out: bool)
    ensures
        out == has_word(text::texts(command@), prefix@),
{
    let ghost words = text::texts(command@);
    for i in 0..command.len()
        invariant
            words == text::texts(command@),
            forall|k: int| 0 <= k < i ==> !prefix@.is_prefix_of(#[trigger] words[k]),
    {
        assert(words[i as int] == command@[i as int]@);
        if starts_with(command[i].as_str(), prefix) {
            assert(prefix@.is_prefix_of(words[i as int]));
            return true;
        }
    }
    false
}

/// What opening a captured window will do.
pub open spec fn behavior_of(w: WindowView, language: Language) -> Seq<char> {
    let app = app_text(w);
    if w.command.len() == 0 {
        said(language, "Только переиспользовать это окно"@, "Reuse this window only"@)
    } else if text::has_part(app, "code"@) {
        said(language, "Переоткрыть этот проект"@, "Reopen this project"@)
    } else if text::has_part(app, "kitty"@) || text::has_part(app, "terminal"@) {
        said(language, "Открыть терминал в этой папке"@, "Open terminal in this directory"@)
    } else if text::has_part(app, "chrome"@) || text::has_part(app, "chromium"@) {
        let profile = has_word(w.command, "--profile-directory="@);
        let url = has_word(w.command, "http://"@) || has_word(w.command, "https://"@);
        if profile && url {
            said(language, "Тот же профиль + активная страница"@, "Same profile + active page"@)
        } else if profile {
            said(language, "Открыть тот же профиль Chrome"@, "Open the same Chrome profile"@)
        } else if url {
            said(language, "Переоткрыть активную страницу"@, "Reopen the active page"@)
        } else {
            said(language, "Открыть Chrome"@, "Open Chrome"@)
        }
    } else if text::has_part(app, "firefox"@) || text::has_part(app, "browser"@) {
        said(language, "Открыть браузер"@, "Open browser"@)
    } else {
        said(language, "Запустить установленное приложение"@, "Launch installed application"@)
    }
}

/// What opening a captured window will do.
pub fn capture_behavior_text(spec: &WindowSpec, language: Language) -> (out: &'static str)
    ensures
        out@ == behavior_of(spec@, language),
{
    let app: String = lower_app(spec);
    let a: &str = app.as_str();
    assert(spec@.command.len() == spec.command@.len());
    if spec.command.len() == 0 {
        say(language, "Только переиспользовать это окно", "Reuse this window only")
    } else if contains(a, "code") {
        say(language, "Переоткрыть этот проект", "Reopen this project")
    } else if contains(a, "kitty") || contains(a, "terminal") {
        say(language, "Открыть терминал в этой папке", "Open terminal in this directory")
    } else if contains(a, "chrome") || contains(a, "chromium") {
        let profile: bool = any_word(&spec.command, "--profile-directory=");
        let url: bool = any_word(&spec.command, "http://") || any_word(&spec.command, "https://");
        if profile && url {
            say(language, "Тот же профиль + активная страница", "Same profile + active page")
        } else if profile {
            say(language, "Открыть тот же профиль Chrome", "Open the same Chrome profile")
        } else if url {
            say(language, "Переоткрыть активную страницу", "Reopen the active page")
        } else {
            say(language, "Открыть Chrome", "Open Chrome")
        }
    } else if contains(a, "firefox") || contains(a, "browser") {
        say(language, "Открыть браузер", "Open browser")
    } else {
        say(language, "Запустить установленное приложение", "Launch installed application")
    }
}

// Counting

/// How many recipes there are, for people.
pub fn library_count(language: Language, n: usize) -> (out: String)
    ensures
        out@ == text::decimal(n as nat) + (match language {
            Language::Ru => " окруж."@,
            Language::En => if n == 1 {
                " workbench"@
            } else {
                " workbenches"@
            },
        }),
{
    let mut out: String = String::new();
    push_number(&mut out, n as u64);
    out.append(
        match language {
            Language::Ru => " окруж.",
            Language::En => if n == 1 {
                " workbench"
            } else {
                " workbenches"
            },
        },
    );
    assert(out@ =~= text::decimal(n as nat) + (match language {
        Language::Ru => " окруж."@,
        Language::En => if n == 1 {
            " workbench"@
        } else {
            " workbenches"@
        },
    }));
    out
}

/// What the library says of a recipe.
pub fn library_detail(language: Language, key: &str, recipe: &Recipe) -> (out: String)
    ensures
        out@ == recipe@.workspace + " · "@ + key@ + " · "@ + text::decimal(
            recipe@.windows.len(),
        ) + " "@ + said(language, "окон"@, "windows"@),
{
    let mut out: String = recipe.workspace.clone();
    out.append(" · ");
    out.append(key);
    out.append(" · ");
    push_number(&mut out, recipe.windows.len() as u64);
    out.append(" ");
    out.append(say(language, "окон", "windows"));
    out
}

// Settings

/// The name of a workspace for people.
pub open spec fn workspace_title(w: WorkspaceView) -> Seq<char> {
    match w.name {
        Some(name) => name,
        None => "#"@ + text::decimal(w.index as nat),
    }
}

/// The name of the focused workspace and its output, for people.
pub fn focused_workspace_text(state: &ObservedState) -> (out: Option<(String, String)>)
    ensures
        match out {
            Some((name, output)) => state@.focused_workspace() is Some && name@
                == workspace_title(state@.focused_workspace()->0) && output@ == match
                state@.focused_workspace()->0.output {
                Some(o) => o,
                None => "—"@,
            },
            None => state@.focused_workspace() is None,
        },
{
    match state.focused_workspace() {
        Some(w) => {
            let name: String = match &w.name {
                Some(name) => name.clone(),
                None => {
                    let mut s: String = "#".to_owned();
                    push_number(&mut s, w.index as u64);
                    s
                },
            };
            let output: String = match &w.output {
                Some(o) => o.clone(),
                None => "—".to_owned(),
            };
            Some((name, output))
        },
        None => None,
    }
}

/// An output for people.
pub open spec fn output_text(o: OutputView) -> Seq<char> {
    if o.width is Some && o.height is Some {
        o.name + " · "@ + text::decimal(o.width->0 as nat) + "×"@ + text::decimal(
            o.height->0 as nat,
        )
    } else {
        o.name
    }
}

pub open spec fn output_text_at(outputs: Seq<OutputView>) -> spec_fn(int) -> Option<Seq<char>> {
    |i: int|
        if outputs[i].width is Some {
            Some(output_text(outputs[i]))
        } else {
            None
        }
}

/// The outputs that show something, for people.
pub open spec fn outputs_shown(outputs: Seq<OutputView>) -> Seq<char> {
    let all = text::joined(lists::gather(outputs.len(), output_text_at(outputs)), ", "@);
    if all.len() == 0 {
        "—"@
    } else {
        all
    }
}

/// The outputs that show something, for people.
pub fn outputs_text(state: &ObservedState) -> (out: String)
    ensures
        out@ == outputs_shown(state@.outputs),
{
    let ghost views = state@.outputs;
    let ghost f = output_text_at(views);
    let mut parts: Vec<String> = Vec::new();
    assert(text::texts(parts@) =~= lists::gather(0, f));
    for i in 0..state.outputs.len()
        invariant
            views == state@.outputs,
            f == output_text_at(views),
            text::texts(parts@) == lists::gather(i as nat, f),
    {
        assert(views[i as int] == state.outputs@[i as int]@);
        let ghost given = f(i as int);
        let ghost before = parts@;
        if let Some(width) = state.outputs[i].width {
            let mut part: String = state.outputs[i].name.clone();
            if let Some(height) = state.outputs[i].height {
                part.append(" · ");
                push_number(&mut part, width as u64);
                part.append("×");
                push_number(&mut part, height as u64);
            }
            assert(part@ =~= given->0);
            parts.push(part);
            assert(text::texts(parts@) =~= text::texts(before).push(given->0));
        }
    }
    let all: String = join(&parts, ", ");
    if all.as_str().unicode_len() == 0 {
        "—".to_owned()
    } else {
        all
    }
}

// Running commands

/// What is said while a command runs.
pub fn pending_text(language: Language, action: &str) -> (out: &'static str)
    ensures
        out@ == if action@ == "open"@ {
            said(language, "Открываю окружение…"@, "Opening workbench…"@)
        } else if action@ == "repair"@ {
            said(language, "Восстанавливаю раскладку…"@, "Restoring layout…"@)
        } else {
            "Working…"@
        },
{
    if str_eq(action, "open") {
        say(language, "Открываю окружение…", "Opening workbench…")
    } else if str_eq(action, "repair") {
        say(language, "Восстанавливаю раскладку…", "Restoring layout…")
    } else {
        "Working…"
    }
}

/// What is said once a command is done.
pub fn done_text(language: Language, action: &str) -> (out: &'static str)
    ensures
        out@ == if action@ == "open"@ {
            said(language, "Окружение открыто"@, "Workbench opened"@)
        } else if action@ == "repair"@ {
            said(language, "Раскладка восстановлена"@, "Layout restored"@)
        } else {
            "Done"@
        },
{
    if str_eq(action, "open") {
        say(language, "Окружение открыто", "Workbench opened")
    } else if str_eq(action, "repair") {
        say(language, "Раскладка восстановлена", "Layout restored")
    } else {
        "Done"
    }
}

/// Line `i` is the last that is not blank.
pub open spec fn is_last_said(lines: Seq<Seq<char>>, i: int) -> bool {
    &&& 0 <= i < lines.len()
    &&& !text::is_blank(lines[i])
    &&& forall|j: int| i < j < lines.len() ==> text::is_blank(#[trigger] lines[j])
}

/// The last line that is not blank, or the whole text.
pub open spec fn last_said(s: Seq<char>) -> Seq<char> {
    if exists|i: int| is_last_said(text::lines(s), i) {
        text::lines(s)[choose|i: int| is_last_said(text::lines(s), i)]
    } else {
        s
    }
}

/// The first 180 characters of a text.
pub open spec fn cut(s: Seq<char>) -> Seq<char> {
    if s.len() <= 180 {
        s
    } else {
        s.take(180)
    }
}

/// The gist of what a failed command printed: its last line, at no great length.
pub fn cli_error_summary(output: &str) -> (out: String)
    ensures
        out@ == cut(text::trimmed(last_said(output@))),
{
    let lines: Vec<String> = lines_of(output);
    let ghost all = text::lines(output@);
    let mut last: String = output.to_owned();
    let mut i: usize = lines.len();
    let mut found: bool = false;
    while i > 0 && !found
        invariant
            text::texts(lines@) == all,
            all == text::lines(output@),
            i <= lines@.len(),
            found ==> is_last_said(all, i as int) && last@ == all[i as int],
            !found ==> last@ == output@ && forall|j: int|
                i <= j < all.len() ==> text::is_blank(#[trigger] all[j]),
        decreases i,
    {
        i = i - 1;
        assert(all[i as int] == lines@[i as int]@);
        if !blank(lines[i].as_str()) {
            last = lines[i].clone();
            found = true;
        }
    }
    proof {
        if found {
            let c = choose|c: int| is_last_said(all, c);
            assert(is_last_said(all, c));
            if c < i {
                assert(text::is_blank(all[i as int]));
            } else if i < c {
                assert(text::is_blank(all[c]));
            }
        } else {
            assert forall|c: int| !is_last_said(all, c) by {
                if 0 <= c < all.len() {
                    assert(text::is_blank(all[c]));
                }
            }
        }
    }
    assert(last@ == last_said(output@));
    let short: &str = trim(last.as_str());
    let n: usize = short.unicode_len();
    if n <= 180 {
        short.to_owned()
    } else {
        let head: &str = short.substring_char(0, 180);
        assert(head@ =~= short@.take(180));
        head.to_owned()
    }
}

/// What is said of a command that failed.
pub fn failure_text(language: Language, output: &str) -> (out: String)
    ensures
        out@ == said(language, "Не удалось: "@, "Failed: "@) + cut(
            text::trimmed(last_said(output@)),
        ),
{
    let mut out: String = say(language, "Не удалось: ", "Failed: ").to_owned();
    out.append(cli_error_summary(output).as_str());
    out
}

/// What is said of a command that could not be started.
pub fn launch_failure_text(language: Language, error: &str) -> (out: String)
    ensures
        out@ == said(language, "Ошибка запуска: "@, "Launch error: "@) + error@,
{
    let mut out: String = say(language, "Ошибка запуска: ", "Launch error: ").to_owned();
    out.append(error);
    out
}

// The selected window

/// `s` without the characters `c` at its start.
pub open spec fn front_cut(s: Seq<char>, c: char) -> Seq<char>
    decreases s.len(),
{
    if s.len() > 0 && s[0] == c {
        front_cut(s.drop_first(), c)
    } else {
        s
    }
}

/// `s` without the characters `c` at its end.
pub open spec fn back_cut(s: Seq<char>, c: char) -> Seq<char>
    decreases s.len(),
{
    if s.len() > 0 && s.last() == c {
        back_cut(s.drop_last(), c)
    } else {
        s
    }
}

fn cut_ends<'a>(s: &'a str, c: char) -> (out: &'a str)
    ensures
        out@ == back_cut(front_cut(s@, c), c),
{
    let cs: Vec<char> = chars_of(s);
    let n: usize = cs.len();
    let mut from: usize = 0;
    assert(s@.skip(0) =~= s@);
    while from < n && cs[from] == c
        invariant
            cs@ == s@,
            n == cs@.len(),
            from <= n,
            front_cut(s@, c) == front_cut(s@.skip(from as int), c),
        decreases n - from,
    {
        assert(s@.skip(from as int).drop_first() =~= s@.skip(from + 1));
        from = from + 1;
    }
    assert(front_cut(s@, c) == s@.skip(from as int));
    let mut to: usize = n;
    assert(s@.subrange(from as int, n as int) =~= s@.skip(from as int));
    while from < to && cs[to - 1] == c
        invariant
            cs@ == s@,
            n == cs@.len(),
            from <= to <= n,
            back_cut(front_cut(s@, c), c) == back_cut(s@.subrange(from as int, to as int), c),
        decreases to - from,
    {
        assert(s@.subrange(from as int, to as int).drop_last() =~= s@.subrange(
            from as int,
            to - 1,
        ));
        to = to - 1;
    }
    s.substring_char(from, to)
}

/// A pattern without its anchors.
pub open spec fn unanchored(pattern: Seq<char>) -> Seq<char> {
    back_cut(front_cut(back_cut(front_cut(pattern, '^'), '^'), '$'), '$')
}

/// What is shown of the window that is selected in the editor.
pub fn selected_label(spec: &WindowSpec) -> (out: String)
    ensures
        out@ == spec@.name + " · "@ + unanchored(
            match spec@.match_spec.app_id {
                Some(app) => app,
                None => "application"@,
            },
        ),
{
    let mut out: String = spec.name.clone();
    out.append(" · ");
    let app: &str = match &spec.match_spec.app_id {
        Some(app) => app.as_str(),
        None => "application",
    };
    out.append(cut_ends(cut_ends(app, '^'), '$'));
    out
}

} // verus!
