//! How the windows that are open were started, and how to start them again.
use crate::apps;
use crate::apps::{resolve_installed_app_from, AppView, InstalledApp};
use crate::launch_laws;
use crate::lists;
use crate::model::{RuntimeView, RuntimeWindow};
use crate::outside;
use crate::outside::{json_text_at, split_words, text_of_bytes};
use crate::paths;
use crate::paths::{absolute, name_of_file, within};
use crate::text;
use crate::text::{
    ascii_lowercase, blank, char_is_white, chars_of, contains, copy_list, copy_opt, opt_is,
    starts_with, str_eq, strip_prefix, strip_suffix, trim,
};
use vstd::prelude::*;

verus! {

/// A word of a process's command line, and what the file system says of it as a
/// path.
#[derive(Debug, PartialEq, Eq)]
pub struct ArgFacts {
    pub text: String,
    pub is_dir: bool,
    pub canonical: Option<String>,
}

#[verifier::ext_equal]
pub struct ArgView {
    pub text: Seq<char>,
    pub is_dir: bool,
    pub canonical: Option<Seq<char>>,
}

impl View for ArgFacts {
    type V = ArgView;

    open spec fn view(&self) -> ArgView {
        ArgView {
            text: self.text@,
            is_dir: self.is_dir,
            canonical: text::opt_text(self.canonical),
        }
    }
}

pub open spec fn arg_views(v: Seq<ArgFacts>) -> Seq<ArgView> {
    v.map_values(|a: ArgFacts| a@)
}

/// What the system says of the process behind a window: its command line, its
/// executable and its working directory, and of a browser the profile and the
/// page that it shows.
#[derive(Debug, PartialEq, Eq)]
pub struct ProcessFacts {
    pub args: Vec<ArgFacts>,
    pub exe_canonical: Option<String>,
    pub exe_exists: bool,
    pub cwd_canonical: Option<String>,
    pub cwd_root: Option<String>,
    pub profile: Option<String>,
    pub url: Option<String>,
}

#[verifier::ext_equal]
pub struct ProcessView {
    pub args: Seq<ArgView>,
    pub exe_canonical: Option<Seq<char>>,
    pub exe_exists: bool,
    pub cwd_canonical: Option<Seq<char>>,
    pub cwd_root: Option<Seq<char>>,
    pub profile: Option<Seq<char>>,
    pub url: Option<Seq<char>>,
}

impl View for ProcessFacts {
    type V = ProcessView;

    open spec fn view(&self) -> ProcessView {
        ProcessView {
            args: arg_views(self.args@),
            exe_canonical: text::opt_text(self.exe_canonical),
            exe_exists: self.exe_exists,
            cwd_canonical: text::opt_text(self.cwd_canonical),
            cwd_root: text::opt_text(self.cwd_root),
            profile: text::opt_text(self.profile),
            url: text::opt_text(self.url),
        }
    }
}

pub open spec fn process_views(v: Seq<ProcessFacts>) -> Seq<ProcessView> {
    v.map_values(|p: ProcessFacts| p@)
}

/// The user's home, and which of the programs that are looked for are installed.
#[derive(Debug, PartialEq, Eq)]
pub struct Programs {
    pub home: Option<String>,
    pub flatpak: bool,
    pub google_chrome_stable: bool,
    pub google_chrome: bool,
    pub chromium: bool,
    pub firefox: bool,
}

// What kind of window it is

/// The file that the process of a window runs.
pub open spec fn binary_of(w: RuntimeView) -> Option<Seq<char>> {
    match w.process_exe {
        Some(exe) => paths::file_name(exe),
        None => None,
    }
}

pub open spec fn lower_app(w: RuntimeView) -> Seq<char> {
    text::lower_text(apps::or_empty(w.app_id))
}

pub open spec fn lower_binary(w: RuntimeView) -> Seq<char> {
    text::lower_text(apps::or_empty(binary_of(w)))
}

pub open spec fn names_terminal(s: Seq<char>) -> bool {
    text::has_part(s, "kitty"@) || text::has_part(s, "alacritty"@) || text::has_part(s, "wezterm"@)
        || s == "foot"@ || text::has_part(s, "konsole"@) || text::has_part(s, "terminal"@)
}

pub open spec fn names_browser(s: Seq<char>) -> bool {
    text::has_part(s, "chrome"@) || text::has_part(s, "chromium"@) || text::has_part(s, "firefox"@)
        || text::has_part(s, "brave"@) || text::has_part(s, "vivaldi"@)
}

pub open spec fn names_editor(s: Seq<char>) -> bool {
    s == "code"@ || text::has_part(s, "codium"@) || text::has_part(s, "visual-studio-code"@)
        || text::has_part(s, "zed"@) || text::has_part(s, "rustrover"@) || text::has_part(
        s,
        "clion"@,
    ) || text::has_part(s, "pycharm"@) || text::has_part(s, "intellij"@) || text::has_part(
        s,
        "idea"@,
    )
}

pub open spec fn is_terminal(w: RuntimeView) -> bool {
    names_terminal(lower_app(w)) || names_terminal(lower_binary(w))
}

pub open spec fn is_browser(w: RuntimeView) -> bool {
    names_browser(lower_app(w)) || names_browser(lower_binary(w))
}

pub open spec fn is_project_editor(w: RuntimeView) -> bool {
    names_editor(lower_app(w)) || names_editor(lower_binary(w))
}

/// A window of Kitty, by its application or by the file that it runs.
pub open spec fn is_kitty(w: RuntimeView) -> bool {
    text::has_part(lower_app(w), "kitty"@) || (binary_of(w) is Some && lower_binary(w) == "kitty"@)
}

/// The application of Visual Studio Code.
pub open spec fn names_code(s: Seq<char>) -> bool {
    s == "code"@ || text::has_part(s, "visual-studio-code"@)
}

/// The file that the process of a window runs.
pub fn process_binary_name(window: &RuntimeWindow) -> (out: Option<String>)
    ensures
        text::opt_text(out) == binary_of(window@),
{
    match &window.process_exe {
        Some(exe) => name_of_file(exe.as_str()),
        None => None,
    }
}

fn lowered(o: &Option<String>) -> (out: String)
    ensures
        out@ == text::lower_text(apps::or_empty(text::opt_text(*o))),
{
    match o {
        Some(s) => ascii_lowercase(s.as_str()),
        None => {
            let out = String::new();
            assert(out@ =~= text::lower_text(Seq::<char>::empty()));
            out
        },
    }
}

fn terminal_name(s: &str) -> (out: bool)
    ensures
        out == names_terminal(s@),
{
    contains(s, "kitty") || contains(s, "alacritty") || contains(s, "wezterm") || str_eq(s, "foot")
        || contains(s, "konsole") || contains(s, "terminal")
}

fn browser_name(s: &str) -> (out: bool)
    ensures
        out == names_browser(s@),
{
    contains(s, "chrome") || contains(s, "chromium") || contains(s, "firefox") || contains(
        s,
        "brave",
    ) || contains(s, "vivaldi")
}

fn editor_name(s: &str) -> (out: bool)
    ensures
        out == names_editor(s@),
{
    str_eq(s, "code") || contains(s, "codium") || contains(s, "visual-studio-code") || contains(
        s,
        "zed",
    ) || contains(s, "rustrover") || contains(s, "clion") || contains(s, "pycharm") || contains(
        s,
        "intellij",
    ) || contains(s, "idea")
}

pub fn is_terminal_window(window: &RuntimeWindow) -> (out: bool)
    ensures
        out == is_terminal(window@),
{
    terminal_name(lowered(&window.app_id).as_str()) || terminal_name(
        lowered(&process_binary_name(window)).as_str(),
    )
}

pub fn is_browser_window(window: &RuntimeWindow) -> (out: bool)
    ensures
        out == is_browser(window@),
{
    browser_name(lowered(&window.app_id).as_str()) || browser_name(
        lowered(&process_binary_name(window)).as_str(),
    )
}

pub fn is_project_editor_window(window: &RuntimeWindow) -> (out: bool)
    ensures
        out == is_project_editor(window@),
{
    editor_name(lowered(&window.app_id).as_str()) || editor_name(
        lowered(&process_binary_name(window)).as_str(),
    )
}

pub fn is_kitty_window(window: &RuntimeWindow) -> (out: bool)
    ensures
        out == is_kitty(window@),
{
    if contains(lowered(&window.app_id).as_str(), "kitty") {
        return true;
    }
    let binary: Option<String> = process_binary_name(window);
    binary.is_some() && str_eq(lowered(&binary).as_str(), "kitty")
}

// Projects

/// A path as the file system knows it, or as it was written where it does not.
pub open spec fn settled_path(written: Seq<char>, canonical: Option<Seq<char>>) -> Seq<char> {
    match canonical {
        Some(p) => p,
        None => written,
    }
}

/// Word `i` of the command line names a directory to open: it is one, and not an
/// option, unless the word before it asks for a window to open it in.
pub open spec fn opens_directory(args: Seq<ArgView>, i: int) -> bool {
    args[i].is_dir && (!"-"@.is_prefix_of(args[i].text) || (i >= 2 && is_window_option(
        args[i - 1].text,
    )))
}

pub open spec fn is_window_option(s: Seq<char>) -> bool {
    s == "--new-window"@ || s == "--reuse-window"@ || s == "-n"@ || s == "-r"@
}

pub open spec fn opened_at(args: Seq<ArgView>) -> spec_fn(int) -> Option<Seq<char>> {
    |i: int|
        if i >= 1 && opens_directory(args, i) {
            Some(settled_path(args[i].text, args[i].canonical))
        } else {
            None
        }
}

/// The directory that an editor was started with: the first that its command line
/// opens, behind the program itself.
pub open spec fn opened_project(w: RuntimeView, p: ProcessView) -> Option<Seq<char>> {
    if w.pid is Some {
        lists::first_given(p.args.len(), opened_at(p.args))
    } else {
        None
    }
}

fn window_option(s: &str) -> (out: bool)
    ensures
        out == is_window_option(s@),
{
    str_eq(s, "--new-window") || str_eq(s, "--reuse-window") || str_eq(s, "-n") || str_eq(s, "-r")
}

fn settle(written: &String, canonical: &Option<String>) -> (out: String)
    ensures
        out@ == settled_path(written@, text::opt_text(*canonical)),
{
    match canonical {
        Some(p) => p.clone(),
        None => written.clone(),
    }
}

/// The directory that an editor was started with.
pub fn code_project_path(window: &RuntimeWindow, facts: &ProcessFacts) -> (out: Option<String>)
    ensures
        text::opt_text(out) == opened_project(window@, facts@),
{
    if window.pid.is_none() {
        return None;
    }
    let ghost args = facts@.args;
    let ghost f = opened_at(args);
    for i in 0..facts.args.len()
        invariant
            args == facts@.args,
            f == opened_at(args),
            window.pid is Some,
            forall|k: int| 0 <= k < i ==> (#[trigger] f(k)) is None,
    {
        assert(args[i as int] == facts.args@[i as int]@);
        assert(i >= 1 ==> args[i - 1] == facts.args@[i - 1]@);
        let ghost given = f(i as int);
        let arg: &ArgFacts = &facts.args[i];
        if i >= 1 && arg.is_dir && (!starts_with(arg.text.as_str(), "-") || (i >= 2 && window_option(
            facts.args[i - 1].text.as_str(),
        ))) {
            proof {
                lists::first_given_is(args.len(), f, i as int);
            }
            return Some(settle(&arg.text, &arg.canonical));
        }
        assert(given is None);
    }
    proof {
        lists::first_given_none(args.len(), f);
    }
    None
}

/// Word `i` of the command line is a path in the project.
pub open spec fn argument_in(args: Seq<ArgView>, root: Seq<char>, i: int) -> bool {
    !"-"@.is_prefix_of(args[i].text) && paths::is_absolute(args[i].text) && paths::is_within(
        settled_path(args[i].text, args[i].canonical),
        root,
    )
}

/// The executable of a window's process, or a word of its command line, lies in
/// the project.
pub open spec fn refers_to(w: RuntimeView, p: ProcessView, root: Seq<char>) -> bool {
    ||| w.process_exe is Some && paths::is_within(
        settled_path(w.process_exe->0, p.exe_canonical),
        root,
    )
    ||| w.pid is Some && exists|i: int|
        0 <= i < p.args.len() && #[trigger] argument_in(p.args, root, i)
}

/// Whether the executable of a window's process, or a word of its command line,
/// lies in the project.
pub fn process_references_project(window: &RuntimeWindow, facts: &ProcessFacts, root: &str) -> (out:
    bool)
    ensures
        out == refers_to(window@, facts@, root@),
{
    if let Some(exe) = &window.process_exe {
        if within(settle(exe, &facts.exe_canonical).as_str(), root) {
            return true;
        }
    }
    if window.pid.is_none() {
        return false;
    }
    let ghost args = facts@.args;
    for i in 0..facts.args.len()
        invariant
            args == facts@.args,
            window.pid is Some,
            forall|k: int| 0 <= k < i ==> !#[trigger] argument_in(args, root@, k),
    {
        assert(args[i as int] == facts.args@[i as int]@);
        let arg: &ArgFacts = &facts.args[i];
        if !starts_with(arg.text.as_str(), "-") && absolute(arg.text.as_str()) && within(
            settle(&arg.text, &arg.canonical).as_str(),
            root,
        ) {
            assert(argument_in(args, root@, i as int));
            return true;
        }
    }
    false
}

/// The working directory of a window's process lies in the project.
pub open spec fn works_in(w: RuntimeView, p: ProcessView, root: Seq<char>) -> bool {
    w.cwd is Some && paths::is_within(settled_path(w.cwd->0, p.cwd_canonical), root)
}

pub fn cwd_is_within_project(window: &RuntimeWindow, facts: &ProcessFacts, root: &str) -> (out: bool)
    ensures
        out == works_in(window@, facts@, root@),
{
    match &window.cwd {
        Some(cwd) => within(settle(cwd, &facts.cwd_canonical).as_str(), root),
        None => false,
    }
}

// Command lines of processes

pub open spec fn word_at(parts: Seq<Seq<u8>>) -> spec_fn(int) -> Option<Seq<char>> {
    |i: int|
        if parts[i].len() > 0 {
            Some(outside::lossy_text(parts[i]))
        } else {
            None
        }
}

/// What stands between the zero bytes of a command line.
pub open spec fn raw_words(bytes: Seq<u8>) -> Seq<Seq<char>> {
    let parts = text::split(bytes, 0u8);
    lists::gather(parts.len(), word_at(parts))
}

pub open spec fn has_white(s: Seq<char>) -> bool {
    exists|i: int| 0 <= i < s.len() && text::is_white(#[trigger] s[i])
}

/// The words of a command line. A process that has written its command line over
/// with a single text has that text taken apart, where it can be.
pub open spec fn command_words(words: Seq<Seq<char>>, split: Option<Seq<Seq<char>>>) -> Seq<Seq<char>> {
    if words.len() == 1 && has_white(words[0]) && split is Some {
        split->0
    } else {
        words
    }
}

fn holds_white(s: &str) -> (out: bool)
    ensures
        out == has_white(s@),
{
    let cs: Vec<char> = chars_of(s);
    for i in 0..cs.len()
        invariant
            cs@ == s@,
            forall|k: int| 0 <= k < i ==> !text::is_white(#[trigger] s@[k]),
    {
        if char_is_white(cs[i]) {
            assert(text::is_white(s@[i as int]));
            return true;
        }
    }
    false
}

/// What stands between the zero bytes of a command line.
fn zero_separated(bytes: &[u8]) -> (out: Vec<String>)
    ensures
        text::texts(out@) == raw_words(bytes@),
{
    let ghost parts = text::split(bytes@, 0u8);
    let ghost f = word_at(parts);
    let mut out: Vec<String> = Vec::new();
    let mut piece: Vec<u8> = Vec::new();
    let ghost mut done: Seq<Seq<u8>> = Seq::empty();
    assert(text::texts(out@) =~= lists::gather(0, word_at(done)));
    assert(done.push(piece@) =~= text::split(bytes@.take(0), 0u8));
    for i in 0..bytes.len()
        invariant
            done.push(piece@) == text::split(bytes@.take(i as int), 0u8),
            text::texts(out@) == lists::gather(done.len(), word_at(done)),
    {
        let ghost before = text::split(bytes@.take(i as int), 0u8);
        assert(bytes@.take(i + 1).drop_last() =~= bytes@.take(i as int));
        assert(before.drop_last() =~= done);
        assert(before.last() == piece@);
        if bytes[i] == 0 {
            let ghost words = out@;
            if piece.len() > 0 {
                out.push(text_of_bytes(piece.as_slice()));
            }
            proof {
                let more = done.push(piece@);
                lists::gather_agrees(done.len(), word_at(done), word_at(more));
                assert(word_at(more)(done.len() as int) == if piece@.len() > 0 {
                    Some(outside::lossy_text(piece@))
                } else {
                    None
                });
                if piece@.len() > 0 {
                    assert(text::texts(out@) =~= text::texts(words).push(
                        outside::lossy_text(piece@),
                    ));
                }
                done = more;
            }
            piece = Vec::new();
            assert(piece@ =~= Seq::<u8>::empty());
            assert(done.push(piece@) =~= text::split(bytes@.take(i + 1), 0u8));
        } else {
            piece.push(bytes[i]);
            assert(done.push(piece@) =~= text::split(bytes@.take(i + 1), 0u8));
        }
    }
    assert(bytes@.take(bytes@.len() as int) =~= bytes@);
    let ghost words = out@;
    if piece.len() > 0 {
        out.push(text_of_bytes(piece.as_slice()));
    }
    proof {
        let more = done.push(piece@);
        lists::gather_agrees(done.len(), word_at(done), word_at(more));
        assert(word_at(more)(done.len() as int) == if piece@.len() > 0 {
            Some(outside::lossy_text(piece@))
        } else {
            None
        });
        if piece@.len() > 0 {
            assert(text::texts(out@) =~= text::texts(words).push(outside::lossy_text(piece@)));
        }
    }
    out
}

/// The words of a command line, given those between its zero bytes and what a
/// shell would make of a single one.
pub fn choose_words(words: Vec<String>, split: Option<Vec<String>>) -> (out: Vec<String>)
    ensures
        text::texts(out@) == command_words(text::texts(words@), outside::opt_texts(split)),
{
    assert(words@.len() > 0 ==> text::texts(words@)[0] == words@[0]@);
    if words.len() == 1 && holds_white(words[0].as_str()) {
        match split {
            Some(parts) => parts,
            None => words,
        }
    } else {
        words
    }
}

/// The words of a process's command line, as the system gives it: with a zero
/// byte behind each.
pub fn decode_process_command_line(bytes: &[u8]) -> (out: Vec<String>)
    ensures
        ({
            let words = raw_words(bytes@);
            text::texts(out@) == command_words(
                words,
                if words.len() == 1 {
                    outside::shell_words(words[0])
                } else {
                    None
                },
            )
        }),
{
    let words: Vec<String> = zero_separated(bytes);
    let split: Option<Vec<String>> = if words.len() == 1 {
        assert(text::texts(words@)[0] == words@[0]@);
        split_words(words[0].as_str())
    } else {
        None
    };
    choose_words(words, split)
}

// Starting a window again

/// The command of an installed application, or another where it is not known.
pub open spec fn base_command(app: Option<AppView>, otherwise: Seq<Seq<char>>) -> Seq<Seq<char>> {
    match app {
        Some(a) => a.command,
        None => otherwise,
    }
}

/// How a Kitty window is started again: with its class, its title and its working
/// directory.
pub open spec fn kitty_command(w: RuntimeView, app: Option<AppView>) -> Seq<Seq<char>> {
    base_command(app, seq!["kitty"@]) + (if lower_app(w) != "kitty"@ && w.app_id is Some
        && w.app_id->0.len() > 0 {
        seq!["--class"@, w.app_id->0]
    } else {
        Seq::empty()
    }) + (if w.title is Some && w.title->0.len() > 0 {
        seq!["--title"@, w.title->0]
    } else {
        Seq::empty()
    }) + (match w.cwd {
        Some(cwd) => seq!["--directory"@, cwd],
        None => Seq::empty(),
    })
}

/// How an editor is started again: with the directory that it was started with,
/// or else the one that it works in, unless that is the user's home.
pub open spec fn code_command(
    w: RuntimeView,
    p: ProcessView,
    app: Option<AppView>,
    home: Option<Seq<char>>,
) -> Seq<Seq<char>> {
    let project = if opened_project(w, p) is Some {
        opened_project(w, p)
    } else {
        w.cwd
    };
    base_command(app, seq!["code"@]).push("--new-window"@) + (if project is Some && project != home {
        seq![project->0]
    } else {
        Seq::empty()
    })
}

/// The browser to start where the window's application is not known.
pub open spec fn found_browser(programs: Programs) -> Seq<Seq<char>> {
    if programs.flatpak {
        seq!["flatpak"@, "run"@, "com.google.Chrome"@]
    } else if programs.google_chrome_stable {
        seq!["google-chrome-stable"@]
    } else if programs.google_chrome {
        seq!["google-chrome"@]
    } else if programs.chromium {
        seq!["chromium"@]
    } else {
        Seq::empty()
    }
}

/// How a Chrome window is started again: with its profile and the page it shows.
pub open spec fn chrome_command(p: ProcessView, app: Option<AppView>, programs: Programs) -> Seq<
    Seq<char>,
> {
    let base = base_command(app, found_browser(programs));
    if base.len() == 0 {
        base
    } else {
        base.push("--new-window"@) + (match p.profile {
            Some(profile) => seq!["--profile-directory="@ + profile],
            None => Seq::empty(),
        }) + (match p.url {
            Some(url) => seq![url],
            None => Seq::empty(),
        })
    }
}

/// How a window is started again, as far as that can be told.
pub open spec fn start_command(
    w: RuntimeView,
    p: ProcessView,
    installed: Seq<AppView>,
    programs: Programs,
) -> Seq<Seq<char>> {
    let name = lower_app(w);
    let app = apps::best_app(installed, name);
    if is_kitty(w) {
        kitty_command(w, app)
    } else if names_code(name) {
        code_command(w, p, app, text::opt_text(programs.home))
    } else if text::has_part(name, "chrome"@) || text::has_part(name, "chromium"@) {
        chrome_command(p, app, programs)
    } else if app is Some {
        app->0.command
    } else if text::has_part(name, "firefox"@) && programs.firefox {
        seq!["firefox"@]
    } else if w.process_exe is Some && paths::is_absolute(w.process_exe->0) && p.exe_exists {
        seq![w.process_exe->0]
    } else {
        Seq::empty()
    }
}

pub open spec fn app_view(app: Option<&InstalledApp>) -> Option<AppView> {
    match app {
        Some(a) => Some(a@),
        None => None,
    }
}

fn one_word(word: &str) -> (out: Vec<String>)
    ensures
        text::texts(out@) == seq![word@],
{
    let mut out: Vec<String> = Vec::new();
    out.push(word.to_owned());
    assert(text::texts(out@) =~= seq![word@]);
    out
}

fn push_word(words: &mut Vec<String>, word: &str)
    ensures
        text::texts(final(words)@) == text::texts(old(words)@).push(word@),
{
    words.push(word.to_owned());
    assert(text::texts(words@) =~= text::texts(old(words)@).push(word@));
}

fn known_or(app: Option<&InstalledApp>, otherwise: Vec<String>) -> (out: Vec<String>)
    ensures
        text::texts(out@) == base_command(app_view(app), text::texts(otherwise@)),
{
    match app {
        Some(a) => copy_list(&a.command),
        None => otherwise,
    }
}

fn start_kitty(window: &RuntimeWindow, app: Option<&InstalledApp>) -> (out: Vec<String>)
    ensures
        text::texts(out@) == kitty_command(window@, app_view(app)),
{
    let mut out: Vec<String> = known_or(app, one_word("kitty"));
    let ghost a = text::texts(out@);
    let name: String = lowered(&window.app_id);
    if !str_eq(name.as_str(), "kitty") {
        if let Some(app_id) = &window.app_id {
            if !app_id.as_str().is_empty() {
                push_word(&mut out, "--class");
                push_word(&mut out, app_id.as_str());
            }
        }
    }
    let ghost b = text::texts(out@);
    assert(b =~= a + (if lower_app(window@) != "kitty"@ && window@.app_id is Some
        && window@.app_id->0.len() > 0 {
        seq!["--class"@, window@.app_id->0]
    } else {
        Seq::empty()
    }));
    if let Some(title) = &window.title {
        if !title.as_str().is_empty() {
            push_word(&mut out, "--title");
            push_word(&mut out, title.as_str());
        }
    }
    let ghost c = text::texts(out@);
    assert(c =~= b + (if window@.title is Some && window@.title->0.len() > 0 {
        seq!["--title"@, window@.title->0]
    } else {
        Seq::empty()
    }));
    if let Some(cwd) = &window.cwd {
        push_word(&mut out, "--directory");
        push_word(&mut out, cwd.as_str());
    }
    assert(text::texts(out@) =~= c + (match window@.cwd {
        Some(cwd) => seq!["--directory"@, cwd],
        None => Seq::empty(),
    }));
    out
}

fn start_code(
    window: &RuntimeWindow,
    facts: &ProcessFacts,
    app: Option<&InstalledApp>,
    home: &Option<String>,
) -> (out: Vec<String>)
    ensures
        text::texts(out@) == code_command(window@, facts@, app_view(app), text::opt_text(*home)),
{
    let mut out: Vec<String> = known_or(app, one_word("code"));
    push_word(&mut out, "--new-window");
    let ghost a = text::texts(out@);
    let project: Option<String> = match code_project_path(window, facts) {
        Some(p) => Some(p),
        None => copy_opt(&window.cwd),
    };
    if let Some(p) = &project {
        if !opt_is(home, p.as_str()) {
            push_word(&mut out, p.as_str());
        }
    }
    assert(text::texts(out@) =~= a + (if text::opt_text(project) is Some && text::opt_text(project)
        != text::opt_text(*home) {
        seq![text::opt_text(project)->0]
    } else {
        Seq::empty()
    }));
    out
}

fn find_browser(programs: &Programs) -> (out: Vec<String>)
    ensures
        text::texts(out@) == found_browser(*programs),
{
    if programs.flatpak {
        let mut out: Vec<String> = one_word("flatpak");
        push_word(&mut out, "run");
        push_word(&mut out, "com.google.Chrome");
        assert(text::texts(out@) =~= seq!["flatpak"@, "run"@, "com.google.Chrome"@]);
        out
    } else if programs.google_chrome_stable {
        one_word("google-chrome-stable")
    } else if programs.google_chrome {
        one_word("google-chrome")
    } else if programs.chromium {
        one_word("chromium")
    } else {
        let out: Vec<String> = Vec::new();
        assert(text::texts(out@) =~= Seq::empty());
        out
    }
}

/// How a Chrome window is started again.
pub fn infer_chrome_command(
    facts: &ProcessFacts,
    app: Option<&InstalledApp>,
    programs: &Programs,
) -> (out: Vec<String>)
    ensures
        text::texts(out@) == chrome_command(facts@, app_view(app), *programs),
{
    let mut out: Vec<String> = known_or(app, find_browser(programs));
    if out.len() == 0 {
        return out;
    }
    push_word(&mut out, "--new-window");
    let ghost a = text::texts(out@);
    if let Some(profile) = &facts.profile {
        let mut word: String = "--profile-directory=".to_owned();
        word.append(profile.as_str());
        push_word(&mut out, word.as_str());
    }
    let ghost b = text::texts(out@);
    assert(b =~= a + (match facts@.profile {
        Some(profile) => seq!["--profile-directory="@ + profile],
        None => Seq::empty(),
    }));
    if let Some(url) = &facts.url {
        push_word(&mut out, url.as_str());
    }
    assert(text::texts(out@) =~= b + (match facts@.url {
        Some(url) => seq![url],
        None => Seq::empty(),
    }));
    out
}

/// How a window is started again, as far as that can be told.
pub fn infer_command(
    window: &RuntimeWindow,
    facts: &ProcessFacts,
    installed_apps: &[InstalledApp],
    programs: &Programs,
) -> (out: Vec<String>)
    ensures
        text::texts(out@) == start_command(
            window@,
            facts@,
            apps::app_views(installed_apps@),
            *programs,
        ),
        launch_laws::restores(
            window@,
            facts@,
            apps::app_views(installed_apps@),
            *programs,
            text::texts(out@),
        ),
{
    proof {
        launch_laws::windows_come_back_as_they_were(
            window@,
            facts@,
            apps::app_views(installed_apps@),
            *programs,
        );
    }
    let name: String = lowered(&window.app_id);
    let app: Option<&InstalledApp> = resolve_installed_app_from(installed_apps, name.as_str());
    if is_kitty_window(window) {
        return start_kitty(window, app);
    }
    if str_eq(name.as_str(), "code") || contains(name.as_str(), "visual-studio-code") {
        return start_code(window, facts, app, &programs.home);
    }
    if contains(name.as_str(), "chrome") || contains(name.as_str(), "chromium") {
        return infer_chrome_command(facts, app, programs);
    }
    if let Some(a) = app {
        return copy_list(&a.command);
    }
    if contains(name.as_str(), "firefox") && programs.firefox {
        return one_word("firefox");
    }
    if let Some(exe) = &window.process_exe {
        if absolute(exe.as_str()) && facts.exe_exists {
            return one_word(exe.as_str());
        }
    }
    let out: Vec<String> = Vec::new();
    assert(text::texts(out@) =~= Seq::empty());
    out
}

// The browser's profile and page

/// A place where a browser may keep its data. One that its command line names has
/// to exist; one of the usual places has to be a directory.
#[derive(Debug, PartialEq, Eq)]
pub struct DataRoot {
    pub path: String,
    pub usual: bool,
}

#[verifier::ext_equal]
pub struct DataRootView {
    pub path: Seq<char>,
    pub usual: bool,
}

impl View for DataRoot {
    type V = DataRootView;

    open spec fn view(&self) -> DataRootView {
        DataRootView { path: self.path@, usual: self.usual }
    }
}

pub open spec fn root_views(v: Seq<DataRoot>) -> Seq<DataRootView> {
    v.map_values(|r: DataRoot| r@)
}

/// The absolute path behind `--user-data-dir=`.
pub open spec fn named_root(args: Seq<Seq<char>>) -> spec_fn(int) -> Option<DataRootView> {
    |i: int|
        {
            let path = args[i].skip("--user-data-dir="@.len() as int);
            if "--user-data-dir="@.is_prefix_of(args[i]) && paths::is_absolute(path) {
                Some(DataRootView { path, usual: false })
            } else {
                None
            }
        }
}

/// The places where a browser usually keeps its data.
pub open spec fn usual_roots(home: Option<Seq<char>>, flatpak: Option<Seq<char>>) -> Seq<DataRootView> {
    match home {
        Some(h) => (match flatpak {
            Some(id) => seq![
                DataRootView {
                    path: paths::join_path(
                        paths::join_path(paths::join_path(h, ".var/app"@), id),
                        "config/google-chrome"@,
                    ),
                    usual: true,
                },
            ],
            None => Seq::empty(),
        }) + seq![
            DataRootView { path: paths::join_path(h, ".config/google-chrome"@), usual: true },
            DataRootView { path: paths::join_path(h, ".config/chromium"@), usual: true },
        ],
        None => Seq::empty(),
    }
}

/// The places where a browser may keep its data; the first that is there counts.
pub fn chrome_user_data_roots(
    args: &Vec<String>,
    home: &Option<String>,
    flatpak_id: &Option<String>,
) -> (out: Vec<DataRoot>)
    ensures
        root_views(out@) == lists::gather(args@.len(), named_root(text::texts(args@)))
            + usual_roots(text::opt_text(*home), text::opt_text(*flatpak_id)),
{
    let ghost words = text::texts(args@);
    let ghost f = named_root(words);
    let mut out: Vec<DataRoot> = Vec::new();
    assert(root_views(out@) =~= lists::gather(0, f));
    for i in 0..args.len()
        invariant
            words == text::texts(args@),
            f == named_root(words),
            root_views(out@) == lists::gather(i as nat, f),
    {
        let ghost before = out@;
        let ghost given = f(i as int);
        assert(words[i as int] == args@[i as int]@);
        if let Some(path) = strip_prefix(args[i].as_str(), "--user-data-dir=") {
            if absolute(path) {
                out.push(DataRoot { path: path.to_owned(), usual: false });
                assert(root_views(out@) =~= root_views(before).push(given->0));
            }
        }
    }
    let ghost named = root_views(out@);
    if let Some(h) = home {
        if let Some(id) = flatpak_id {
            let apps: String = paths::join(h.as_str(), ".var/app");
            let app: String = paths::join(apps.as_str(), id.as_str());
            out.push(
                DataRoot { path: paths::join(app.as_str(), "config/google-chrome"), usual: true },
            );
        }
        out.push(
            DataRoot { path: paths::join(h.as_str(), ".config/google-chrome"), usual: true },
        );
        out.push(DataRoot { path: paths::join(h.as_str(), ".config/chromium"), usual: true });
    }
    assert(root_views(out@) =~= named + usual_roots(
        text::opt_text(*home),
        text::opt_text(*flatpak_id),
    ));
    out
}

/// The profile that word `i` of a command line names.
pub open spec fn named_profile(args: Seq<Seq<char>>) -> spec_fn(int) -> Option<Seq<char>> {
    |i: int|
        {
            let profile = args[i].skip("--profile-directory="@.len() as int);
            if "--profile-directory="@.is_prefix_of(args[i]) && !text::is_blank(profile) {
                Some(profile)
            } else {
                None
            }
        }
}

/// The profile of a browser: the one that its command line names, or else the one
/// that was used last.
pub open spec fn profile_of(args: Seq<Seq<char>>, last_used: Option<Seq<char>>) -> Option<Seq<char>> {
    if lists::first_given(args.len(), named_profile(args)) is Some {
        lists::first_given(args.len(), named_profile(args))
    } else if last_used is Some && !text::is_blank(last_used->0) {
        last_used
    } else {
        None
    }
}

/// The profile that was used last, by the browser's own record.
pub open spec fn last_profile(local_state: Option<Seq<char>>) -> Option<Seq<char>> {
    match local_state {
        Some(contents) => outside::json_text(contents, "/profile/last_used"@),
        None => None,
    }
}

/// Chooses between the profile that the command line names and `last_used`.
pub fn choose_profile(args: &Vec<String>, last_used: Option<String>) -> (out: Option<String>)
    ensures
        text::opt_text(out) == profile_of(text::texts(args@), text::opt_text(last_used)),
{
    let ghost words = text::texts(args@);
    let ghost f = named_profile(words);
    for i in 0..args.len()
        invariant
            words == text::texts(args@),
            f == named_profile(words),
            forall|k: int| 0 <= k < i ==> (#[trigger] f(k)) is None,
    {
        let ghost given = f(i as int);
        assert(words[i as int] == args@[i as int]@);
        if let Some(profile) = strip_prefix(args[i].as_str(), "--profile-directory=") {
            if !blank(profile) {
                proof {
                    lists::first_given_is(words.len(), f, i as int);
                }
                return Some(profile.to_owned());
            }
        }
        assert(given is None);
    }
    proof {
        lists::first_given_none(words.len(), f);
    }
    match last_used {
        Some(profile) => if blank(profile.as_str()) {
            None
        } else {
            Some(profile)
        },
        None => None,
    }
}

/// The profile of a browser. `local_state` is what its record of profiles holds,
/// where it could be read.
pub fn chrome_profile_directory(args: &Vec<String>, local_state: Option<&str>) -> (out: Option<
    String,
>)
    ensures
        text::opt_text(out) == profile_of(
            text::texts(args@),
            last_profile(
                match local_state {
                    Some(s) => Some(s@),
                    None => None,
                },
            ),
        ),
{
    let last_used: Option<String> = match local_state {
        Some(contents) => json_text_at(contents, "/profile/last_used"),
        None => None,
    };
    choose_profile(args, last_used)
}

/// The title of the page that a browser window shows, if there is anything left
/// of it without the name of the browser.
pub open spec fn page_title(title: Seq<char>) -> Seq<char> {
    text::trimmed(
        if " - Google Chrome"@.is_suffix_of(title) {
            title.take(title.len() - " - Google Chrome"@.len())
        } else if " - Chromium"@.is_suffix_of(title) {
            title.take(title.len() - " - Chromium"@.len())
        } else {
            title
        },
    )
}

/// The title of the page that a browser window shows.
pub fn history_title(title: &str) -> (out: Option<String>)
    ensures
        match out {
            Some(t) => page_title(title@).len() > 0 && t@ == page_title(title@),
            None => page_title(title@).len() == 0,
        },
{
    let page: &str = match strip_suffix(title, " - Google Chrome") {
        Some(rest) => rest,
        None => match strip_suffix(title, " - Chromium") {
            Some(rest) => rest,
            None => title,
        },
    };
    let page: &str = trim(page);
    if page.is_empty() {
        None
    } else {
        Some(page.to_owned())
    }
}

/// A text with each single quote doubled, as SQL wants it between quotes.
pub open spec fn sql_quoted(s: Seq<char>) -> Seq<char>
    decreases s.len(),
{
    if s.len() == 0 {
        Seq::empty()
    } else if s.last() == '\'' {
        sql_quoted(s.drop_last()).push('\'').push('\'')
    } else {
        sql_quoted(s.drop_last()).push(s.last())
    }
}

/// The query for the page of this title that was visited last.
pub fn history_query(title: &str) -> (out: String)
    ensures
        out@ == "SELECT url FROM urls WHERE title='"@ + sql_quoted(title@)
            + "' ORDER BY last_visit_time DESC LIMIT 1;"@,
{
    let cs: Vec<char> = chars_of(title);
    let mut out: String = "SELECT url FROM urls WHERE title='".to_owned();
    let ghost head = out@;
    assert(out@ =~= head + sql_quoted(title@.take(0)));
    for i in 0..cs.len()
        invariant
            cs@ == title@,
            out@ == head + sql_quoted(title@.take(i as int)),
    {
        assert(title@.take(i + 1).drop_last() =~= title@.take(i as int));
        if cs[i] == '\'' {
            out.push('\'');
        }
        out.push(cs[i]);
        assert(out@ =~= head + sql_quoted(title@.take(i + 1)));
    }
    assert(title@.take(title@.len() as int) =~= title@);
    out.append("' ORDER BY last_visit_time DESC LIMIT 1;");
    out
}

/// A page that can be opened again.
pub open spec fn is_page(url: Seq<char>) -> bool {
    "http://"@.is_prefix_of(url) || "https://"@.is_prefix_of(url)
}

/// The page that a query came back with, if it can be opened again.
pub fn accepted_url(answer: &str) -> (out: Option<String>)
    ensures
        text::opt_text(out) == if is_page(text::trimmed(answer@)) {
            Some(text::trimmed(answer@))
        } else {
            None
        },
{
    let url: &str = trim(answer);
    if starts_with(url, "http://") || starts_with(url, "https://") {
        Some(url.to_owned())
    } else {
        None
    }
}

// Projects

/// The files that mark the directory of a project.
pub open spec fn markers() -> Seq<Seq<char>> {
    seq![".git"@, "Cargo.toml"@, "package.json"@, "pyproject.toml"@, "go.mod"@]
}

/// The files that mark the directory of a project.
pub fn project_markers() -> (out: Vec<&'static str>)
    ensures
        out@.map_values(|s: &'static str| s@) == markers(),
{
    let mut out: Vec<&'static str> = Vec::new();
    out.push(".git");
    out.push("Cargo.toml");
    out.push("package.json");
    out.push("pyproject.toml");
    out.push("go.mod");
    assert(out@.map_values(|s: &'static str| s@) =~= markers());
    out
}

/// A directory on the way up from a working directory: whether a project is marked
/// there, and the path without links, where there is one.
#[derive(Debug, PartialEq, Eq)]
pub struct Ancestor {
    pub path: String,
    pub marked: bool,
    pub canonical: Option<String>,
}

pub struct AncestorView {
    pub path: Seq<char>,
    pub marked: bool,
    pub canonical: Option<Seq<char>>,
}

impl View for Ancestor {
    type V = AncestorView;

    open spec fn view(&self) -> AncestorView {
        AncestorView {
            path: self.path@,
            marked: self.marked,
            canonical: text::opt_text(self.canonical),
        }
    }
}

pub open spec fn ancestor_views(v: Seq<Ancestor>) -> Seq<AncestorView> {
    v.map_values(|a: Ancestor| a@)
}

pub open spec fn is_marked() -> spec_fn(AncestorView) -> bool {
    |a: AncestorView| a.marked
}

/// The directory of the project: the first on the way up that is marked.
pub open spec fn project_of(ancestors: Seq<AncestorView>) -> Option<Seq<char>> {
    match lists::find(ancestors, is_marked()) {
        Some(a) => Some(
            match a.canonical {
                Some(path) => path,
                None => a.path,
            },
        ),
        None => None,
    }
}

/// The directory of the project that a working directory belongs to. `ancestors`
/// leads up from it.
pub fn project_root_from_cwd(ancestors: &Vec<Ancestor>) -> (out: Option<String>)
    ensures
        text::opt_text(out) == project_of(ancestor_views(ancestors@)),
{
    let ghost views = ancestor_views(ancestors@);
    for i in 0..ancestors.len()
        invariant
            views == ancestor_views(ancestors@),
            forall|k: int| 0 <= k < i ==> !is_marked()(#[trigger] views[k]),
    {
        assert(views[i as int] == ancestors@[i as int]@);
        if ancestors[i].marked {
            proof {
                lists::first_is(views, is_marked(), i as int);
            }
            return Some(
                match &ancestors[i].canonical {
                    Some(path) => path.clone(),
                    None => ancestors[i].path.clone(),
                },
            );
        }
    }
    proof {
        lists::first_is_none(views, is_marked());
    }
    None
}

} // verus!
