//! The applications that are installed, as their desktop entries describe them.
use crate::lists;
use crate::lists::sort_places;
use crate::outside;
use crate::outside::split_words;
use crate::paths;
use crate::paths::name_of_file;
use crate::text;
use crate::text::{
    ascii_lowercase, char_is_alnum, char_lower, chars_of, copy_list, copy_opt, find_char, lines_of,
    starts_with, str_eq, str_lt, trim,
};
use vstd::prelude::*;

verus! {

/// An installed application.
#[derive(Debug, PartialEq, Eq)]
pub struct InstalledApp {
    pub desktop_id: String,
    pub name: String,
    pub icon: Option<String>,
    pub startup_wm_class: Option<String>,
    pub flatpak_id: Option<String>,
    pub command: Vec<String>,
}

/// The model of an installed application.
#[verifier::ext_equal]
pub struct AppView {
    pub desktop_id: Seq<char>,
    pub name: Seq<char>,
    pub icon: Option<Seq<char>>,
    pub startup_wm_class: Option<Seq<char>>,
    pub flatpak_id: Option<Seq<char>>,
    pub command: Seq<Seq<char>>,
}

impl View for InstalledApp {
    type V = AppView;

    open spec fn view(&self) -> AppView {
        AppView {
            desktop_id: self.desktop_id@,
            name: self.name@,
            icon: text::opt_text(self.icon),
            startup_wm_class: text::opt_text(self.startup_wm_class),
            flatpak_id: text::opt_text(self.flatpak_id),
            command: text::texts(self.command@),
        }
    }
}

pub open spec fn app_views(v: Seq<InstalledApp>) -> Seq<AppView> {
    v.map_values(|a: InstalledApp| a@)
}

impl Clone for InstalledApp {
    fn clone(&self) -> (out: Self)
        ensures
            out@ == self@,
    {
        InstalledApp {
            desktop_id: self.desktop_id.clone(),
            name: self.name.clone(),
            icon: copy_opt(&self.icon),
            startup_wm_class: copy_opt(&self.startup_wm_class),
            flatpak_id: copy_opt(&self.flatpak_id),
            command: copy_list(&self.command),
        }
    }
}

// Reading a desktop entry

/// A line that begins a group.
pub open spec fn is_header(line: Seq<char>) -> bool {
    line.len() > 0 && line[0] == '[' && line.last() == ']'
}

/// Whether line `n` stands in the group of the desktop entry itself.
pub open spec fn in_entry(lines: Seq<Seq<char>>, n: nat) -> bool
    decreases n,
{
    if n == 0 {
        false
    } else if is_header(lines[n - 1]) {
        lines[n - 1] == "[Desktop Entry]"@
    } else {
        in_entry(lines, (n - 1) as nat)
    }
}

/// The key and the value on a line, if it gives one.
pub open spec fn pair_on(line: Seq<char>) -> Option<(Seq<char>, Seq<char>)> {
    if line.contains('=') {
        let at = line.index_of_first('=')->0;
        Some((line.take(at), line.skip(at + 1)))
    } else {
        None
    }
}

pub open spec fn pair_at(lines: Seq<Seq<char>>) -> spec_fn(int) -> Option<(Seq<char>, Seq<char>)> {
    |i: int|
        if is_header(lines[i]) || !in_entry(lines, i as nat) || lines[i].len() == 0 || lines[i][0]
            == '#' {
            None
        } else {
            pair_on(lines[i])
        }
}

/// The lines of a file, each without the white space around it.
pub open spec fn trimmed_lines(contents: Seq<char>) -> Seq<Seq<char>> {
    text::lines(contents).map_values(|line: Seq<char>| text::trimmed(line))
}

/// The keys and values of the desktop entry, in order.
pub open spec fn entry_pairs(contents: Seq<char>) -> Seq<(Seq<char>, Seq<char>)> {
    let lines = trimmed_lines(contents);
    lists::gather(lines.len(), pair_at(lines))
}

pub open spec fn keyed(key: Seq<char>) -> spec_fn((Seq<char>, Seq<char>)) -> bool {
    |p: (Seq<char>, Seq<char>)| p.0 == key
}

/// The value of a key: the first that is given counts.
pub open spec fn value_in(pairs: Seq<(Seq<char>, Seq<char>)>, key: Seq<char>) -> Option<Seq<char>> {
    match lists::find(pairs, keyed(key)) {
        Some(p) => Some(p.1),
        None => None,
    }
}

/// The value of a key without the white space around it, if anything is left.
pub open spec fn filled_value(pairs: Seq<(Seq<char>, Seq<char>)>, key: Seq<char>) -> Option<
    Seq<char>,
> {
    match value_in(pairs, key) {
        Some(v) => if text::trimmed(v).len() > 0 {
            Some(text::trimmed(v))
        } else {
            None
        },
        None => None,
    }
}

/// A percent sign that does not stand for itself: one without another behind it.
pub open spec fn has_field_code(s: Seq<char>) -> bool
    decreases s.len(),
{
    if s.len() == 0 {
        false
    } else if s[0] != '%' {
        has_field_code(s.skip(1))
    } else {
        s.len() == 1 || s[1] != '%' || has_field_code(s.skip(2))
    }
}

pub open spec fn is_launch_word(word: Seq<char>) -> bool {
    !"@@"@.is_prefix_of(word) && !has_field_code(word)
}

/// The words of a launch command without what stands for files and the like;
/// nothing where no word is left.
pub open spec fn launch_words(raw: Seq<char>) -> Option<Seq<Seq<char>>> {
    match outside::shell_words(raw) {
        Some(words) => kept_words(words),
        None => None,
    }
}

pub open spec fn kept_words(words: Seq<Seq<char>>) -> Option<Seq<Seq<char>>> {
    let kept = words.filter(|w: Seq<char>| is_launch_word(w));
    if kept.len() > 0 {
        Some(kept)
    } else {
        None
    }
}

/// The application that a desktop entry describes: one of the right type that is
/// to be shown, with a name and something to launch.
pub open spec fn app_of(desktop_id: Seq<char>, pairs: Seq<(Seq<char>, Seq<char>)>) -> Option<AppView> {
    let flatpak = filled_value(pairs, "X-Flatpak"@);
    if value_in(pairs, "Type"@) != Some("Application"@) || value_in(pairs, "Hidden"@) == Some(
        "true"@,
    ) || value_in(pairs, "NoDisplay"@) == Some("true"@) || value_in(pairs, "Name"@) is None
        || value_in(pairs, "Exec"@) is None {
        None
    } else {
        let command = if flatpak is Some {
            Some(seq!["flatpak"@, "run"@, flatpak->0])
        } else {
            launch_words(value_in(pairs, "Exec"@)->0)
        };
        match command {
            Some(words) => Some(
                AppView {
                    desktop_id,
                    name: text::trimmed(value_in(pairs, "Name"@)->0),
                    icon: filled_value(pairs, "Icon"@),
                    startup_wm_class: filled_value(pairs, "StartupWMClass"@),
                    flatpak_id: flatpak,
                    command: words,
                },
            ),
            None => None,
        }
    }
}

pub open spec fn pair_views(v: Seq<(String, String)>) -> Seq<(Seq<char>, Seq<char>)> {
    v.map_values(|p: (String, String)| (p.0@, p.1@))
}

/// What stands on a line before and behind its first equals sign.
fn split_pair(line: &str) -> (out: Option<(String, String)>)
    ensures
        match out {
            Some(p) => pair_on(line@) == Some((p.0@, p.1@)),
            None => pair_on(line@) is None,
        },
{
    match find_char(line, '=') {
        Some(at) => {
            let n: usize = line.unicode_len();
            proof {
                line@.index_of_first_ensures('=');
                let first = line@.index_of_first('=')->0;
                assert(line@[at as int] == '=');
                assert(line@.contains('='));
                if first < at {
                    assert(line@[first] != '=');
                } else if first > at {
                    assert(!line@.take(first).contains('='));
                    assert(line@.take(first)[at as int] == '=');
                }
            }
            let key: String = line.substring_char(0, at).to_owned();
            let value: String = line.substring_char(at + 1, n).to_owned();
            assert(key@ =~= line@.take(at as int));
            assert(value@ =~= line@.skip(at + 1));
            Some((key, value))
        },
        None => None,
    }
}

fn is_group_header(line: &str) -> (out: bool)
    ensures
        out == is_header(line@),
{
    let n: usize = line.unicode_len();
    n > 0 && line.get_char(0) == '[' && line.get_char(n - 1) == ']'
}

/// The keys and values of the desktop entry, in order.
fn read_pairs(contents: &str) -> (out: Vec<(String, String)>)
    ensures
        pair_views(out@) == entry_pairs(contents@),
{
    let raw: Vec<String> = lines_of(contents);
    let ghost lines = trimmed_lines(contents@);
    let ghost f = pair_at(lines);
    let mut inside: bool = false;
    let mut out: Vec<(String, String)> = Vec::new();
    assert(pair_views(out@) =~= lists::gather(0, f));
    for i in 0..raw.len()
        invariant
            text::texts(raw@) == text::lines(contents@),
            lines == trimmed_lines(contents@),
            f == pair_at(lines),
            inside == in_entry(lines, i as nat),
            pair_views(out@) == lists::gather(i as nat, f),
    {
        let ghost before = out@;
        let ghost given = f(i as int);
        assert(text::texts(raw@)[i as int] == raw@[i as int]@);
        let line: &str = trim(raw[i].as_str());
        assert(lines[i as int] == line@);
        if is_group_header(line) {
            inside = str_eq(line, "[Desktop Entry]");
        } else if inside && !line.is_empty() && line.get_char(0) != '#' {
            if let Some(pair) = split_pair(line) {
                out.push(pair);
                assert(pair_views(out@) =~= pair_views(before).push(given->0));
            }
        }
    }
    out
}

fn value_of<'a>(pairs: &'a Vec<(String, String)>, key: &str) -> (out: Option<&'a String>)
    ensures
        match out {
            Some(v) => value_in(pair_views(pairs@), key@) == Some(v@),
            None => value_in(pair_views(pairs@), key@) is None,
        },
{
    let ghost views = pair_views(pairs@);
    for i in 0..pairs.len()
        invariant
            views == pair_views(pairs@),
            forall|k: int| 0 <= k < i ==> !keyed(key@)(#[trigger] views[k]),
    {
        assert(views[i as int] == (pairs@[i as int].0@, pairs@[i as int].1@));
        if str_eq(pairs[i].0.as_str(), key) {
            proof {
                lists::first_is(views, keyed(key@), i as int);
            }
            return Some(&pairs[i].1);
        }
    }
    proof {
        lists::first_is_none(views, keyed(key@));
    }
    None
}

fn has_value(pairs: &Vec<(String, String)>, key: &str, value: &str) -> (out: bool)
    ensures
        out == (value_in(pair_views(pairs@), key@) == Some(value@)),
{
    match value_of(pairs, key) {
        Some(v) => str_eq(v.as_str(), value),
        None => false,
    }
}

fn filled(pairs: &Vec<(String, String)>, key: &str) -> (out: Option<String>)
    ensures
        text::opt_text(out) == filled_value(pair_views(pairs@), key@),
{
    match value_of(pairs, key) {
        Some(v) => {
            let value: &str = trim(v.as_str());
            if value.is_empty() {
                None
            } else {
                Some(value.to_owned())
            }
        },
        None => None,
    }
}

/// Whether a word holds a percent sign that does not stand for itself.
pub fn contains_desktop_field_code(value: &str) -> (out: bool)
    ensures
        out == has_field_code(value@),
{
    let cs: Vec<char> = chars_of(value);
    let mut i: usize = 0;
    assert(value@.skip(0) =~= value@);
    while i < cs.len()
        invariant
            cs@ == value@,
            i <= cs@.len(),
            has_field_code(value@) == has_field_code(value@.skip(i as int)),
        decreases cs@.len() - i,
    {
        let ghost rest = value@.skip(i as int);
        if cs[i] != '%' {
            assert(rest.skip(1) =~= value@.skip(i + 1));
            i = i + 1;
        } else {
            if i + 1 == cs.len() {
                return true;
            }
            if cs[i + 1] != '%' {
                return true;
            }
            assert(rest.skip(2) =~= value@.skip(i + 2));
            i = i + 2;
        }
    }
    false
}

/// The words that are left of a launch command taken apart.
pub fn keep_launch_words(words: &Vec<String>) -> (out: Option<Vec<String>>)
    ensures
        outside::opt_texts(out) == kept_words(text::texts(words@)),
{
    let ghost all = text::texts(words@);
    let ghost keep = |w: Seq<char>| is_launch_word(w);
    let mut kept: Vec<String> = Vec::new();
    proof {
        reveal(Seq::filter);
        assert(text::texts(kept@) =~= all.take(0).filter(keep));
    }
    for i in 0..words.len()
        invariant
            all == text::texts(words@),
            keep == (|w: Seq<char>| is_launch_word(w)),
            text::texts(kept@) == all.take(i as int).filter(keep),
    {
        let ghost before = kept@;
        assert(all[i as int] == words@[i as int]@);
        proof {
            reveal(Seq::filter);
            assert(all.take(i + 1).drop_last() =~= all.take(i as int));
        }
        if !starts_with(words[i].as_str(), "@@") && !contains_desktop_field_code(words[i].as_str()) {
            kept.push(words[i].clone());
            assert(text::texts(kept@) =~= text::texts(before).push(all[i as int]));
        }
    }
    assert(all.take(all.len() as int) =~= all);
    if kept.len() == 0 {
        None
    } else {
        Some(kept)
    }
}

/// The words of a launch command without what stands for files and the like.
pub fn desktop_exec_command(raw: &str) -> (out: Option<Vec<String>>)
    ensures
        outside::opt_texts(out) == launch_words(raw@),
{
    match split_words(raw) {
        Some(words) => keep_launch_words(&words),
        None => None,
    }
}

/// Reads a desktop entry.
pub fn parse_desktop_entry(desktop_id: &str, contents: &str) -> (out: Option<InstalledApp>)
    ensures
        match out {
            Some(app) => app_of(desktop_id@, entry_pairs(contents@)) == Some(app@),
            None => app_of(desktop_id@, entry_pairs(contents@)) is None,
        },
{
    let pairs: Vec<(String, String)> = read_pairs(contents);
    if !has_value(&pairs, "Type", "Application") || has_value(&pairs, "Hidden", "true") || has_value(
        &pairs,
        "NoDisplay",
        "true",
    ) {
        return None;
    }
    let name: String = match value_of(&pairs, "Name") {
        Some(v) => trim(v.as_str()).to_owned(),
        None => {
            return None;
        },
    };
    let exec: &String = match value_of(&pairs, "Exec") {
        Some(v) => v,
        None => {
            return None;
        },
    };
    let flatpak_id: Option<String> = filled(&pairs, "X-Flatpak");
    let command: Vec<String> = match &flatpak_id {
        Some(id) => {
            let mut words: Vec<String> = Vec::new();
            words.push("flatpak".to_owned());
            words.push("run".to_owned());
            words.push(id.clone());
            assert(text::texts(words@) =~= seq!["flatpak"@, "run"@, id@]);
            words
        },
        None => match desktop_exec_command(exec.as_str()) {
            Some(words) => words,
            None => {
                return None;
            },
        },
    };
    let app = InstalledApp {
        desktop_id: desktop_id.to_owned(),
        name,
        icon: filled(&pairs, "Icon"),
        startup_wm_class: filled(&pairs, "StartupWMClass"),
        flatpak_id,
        command,
    };
    assert(app_of(desktop_id@, entry_pairs(contents@))->0 =~= app@);
    Some(app)
}

// Finding an application

/// The ASCII letters and digits of a name, in lower case.
pub open spec fn identity(s: Seq<char>) -> Seq<char> {
    s.filter(|c: char| text::is_alnum(c)).map_values(|c: char| text::lower(c))
}

/// The ASCII letters and digits of a name, in lower case.
pub fn normalize_app_identity(value: &str) -> (out: String)
    ensures
        out@ == identity(value@),
{
    let cs: Vec<char> = chars_of(value);
    let ghost keep = |c: char| text::is_alnum(c);
    let ghost low = |c: char| text::lower(c);
    let mut out = String::new();
    proof {
        reveal(Seq::filter);
        assert(out@ =~= value@.take(0).filter(keep).map_values(low));
    }
    for i in 0..cs.len()
        invariant
            cs@ == value@,
            keep == (|c: char| text::is_alnum(c)),
            low == (|c: char| text::lower(c)),
            out@ == value@.take(i as int).filter(keep).map_values(low),
    {
        let ghost before = value@.take(i as int).filter(keep);
        proof {
            reveal(Seq::filter);
            assert(value@.take(i + 1).drop_last() =~= value@.take(i as int));
        }
        if char_is_alnum(cs[i]) {
            out.push(char_lower(cs[i]));
            assert(out@ =~= before.push(cs@[i as int]).map_values(low));
        }
    }
    assert(value@.take(value@.len() as int) =~= value@);
    out
}

pub open spec fn or_empty(o: Option<Seq<char>>) -> Seq<char> {
    match o {
        Some(s) => s,
        None => Seq::empty(),
    }
}

/// The file that an application launches.
pub open spec fn executable(app: AppView) -> Seq<char> {
    if app.command.len() > 0 {
        or_empty(paths::file_name(app.command[0]))
    } else {
        Seq::empty()
    }
}

/// How well an application answers to the name `needle`, which is in lower case.
pub open spec fn app_score(app: AppView, needle: Seq<char>) -> int {
    if text::lower_text(or_empty(app.startup_wm_class)) == needle {
        100
    } else if text::lower_text(app.desktop_id) == needle {
        95
    } else if text::lower_text(or_empty(app.flatpak_id)) == needle {
        90
    } else if text::lower_text(executable(app)) == needle {
        85
    } else if identity(text::lower_text(app.desktop_id)) == identity(needle) {
        80
    } else {
        0
    }
}

/// The application at place `i` answers best: at all, no other better, and none
/// behind it as well.
pub open spec fn answers_best(apps: Seq<AppView>, needle: Seq<char>, i: int) -> bool {
    &&& 0 <= i < apps.len()
    &&& app_score(apps[i], needle) > 0
    &&& forall|j: int|
        0 <= j < apps.len() ==> app_score(#[trigger] apps[j], needle) <= app_score(apps[i], needle)
            && (j > i ==> app_score(apps[j], needle) < app_score(apps[i], needle))
}

/// The application that answers best to the application identifier `app_id`.
pub open spec fn best_app(apps: Seq<AppView>, app_id: Seq<char>) -> Option<AppView> {
    let needle = text::lower_text(text::trimmed(app_id));
    if needle.len() > 0 && exists|i: int| answers_best(apps, needle, i) {
        Some(apps[choose|i: int| answers_best(apps, needle, i)])
    } else {
        None
    }
}

proof fn best_is_unique(apps: Seq<AppView>, needle: Seq<char>, i: int)
    requires
        answers_best(apps, needle, i),
    ensures
        (choose|i: int| answers_best(apps, needle, i)) == i,
{
    let j = choose|i: int| answers_best(apps, needle, i);
    assert(answers_best(apps, needle, j));
    if j < i {
        assert(app_score(apps[i], needle) < app_score(apps[j], needle));
    } else if i < j {
        assert(app_score(apps[j], needle) < app_score(apps[i], needle));
    }
}

fn lower_or_empty(o: &Option<String>) -> (out: String)
    ensures
        out@ == text::lower_text(or_empty(text::opt_text(*o))),
{
    match o {
        Some(s) => ascii_lowercase(s.as_str()),
        None => {
            let out = String::new();
            assert(out@ =~= text::lower_text(Seq::<char>::empty()));
            out
        },
    }
}

fn score_app(app: &InstalledApp, needle: &str, plain: &str) -> (out: u32)
    requires
        plain@ == identity(needle@),
    ensures
        out == app_score(app@, needle@),
{
    if str_eq(lower_or_empty(&app.startup_wm_class).as_str(), needle) {
        return 100;
    }
    let desktop: String = ascii_lowercase(app.desktop_id.as_str());
    if str_eq(desktop.as_str(), needle) {
        return 95;
    }
    if str_eq(lower_or_empty(&app.flatpak_id).as_str(), needle) {
        return 90;
    }
    let file: Option<String> = if app.command.len() > 0 {
        assert(app@.command[0] == app.command@[0]@);
        name_of_file(app.command[0].as_str())
    } else {
        None
    };
    if str_eq(lower_or_empty(&file).as_str(), needle) {
        return 85;
    }
    if str_eq(normalize_app_identity(desktop.as_str()).as_str(), plain) {
        return 80;
    }
    0
}

/// The application among `apps` that answers best to `app_id`.
pub fn resolve_installed_app_from<'a>(apps: &'a [InstalledApp], app_id: &str) -> (out: Option<
    &'a InstalledApp,
>)
    ensures
        match out {
            Some(app) => best_app(app_views(apps@), app_id@) == Some(app@),
            None => best_app(app_views(apps@), app_id@) is None,
        },
{
    let needle: String = ascii_lowercase(trim(app_id));
    if needle.as_str().is_empty() {
        return None;
    }
    let plain: String = normalize_app_identity(needle.as_str());
    let ghost views = app_views(apps@);
    let mut best: Option<usize> = None;
    let mut top: u32 = 0;
    for i in 0..apps.len()
        invariant
            views == app_views(apps@),
            plain@ == identity(needle@),
            match best {
                Some(b) => b < i && top == app_score(views[b as int], needle@) && forall|j: int|
                    b < j < i ==> app_score(#[trigger] views[j], needle@) < top,
                None => top == 0,
            },
            best is Some <==> top > 0,
            forall|j: int| 0 <= j < i ==> app_score(#[trigger] views[j], needle@) <= top,
    {
        assert(views[i as int] == apps@[i as int]@);
        let score: u32 = score_app(&apps[i], needle.as_str(), plain.as_str());
        if score > 0 && score >= top {
            best = Some(i);
            top = score;
        }
    }
    match best {
        Some(b) => {
            proof {
                assert(answers_best(views, needle@, b as int));
                best_is_unique(views, needle@, b as int);
                assert(views[b as int] == apps@[b as int]@);
            }
            Some(&apps[b])
        },
        None => {
            assert forall|i: int| !answers_best(views, needle@, i) by {
                if 0 <= i < views.len() {
                    assert(app_score(views[i], needle@) <= 0);
                }
            }
            None
        },
    }
}

/// The application among `apps` that answers best to `app_id`, by itself.
pub fn resolve_installed_app(apps: &[InstalledApp], app_id: &str) -> (out: Option<InstalledApp>)
    ensures
        match out {
            Some(app) => best_app(app_views(apps@), app_id@) == Some(app@),
            None => best_app(app_views(apps@), app_id@) is None,
        },
{
    match resolve_installed_app_from(apps, app_id) {
        Some(app) => Some(app.clone()),
        None => None,
    }
}

// Listing the applications

/// A desktop entry that was found: its identifier and, where it could be read,
/// what it holds.
#[derive(Debug, PartialEq, Eq)]
pub struct DesktopFile {
    pub id: String,
    pub contents: Option<String>,
}

#[verifier::ext_equal]
pub struct DesktopFileView {
    pub id: Seq<char>,
    pub contents: Option<Seq<char>>,
}

impl View for DesktopFile {
    type V = DesktopFileView;

    open spec fn view(&self) -> DesktopFileView {
        DesktopFileView { id: self.id@, contents: text::opt_text(self.contents) }
    }
}

pub open spec fn file_views(v: Seq<DesktopFile>) -> Seq<DesktopFileView> {
    v.map_values(|f: DesktopFile| f@)
}

/// The identifier of a desktop entry by the name of its file.
pub open spec fn id_of_file(name: Seq<char>) -> Option<Seq<char>> {
    if ".desktop"@.is_suffix_of(name) && name.len() > ".desktop"@.len() {
        Some(name.take(name.len() - ".desktop"@.len()))
    } else {
        None
    }
}

/// The identifier of a desktop entry by the name of its file, if it is one.
pub fn desktop_file_id(name: &str) -> (out: Option<String>)
    ensures
        text::opt_text(out) == id_of_file(name@),
{
    match text::strip_suffix(name, ".desktop") {
        Some(id) => if id.is_empty() {
            None
        } else {
            Some(id.to_owned())
        },
        None => None,
    }
}

/// No file before place `i` has its identifier.
pub open spec fn is_first_of_id(files: Seq<DesktopFileView>, i: int) -> bool {
    forall|j: int| 0 <= j < i ==> (#[trigger] files[j]).id != files[i].id
}

/// The application that file `i` adds: the first file of an identifier counts,
/// even where it cannot be read.
pub open spec fn app_at(files: Seq<DesktopFileView>) -> spec_fn(int) -> Option<AppView> {
    |i: int|
        if is_first_of_id(files, i) && files[i].contents is Some {
            app_of(files[i].id, entry_pairs(files[i].contents->0))
        } else {
            None
        }
}

pub open spec fn found_apps(files: Seq<DesktopFileView>) -> Seq<AppView> {
    lists::gather(files.len(), app_at(files))
}

/// Application `i` may stand before application `j`, by their names.
pub open spec fn by_name(apps: Seq<AppView>) -> spec_fn(int, int) -> bool {
    |i: int, j: int| !text::text_lt(text::lower_text(apps[j].name), text::lower_text(apps[i].name))
}

/// The applications that the files add, by name without regard to case.
pub open spec fn apps_of(files: Seq<DesktopFileView>) -> Seq<AppView> {
    let apps = found_apps(files);
    lists::order(apps.len(), by_name(apps)).map_values(|i: int| apps[i])
}

fn is_new_id(files: &Vec<DesktopFile>, i: usize) -> (out: bool)
    requires
        i < files@.len(),
    ensures
        out == is_first_of_id(file_views(files@), i as int),
{
    let ghost views = file_views(files@);
    for j in 0..i
        invariant
            i < files@.len(),
            views == file_views(files@),
            forall|k: int| 0 <= k < j ==> (#[trigger] views[k]).id != views[i as int].id,
    {
        assert(views[j as int] == files@[j as int]@ && views[i as int] == files@[i as int]@);
        if files[j].id == files[i].id {
            return false;
        }
    }
    true
}

fn name_le(apps: &Vec<InstalledApp>, i: usize, j: usize) -> (out: bool)
    requires
        i < apps@.len(),
        j < apps@.len(),
    ensures
        out == by_name(app_views(apps@))(i as int, j as int),
{
    let ghost views = app_views(apps@);
    assert(views[i as int] == apps@[i as int]@ && views[j as int] == apps@[j as int]@);
    !str_lt(
        ascii_lowercase(apps[j].name.as_str()).as_str(),
        ascii_lowercase(apps[i].name.as_str()).as_str(),
    )
}

/// The applications that the desktop entries describe, by name.
pub fn collect_applications(files: &Vec<DesktopFile>) -> (out: Vec<InstalledApp>)
    ensures
        app_views(out@) == apps_of(file_views(files@)),
{
    let ghost views = file_views(files@);
    let ghost f = app_at(views);
    let mut found: Vec<InstalledApp> = Vec::new();
    assert(app_views(found@) =~= lists::gather(0, f));
    for i in 0..files.len()
        invariant
            views == file_views(files@),
            f == app_at(views),
            app_views(found@) == lists::gather(i as nat, f),
    {
        let ghost before = found@;
        let ghost given = f(i as int);
        assert(views[i as int] == files@[i as int]@);
        if is_new_id(files, i) {
            if let Some(contents) = &files[i].contents {
                if let Some(app) = parse_desktop_entry(files[i].id.as_str(), contents.as_str()) {
                    found.push(app);
                    assert(app_views(found@) =~= app_views(before).push(given->0));
                }
            }
        }
    }
    let ghost apps = app_views(found@);
    let ghost rank = by_name(apps);
    let n: usize = found.len();
    let le = |i: usize, j: usize| -> (b: bool)
        requires
            i < found@.len(),
            j < found@.len(),
        ensures
            b == by_name(app_views(found@))(i as int, j as int),
        { name_le(&found, i, j) };
    let places: Vec<usize> = sort_places(n, le, Ghost(rank));
    let mut out: Vec<InstalledApp> = Vec::new();
    for k in 0..places.len()
        invariant
            apps == app_views(found@),
            n == found@.len(),
            forall|x: int| 0 <= x < places@.len() ==> (#[trigger] places@[x]) < n,
            out@.len() == k,
            forall|x: int| 0 <= x < k ==> (#[trigger] out@[x])@ == apps[places@[x] as int],
    {
        assert(apps[places@[k as int] as int] == found@[places@[k as int] as int]@);
        out.push(found[places[k]].clone());
    }
    let ghost o = lists::order(apps.len(), rank);
    assert forall|x: int| 0 <= x < out@.len() implies #[trigger] app_views(out@)[x] == apps[o[x]] by {
        assert(lists::as_places(places@)[x] == o[x]);
        assert(out@[x]@ == apps[places@[x] as int]);
    }
    assert(app_views(out@) =~= o.map_values(|i: int| apps[i]));
    out
}

} // verus!
