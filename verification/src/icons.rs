//! The application that a logical window stands for, and its icon.
use crate::apps;
use crate::apps::{resolve_installed_app, InstalledApp};
use crate::model::{WindowSpec, WindowView};
use crate::outside;
use crate::text;
use crate::text::{
    ascii_lowercase, chars_of, contains, copy_opt, join, str_eq, strip_prefix, strip_suffix,
};
use vstd::prelude::*;

verus! {

/// A character that makes a pattern more than a literal text, unless escaped.
pub open spec fn is_operator(c: char) -> bool {
    c == '.' || c == '*' || c == '+' || c == '?' || c == '(' || c == ')' || c == '[' || c == ']'
        || c == '{' || c == '}' || c == '|'
}

/// The text that a pattern without operators stands for: each escaped character
/// for itself.
pub open spec fn unescaped(s: Seq<char>) -> Option<Seq<char>>
    decreases s.len(),
{
    if s.len() == 0 {
        Some(Seq::empty())
    } else if s[0] == '\\' {
        if s.len() == 1 {
            None
        } else {
            match unescaped(s.skip(2)) {
                Some(rest) => Some(seq![s[1]] + rest),
                None => None,
            }
        }
    } else if is_operator(s[0]) {
        None
    } else {
        match unescaped(s.skip(1)) {
            Some(rest) => Some(seq![s[0]] + rest),
            None => None,
        }
    }
}

/// The one application that a pattern stands for: what is between its anchors is
/// a literal text, and not empty.
pub open spec fn exact_app(pattern: Option<Seq<char>>) -> Option<Seq<char>> {
    match pattern {
        Some(p) => if "^"@.is_prefix_of(p) && "$"@.is_suffix_of(p.skip(1)) {
            match unescaped(p.skip(1).take(p.len() - 2)) {
                Some(app) => if app.len() > 0 {
                    Some(app)
                } else {
                    None
                },
                None => None,
            }
        } else {
            None
        },
        None => None,
    }
}

/// The one application that the matcher of a logical window stands for.
pub fn exact_match_app_id(spec: &WindowSpec) -> (out: Option<String>)
    ensures
        text::opt_text(out) == exact_app(spec@.match_spec.app_id),
{
    let pattern: &String = match &spec.match_spec.app_id {
        Some(p) => p,
        None => {
            return None;
        },
    };
    proof {
        reveal_strlit("^");
        reveal_strlit("$");
    }
    let rest: &str = match strip_prefix(pattern.as_str(), "^") {
        Some(r) => r,
        None => {
            return None;
        },
    };
    let literal: &str = match strip_suffix(rest, "$") {
        Some(l) => l,
        None => {
            return None;
        },
    };
    let ghost p = pattern@;
    let ghost l = literal@;
    assert(l == p.skip(1).take(p.len() - 2));
    let cs: Vec<char> = chars_of(literal);
    let n: usize = cs.len();
    let mut app: String = String::new();
    let mut i: usize = 0;
    assert(l.skip(0) =~= l);
    assert(unescaped(l) is Some ==> app@ + unescaped(l.skip(0))->0 =~= unescaped(l)->0);
    while i < n
        invariant
            n == cs@.len(),
            cs@ == l,
            i <= n,
            exact_app(Some(p)) == (match unescaped(l) {
                Some(a) => if a.len() > 0 {
                    Some(a)
                } else {
                    None
                },
                None => None,
            }),
            text::opt_text(spec.match_spec.app_id) == Some(p),
            unescaped(l) is Some <==> unescaped(l.skip(i as int)) is Some,
            unescaped(l) is Some ==> app@ + unescaped(l.skip(i as int))->0 == unescaped(l)->0,
        decreases n - i,
    {
        let ghost tail = l.skip(i as int);
        let ghost so_far = app@;
        assert(tail[0] == cs@[i as int]);
        if cs[i] == '\\' {
            if i + 1 == n {
                return None;
            }
            assert(tail[1] == cs@[i + 1]);
            assert(tail.skip(2) =~= l.skip(i + 2));
            app.push(cs[i + 1]);
            i = i + 2;
            assert(unescaped(l) is Some ==> app@ + unescaped(l.skip(i as int))->0
                =~= so_far + unescaped(tail)->0);
        } else {
            if operator(cs[i]) {
                return None;
            }
            assert(tail.skip(1) =~= l.skip(i + 1));
            app.push(cs[i]);
            i = i + 1;
            assert(unescaped(l) is Some ==> app@ + unescaped(l.skip(i as int))->0
                =~= so_far + unescaped(tail)->0);
        }
    }
    assert(l.skip(n as int) =~= Seq::empty());
    assert(unescaped(l.skip(n as int)) == Some(Seq::<char>::empty()));
    assert(app@ + Seq::<char>::empty() =~= app@);
    if app.as_str().unicode_len() == 0 {
        None
    } else {
        Some(app)
    }
}

fn operator(c: char) -> (out: bool)
    ensures
        out == is_operator(c),
{
    c == '.' || c == '*' || c == '+' || c == '?' || c == '(' || c == ')' || c == '[' || c == ']'
        || c == '{' || c == '}' || c == '|'
}

// Icons

/// The name of an icon for an application that is not installed, from the
/// lower case text of its matcher and its command.
pub open spec fn fallback_icon(s: Seq<char>) -> Seq<char> {
    if text::has_part(s, "code"@) || text::has_part(s, "vscode"@) {
        "vscode"@
    } else if text::has_part(s, "kitty"@) {
        "kitty"@
    } else if text::has_part(s, "chrome"@) || text::has_part(s, "com.google.chrome"@) {
        "google-chrome"@
    } else if text::has_part(s, "firefox"@) {
        "firefox"@
    } else if text::has_part(s, "android"@) || text::has_part(s, "studio"@) {
        "androidstudio"@
    } else if text::has_part(s, "obsidian"@) {
        "obsidian"@
    } else if text::has_part(s, "terminal"@) {
        "utilities-terminal"@
    } else if text::has_part(s, "browser"@) {
        "web-browser"@
    } else {
        "application-x-executable"@
    }
}

/// The icon of the installed application of this identity, if it has one.
pub open spec fn installed_icon(
    installed: Seq<apps::AppView>,
    id: Option<Seq<char>>,
) -> Option<Seq<char>> {
    match id {
        Some(app) => match apps::best_app(installed, app) {
            Some(found) => found.icon,
            None => None,
        },
        None => None,
    }
}

/// The Flatpak application that a command runs.
pub open spec fn flatpak_of(command: Seq<Seq<char>>) -> Option<Seq<char>> {
    if command.len() > 2 && command[0] == "flatpak"@ {
        Some(command[2])
    } else {
        None
    }
}

/// The icon of a logical window: that of the installed application that its
/// matcher or its command names, else one by what they look like.
pub open spec fn icon_of(w: WindowView, installed: Seq<apps::AppView>) -> Seq<char> {
    if installed_icon(installed, exact_app(w.match_spec.app_id)) is Some {
        installed_icon(installed, exact_app(w.match_spec.app_id))->0
    } else if installed_icon(installed, flatpak_of(w.command)) is Some {
        installed_icon(installed, flatpak_of(w.command))->0
    } else {
        fallback_icon(
            text::lower_text(apps::or_empty(w.match_spec.app_id)) + " "@ + text::lower_text(
                text::joined(w.command, " "@),
            ),
        )
    }
}

fn find_icon(installed: &[InstalledApp], id: &Option<String>) -> (out: Option<String>)
    ensures
        text::opt_text(out) == installed_icon(apps::app_views(installed@), text::opt_text(*id)),
{
    match id {
        Some(app) => match resolve_installed_app(installed, app.as_str()) {
            Some(found) => copy_opt(&found.icon),
            None => None,
        },
        None => None,
    }
}

/// The icon of a logical window among the installed applications.
pub fn icon_name(spec: &WindowSpec, installed: &[InstalledApp]) -> (out: String)
    ensures
        out@ == icon_of(spec@, apps::app_views(installed@)),
{
    if let Some(icon) = find_icon(installed, &exact_match_app_id(spec)) {
        return icon;
    }
    let flatpak: Option<String> = if spec.command.len() > 2 && str_eq(
        spec.command[0].as_str(),
        "flatpak",
    ) {
        Some(spec.command[2].clone())
    } else {
        None
    };
    assert(text::opt_text(flatpak) == flatpak_of(spec@.command));
    if let Some(icon) = find_icon(installed, &flatpak) {
        return icon;
    }
    let mut look: String = match &spec.match_spec.app_id {
        Some(app) => ascii_lowercase(app.as_str()),
        None => {
            assert(text::lower_text(Seq::empty()) =~= Seq::<char>::empty());
            String::new()
        },
    };
    assert(look@ =~= text::lower_text(apps::or_empty(spec@.match_spec.app_id)));
    look.append(" ");
    let words: String = join(&spec.command, " ");
    look.append(ascii_lowercase(words.as_str()).as_str());
    guess_icon(look.as_str()).to_owned()
}

fn guess_icon(s: &str) -> (out: &'static str)
    ensures
        out@ == fallback_icon(s@),
{
    if contains(s, "code") || contains(s, "vscode") {
        "vscode"
    } else if contains(s, "kitty") {
        "kitty"
    } else if contains(s, "chrome") || contains(s, "com.google.chrome") {
        "google-chrome"
    } else if contains(s, "firefox") {
        "firefox"
    } else if contains(s, "android") || contains(s, "studio") {
        "androidstudio"
    } else if contains(s, "obsidian") {
        "obsidian"
    } else if contains(s, "terminal") {
        "utilities-terminal"
    } else if contains(s, "browser") {
        "web-browser"
    } else {
        "application-x-executable"
    }
}

// Laws

proof fn unescaping_undoes_escaping(s: Seq<char>, tail: Seq<char>)
    ensures
        unescaped(outside::escaped(s) + tail) == (match unescaped(tail) {
            Some(rest) => Some(s + rest),
            None => None,
        }),
    decreases s.len(),
{
    if s.len() == 0 {
        assert(outside::escaped(s) + tail =~= tail);
        assert(unescaped(tail) is Some ==> s + unescaped(tail)->0 =~= unescaped(tail)->0);
    } else {
        let c = s.last();
        let before = s.drop_last();
        let piece = if outside::is_meta(c) {
            seq!['\\', c]
        } else {
            seq![c]
        };
        let rest = piece + tail;
        assert(outside::escaped(s) + tail =~= outside::escaped(before) + rest);
        unescaping_undoes_escaping(before, rest);
        if outside::is_meta(c) {
            assert(rest.skip(2) =~= tail);
            assert(rest[0] == '\\' && rest[1] == c);
        } else {
            assert(rest.skip(1) =~= tail);
            assert(rest[0] == c);
        }
        if unescaped(tail) is Some {
            assert(before + (seq![c] + unescaped(tail)->0) =~= s + unescaped(tail)->0);
        }
    }
}

/// The pattern that stands for one text names that text as its application.
pub proof fn literal_patterns_name_their_app(s: Seq<char>)
    requires
        s.len() > 0,
    ensures
        exact_app(Some(outside::literal_pattern(s))) == Some(s),
{
    let p = outside::literal_pattern(s);
    reveal_strlit("^");
    reveal_strlit("$");
    assert(p.subrange(0, 1) =~= "^"@);
    assert(p.skip(1) =~= outside::escaped(s) + seq!['$']);
    let rest = p.skip(1);
    assert(rest.subrange(rest.len() - 1, rest.len() as int) =~= "$"@);
    assert(rest.take(p.len() - 2) =~= outside::escaped(s) + Seq::<char>::empty());
    unescaping_undoes_escaping(s, Seq::empty());
    assert(s + Seq::<char>::empty() =~= s);
}

} // verus!
