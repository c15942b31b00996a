//! What is promised of the applications that are installed.
use crate::apps;
use crate::apps::{AppView, DesktopFileView};
use crate::lists;
use crate::outside;
use crate::paths;
use crate::text;
use vstd::prelude::*;

verus! {

/// The ways in which an application answers to a name in lower case, from the
/// closest on.
pub open spec fn has_class(a: AppView, name: Seq<char>) -> bool {
    a.startup_wm_class is Some && text::lower_text(a.startup_wm_class->0) == name
}

pub open spec fn has_id(a: AppView, name: Seq<char>) -> bool {
    text::lower_text(a.desktop_id) == name
}

pub open spec fn has_flatpak(a: AppView, name: Seq<char>) -> bool {
    a.flatpak_id is Some && text::lower_text(a.flatpak_id->0) == name
}

pub open spec fn runs_file(a: AppView, name: Seq<char>) -> bool {
    a.command.len() > 0 && paths::file_name(a.command[0]) is Some && text::lower_text(
        paths::file_name(a.command[0])->0,
    ) == name
}

pub open spec fn has_letters(a: AppView, name: Seq<char>) -> bool {
    apps::identity(a.desktop_id) == apps::identity(name)
}

/// The application answers to the name in some way.
pub open spec fn answers(a: AppView, name: Seq<char>) -> bool {
    has_class(a, name) || has_id(a, name) || has_flatpak(a, name) || runs_file(a, name)
        || has_letters(a, name)
}

/// Application `a` answers to the name at least as closely as `b`.
pub open spec fn answers_as_closely(a: AppView, b: AppView, name: Seq<char>) -> bool {
    &&& has_class(b, name) ==> has_class(a, name)
    &&& has_id(b, name) ==> has_class(a, name) || has_id(a, name)
    &&& has_flatpak(b, name) ==> has_class(a, name) || has_id(a, name) || has_flatpak(a, name)
    &&& runs_file(b, name) ==> has_class(a, name) || has_id(a, name) || has_flatpak(a, name)
        || runs_file(a, name)
    &&& answers(b, name) ==> answers(a, name)
}

/// The application of a window is the one that answers to its identifier most
/// closely: by its class, by the name of its entry, by its Flatpak identifier, by the
/// file that it runs, and at last by the letters and digits of its entry's name. It
/// is found just where one answers at all, and the identifier is not blank.
pub proof fn the_closest_application_is_taken(installed: Seq<AppView>, app_id: Seq<char>)
    ensures
        ({
            let name = text::lower_text(text::trimmed(app_id));
            let out = apps::best_app(installed, app_id);
            &&& out is Some <==> !text::is_blank(app_id) && exists|i: int|
                0 <= i < installed.len() && answers(#[trigger] installed[i], name)
            &&& out is Some ==> installed.contains(out->0) && forall|i: int|
                0 <= i < installed.len() ==> answers_as_closely(
                    out->0,
                    #[trigger] installed[i],
                    name,
                )
        }),
{
    let name = text::lower_text(text::trimmed(app_id));
    text::blank_iff_trims_away(app_id);
    if name.len() > 0 {
        assert forall|i: int| 0 <= i < installed.len() implies (apps::app_score(
            #[trigger] installed[i],
            name,
        ) > 0 <==> answers(installed[i], name)) by {
            scores_tell(installed[i], name);
        }
        if exists|i: int| 0 <= i < installed.len() && answers(#[trigger] installed[i], name) {
            let i = choose|i: int| 0 <= i < installed.len() && answers(#[trigger] installed[i], name);
            best_exists(installed, name, installed.len() as int, i);
        }
        if apps::best_app(installed, app_id) is Some {
            let b = choose|i: int| apps::answers_best(installed, name, i);
            assert(installed[b] == apps::best_app(installed, app_id)->0);
            assert forall|i: int| 0 <= i < installed.len() implies answers_as_closely(
                installed[b],
                #[trigger] installed[i],
                name,
            ) by {
                scores_tell(installed[i], name);
                scores_tell(installed[b], name);
            }
        }
    }
}

proof fn lower_twice(s: Seq<char>)
    ensures
        apps::identity(text::lower_text(s)) == apps::identity(s),
    decreases s.len(),
{
    if s.len() > 0 {
        let t = s.drop_last();
        let u = text::lower_text(s);
        lower_twice(t);
        assert(u.drop_last() =~= text::lower_text(t));
        letters_are_taken(t, s.last());
        letters_are_taken(text::lower_text(t), u.last());
        assert(s =~= t.push(s.last()));
        assert(u =~= text::lower_text(t).push(u.last()));
    } else {
        assert(text::lower_text(s) =~= s);
    }
}

proof fn scores_tell(a: AppView, name: Seq<char>)
    requires
        name.len() > 0,
    ensures
        apps::app_score(a, name) >= 100 <==> has_class(a, name),
        apps::app_score(a, name) >= 95 <==> has_class(a, name) || has_id(a, name),
        apps::app_score(a, name) >= 90 <==> has_class(a, name) || has_id(a, name) || has_flatpak(
            a,
            name,
        ),
        apps::app_score(a, name) >= 85 <==> has_class(a, name) || has_id(a, name) || has_flatpak(
            a,
            name,
        ) || runs_file(a, name),
        apps::app_score(a, name) > 0 <==> answers(a, name),
{
    lower_twice(a.desktop_id);
    assert(text::lower_text(Seq::empty()) =~= Seq::<char>::empty());
}

proof fn best_exists(installed: Seq<AppView>, name: Seq<char>, n: int, i: int)
    requires
        0 <= i < n <= installed.len(),
        apps::app_score(installed[i], name) > 0,
    ensures
        exists|k: int| #[trigger] apps::answers_best(installed.take(n), name, k),
        n == installed.len() ==> exists|k: int| #[trigger] apps::answers_best(installed, name, k),
    decreases n,
{
    let s = installed.take(n);
    if n == installed.len() {
        assert(s =~= installed);
    }
    let last = n - 1;
    let front = installed.take(last);
    if exists|j: int| 0 <= j < last && apps::app_score(#[trigger] installed[j], name) > 0 {
        let j = choose|j: int| 0 <= j < last && apps::app_score(#[trigger] installed[j], name) > 0;
        best_exists(installed, name, last, j);
        let b = choose|k: int| #[trigger] apps::answers_best(front, name, k);
        assert(forall|k: int| 0 <= k < last ==> #[trigger] s[k] == front[k]);
        if apps::app_score(s[last], name) >= apps::app_score(s[b], name) {
            assert(apps::answers_best(s, name, last));
        } else {
            assert(apps::answers_best(s, name, b));
        }
    } else {
        assert(i == last);
        assert(apps::answers_best(s, name, last));
    }
}

/// Of a name only the letters and digits of ASCII count, in lower case.
pub proof fn letters_are_taken(s: Seq<char>, c: char)
    ensures
        apps::identity(Seq::empty()) == Seq::<char>::empty(),
        text::is_alnum(c) ==> apps::identity(s.push(c)) == apps::identity(s).push(text::lower(c)),
        !text::is_alnum(c) ==> apps::identity(s.push(c)) == apps::identity(s),
{
    reveal(Seq::filter);
    assert(s.push(c).drop_last() =~= s);
    assert(apps::identity(Seq::empty()) =~= Seq::<char>::empty());
    if text::is_alnum(c) {
        assert(apps::identity(s.push(c)) =~= apps::identity(s).push(text::lower(c)));
    }
}

/// Line `i` of a file belongs to the desktop entry: of the lines before it that begin
/// a group, the last one begins the entry.
pub open spec fn is_in_entry(lines: Seq<Seq<char>>, i: int) -> bool {
    exists|h: int|
        0 <= h < i && #[trigger] lines[h] == "[Desktop Entry]"@ && forall|k: int|
            h < k < i ==> !apps::is_header(#[trigger] lines[k])
}

proof fn entries_begin(lines: Seq<Seq<char>>, i: nat)
    requires
        i <= lines.len(),
    ensures
        apps::in_entry(lines, i) <==> is_in_entry(lines, i as int),
    decreases i,
{
    reveal_strlit("[Desktop Entry]");
    if i > 0 {
        entries_begin(lines, (i - 1) as nat);
        let last = lines[i - 1];
        assert(apps::is_header("[Desktop Entry]"@));
        if apps::is_header(last) {
            if last == "[Desktop Entry]"@ {
                assert(lines[i - 1] == "[Desktop Entry]"@);
            }
        } else if is_in_entry(lines, i - 1) {
            let h = choose|h: int|
                0 <= h < i - 1 && #[trigger] lines[h] == "[Desktop Entry]"@ && forall|k: int|
                    h < k < i - 1 ==> !apps::is_header(#[trigger] lines[k]);
            assert(lines[h] == "[Desktop Entry]"@);
        } else if is_in_entry(lines, i as int) {
            let h = choose|h: int|
                0 <= h < i && #[trigger] lines[h] == "[Desktop Entry]"@ && forall|k: int|
                    h < k < i ==> !apps::is_header(#[trigger] lines[k]);
            assert(lines[h] == "[Desktop Entry]"@);
            assert(h < i - 1);
        }
    }
}

/// A line of the desktop entry with a key, an equals sign and a value gives that key
/// that value. Comments and lines of other groups give nothing.
pub proof fn entries_give_keys_their_values(
    lines: Seq<Seq<char>>,
    i: int,
    key: Seq<char>,
    value: Seq<char>,
)
    requires
        0 <= i < lines.len(),
    ensures
        lines[i] == key.push('=') + value && !key.contains('=') && is_in_entry(lines, i) && (
        key.len() > 0 ==> key[0] != '#') && !apps::is_header(lines[i]) ==> apps::pair_at(lines)(i)
            == Some((key, value)),
        !is_in_entry(lines, i) ==> apps::pair_at(lines)(i) is None,
        !lines[i].contains('=') ==> apps::pair_at(lines)(i) is None,
        lines[i].len() > 0 && lines[i][0] == '#' ==> apps::pair_at(lines)(i) is None,
{
    entries_begin(lines, i as nat);
    let line = lines[i];
    if line == key.push('=') + value && !key.contains('=') {
        let n = key.len() as int;
        assert(line[n] == '=');
        assert(line.contains('='));
        assert forall|k: int| 0 <= k < n implies line[k] != '=' by {
            assert(line[k] == key[k]);
            assert(key.contains(key[k]));
        }
        line.index_of_first_ensures('=');
        let at = line.index_of_first('=')->0;
        assert(at == n);
        assert(line.take(at) =~= key);
        assert(line.skip(at + 1) =~= value);
        if key.len() == 0 {
            assert(line[0] == '=');
        } else {
            assert(line[0] == key[0]);
        }
    }
}

/// The first line for a key gives its value.
pub proof fn the_first_value_counts(pairs: Seq<(Seq<char>, Seq<char>)>, key: Seq<char>, i: int)
    ensures
        0 <= i < pairs.len() && pairs[i].0 == key && (forall|j: int|
            0 <= j < i ==> (#[trigger] pairs[j]).0 != key) ==> apps::value_in(pairs, key) == Some(
            pairs[i].1,
        ),
        (forall|j: int| 0 <= j < pairs.len() ==> (#[trigger] pairs[j]).0 != key) ==> apps::value_in(
            pairs,
            key,
        ) is None,
{
    if 0 <= i < pairs.len() && pairs[i].0 == key && (forall|j: int|
        0 <= j < i ==> (#[trigger] pairs[j]).0 != key) {
        lists::first_is(pairs, apps::keyed(key), i);
    }
    if forall|j: int| 0 <= j < pairs.len() ==> (#[trigger] pairs[j]).0 != key {
        lists::first_is_none(pairs, apps::keyed(key));
    }
}

/// The key has the value, or none.
pub open spec fn says(
    pairs: Seq<(Seq<char>, Seq<char>)>,
    key: Seq<char>,
    value: Option<Seq<char>>,
) -> bool {
    apps::value_in(pairs, key) == value
}

/// What an entry says of a key where white space around it does not count, and
/// nothing else is nothing.
pub open spec fn says_something(
    pairs: Seq<(Seq<char>, Seq<char>)>,
    key: Seq<char>,
    out: Option<Seq<char>>,
) -> bool {
    match apps::value_in(pairs, key) {
        Some(v) => if text::is_blank(v) {
            out is None
        } else {
            out == Some(text::trimmed(v))
        },
        None => out is None,
    }
}

/// An entry describes an application that is installed: of the type Application,
/// neither hidden nor kept from display, with a name and a command. A Flatpak is run
/// by its identifier, and everything else by the words of its command that stand for
/// no file.
pub proof fn entries_describe_applications(
    id: Seq<char>,
    pairs: Seq<(Seq<char>, Seq<char>)>,
    flatpak: Option<Seq<char>>,
)
    requires
        says_something(pairs, "X-Flatpak"@, flatpak),
    ensures
        match apps::app_of(id, pairs) {
            Some(a) => {
                &&& a.desktop_id == id
                &&& says(pairs, "Type"@, Some("Application"@))
                &&& !says(pairs, "Hidden"@, Some("true"@))
                &&& !says(pairs, "NoDisplay"@, Some("true"@))
                &&& !says(pairs, "Name"@, None)
                &&& !says(pairs, "Exec"@, None)
                &&& a.name == text::trimmed(apps::value_in(pairs, "Name"@)->0)
                &&& says_something(pairs, "Icon"@, a.icon)
                &&& says_something(pairs, "StartupWMClass"@, a.startup_wm_class)
                &&& a.flatpak_id == flatpak
                &&& flatpak is Some ==> a.command == seq!["flatpak"@, "run"@, flatpak->0]
                &&& flatpak is None ==> a.command.len() > 0 && forall|i: int|
                    0 <= i < a.command.len() ==> outside::shell_words(
                        apps::value_in(pairs, "Exec"@)->0,
                    )->0.contains(#[trigger] a.command[i])
            },
            None => {
                ||| !says(pairs, "Type"@, Some("Application"@))
                ||| says(pairs, "Hidden"@, Some("true"@))
                ||| says(pairs, "NoDisplay"@, Some("true"@))
                ||| says(pairs, "Name"@, None)
                ||| says(pairs, "Exec"@, None)
                ||| flatpak is None && apps::launch_words(apps::value_in(pairs, "Exec"@)->0) is None
            },
        },
{
    filled_is_something(pairs, "X-Flatpak"@);
    filled_is_something(pairs, "Icon"@);
    filled_is_something(pairs, "StartupWMClass"@);
    match apps::app_of(id, pairs) {
        Some(a) => {
            if flatpak is None {
                let words = outside::shell_words(apps::value_in(pairs, "Exec"@)->0)->0;
                assert forall|i: int| 0 <= i < a.command.len() implies words.contains(
                    #[trigger] a.command[i],
                ) by {
                    let p = |w: Seq<char>| apps::is_launch_word(w);
                    assert(a.command == words.filter(p));
                    assert(words.filter(p).contains(a.command[i]));
                    words.lemma_filter_contains_rev(p, a.command[i]);
                }
            }
        },
        None => {},
    }
}

proof fn filled_is_something(pairs: Seq<(Seq<char>, Seq<char>)>, key: Seq<char>)
    ensures
        says_something(pairs, key, apps::filled_value(pairs, key)),
{
    match apps::value_in(pairs, key) {
        Some(v) => {
            text::blank_iff_trims_away(v);
        },
        None => {},
    }
}

/// The words of a command that are kept are those that stand for themselves, in
/// order: one more word is kept behind the others, or left out.
pub proof fn words_that_stand_for_files_are_left_out(words: Seq<Seq<char>>, word: Seq<char>)
    ensures
        apps::kept_words(Seq::empty()) is None,
        ({
            let before = apps::kept_words(words);
            let out = apps::kept_words(words.push(word));
            if apps::is_launch_word(word) {
                out == Some(
                    match before {
                        Some(kept) => kept.push(word),
                        None => seq![word],
                    },
                )
            } else {
                out == before
            }
        }),
{
    let p = |w: Seq<char>| apps::is_launch_word(w);
    reveal(Seq::filter);
    assert(words.push(word).drop_last() =~= words);
    assert(words.filter(p).len() == 0 ==> words.filter(p).push(word) =~= seq![word]);
}

/// A word stands for itself where it begins with no pair of at signs and holds no
/// percent sign but in pairs.
pub proof fn field_codes_are_single_percent_signs(
    before: Seq<char>,
    code: char,
    behind: Seq<char>,
)
    requires
        !before.contains('%'),
    ensures
        !apps::has_field_code(before),
        apps::is_launch_word(before) <==> !"@@"@.is_prefix_of(before),
        apps::has_field_code(before.push('%')),
        code != '%' ==> apps::has_field_code(before + seq!['%', code] + behind),
        apps::has_field_code(before + seq!['%', '%'] + behind) <==> apps::has_field_code(behind),
        !apps::is_launch_word("@@"@ + behind),
    decreases before.len(),
{
    let a = before.push('%');
    let b = before + seq!['%', code] + behind;
    let c = before + seq!['%', '%'] + behind;
    assert(("@@"@ + behind).take("@@"@.len() as int) =~= "@@"@);
    if before.len() == 0 {
        assert(a =~= seq!['%']);
        assert(c.skip(2) =~= behind);
        assert(b[0] == '%' && b[1] == code);
        assert(c[0] == '%' && c[1] == '%');
    } else {
        let rest = before.skip(1);
        assert(before[0] != '%') by {
            assert(before.contains(before[0]));
        }
        assert(!rest.contains('%')) by {
            if rest.contains('%') {
                let k = choose|k: int| 0 <= k < rest.len() && rest[k] == '%';
                assert(before[k + 1] == '%');
                assert(before.contains('%'));
            }
        }
        field_codes_are_single_percent_signs(rest, code, behind);
        assert(a.skip(1) =~= rest.push('%'));
        assert(b.skip(1) =~= rest + seq!['%', code] + behind);
        assert(c.skip(1) =~= rest + seq!['%', '%'] + behind);
        assert(a[0] == before[0] && b[0] == before[0] && c[0] == before[0]);
    }
}

/// A file with the ending of desktop entries has what stands before it for its
/// identifier; no other file is one.
pub proof fn entries_are_named_by_their_files(id: Seq<char>, name: Seq<char>)
    ensures
        id.len() > 0 ==> apps::id_of_file(id + ".desktop"@) == Some(id),
        apps::id_of_file(name) is Some ==> name == apps::id_of_file(name)->0 + ".desktop"@
            && apps::id_of_file(name)->0.len() > 0,
{
    let f = id + ".desktop"@;
    assert(f.take(f.len() - ".desktop"@.len()) =~= id);
    assert(f.skip(f.len() - ".desktop"@.len()) =~= ".desktop"@);
    if apps::id_of_file(name) is Some {
        assert(name =~= apps::id_of_file(name)->0 + ".desktop"@);
    }
}

/// The first file of an identifier speaks for it. What it describes is listed, and
/// nothing else is.
pub proof fn the_first_file_of_an_identifier_counts(files: Seq<DesktopFileView>, app: AppView)
    ensures
        apps::apps_of(files).contains(app) <==> exists|i: int|
            0 <= i < files.len() && (#[trigger] files[i]).contents is Some && apps::app_of(
                files[i].id,
                apps::entry_pairs(files[i].contents->0),
            ) == Some(app) && forall|j: int| 0 <= j < i ==> (#[trigger] files[j]).id != files[i].id,
{
    let found = apps::found_apps(files);
    let le = apps::by_name(found);
    let n = found.len();
    let f = apps::app_at(files);
    lists::gather_contains(files.len(), f, app);
    lists::order_keeps(n, le);
    let o = lists::order(n, le);
    let out = apps::apps_of(files);
    if found.contains(app) {
        let i = choose|i: int| 0 <= i < n && found[i] == app;
        assert(o.contains(i));
        let k = choose|k: int| 0 <= k < o.len() && o[k] == i;
        assert(out[k] == app);
        let j = choose|j: int| 0 <= j < files.len() && #[trigger] f(j) == Some(app);
        assert(files[j].contents is Some);
    }
    if out.contains(app) {
        let k = choose|k: int| 0 <= k < out.len() && out[k] == app;
        assert(o.contains(o[k]));
        assert(found[o[k]] == app);
    }
    if exists|i: int|
        0 <= i < files.len() && (#[trigger] files[i]).contents is Some && apps::app_of(
            files[i].id,
            apps::entry_pairs(files[i].contents->0),
        ) == Some(app) && forall|j: int| 0 <= j < i ==> (#[trigger] files[j]).id != files[i].id {
        let i = choose|i: int|
            0 <= i < files.len() && (#[trigger] files[i]).contents is Some && apps::app_of(
                files[i].id,
                apps::entry_pairs(files[i].contents->0),
            ) == Some(app) && forall|j: int| 0 <= j < i ==> (#[trigger] files[j]).id != files[i].id;
        assert(f(i) == Some(app));
    }
}

/// Applications are listed by name, without regard to case.
pub proof fn applications_are_listed_by_name(files: Seq<DesktopFileView>, a: int, b: int)
    requires
        0 <= a < b < apps::apps_of(files).len(),
    ensures
        !text::text_lt(
            text::lower_text(apps::apps_of(files)[b].name),
            text::lower_text(apps::apps_of(files)[a].name),
        ),
{
    let found = apps::found_apps(files);
    let le = apps::by_name(found);
    let key = |i: int| text::lower_text(found[i].name);
    assert forall|i: int, j: int| #[trigger] le(i, j) || le(j, i) by {
        if text::text_lt(key(i), key(j)) {
            text::text_lt_is_asymmetric(key(i), key(j));
        }
    }
    assert forall|i: int, j: int, k: int| #[trigger] le(i, j) && #[trigger] le(j, k) implies le(
        i,
        k,
    ) by {
        if text::text_lt(key(k), key(i)) {
            text::text_lt_is_total(key(i), key(j));
            if text::text_lt(key(i), key(j)) {
                text::text_lt_is_transitive(key(k), key(i), key(j));
            }
        }
    }
    lists::order_sorts(found.len(), le);
}

} // verus!
