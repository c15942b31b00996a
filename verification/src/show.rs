//! How values are written for people.
use crate::model::{ColumnDisplay, MatchSpec, MatchView, Size};
use crate::outside;
use crate::outside::debug_string;
use crate::planner::{Action, ActionView, ReconcilePlan};
use crate::text;
use crate::text::{char_is_alnum, chars_of, contains_char, join, push_number, push_signed};
use vstd::prelude::*;

verus! {

// Pieces

/// `n` spaces.
pub open spec fn spaces(n: int) -> Seq<char> {
    Seq::new(
        if n < 0 {
            0
        } else {
            n as nat
        },
        |i: int| ' ',
    )
}

/// `s` with as many spaces behind it as make it `width` characters long.
pub open spec fn padded(s: Seq<char>, width: int) -> Seq<char> {
    s + spaces(width - s.len())
}

/// Appends `s` and as many spaces as make it `width` characters long.
pub fn push_padded(out: &mut String, s: &str, width: usize)
    ensures
        final(out)@ == old(out)@ + padded(s@, width as int),
{
    out.append(s);
    let mut n: usize = s.unicode_len();
    let ghost start = out@;
    assert(out@ =~= start + spaces(0));
    let ghost len = n as int;
    while n < width
        invariant
            len <= n,
            n <= width || n == len,
            out@ == start + spaces(n - len),
        decreases width - n,
    {
        out.push(' ');
        assert(spaces(n + 1 - len) =~= spaces(n - len).push(' '));
        assert(out@ =~= start + spaces(n + 1 - len));
        n = n + 1;
    }
    assert(n - len == if width > len { width - len } else { 0 });
    assert(out@ =~= old(out)@ + padded(s@, width as int));
}

/// An optional number, as `Debug` writes it.
pub open spec fn opt_number(n: Option<int>) -> Seq<char> {
    match n {
        Some(x) => "Some("@ + text::signed_decimal(x) + ")"@,
        None => "None"@,
    }
}

/// An optional text, as `Debug` writes it.
pub open spec fn opt_debug(s: Option<Seq<char>>) -> Seq<char> {
    match s {
        Some(x) => "Some("@ + outside::debug_text(x) + ")"@,
        None => "None"@,
    }
}

pub open spec fn id_int(n: Option<u64>) -> Option<int> {
    match n {
        Some(x) => Some(x as int),
        None => None,
    }
}

pub open spec fn place_int(n: Option<usize>) -> Option<int> {
    match n {
        Some(x) => Some(x as int),
        None => None,
    }
}

pub open spec fn pid_int(n: Option<i32>) -> Option<int> {
    match n {
        Some(x) => Some(x as int),
        None => None,
    }
}

pub fn push_opt_id(out: &mut String, n: Option<u64>)
    ensures
        final(out)@ == old(out)@ + opt_number(id_int(n)),
{
    match n {
        Some(x) => {
            out.append("Some(");
            push_number(out, x);
            out.append(")");
            assert(out@ =~= old(out)@ + opt_number(id_int(n)));
        },
        None => out.append("None"),
    }
}

pub fn push_opt_pid(out: &mut String, n: Option<i32>)
    ensures
        final(out)@ == old(out)@ + opt_number(pid_int(n)),
{
    match n {
        Some(x) => {
            out.append("Some(");
            push_signed(out, x as i64);
            out.append(")");
            assert(out@ =~= old(out)@ + opt_number(pid_int(n)));
        },
        None => out.append("None"),
    }
}

pub fn push_opt_text(out: &mut String, s: &Option<String>)
    ensures
        final(out)@ == old(out)@ + opt_debug(text::opt_text(*s)),
{
    match s {
        Some(x) => {
            out.append("Some(");
            out.append(debug_string(x.as_str()).as_str());
            out.append(")");
            assert(out@ =~= old(out)@ + opt_debug(text::opt_text(*s)));
        },
        None => out.append("None"),
    }
}

// Sizes

/// A size for people. `percent` is the text of a share in whole percent.
pub open spec fn size_shown(size: Size, percent: Seq<char>) -> Seq<char> {
    match size {
        Size::Percent(_) => percent + "%"@,
        Size::Pixels(px) => text::signed_decimal(px as int) + "px"@,
    }
}

/// Writes a size. `percent` is the text of its share in whole percent; where the
/// size is in pixels it is not looked at.
pub fn size_text(size: Size, percent: &str) -> (out: String)
    ensures
        out@ == size_shown(size, percent@),
{
    match size {
        Size::Percent(_) => {
            let mut out: String = percent.to_owned();
            out.append("%");
            out
        },
        Size::Pixels(px) => {
            let mut out = String::new();
            push_signed(&mut out, px as i64);
            out.append("px");
            assert(out@ =~= size_shown(size, percent@));
            out
        },
    }
}

// Commands

/// A word that can stand in a command line as it is. `extra` holds the characters
/// beside letters and digits that may occur in it.
pub open spec fn is_bare(word: Seq<char>, extra: Seq<char>) -> bool {
    forall|i: int| 0 <= i < word.len() ==> text::is_alnum(#[trigger] word[i]) || extra.contains(word[i])
}

/// A word of a command line: as it is, or quoted.
pub open spec fn shown_word(word: Seq<char>, extra: Seq<char>) -> Seq<char> {
    if is_bare(word, extra) {
        word
    } else if outside::is_printable(word) {
        outside::quoted(word)
    } else {
        outside::debug_text(word)
    }
}

/// A command line: its words with a space between each and the next.
pub open spec fn shown_words(words: Seq<Seq<char>>, extra: Seq<char>) -> Seq<char> {
    text::joined(words.map_values(|w: Seq<char>| shown_word(w, extra)), " "@)
}

fn bare(word: &str, extra: &str) -> (out: bool)
    ensures
        out == is_bare(word@, extra@),
{
    let cs: Vec<char> = chars_of(word);
    for i in 0..cs.len()
        invariant
            cs@ == word@,
            forall|k: int|
                0 <= k < i ==> text::is_alnum(#[trigger] word@[k]) || extra@.contains(word@[k]),
    {
        if !(char_is_alnum(cs[i]) || contains_char(extra, cs[i])) {
            assert(!text::is_alnum(word@[i as int]));
            return false;
        }
    }
    true
}

fn show_words(words: &[String], extra: &str) -> (out: String)
    ensures
        out@ == shown_words(text::texts(words@), extra@),
{
    let mut parts: Vec<String> = Vec::new();
    for i in 0..words.len()
        invariant
            parts@.len() == i,
            forall|k: int| 0 <= k < i ==> (#[trigger] parts@[k])@ == shown_word(words@[k]@, extra@),
    {
        if bare(words[i].as_str(), extra) {
            parts.push(words[i].clone());
        } else {
            parts.push(debug_string(words[i].as_str()));
        }
    }
    assert(text::texts(parts@) =~= text::texts(words@).map_values(
        |w: Seq<char>| shown_word(w, extra@),
    ));
    join(&parts, " ")
}

/// A command, as the command line shows it.
pub open spec fn shellish_text(command: Seq<Seq<char>>) -> Seq<char> {
    if command.len() == 0 {
        "(no command)"@
    } else {
        shown_words(command, "/._-:=+%@"@)
    }
}

/// Writes a command for the terminal.
pub fn shellish(command: &[String]) -> (out: String)
    ensures
        out@ == shellish_text(text::texts(command@)),
{
    if command.len() == 0 {
        return "(no command)".to_owned();
    }
    show_words(command, "/._-:=+%@")
}

/// Writes a command for editing.
pub fn display_command(command: &[String]) -> (out: String)
    ensures
        out@ == shown_words(text::texts(command@), "/._-:=+%@~"@),
{
    show_words(command, "/._-:=+%@~")
}

// Matchers

/// One signal of a matcher that is a number, if it is given.
pub open spec fn number_signal(label: Seq<char>, n: Option<int>) -> Seq<Seq<char>> {
    match n {
        Some(x) => seq![label + text::signed_decimal(x)],
        None => Seq::empty(),
    }
}

/// One signal of a matcher that is a pattern, if it is given.
pub open spec fn text_signal(label: Seq<char>, s: Option<Seq<char>>) -> Seq<Seq<char>> {
    match s {
        Some(x) => seq![label + outside::debug_text(x)],
        None => Seq::empty(),
    }
}

/// The signals of a matcher that take part in matching.
pub open spec fn matcher_shown(m: MatchView) -> Seq<char> {
    text::joined(
        number_signal("window_id="@, id_int(m.window_id)) + text_signal("app_id="@, m.app_id)
            + text_signal("title="@, m.title) + text_signal("process="@, m.process)
            + number_signal("pid="@, pid_int(m.pid)),
        ", "@,
    )
}

fn push_text_signal(parts: &mut Vec<String>, label: &str, s: &Option<String>)
    ensures
        text::texts(final(parts)@) == text::texts(old(parts)@) + text_signal(
            label@,
            text::opt_text(*s),
        ),
{
    if let Some(x) = s {
        let mut part: String = label.to_owned();
        part.append(debug_string(x.as_str()).as_str());
        parts.push(part);
    }
    assert(text::texts(parts@) =~= text::texts(old(parts)@) + text_signal(
        label@,
        text::opt_text(*s),
    ));
}

/// Writes the signals of a matcher.
pub fn matcher_text(spec: &MatchSpec) -> (out: String)
    ensures
        out@ == matcher_shown(spec@),
{
    let mut parts: Vec<String> = Vec::new();
    let ghost m = spec@;
    if let Some(id) = spec.window_id {
        let mut part: String = "window_id=".to_owned();
        push_number(&mut part, id);
        parts.push(part);
    }
    assert(text::texts(parts@) =~= number_signal("window_id="@, id_int(m.window_id)));
    push_text_signal(&mut parts, "app_id=", &spec.app_id);
    push_text_signal(&mut parts, "title=", &spec.title);
    push_text_signal(&mut parts, "process=", &spec.process);
    let ghost before = text::texts(parts@);
    if let Some(pid) = spec.pid {
        let mut part: String = "pid=".to_owned();
        push_signed(&mut part, pid as i64);
        parts.push(part);
    }
    assert(text::texts(parts@) =~= before + number_signal("pid="@, pid_int(m.pid)));
    join(&parts, ", ")
}

// Actions

pub open spec fn display_debug(d: ColumnDisplay) -> Seq<char> {
    match d {
        ColumnDisplay::Normal => "Normal"@,
        ColumnDisplay::Tabbed => "Tabbed"@,
    }
}

/// The name of a display, as `Debug` writes it.
pub fn display_name(d: ColumnDisplay) -> (out: &'static str)
    ensures
        out@ == display_debug(d),
{
    match d {
        ColumnDisplay::Normal => "Normal",
        ColumnDisplay::Tabbed => "Tabbed",
    }
}

/// An action for people. `percent` is the text, in whole percent, of the share
/// that it asks for, if it asks for one.
pub open spec fn action_shown(a: ActionView, percent: Seq<char>) -> Seq<char> {
    match a {
        ActionView::MoveToWorkspace { name, from, to, .. } => "MOVE    "@ + padded(name, 12)
            + " workspace "@ + opt_number(id_int(from)) + " -> "@ + text::decimal(to as nat),
        ActionView::SetFloating { name, floating, .. } => "FLOAT   "@ + padded(name, 12) + " "@
            + if floating {
            "floating"@
        } else {
            "tiling"@
        },
        ActionView::ExpelRight { name, .. } => "EXPEL   "@ + padded(name, 12)
            + " from current column"@,
        ActionView::MoveColumnToIndex { name, from, to, .. } => "COLUMN  "@ + padded(name, 12)
            + " "@ + opt_number(place_int(from)) + " -> "@ + text::decimal(to as nat),
        ActionView::ConsumeLeft { name, target_column, .. } => "GROUP   "@ + padded(name, 12)
            + " into column "@ + text::decimal(target_column as nat),
        ActionView::MoveWindowUp { name, from, to, .. } => "ORDER   "@ + padded(name, 12)
            + " tile "@ + text::decimal(from as nat) + " -> "@ + text::decimal(to as nat)
            + " (up)"@,
        ActionView::MoveWindowDown { name, from, to, .. } => "ORDER   "@ + padded(name, 12)
            + " tile "@ + text::decimal(from as nat) + " -> "@ + text::decimal(to as nat)
            + " (down)"@,
        ActionView::SetColumnWidth { name, size, .. } => "RESIZE  "@ + padded(name, 12)
            + " column width -> "@ + size_shown(size, percent),
        ActionView::SetWindowHeight { name, size, .. } => "RESIZE  "@ + padded(name, 12)
            + " window height -> "@ + size_shown(size, percent),
        ActionView::SetColumnDisplay { name, column, display, .. } => "DISPLAY "@ + padded(name, 12)
            + " column "@ + text::decimal(column as nat) + " -> "@ + display_debug(display),
        ActionView::Focus { name, .. } => "FOCUS   "@ + name,
    }
}

/// Writes an action. `percent` is the text, in whole percent, of the share that
/// it asks for; where it asks for none it is not looked at.
pub fn format_action(action: &Action, percent: &str) -> (out: String)
    ensures
        out@ == action_shown(action@, percent@),
{
    match action {
        Action::MoveToWorkspace { name, from, to, .. } => {
            let mut out: String = "MOVE    ".to_owned();
            push_padded(&mut out, name.as_str(), 12);
            out.append(" workspace ");
            push_opt_id(&mut out, *from);
            out.append(" -> ");
            push_number(&mut out, *to);
            out
        },
        Action::SetFloating { name, floating, .. } => {
            let mut out: String = "FLOAT   ".to_owned();
            push_padded(&mut out, name.as_str(), 12);
            out.append(" ");
            out.append(
                if *floating {
                    "floating"
                } else {
                    "tiling"
                },
            );
            out
        },
        Action::ExpelRight { name, .. } => {
            let mut out: String = "EXPEL   ".to_owned();
            push_padded(&mut out, name.as_str(), 12);
            out.append(" from current column");
            out
        },
        Action::MoveColumnToIndex { name, from, to, .. } => {
            let mut out: String = "COLUMN  ".to_owned();
            push_padded(&mut out, name.as_str(), 12);
            out.append(" ");
            push_opt_place(&mut out, *from);
            out.append(" -> ");
            push_number(&mut out, *to as u64);
            out
        },
        Action::ConsumeLeft { name, target_column, .. } => {
            let mut out: String = "GROUP   ".to_owned();
            push_padded(&mut out, name.as_str(), 12);
            out.append(" into column ");
            push_number(&mut out, *target_column as u64);
            out
        },
        Action::MoveWindowUp { name, from, to, .. } => {
            let mut out: String = "ORDER   ".to_owned();
            push_padded(&mut out, name.as_str(), 12);
            out.append(" tile ");
            push_number(&mut out, *from as u64);
            out.append(" -> ");
            push_number(&mut out, *to as u64);
            out.append(" (up)");
            out
        },
        Action::MoveWindowDown { name, from, to, .. } => {
            let mut out: String = "ORDER   ".to_owned();
            push_padded(&mut out, name.as_str(), 12);
            out.append(" tile ");
            push_number(&mut out, *from as u64);
            out.append(" -> ");
            push_number(&mut out, *to as u64);
            out.append(" (down)");
            out
        },
        Action::SetColumnWidth { name, size, .. } => {
            let mut out: String = "RESIZE  ".to_owned();
            push_padded(&mut out, name.as_str(), 12);
            out.append(" column width -> ");
            out.append(size_text(*size, percent).as_str());
            out
        },
        Action::SetWindowHeight { name, size, .. } => {
            let mut out: String = "RESIZE  ".to_owned();
            push_padded(&mut out, name.as_str(), 12);
            out.append(" window height -> ");
            out.append(size_text(*size, percent).as_str());
            out
        },
        Action::SetColumnDisplay { name, column, display, .. } => {
            let mut out: String = "DISPLAY ".to_owned();
            push_padded(&mut out, name.as_str(), 12);
            out.append(" column ");
            push_number(&mut out, *column as u64);
            out.append(" -> ");
            out.append(display_name(*display));
            out
        },
        Action::Focus { name, .. } => {
            let mut out: String = "FOCUS   ".to_owned();
            out.append(name.as_str());
            out
        },
    }
}

pub fn push_opt_place(out: &mut String, n: Option<usize>)
    ensures
        final(out)@ == old(out)@ + opt_number(place_int(n)),
{
    match n {
        Some(x) => {
            out.append("Some(");
            push_number(out, x as u64);
            out.append(")");
            assert(out@ =~= old(out)@ + opt_number(place_int(n)));
        },
        None => out.append("None"),
    }
}

/// Writes the actions of a plan. `percents` holds, for each action, the text of
/// the share that it asks for.
pub fn format_plan(plan: &ReconcilePlan, percents: &Vec<String>) -> (out: Vec<String>)
    requires
        percents@.len() == plan@.len(),
    ensures
        text::texts(out@) == Seq::new(
            plan@.len(),
            |i: int| action_shown(plan@[i], percents@[i]@),
        ),
{
    let mut out: Vec<String> = Vec::new();
    for i in 0..plan.actions.len()
        invariant
            percents@.len() == plan@.len(),
            out@.len() == i,
            forall|k: int|
                0 <= k < i ==> (#[trigger] out@[k])@ == action_shown(plan@[k], percents@[k]@),
    {
        assert(plan@[i as int] == plan.actions@[i as int]@);
        out.push(format_action(&plan.actions[i], percents[i].as_str()));
    }
    assert(text::texts(out@) =~= Seq::new(
        plan@.len(),
        |i: int| action_shown(plan@[i], percents@[i]@),
    ));
    out
}

} // verus!
